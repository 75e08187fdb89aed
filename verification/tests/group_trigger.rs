use coop_gateway::config::{GroupConfig, GroupTrigger, TrustCeiling};
use coop_gateway::group_trigger::{
    begins_with_yes, evaluate_trigger, is_silent_reply, llm_trigger_decision, llm_trigger_question,
    strip_envelope_prefix, TriggerDecision,
};
use coop_gateway::session::TrustLevel;

fn mention_config(names: &[&str]) -> GroupConfig {
    GroupConfig {
        match_patterns: vec!["signal:group:deadbeef".to_owned()],
        trigger: GroupTrigger::Mention,
        mention_names: names.iter().map(|s| (*s).to_owned()).collect(),
        trigger_regex: None,
        trigger_model: None,
        trigger_prompt: None,
        default_trust: TrustLevel::Familiar,
        trust_ceiling: TrustCeiling::Unbounded,
        history_limit: 50,
    }
}

fn regex_config(pattern: &str) -> GroupConfig {
    GroupConfig {
        match_patterns: vec!["signal:group:deadbeef".to_owned()],
        trigger: GroupTrigger::Regex,
        mention_names: vec![],
        trigger_regex: Some(pattern.to_owned()),
        trigger_model: None,
        trigger_prompt: None,
        default_trust: TrustLevel::Familiar,
        trust_ceiling: TrustCeiling::Unbounded,
        history_limit: 50,
    }
}

fn always_config() -> GroupConfig {
    GroupConfig {
        match_patterns: vec!["signal:group:deadbeef".to_owned()],
        trigger: GroupTrigger::Always,
        mention_names: vec![],
        trigger_regex: None,
        trigger_model: None,
        trigger_prompt: None,
        default_trust: TrustLevel::Familiar,
        trust_ceiling: TrustCeiling::Unbounded,
        history_limit: 50,
    }
}

#[test]
fn always_trigger_responds() {
    let msg = "random chatter";
    assert_eq!(
        evaluate_trigger(msg, &always_config(), "reid"),
        TriggerDecision::Respond
    );
}

#[test]
fn mention_matches_case_insensitively() {
    let msg = "Hey COOP, what's up?";
    let cfg = mention_config(&["coop"]);
    assert_eq!(
        evaluate_trigger(msg, &cfg, "reid"),
        TriggerDecision::Respond
    );
}

#[test]
fn mention_skips_unrelated() {
    let msg = "hey everyone, random chatter";
    let cfg = mention_config(&["coop"]);
    assert_eq!(evaluate_trigger(msg, &cfg, "reid"), TriggerDecision::Skip);
}

#[test]
fn mention_strips_envelope_prefix() {
    let msg = "[from alice-uuid in group:dead at 12345] hey coop help me";
    let cfg = mention_config(&["coop"]);
    assert_eq!(
        evaluate_trigger(msg, &cfg, "reid"),
        TriggerDecision::Respond
    );
}

#[test]
fn mention_matches_partial_word() {
    let msg = "@coop please help";
    let cfg = mention_config(&["coop"]);
    assert_eq!(
        evaluate_trigger(msg, &cfg, "reid"),
        TriggerDecision::Respond
    );
}

#[test]
fn regex_matches_pattern() {
    let msg = "!ask what time is it";
    let cfg = regex_config("^!(ask|help)");
    assert_eq!(
        evaluate_trigger(msg, &cfg, "reid"),
        TriggerDecision::Respond
    );
}

#[test]
fn regex_skips_non_matching() {
    let msg = "just chatting";
    let cfg = regex_config("^!(ask|help)");
    assert_eq!(evaluate_trigger(msg, &cfg, "reid"), TriggerDecision::Skip);
}

#[test]
fn regex_strips_envelope_prefix() {
    let msg = "[from alice in group:dead at 123] !ask something";
    let cfg = regex_config("^!(ask|help)");
    assert_eq!(
        evaluate_trigger(msg, &cfg, "reid"),
        TriggerDecision::Respond
    );
}

#[test]
fn is_silent_reply_detects_token() {
    assert!(is_silent_reply("NO_REPLY"));
}

#[test]
fn is_silent_reply_detects_with_whitespace() {
    assert!(is_silent_reply("  NO_REPLY  \n"));
}

#[test]
fn is_silent_reply_rejects_normal_text() {
    assert!(!is_silent_reply("Sure, I can help with that."));
}

#[test]
fn is_silent_reply_rejects_mid_sentence() {
    assert!(!is_silent_reply("I think NO_REPLY is the answer"));
}

#[test]
fn strip_envelope_prefix_strips_correctly() {
    assert_eq!(
        strip_envelope_prefix("[from alice in group:dead at 123] hello"),
        "hello"
    );
}

#[test]
fn strip_envelope_prefix_handles_no_prefix() {
    assert_eq!(strip_envelope_prefix("just a message"), "just a message");
}

#[test]
fn mention_auto_triggers_on_agent_name() {
    let msg = "hey @reid can you help?";
    let cfg = mention_config(&[]); // no explicit mention_names
    assert_eq!(
        evaluate_trigger(msg, &cfg, "reid"),
        TriggerDecision::Respond
    );
}

#[test]
fn mention_auto_trigger_case_insensitive() {
    let msg = "@REID what do you think?";
    let cfg = mention_config(&[]);
    assert_eq!(
        evaluate_trigger(msg, &cfg, "reid"),
        TriggerDecision::Respond
    );
}

#[test]
fn mention_skips_without_agent_or_config_names() {
    let msg = "hey @someone else";
    let cfg = mention_config(&[]);
    assert_eq!(evaluate_trigger(msg, &cfg, "reid"), TriggerDecision::Skip);
}

#[test]
fn llm_decisions_are_read_from_the_reply() {
    assert!(llm_trigger_decision(" yes, I think so"));
    assert!(llm_trigger_decision("YES"));
    assert!(!llm_trigger_decision("no"));
    assert!(!llm_trigger_decision("well, yes"));
    assert!(begins_with_yes("YESTERDAY"));
    assert!(!begins_with_yes("yes"));
    assert_eq!(llm_trigger_question("hi", &Some("now?".to_owned())), "hi\n\n---\nnow?");
    assert!(llm_trigger_question("hi", &None).starts_with("hi\n\n---\n"));
}

#[test]
fn regex_that_is_none_skips() {
    let cfg = regex_config("[broken");
    assert_eq!(evaluate_trigger("anything", &cfg, "reid"), TriggerDecision::Skip);
}
