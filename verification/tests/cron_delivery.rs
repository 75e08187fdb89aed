use coop_gateway::cron_delivery::{
    build_as_needed_review_prompt, build_review_input, review_allows_delivery, with_question,
};
use coop_gateway::message::Message;

#[test]
fn review_allows_yes() {
    assert!(review_allows_delivery("YES"));
    assert!(review_allows_delivery(" yes, send it"));
}

#[test]
fn review_rejects_no() {
    assert!(!review_allows_delivery("NO"));
    assert!(!review_allows_delivery("maybe"));
}

#[test]
fn review_prompt_includes_context() {
    let prompt = build_as_needed_review_prompt(
        Some("signal"),
        "check HEARTBEAT.md",
        "Your server is down.",
        None,
    );

    assert!(prompt.contains("<delivery_channel>\nsignal\n</delivery_channel>"));
    assert!(prompt.contains("<scheduled_task>\ncheck HEARTBEAT.md"));
    assert!(prompt.contains("<proposed_message>\nYour server is down."));
    assert!(prompt.contains("Reply with ONLY \"YES\" or \"NO\""));
}

#[test]
fn review_prompt_uses_override() {
    let prompt = build_as_needed_review_prompt(
        Some("signal"),
        "check HEARTBEAT.md",
        "Your server is down.",
        Some("Reply YES only for outages. Reply NO for everything else."),
    );

    assert!(prompt.starts_with("Reply YES only for outages."));
    assert!(prompt.contains("<scheduled_task>\ncheck HEARTBEAT.md"));
}

#[test]
fn reviews_are_asked_for_behind_the_history() {
    assert_eq!(
        build_review_input("check mail", "two new"),
        "check mail\n\nProposed scheduled message:\ntwo new"
    );
    let asked = with_question(vec![Message::assistant().with_text("hi")], "send?");
    assert_eq!(asked.len(), 2);
    assert_eq!(asked[1].text(), "send?");
}
