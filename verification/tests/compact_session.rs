use coop_gateway::compact_session::{
    compaction_context, compaction_due, compaction_threshold, estimate_messages_tokens,
    estimate_tokens_from_json_bytes, input_budget_tokens, start_compaction, shrink_recent_context_target, CompactStep, Compactor,
};
use coop_gateway::compaction::CompactionState;
use coop_gateway::compaction_store::compaction_file_name;
use coop_gateway::gateway::Gateway;
use coop_gateway::message::{Message, Role};
use coop_gateway::session::{SessionKey, SessionKind};
use coop_gateway::usage::Usage;

fn usage(input: u32, output: u32) -> Usage {
    Usage {
        input_tokens: Some(input),
        output_tokens: Some(output),
        cache_read_tokens: None,
        cache_write_tokens: None,
        stop_reason: None,
    }
}

fn long_history(g: &mut Gateway, n: usize) -> SessionKey {
    let key = g.default_session_key();
    for i in 0..n {
        let text = format!("{i}: {}", "x".repeat(4000));
        g.append_message(&key, Message::user().with_text(&text));
        g.append_message(&key, Message::assistant().with_text(&text));
    }
    key
}

#[test]
fn no_compaction_when_below_threshold() {
    let mut g = Gateway::new("coop".to_owned());
    let key = g.default_session_key();
    g.update_last_input_tokens(&key, &usage(100, 0));
    assert!(!compaction_due(&g, &key, 90, 100, false));
    assert!(compaction_due(&g, &key, 90, 99, false));
    assert!(compaction_due(&g, &key, 0, 100, true));
}

#[test]
fn pre_turn_compaction_uses_estimated_history_when_usage_missing() {
    let g = Gateway::new("coop".to_owned());
    let key = g.default_session_key();
    assert!(compaction_due(&g, &key, 101, 100, false));
}

#[test]
fn compaction_summarizes_until_the_request_fits() {
    let mut g = Gateway::new("coop".to_owned());
    let key = long_history(&mut g, 40);
    let mut c = Compactor::begin(&g, &key, 10_000);
    let CompactStep::Summarize { messages } = c.plan(7) else {
        panic!("expected a summary");
    };
    assert_eq!(messages.last().unwrap().role, Role::User);
    let summary = Message::assistant().with_text("so far");
    let CompactStep::Measure { context } = c.summarized(&summary, &usage(50, 9), 7) else {
        panic!("expected a measurement");
    };
    assert!(context.len() < 80);
    assert!(!c.measured(&mut g, 100_000));
    assert!(c.target < 20_000);
    let (state, covered) = g.cached_compaction(&key).unwrap();
    assert_eq!(state.compaction_count, 1);
    assert_eq!(state.tokens_at_compaction, 59);
    assert_eq!(state.messages_at_compaction, Some(covered));

    c.plan(8);
    c.summarized(&summary, &usage(60, 9), 8);
    assert!(c.measured(&mut g, 20_000));
    let (state, covered_later) = g.cached_compaction(&key).unwrap();
    assert_eq!(state.compaction_count, 2);
    assert!(covered_later > covered);
    assert!(!compaction_due(&g, &key, u32::MAX, 0, true) || covered_later < 80);
}

#[test]
fn a_state_stands_where_nothing_is_to_be_summarized() {
    let mut g = Gateway::new("coop".to_owned());
    let key = g.default_session_key();
    g.append_message(&key, Message::user().with_text("short"));
    let state = CompactionState {
        summary: "so far".to_owned(),
        files_touched: vec![],
        compaction_count: 3,
        tokens_at_compaction: 5,
        created_at: 7,
        messages_at_compaction: Some(0),
    };
    g.set_compaction(&key, state, 0);
    let mut c = Compactor::begin(&g, &key, 50_000);
    assert!(matches!(c.plan(9), CompactStep::Measure { .. }));
    let kept = c.candidate.as_ref().unwrap();
    assert_eq!((kept.summary.as_str(), kept.created_at), ("so far", 9));
    assert_eq!((kept.compaction_count, kept.messages_at_compaction), (3, Some(0)));
}

#[test]
fn a_cut_that_stays_refreshes_the_summary() {
    let mut g = Gateway::new("coop".to_owned());
    let key = long_history(&mut g, 40);
    let mut c = Compactor::begin(&g, &key, 50_000);
    c.plan(7);
    c.summarized(&Message::assistant().with_text("so far"), &usage(1, 1), 7);
    assert!(c.measured(&mut g, 4));
    let mut again = Compactor::begin(&g, &key, 50_000);
    let CompactStep::Summarize { messages } = again.plan(9) else {
        panic!("expected a summary");
    };
    assert_eq!(messages.len(), 6);
    assert!(messages[5].text().contains("so far"));
}

#[test]
fn budgets_and_targets() {
    assert_eq!(estimate_tokens_from_json_bytes(4003), 1000);
    assert_eq!(estimate_tokens_from_json_bytes(usize::MAX), u32::MAX);
    assert_eq!(input_budget_tokens(200_000, 8_000), 192_000);
    assert_eq!(input_budget_tokens(1, 2), 0);
    assert_eq!(shrink_recent_context_target(20_000, 100, 100), 20_000);
    assert_eq!(shrink_recent_context_target(20_000, 40_000, 10_000), 5_000);
    assert_eq!(shrink_recent_context_target(20_000, 1_000_000, 1), 2_000);
    assert_eq!(shrink_recent_context_target(0, 2, 1), 0);
}

#[test]
fn compaction_files_are_named_by_session() {
    let main = SessionKey { agent_id: "coop".to_owned(), kind: SessionKind::Main };
    let dm = SessionKey {
        agent_id: "coop".to_owned(),
        kind: SessionKind::Dm("signal:alice".to_owned()),
    };
    assert!(!compaction_file_name(&dm).contains(':'));
    assert!(compaction_file_name(&dm).ends_with(".json"));
    assert_ne!(compaction_file_name(&main), compaction_file_name(&dm));
}

#[test]
fn estimates_are_of_the_compacted_context() {
    let mut g = Gateway::new("coop".to_owned());
    let key = g.default_session_key();
    g.append_message(&key, Message::user().with_text(&"x".repeat(4000)));
    g.append_message(&key, Message::assistant().with_text("done"));
    assert_eq!(compaction_context(&g, &key), g.history(&key));
    assert_eq!(estimate_messages_tokens(&compaction_context(&g, &key)), 1001);

    let state = CompactionState {
        summary: "short".to_owned(),
        files_touched: vec![],
        compaction_count: 1,
        tokens_at_compaction: 0,
        created_at: 0,
        messages_at_compaction: Some(1),
    };
    g.set_compaction(&key, state, 1);
    let context = compaction_context(&g, &key);
    assert_eq!(context.len(), 2);
    assert!(context[0].text().contains("short"));
    assert_eq!(context[1].text(), "done");
    assert!(estimate_messages_tokens(&context) < 100);
}

#[test]
fn thresholds_follow_the_budget() {
    assert_eq!(compaction_threshold(100_000), 100_000);
    assert_eq!(compaction_threshold(175_000), 175_000);
    assert_eq!(compaction_threshold(1_000_000), 175_000);
}

#[test]
fn compactions_start_by_the_size_of_the_context() {
    let mut g = Gateway::new("coop".to_owned());
    let key = g.default_session_key();
    g.append_message(&key, Message::user().with_text(&"x".repeat(8_000)));
    g.append_message(&key, Message::assistant().with_text("done"));
    assert!(start_compaction(&g, &key, 100_000, false).is_none());
    assert!(start_compaction(&g, &key, 100_000, true).is_some());

    let compactor = start_compaction(&g, &key, 17_000, false).unwrap();
    assert_eq!(compactor.budget, 1_000);
    assert_eq!(compactor.pass, 0);
    assert_eq!(compactor.messages, g.history(&key));

    g.update_last_input_tokens(&key, &usage(90_000, 1));
    assert!(start_compaction(&g, &key, 100_000, false).is_some());
}
