use coop_gateway::gateway::{Gateway, SessionUsage};
use coop_gateway::message::{Content, Message, Role};
use coop_gateway::repair::repair_history;
use coop_gateway::session::{
    parse_session_key, same_key, same_kind, SessionKey, SessionKind, TrustLevel,
};
use coop_gateway::usage::Usage;

fn key(kind: SessionKind) -> SessionKey {
    SessionKey { agent_id: "coop".to_owned(), kind }
}

#[test]
fn parse_main_alias() {
    let key = parse_session_key("main", "coop").unwrap();
    assert_eq!(key, SessionKey { agent_id: "coop".to_owned(), kind: SessionKind::Main });
}

#[test]
fn parse_dm_session() {
    let key = parse_session_key("coop:dm:signal:alice-uuid", "coop").unwrap();
    assert_eq!(
        key,
        SessionKey {
            agent_id: "coop".to_owned(),
            kind: SessionKind::Dm("signal:alice-uuid".to_owned()),
        }
    );
}

#[test]
fn parse_group_session() {
    let key = parse_session_key("coop:group:signal:group:deadbeef", "coop").unwrap();
    assert_eq!(
        key,
        SessionKey {
            agent_id: "coop".to_owned(),
            kind: SessionKind::Group("signal:group:deadbeef".to_owned()),
        }
    );
}

#[test]
fn parse_cron_session() {
    let key = parse_session_key("coop:cron:heartbeat", "coop").unwrap();
    assert_eq!(
        key,
        SessionKey {
            agent_id: "coop".to_owned(),
            kind: SessionKind::Cron("heartbeat".to_owned()),
        }
    );
}

#[test]
fn parse_subagent_session() {
    let key =
        parse_session_key("coop:subagent:123e4567-e89b-12d3-a456-426614174000", "coop").unwrap();
    assert_eq!(
        key,
        SessionKey {
            agent_id: "coop".to_owned(),
            kind: SessionKind::Subagent(
                uuid::Uuid::parse_str("123e4567-e89b-12d3-a456-426614174000").unwrap().as_u128(),
            ),
        }
    );
}

#[test]
fn parse_rejects_other_agent() {
    assert!(parse_session_key("other:main", "coop").is_none());
}

#[test]
fn parse_rejects_malformed_keys() {
    for text in ["", "coop", "coop:", "coop:dm", "coop:cron:", "coop:subagent:7", "coop:isolated:"] {
        assert!(parse_session_key(text, "coop").is_none(), "{text}");
    }
}

#[test]
fn session_keys_read_back() {
    let id = uuid::Uuid::parse_str("123e4567-e89b-12d3-a456-426614174000").unwrap().as_u128();
    for kind in [
        SessionKind::Main,
        SessionKind::Dm("a:b".to_owned()),
        SessionKind::Group("signal:group:x".to_owned()),
        SessionKind::Isolated(id),
        SessionKind::Subagent(id),
        SessionKind::Cron("beat".to_owned()),
    ] {
        let key = key(kind);
        assert_eq!(parse_session_key(&key.text(), "coop"), Some(key));
    }
    assert_eq!(
        key(SessionKind::Isolated(id)).text(),
        "coop:isolated:123e4567-e89b-12d3-a456-426614174000"
    );
}

#[test]
fn trust_levels_are_ordered() {
    assert!(TrustLevel::Owner.at_least(TrustLevel::Full));
    assert!(TrustLevel::Full.at_least(TrustLevel::Full));
    assert!(!TrustLevel::Inner.at_least(TrustLevel::Full));
    assert!(TrustLevel::Owner.level() < TrustLevel::Public.level());
    assert!(!same_key(&key(SessionKind::Main), &key(SessionKind::Cron("main".to_owned()))));
    assert!(same_kind(&SessionKind::Isolated(4), &SessionKind::Isolated(4)));
}

#[test]
fn repair_dangling_tool_use_appends_synthetic_results() {
    let mut gateway = Gateway::new("coop".to_owned());
    let session_key = gateway.default_session_key();

    gateway.append_message(&session_key, Message::user().with_text("do something"));
    gateway.append_message(
        &session_key,
        Message::assistant()
            .with_tool_request("tool_a", "bash", r#"{"command":"echo hi"}"#)
            .with_tool_request("tool_b", "read_file", r#"{"path":"x.txt"}"#),
    );

    assert_eq!(gateway.history(&session_key).len(), 2);

    assert!(gateway.repair_dangling_tool_use(&session_key));

    let msgs = gateway.history(&session_key);
    assert_eq!(msgs.len(), 3);

    let repair_msg = &msgs[2];
    assert_eq!(repair_msg.role, Role::User);
    assert!(repair_msg.has_tool_results());

    let content_strs: Vec<_> = repair_msg
        .content
        .iter()
        .filter_map(|c| match c {
            Content::ToolResult { id, is_error, .. } => Some((id.clone(), *is_error)),
            _ => None,
        })
        .collect();

    assert_eq!(content_strs.len(), 2);
    assert_eq!(content_strs[0].0, "tool_a");
    assert!(content_strs[0].1, "should be marked as error");
    assert_eq!(content_strs[1].0, "tool_b");
    assert!(content_strs[1].1, "should be marked as error");
}

#[test]
fn repair_dangling_tool_use_repairs_orphan_before_follow_up_user_message() {
    let mut gateway = Gateway::new("coop".to_owned());
    let session_key = gateway.default_session_key();
    gateway.append_message(&session_key, Message::user().with_text("do something"));
    gateway.append_message(
        &session_key,
        Message::assistant().with_tool_request("tool_a", "bash", r#"{"command":"echo hi"}"#),
    );
    gateway.append_message(&session_key, Message::user().with_text("follow-up question"));

    gateway.repair_dangling_tool_use(&session_key);

    let msgs = gateway.history(&session_key);
    assert_eq!(msgs.len(), 3, "repair should augment the next user message in place");
    assert_eq!(msgs[2].role, Role::User);
    assert_eq!(msgs[2].text(), "follow-up question");
    assert!(msgs[2].has_tool_results());

    let tool_results: Vec<_> = msgs[2]
        .content
        .iter()
        .filter_map(|content| match content {
            Content::ToolResult { id, is_error, .. } => Some((id.clone(), *is_error)),
            _ => None,
        })
        .collect();
    assert_eq!(tool_results, vec![("tool_a".to_owned(), true)]);
}

#[test]
fn repair_dangling_tool_use_noop_when_session_is_clean() {
    let mut gateway = Gateway::new("coop".to_owned());
    let session_key = gateway.default_session_key();

    gateway.append_message(&session_key, Message::user().with_text("do something"));
    gateway.append_message(
        &session_key,
        Message::assistant().with_tool_request("tool_a", "bash", r#"{"command":"echo hi"}"#),
    );
    gateway.append_message(&session_key, Message::user().with_tool_result("tool_a", "hello", false));

    assert_eq!(gateway.history(&session_key).len(), 3);

    assert!(!gateway.repair_dangling_tool_use(&session_key));

    assert_eq!(gateway.history(&session_key).len(), 3);
}

#[test]
fn repair_dangling_tool_use_noop_on_empty_session() {
    let mut gateway = Gateway::new("coop".to_owned());
    let session_key = gateway.default_session_key();
    gateway.repair_dangling_tool_use(&session_key);
    assert!(gateway.history(&session_key).is_empty());
}

#[test]
fn inject_pending_inbound_queues_and_drains() {
    let mut gateway = Gateway::new("coop".to_owned());
    let key = gateway.default_session_key();

    gateway.drain_pending_inbound(&key);
    assert!(gateway.history(&key).is_empty());

    gateway.inject_pending_inbound(&key, "first message".into());
    gateway.inject_pending_inbound(&key, "second message".into());

    assert!(gateway.history(&key).is_empty());

    gateway.drain_pending_inbound(&key);
    let msgs = gateway.history(&key);
    assert_eq!(msgs.len(), 2);
    assert_eq!(msgs[0].text(), "first message");
    assert_eq!(msgs[1].text(), "second message");

    gateway.drain_pending_inbound(&key);
    assert_eq!(gateway.history(&key).len(), 2);
}

#[test]
fn repair_is_idempotent_on_a_scattered_history() {
    let history = vec![
        Message::user().with_text("go"),
        Message::assistant().with_tool_request("a", "bash", "{}"),
        Message::assistant().with_tool_request("b", "bash", "{}"),
        Message::user().with_text("and?"),
    ];
    let repaired = repair_history(&history).unwrap();
    assert_eq!(repaired.len(), 5);
    assert!(repaired[2].has_tool_results());
    assert!(repair_history(&repaired).is_none());
}

#[test]
fn concurrent_turn_on_same_session_is_skipped() {
    let mut gateway = Gateway::new("coop".to_owned());
    let key = gateway.default_session_key();
    assert!(gateway.begin_turn(&key));
    assert!(!gateway.begin_turn(&key));
    assert!(gateway.has_active_turn(&key));
    gateway.end_turn(&key);
    assert!(!gateway.has_active_turn(&key));
    assert!(gateway.begin_turn(&key));
}

#[test]
fn cancel_nonexistent_turn_returns_false() {
    let mut gateway = Gateway::new("coop".to_owned());
    let key = gateway.default_session_key();
    assert!(!gateway.cancel_active_turn(&key, false));
    assert!(gateway.cancel_active_turn(&key, true));
    assert!(gateway.begin_turn(&key));
    assert!(!gateway.is_cancelled(&key));
    assert!(gateway.cancel_active_turn(&key, false));
    assert!(gateway.is_cancelled(&key));
}

#[test]
fn last_input_tokens_includes_cache_tokens() {
    let mut gateway = Gateway::new("coop".to_owned());
    let key = gateway.default_session_key();
    let usage = Usage {
        input_tokens: Some(100),
        output_tokens: Some(50),
        cache_read_tokens: Some(5000),
        cache_write_tokens: Some(200),
        stop_reason: None,
    };
    gateway.update_last_input_tokens(&key, &usage);
    assert_eq!(gateway.session_usage(&key).last_input_tokens, 5300);
}

#[test]
fn record_turn_usage_does_not_overwrite_last_input_tokens() {
    let mut gateway = Gateway::new("coop".to_owned());
    let key = gateway.default_session_key();
    let usage = |input, output| Usage {
        input_tokens: Some(input),
        output_tokens: Some(output),
        cache_read_tokens: None,
        cache_write_tokens: None,
        stop_reason: None,
    };
    gateway.update_last_input_tokens(&key, &usage(1000, 50));
    gateway.record_turn_usage(&key, &usage(3000, 150));
    let recorded = gateway.session_usage(&key);
    assert_eq!(recorded.last_input_tokens, 1000);
    assert_eq!(recorded.cumulative.input_tokens, Some(3000));
    assert_eq!(recorded.cumulative.output_tokens, Some(150));
}

#[test]
fn cleared_sessions_start_anew() {
    let mut gateway = Gateway::new("coop".to_owned());
    let key = gateway.default_session_key();
    let first = gateway.search_index_key(&key);
    gateway.append_message(&key, Message::user().with_text("hi"));
    assert!(gateway.is_loaded(&key));
    assert_eq!(gateway.clear_session(&key), 1);
    assert!(gateway.history(&key).is_empty());
    assert_eq!(gateway.session_epoch(&key), 1);
    assert_ne!(gateway.search_index_key(&key), first);
    assert_eq!(gateway.session_usage(&key).last_input_tokens, 0);
}

#[test]
fn stored_messages_are_loaded_once() {
    let mut gateway = Gateway::new("coop".to_owned());
    let key = gateway.default_session_key();
    let stored = || vec![Message::user().with_text("old")];
    assert_eq!(gateway.messages(&key, stored()).len(), 1);
    gateway.append_message(&key, Message::assistant().with_text("new"));
    assert_eq!(gateway.messages(&key, stored()).len(), 2);
    gateway.truncate_session(&key, 1);
    assert_eq!(gateway.session_message_count(&key), 1);
    gateway.replace_session_messages(&key, vec![]);
    assert_eq!(gateway.session_message_count(&key), 0);
    assert_eq!(gateway.list_sessions(), vec![key]);
}

#[test]
fn group_history_is_kept_up_to_its_limit() {
    let mut gateway = Gateway::new("coop".to_owned());
    let key = gateway.default_session_key();
    for text in ["one", "two", "three"] {
        gateway.record_group_history(&key, text, 2);
    }
    let seen = gateway.peek_group_history(&key).unwrap();
    assert!(!seen.contains("one") && seen.contains("two") && seen.contains("three"));
    assert_eq!(gateway.drain_group_history(&key), Some(seen));
    assert_eq!(gateway.peek_group_history(&key), None);
}

#[test]
fn sessions_are_prepared_for_a_turn() {
    let mut gateway = Gateway::new("coop".to_owned());
    let dangling = || Message::assistant().with_tool_request("a", "bash", "{}");
    let cron = key(SessionKind::Cron("beat".to_owned()));
    gateway.append_message(&cron, dangling());
    gateway.prepare_session(&cron);
    assert!(gateway.history(&cron).is_empty());
    assert_eq!(gateway.session_epoch(&cron), 1);

    let main = gateway.default_session_key();
    gateway.append_message(&main, dangling());
    gateway.prepare_session(&main);
    assert_eq!(gateway.history(&main).len(), 2);
    assert_eq!(gateway.session_epoch(&main), 0);
    assert!(repair_history(&gateway.history(&main)).is_none());
}

#[test]
fn subagent_keys_take_every_form_of_uuid() {
    let id = uuid::Uuid::parse_str("123e4567-e89b-12d3-a456-426614174000").unwrap().as_u128();
    for text in [
        "123E4567e89b12d3a456426614174000",
        "{123e4567-e89b-12d3-a456-426614174000}",
        "URN:uuid:123e4567-e89b-12d3-a456-426614174000",
    ] {
        let found = parse_session_key(&format!("coop:subagent:{text}"), "coop");
        assert_eq!(found, Some(key(SessionKind::Subagent(id))), "{text}");
    }
}

#[test]
fn signal_history_seeds_a_session() {
    let mut gateway = Gateway::new("coop".to_owned());
    let key = gateway.default_session_key();
    gateway.seed_signal_history(&key, &vec![]);
    assert!(gateway.history(&key).is_empty());
    gateway.seed_signal_history(&key, &vec!["alice: hi".to_owned(), "bob: hey".to_owned()]);
    let history = gateway.history(&key);
    assert_eq!(history.len(), 2);
    assert!(history[0].text().contains("alice: hi\nbob: hey\n"));
    assert_eq!(history[1].role, Role::Assistant);
}

#[test]
fn session_usage_can_be_set() {
    let mut gateway = Gateway::new("coop".to_owned());
    let key = gateway.default_session_key();
    let usage = SessionUsage { cumulative: Usage::none(), last_input_tokens: 7 };
    gateway.set_session_usage(&key, usage.clone());
    assert_eq!(gateway.session_usage(&key), usage);
}
