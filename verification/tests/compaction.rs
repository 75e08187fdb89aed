use coop_gateway::compaction::{
    build_provider_context, build_summary_prompt, estimate_message_chars, extract_files_touched,
    find_cut_point, merge_files_touched, prepare_compaction_messages, should_compact,
    CompactionState, FileAction, FileTouched, CHARS_PER_TOKEN, COMPACTION_THRESHOLD,
    RECENT_CONTEXT_TARGET,
};
use coop_gateway::message::{Content, Message, Role};

#[test]
fn below_threshold_does_not_compact() {
    assert!(!should_compact(50_000));
}

#[test]
fn above_threshold_triggers_compaction() {
    assert!(should_compact(200_000));
}

#[test]
fn exactly_at_threshold_does_not_compact() {
    assert!(!should_compact(COMPACTION_THRESHOLD));
}

#[test]
fn build_context_without_compaction_returns_all() {
    let messages = vec![
        Message::user().with_text("hello"),
        Message::assistant().with_text("hi"),
    ];

    let context = build_provider_context(&messages, None, 0);
    assert_eq!(context.len(), 2);
    assert_eq!(context[0].text(), "hello");
}

#[test]
fn build_context_with_compaction_returns_summary_only() {
    let messages = vec![
        Message::user().with_text("hello"),
        Message::assistant().with_text("hi"),
    ];

    let state = CompactionState {
        summary: "<summary>task summary</summary>".into(),
        files_touched: vec![],
        compaction_count: 1,
        tokens_at_compaction: 100_000,
        created_at: 0,
        messages_at_compaction: Some(2),
    };

    let context = build_provider_context(&messages, Some(&state), messages.len());
    assert_eq!(context.len(), 1);
    assert_eq!(context[0].text(), "<summary>task summary</summary>");
}

#[test]
fn build_context_with_compaction_and_new_messages() {
    // Cut lands on an assistant message — kept as-is.
    let messages = vec![
        Message::user().with_text("old message 1"),
        Message::assistant().with_text("old response"),
        Message::assistant().with_text("new response after compaction"),
        Message::user().with_text("follow up"),
        Message::assistant().with_text("follow up response"),
    ];

    let state = CompactionState {
        summary: "<summary>task summary</summary>".into(),
        files_touched: vec![],
        compaction_count: 1,
        tokens_at_compaction: 100_000,
        created_at: 0,
        messages_at_compaction: Some(2),
    };

    let context = build_provider_context(&messages, Some(&state), 2);
    assert_eq!(context.len(), 4);
    assert_eq!(context[0].text(), "<summary>task summary</summary>");
    assert_eq!(context[1].text(), "new response after compaction");
    assert_eq!(context[2].text(), "follow up");
    assert_eq!(context[3].text(), "follow up response");
}

#[test]
fn strip_tool_use_from_last_assistant_message() {
    let messages = vec![
        Message::user().with_text("hello"),
        Message::assistant()
            .with_text("Let me check.")
            .with_tool_request("t1", "bash", r#"{"command":"ls"}"#),
    ];

    let prepared = prepare_compaction_messages(&messages, None, &[]);

    assert_eq!(prepared.len(), 3);
    let assistant = &prepared[1];
    assert_eq!(assistant.role, Role::Assistant);
    assert_eq!(assistant.content.len(), 1);
    assert!(assistant.content[0].as_text().is_some());
    assert!(!assistant.has_tool_requests());
}

#[test]
fn strip_tool_use_removes_empty_assistant_message() {
    let messages = vec![
        Message::user().with_text("hello"),
        Message::assistant().with_tool_request("t1", "bash", r#"{"command":"ls"}"#),
    ];

    let prepared = prepare_compaction_messages(&messages, None, &[]);

    assert_eq!(prepared.len(), 2);
    assert_eq!(prepared[0].text(), "hello");
    assert!(prepared[1].text().contains("continuation summary"));
}

#[test]
fn strip_orphaned_tool_use_mid_conversation() {
    let messages = vec![
        Message::user().with_text("hello"),
        Message::assistant()
            .with_text("Let me check.")
            .with_tool_request("t1", "bash", r#"{"command":"ls"}"#),
        Message::user().with_text("never mind, do something else"),
        Message::assistant().with_text("Sure, doing something else."),
    ];

    let prepared = prepare_compaction_messages(&messages, None, &[]);

    assert_eq!(prepared.len(), 5);
    assert!(!prepared[1].has_tool_requests());
    assert_eq!(prepared[1].content.len(), 1);
    assert!(prepared[1].content[0].as_text().is_some());
}

#[test]
fn keep_matched_tool_use_mid_conversation() {
    let messages = vec![
        Message::user().with_text("hello"),
        Message::assistant()
            .with_text("Let me check.")
            .with_tool_request("t1", "bash", r#"{"command":"ls"}"#),
        Message::user().with_tool_result("t1", "file1.txt\nfile2.txt", false),
        Message::assistant().with_text("Found two files."),
    ];

    let prepared = prepare_compaction_messages(&messages, None, &[]);

    assert_eq!(prepared.len(), 5);
    assert!(prepared[1].has_tool_requests());
}

#[test]
fn strip_orphaned_tool_use_only_removes_unmatched() {
    let messages = vec![
        Message::user().with_text("hello"),
        Message::assistant()
            .with_text("Let me check both.")
            .with_tool_request("t1", "bash", r#"{"command":"ls"}"#)
            .with_tool_request("t2", "bash", r#"{"command":"pwd"}"#),
        Message::user().with_tool_result("t1", "file1.txt", false),
        Message::assistant().with_text("Done."),
    ];

    let prepared = prepare_compaction_messages(&messages, None, &[]);

    let assistant = &prepared[1];
    assert_eq!(assistant.content.len(), 2);
    assert!(assistant.content[0].as_text().is_some());
    assert!(matches!(&assistant.content[1], Content::ToolRequest { id, .. } if id == "t1"));
}

// --- Cut-point detection tests ---

#[test]
fn cut_point_empty_messages() {
    assert_eq!(find_cut_point(&[]), 0);
}

#[test]
fn cut_point_short_conversation_returns_zero() {
    let messages = vec![
        Message::user().with_text("hello"),
        Message::assistant().with_text("hi"),
    ];
    assert_eq!(find_cut_point(&messages), 0);
}

#[test]
fn cut_point_long_conversation_preserves_recent() {
    // Create messages where each is ~1000 chars (~250 tokens).
    // With 20K token target, we want ~80 messages preserved.
    let mut messages = Vec::new();
    for i in 0..200 {
        let text = format!("message {i} {}", "x".repeat(900));
        if i % 2 == 0 {
            messages.push(Message::user().with_text(&text));
        } else {
            messages.push(Message::assistant().with_text(&text));
        }
    }

    let cut = find_cut_point(&messages);
    // Cut point should leave some messages after it
    assert!(cut > 0, "should have a non-zero cut point");
    assert!(cut < 200, "should preserve some recent messages");
    // Must land on an assistant message (odd index in this test)
    assert_eq!(
        messages[cut].role,
        Role::Assistant,
        "cut point must land on an assistant message"
    );
    // The preserved part (cut..200) should be roughly 20K tokens
    let preserved_chars: usize = messages[cut..].iter().map(estimate_message_chars).sum();
    #[allow(clippy::cast_possible_truncation)]
    let preserved_tokens = preserved_chars as u32 / CHARS_PER_TOKEN;
    assert!(
        preserved_tokens >= RECENT_CONTEXT_TARGET / 2,
        "should preserve at least half the target: {preserved_tokens}"
    );
}

#[test]
fn cut_point_lands_on_assistant_after_tool_result() {
    // When the raw character-based cut lands on a user tool_result,
    // it must advance to the next assistant message so the pair stays
    // together in the summarized portion.
    let mut messages = Vec::new();
    let padding = "x".repeat(800);
    for i in 0..200 {
        messages.push(Message::user().with_text(&format!("input {i} {padding}")));
        messages.push(Message::assistant().with_tool_request(
            &format!("t{i}"),
            "bash",
            r#"{"command":"ls"}"#,
        ));
        messages.push(Message::user().with_tool_result(
            &format!("t{i}"),
            &format!("ok {padding}"),
            false,
        ));
        messages.push(Message::assistant().with_text(&format!("done {i} {padding}")));
    }

    let cut = find_cut_point(&messages);
    assert!(
        cut > 0,
        "conversation should be large enough to trigger a cut"
    );
    assert_eq!(
        messages[cut].role,
        Role::Assistant,
        "cut at index {cut} is a user message"
    );
}

// --- File tracking tests ---

#[test]
fn extract_files_from_tool_requests() {
    let messages = vec![
        Message::assistant().with_tool_request(
            "t1",
            "read_file",
            r#"{"path":"src/main.rs"}"#,
        ),
        Message::user().with_tool_result("t1", "fn main() {}", false),
        Message::assistant().with_tool_request(
            "t2",
            "write_file",
            r#"{"path":"src/new.rs","content":"pub fn new() {}"}"#,
        ),
        Message::user().with_tool_result("t2", "ok", false),
        Message::assistant().with_tool_request(
            "t3",
            "edit_file",
            r#"{"path":"src/main.rs","old":"x","new":"y"}"#,
        ),
        Message::user().with_tool_result("t3", "ok", false),
    ];

    let files = extract_files_touched(&messages);
    assert!(
        files
            .iter()
            .any(|f| f.path == "src/main.rs" && f.action == FileAction::Read)
    );
    assert!(
        files
            .iter()
            .any(|f| f.path == "src/new.rs" && f.action == FileAction::Created)
    );
    assert!(
        files
            .iter()
            .any(|f| f.path == "src/main.rs" && f.action == FileAction::Modified)
    );
}

#[test]
fn extract_bash_rm_operations() {
    let messages = vec![Message::assistant().with_tool_request(
        "t1",
        "bash",
        r#"{"command":"rm -f old.txt"}"#,
    )];

    let files = extract_files_touched(&messages);
    assert!(
        files
            .iter()
            .any(|f| f.path == "old.txt" && f.action == FileAction::Deleted)
    );
}

#[test]
fn merge_files_upgrades_read_to_modified() {
    let existing = vec![FileTouched {
        path: "src/lib.rs".into(),
        action: FileAction::Read,
    }];
    let new = vec![FileTouched {
        path: "src/lib.rs".into(),
        action: FileAction::Modified,
    }];

    let merged = merge_files_touched(&existing, &new);
    assert_eq!(merged.len(), 1);
    assert_eq!(merged[0].action, FileAction::Modified);
}

#[test]
fn iterative_summary_prompt_includes_previous() {
    let prompt = build_summary_prompt(Some("<summary>old stuff</summary>"), &[]);
    assert!(prompt.contains("<previous_summary>"));
    assert!(prompt.contains("<summary>old stuff</summary>"));
    assert!(prompt.contains("Update the summary"));
}

#[test]
fn first_summary_prompt_has_no_previous() {
    let prompt = build_summary_prompt(None, &[]);
    assert!(!prompt.contains("<previous_summary>"));
    assert!(prompt.contains("continuation summary"));
}

#[test]
fn summary_prompt_includes_files_touched() {
    let files = vec![
        FileTouched {
            path: "src/main.rs".into(),
            action: FileAction::Modified,
        },
        FileTouched {
            path: "README.md".into(),
            action: FileAction::Read,
        },
    ];

    let prompt = build_summary_prompt(None, &files);
    assert!(prompt.contains("<files_touched>"));
    assert!(prompt.contains("MODIFIED: src/main.rs"));
    assert!(prompt.contains("READ: README.md"));
}

// --- safe_cut_start tests ---

#[test]
fn safe_cut_start_skips_user_tool_result_at_boundary() {
    // Reproduces the bug: cut lands on a user message with tool_results
    // whose matching tool_use was compacted away.
    let messages = vec![
        Message::user().with_text("old input"),
        Message::assistant().with_tool_request("t1", "bash", r#"{"command":"ls"}"#),
        Message::user().with_tool_result("t1", "file.txt", false), // index 2 = cut
        Message::assistant().with_text("Found a file."),           // index 3
        Message::user().with_text("new question"),                 // index 4
        Message::assistant().with_text("answer"),                  // index 5
    ];

    let state = CompactionState {
        summary: "<summary>summary</summary>".into(),
        files_touched: vec![],
        compaction_count: 1,
        tokens_at_compaction: 100_000,
        created_at: 0,
        messages_at_compaction: Some(2),
    };

    let context = build_provider_context(&messages, Some(&state), 2);
    // Must start with summary(user) followed by assistant — never
    // an orphaned tool_result user message.
    assert_eq!(context[0].role, Role::User);
    assert_eq!(context[0].text(), "<summary>summary</summary>");
    assert_eq!(context[1].role, Role::Assistant);
    assert_eq!(context[1].text(), "Found a file.");
    assert_eq!(context.len(), 4); // summary + messages[3..6]
}

#[test]
fn safe_cut_start_skips_consecutive_user_messages() {
    // Cut lands on a user text message — still must advance past it
    // because the summary is already a user message.
    let messages = vec![
        Message::user().with_text("old"),
        Message::assistant().with_text("old reply"),
        Message::user().with_text("boundary user msg"), // index 2 = cut
        Message::assistant().with_text("reply"),        // index 3
    ];

    let state = CompactionState {
        summary: "<summary>s</summary>".into(),
        files_touched: vec![],
        compaction_count: 1,
        tokens_at_compaction: 100_000,
        created_at: 0,
        messages_at_compaction: Some(2),
    };

    let context = build_provider_context(&messages, Some(&state), 2);
    assert_eq!(context[0].role, Role::User); // summary
    assert_eq!(context[1].role, Role::Assistant); // skipped past user
    assert_eq!(context.len(), 2);
}

#[test]
fn safe_cut_start_keeps_assistant_at_boundary() {
    // Cut lands on an assistant message — no adjustment needed.
    let messages = vec![
        Message::user().with_text("old"),
        Message::assistant().with_text("compacted away"),
        Message::assistant().with_text("kept"), // index 2 = cut
        Message::user().with_text("new"),       // index 3
    ];

    let state = CompactionState {
        summary: "<summary>s</summary>".into(),
        files_touched: vec![],
        compaction_count: 1,
        tokens_at_compaction: 100_000,
        created_at: 0,
        messages_at_compaction: Some(2),
    };

    let context = build_provider_context(&messages, Some(&state), 2);
    assert_eq!(context[0].role, Role::User); // summary
    assert_eq!(context[1].role, Role::Assistant); // messages[2]
    assert_eq!(context[1].text(), "kept");
    assert_eq!(context.len(), 3);
}

#[test]
fn safe_cut_start_all_remaining_are_user() {
    // Edge case: all remaining messages are user messages.
    let messages = vec![
        Message::user().with_text("old"),
        Message::assistant().with_text("old reply"),
        Message::user().with_tool_result("t1", "result", false), // index 2
        Message::user().with_text("another user msg"),           // index 3
    ];

    let state = CompactionState {
        summary: "<summary>s</summary>".into(),
        files_touched: vec![],
        compaction_count: 1,
        tokens_at_compaction: 100_000,
        created_at: 0,
        messages_at_compaction: Some(2),
    };

    // All remaining messages are user — returns summary only.
    let context = build_provider_context(&messages, Some(&state), 2);
    assert_eq!(context.len(), 1);
    assert_eq!(context[0].text(), "<summary>s</summary>");
}

fn touched(path: &str, action: FileAction) -> FileTouched {
    FileTouched { path: path.to_owned(), action }
}

#[test]
fn merging_lets_later_actions_win() {
    let merged = |known, new| {
        merge_files_touched(&[touched("a.txt", known)], &[touched("a.txt", new)])
    };
    let is = |action| vec![touched("a.txt", action)];
    assert_eq!(merged(FileAction::Deleted, FileAction::Created), is(FileAction::Created));
    assert_eq!(merged(FileAction::Created, FileAction::Modified), is(FileAction::Modified));
    assert_eq!(merged(FileAction::Modified, FileAction::Deleted), is(FileAction::Deleted));
    assert_eq!(merged(FileAction::Modified, FileAction::Read), is(FileAction::Modified));
    assert_eq!(merged(FileAction::Read, FileAction::Read), is(FileAction::Read));
}

#[test]
fn files_follow_the_prompt() {
    let files = [touched("b.rs", FileAction::Modified), touched("a.md", FileAction::Read)];
    for previous in [None, Some("old")] {
        let base = build_summary_prompt(previous, &[]);
        let whole = build_summary_prompt(previous, &files);
        let block = whole.strip_prefix(&base).unwrap();
        assert!(block
            .contains("<files_touched>\n- MODIFIED: b.rs\n- READ: a.md\n</files_touched>"));
    }
    let base = build_summary_prompt(Some("old"), &[]);
    assert!(base.contains("<previous_summary>\nold\n</previous_summary>"));
}
