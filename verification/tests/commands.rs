use coop_gateway::commands::{
    describe_current_model, describe_kill, describe_model_change, describe_subagent, format_models,
    format_number, format_status, help_text, inspect_subagent, list_subagents, read_kill,
    read_slash_command, start_new_session, stop_session, subagents_usage, KillRequest, ModelEntry,
    ModelSelection, SlashCommand, StatusFacts, SubagentRun, SubagentsCommand,
};
use coop_gateway::gateway::Gateway;
use coop_gateway::message::Message;
use coop_gateway::session::{SessionKey, SessionKind};

fn command(input: &str) -> SlashCommand {
    read_slash_command(input).unwrap()
}

#[test]
fn commands_are_read() {
    for input in ["/new", " /clear ", "/reset now"] {
        assert_eq!(command(input), SlashCommand::New);
    }
    assert_eq!(command("/stop"), SlashCommand::Stop);
    assert_eq!(command("/status"), SlashCommand::Status);
    assert_eq!(command("/models"), SlashCommand::Models);
    assert_eq!(command("/model  gpt 5 "), SlashCommand::Model { requested: "gpt 5".to_owned() });
    assert_eq!(command("/model"), SlashCommand::Model { requested: "".to_owned() });
    assert_eq!(command("/?"), SlashCommand::Help);
    assert_eq!(read_slash_command("hello"), None);
    assert_eq!(read_slash_command("/unknown"), None);
    assert_eq!(read_slash_command("  "), None);
}

#[test]
fn subagents_commands_are_read() {
    let read = |input| match command(input) {
        SlashCommand::Subagents { command } => command,
        other => panic!("{other:?}"),
    };
    let id = || Some("7".to_owned());
    assert_eq!(read("/subagents"), SubagentsCommand::List);
    assert_eq!(read("/subagents list"), SubagentsCommand::List);
    assert_eq!(read("/subagents inspect 7"), SubagentsCommand::Inspect { run_id: id() });
    assert_eq!(read("/subagents kill 7 8"), SubagentsCommand::Kill { run_id: id() });
    assert_eq!(read("/subagents kill"), SubagentsCommand::Kill { run_id: None });
    assert_eq!(read("/subagents start"), SubagentsCommand::Other);
}

#[test]
fn numbers_are_grouped() {
    assert_eq!(format_number(0), "0");
    assert_eq!(format_number(999), "999");
    assert_eq!(format_number(1000), "1,000");
    assert_eq!(format_number(1234567), "1,234,567");
    assert_eq!(format_number(u64::MAX), "18,446,744,073,709,551,615");
}

#[test]
fn sessions_are_started_and_stopped() {
    let mut g = Gateway::new("coop".to_owned());
    let key = g.default_session_key();
    assert_eq!(stop_session(&mut g, &key, false), "No active turn to stop.");
    assert_eq!(stop_session(&mut g, &key, true), "Stopping agent…");
    g.begin_turn(&key);
    assert_eq!(stop_session(&mut g, &key, false), "Stopping agent…");
    assert!(g.is_cancelled(&key));
    g.append_message(&key, Message::user().with_text("hi"));
    assert_eq!(start_new_session(&mut g, &key), "New session ✅");
    assert!(g.history(&key).is_empty());
    assert!(help_text().starts_with("Available commands:"));
}

#[test]
fn status_tells_of_the_session() {
    let mut g = Gateway::new("coop".to_owned());
    let key = g.default_session_key();
    g.append_message(&key, Message::user().with_text("hi"));
    g.begin_turn(&key);
    let facts = StatusFacts {
        model: Ok(ModelSelection { model: "m".to_owned(), context_limit: 128000 }),
        percent: "0.0".to_owned(),
        active_subagents: 2,
    };
    assert_eq!(
        format_status(&g, &key, &facts),
        "Session: coop:main (running)\nAgent: coop\nModel: m\nMessages: 1\nContext: 0 / 128,000 tokens (0.0%)\nTotal tokens used: 0 in / 0 out\nActive subagents: 2"
    );
    let facts = StatusFacts { model: Err("no key".to_owned()), ..facts };
    assert!(format_status(&g, &key, &facts).contains("Model: unavailable (no key)"));
}

#[test]
fn models_are_listed() {
    let entry = ModelEntry {
        id: "m".to_owned(),
        is_current: true,
        is_default: false,
        description: None,
        context_limit: Some(200000),
        aliases: vec![],
    };
    let text = format_models(&vec![entry]);
    let lines: Vec<_> = text.lines().collect();
    assert_eq!(lines.len(), 4);
    assert_eq!(lines[0], "Available models:");
    assert!(lines[1].contains("m") && lines[1].contains("current") && lines[1].contains("200,000"));
    assert!(describe_current_model("m").starts_with("Current model: m\n"));
    let set = ModelSelection { model: "m".to_owned(), context_limit: 1000 };
    assert_eq!(
        describe_model_change(Ok(set), true),
        "Model set to m ✅\nContext window: 1,000 tokens\nSession compacted before handoff ✅"
    );
    assert_eq!(describe_model_change(Err("no"), false), "Could not change model: no");
}

fn run(id: &str) -> SubagentRun {
    SubagentRun {
        run_id: id.to_owned(),
        status: "running".to_owned(),
        model: "m".to_owned(),
        child_session: "c".to_owned(),
        parent_session: "p".to_owned(),
        depth: 1,
        timeout_seconds: 60,
        max_turns: 5,
        task: "look\nclosely".to_owned(),
        profile: Some("code".to_owned()),
        tool_names: vec!["bash".to_owned(), "read".to_owned()],
        paths: vec![],
        artifact_paths: vec![],
        summary: Some("fine".to_owned()),
        error: None,
    }
}

#[test]
fn subagents_are_described() {
    assert_eq!(list_subagents(&vec![]), "No subagent runs yet.");
    assert_eq!(list_subagents(&vec![run("1")]), "Subagent runs:\n- 1  running  m  look");
    let many: Vec<_> = (0..12).map(|i| run(&i.to_string())).collect();
    assert_eq!(list_subagents(&many).lines().count(), 11);
    assert_eq!(
        describe_subagent(&run("1")),
        "Run: 1\nStatus: running\nModel: m\nChild session: c\nParent session: p\nDepth: 1\nTimeout: 60s\nMax turns: 5\nTask: look\nclosely\nProfile: code\nTools: bash, read\n\nSummary:\nfine"
    );
    assert_eq!(inspect_subagent(None), "Usage: /subagents inspect <run_id>");
    assert_eq!(inspect_subagent(Some(Err("gone"))), "Could not inspect subagent run: gone");
    assert!(subagents_usage().starts_with("Usage: /subagents"));
}

#[test]
fn kill_requests_name_a_run() {
    let text = "123e4567-e89b-12d3-a456-426614174000";
    let id = uuid::Uuid::parse_str(text).unwrap().as_u128();
    assert_eq!(read_kill(Some(text)), KillRequest::Stop { run_id: id });
    assert_eq!(
        read_kill(None),
        KillRequest::Refused { reply: "Usage: /subagents kill <run_id>".to_owned() }
    );
    let fault = uuid::Uuid::parse_str("seven").unwrap_err();
    assert_eq!(
        read_kill(Some("seven")),
        KillRequest::Refused { reply: format!("Invalid subagent run id: {fault}") }
    );
    assert_eq!(describe_kill(id, Ok(true)), format!("Stopped subagent {text} ✅"));
    assert_eq!(describe_kill(id, Ok(false)), format!("No active subagent found for {text}."));
    assert_eq!(describe_kill(id, Err("no")), "Could not stop subagent: no");
}

#[test]
fn new_sessions_forget_group_messages() {
    let mut g = Gateway::new("coop".to_owned());
    let key = |id: &str| SessionKey {
        agent_id: "coop".to_owned(),
        kind: SessionKind::Group(id.to_owned()),
    };
    g.record_group_history(&key("a"), "one", 5);
    g.record_group_history(&key("b"), "two", 5);
    start_new_session(&mut g, &key("a"));
    assert_eq!(g.peek_group_history(&key("a")), None);
    assert!(g.peek_group_history(&key("b")).unwrap().contains("two"));
}
