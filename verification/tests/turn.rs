use coop_gateway::compact_session::{CompactStep, Compactor};
use coop_gateway::config::CronDeliveryMode;
use coop_gateway::final_reply::FinalReplyPolicy;
use coop_gateway::gateway::Gateway;
use coop_gateway::message::{copy_messages, Content, Message, Role};
use coop_gateway::models::tool_defs_for_session;
use coop_gateway::repair::repair_history;
use coop_gateway::session::{SessionKey, SessionKind, TrustLevel};
use coop_gateway::stream::RepairOutcome;
use coop_gateway::turn::{
    prepare_messages_for_provider, strip_images_from_messages, terminal_turn_messages, tool_failure,
    CANCELLED_RESULT, DEFAULT_MAX_ITERATIONS, GENERIC_FAILURE, LIMIT_FAILED, LIMIT_MESSAGE,
    Prepared, Turn, TurnAction, TurnEvent, TurnInput, TurnStep,
};
use coop_gateway::usage::Usage;

fn usage(input: u32, output: u32) -> Usage {
    Usage {
        input_tokens: Some(input),
        output_tokens: Some(output),
        cache_read_tokens: None,
        cache_write_tokens: None,
        stop_reason: None,
    }
}

fn open(g: &mut Gateway, trust: TrustLevel, policy: FinalReplyPolicy, limit: u32) -> Turn {
    let key = g.default_session_key();
    let message = Message::user().with_text("hello");
    Turn::open(g, key, message, trust, policy, vec!["bash".to_owned()], false, limit)
}

fn reply(message: Message) -> TurnInput {
    TurnInput::Reply { response: message, usage: usage(10, 5) }
}

fn says(text: &str) -> Message {
    Message::assistant().with_text(text)
}

fn calls(id: &str, tool: &str) -> Message {
    Message::assistant().with_tool_request(id, tool, "{}")
}

fn texts(g: &Gateway) -> Vec<String> {
    g.history(&g.default_session_key()).iter().map(|m| m.text()).collect()
}

fn kinds(step: &TurnStep) -> Vec<&'static str> {
    step.events
        .iter()
        .map(|e| match e {
            TurnEvent::TextDelta { .. } => "text",
            TurnEvent::Compacting => "compacting",
            TurnEvent::AssistantMessage { .. } => "message",
            TurnEvent::ToolStart { .. } => "tool",
            TurnEvent::ToolResult { .. } => "result",
            TurnEvent::Error { .. } => "error",
            TurnEvent::Done { .. } => "done",
        })
        .collect()
}

/// Why a scripted provider does not answer.
struct Fault {
    text: &'static str,
    overflow: bool,
}

type Answer = Result<Message, Fault>;

/// A world around a turn: a provider, which is told whether it is offered
/// tools, and what happens while a tool runs.
struct World<'a> {
    answer: Box<dyn FnMut(&mut Gateway, &[Message], bool) -> Answer + 'a>,
    tool: Box<dyn FnMut(&mut Gateway) -> String + 'a>,
    load: Box<dyn FnMut(Vec<Message>) -> Vec<Message> + 'a>,
    /// How often the provider was asked, for a summary apart.
    asked: u32,
    summaries: u32,
}

impl<'a> World<'a> {
    fn new(answer: impl FnMut(&mut Gateway, &[Message], bool) -> Answer + 'a) -> World<'a> {
        let tool = |_: &mut Gateway| "ok".to_owned();
        let load = |messages: Vec<Message>| messages;
        World {
            answer: Box::new(answer),
            tool: Box::new(tool),
            load: Box::new(load),
            asked: 0,
            summaries: 0,
        }
    }

    /// A provider that gives these answers, one after the other.
    fn scripted(answers: Vec<Message>) -> World<'a> {
        let mut rest = answers.into_iter();
        World::new(move |_, _, _| Ok(rest.next().unwrap()))
    }

    fn compact(&mut self, g: &mut Gateway, key: &SessionKey) -> bool {
        let mut compactor = Compactor::begin(g, key, 100_000);
        let CompactStep::Summarize { messages } = compactor.plan(0) else {
            panic!("expected a summary to be asked for");
        };
        assert!(messages.last().unwrap().text().contains("continuation summary"));
        self.summaries += 1;
        let summary = says("<summary>Compacted summary of conversation.</summary>");
        compactor.summarized(&summary, &usage(500, 120), 0);
        assert!(compactor.measured(g, 100));
        true
    }

    fn run(&mut self, g: &mut Gateway, turn: &mut Turn) -> Vec<TurnEvent> {
        let mut events = Vec::new();
        let mut input = TurnInput::Begin;
        loop {
            let step = turn.step(g, input);
            events.extend(step.events);
            input = match step.action {
                TurnAction::Stop => return events,
                TurnAction::LoadImages { messages } => {
                    TurnInput::Loaded { messages: (self.load)(messages) }
                }
                TurnAction::Ask { messages, with_tools } => {
                    self.asked += 1;
                    match (self.answer)(g, &messages, with_tools) {
                        Ok(response) => TurnInput::Reply { response, usage: usage(100, 50) },
                        Err(f) => {
                            TurnInput::Failure { error: f.text.to_owned(), overflow: f.overflow }
                        }
                    }
                }
                TurnAction::AskRepair { messages } => {
                    let outcome = match (self.answer)(g, &messages, false) {
                        Ok(response) => {
                            RepairOutcome::Replied { response, usage: usage(100, 50) }
                        }
                        Err(_) => RepairOutcome::Failed,
                    };
                    TurnInput::RepairReply { outcome }
                }
                TurnAction::Compact { force } => {
                    let compacted = force && self.compact(g, &turn.key);
                    if compacted {
                        events.push(TurnEvent::Compacting);
                    }
                    TurnInput::Compacted { compacted }
                }
                TurnAction::RunTool { .. } => {
                    TurnInput::ToolDone { content: (self.tool)(g), is_error: false }
                }
            };
        }
    }
}

fn start(
    g: &mut Gateway,
    key: &SessionKey,
    text: &str,
    trust: TrustLevel,
    policy: FinalReplyPolicy,
    tool: &str,
) -> Turn {
    let message = Message::user().with_text(text);
    let tools = vec![tool.to_owned()];
    Turn::open(g, key.clone(), message, trust, policy, tools, true, DEFAULT_MAX_ITERATIONS)
}

fn main_turn(g: &mut Gateway, text: &str, trust: TrustLevel, tool: &str) -> Turn {
    let key = g.default_session_key();
    start(g, &key, text, trust, FinalReplyPolicy::for_turn(None, None), tool)
}

/// The assistant messages among events, the errors, and how the turn ended.
fn sorted(events: &[TurnEvent]) -> (Vec<String>, Vec<String>, Vec<String>, bool) {
    let mut replies = Vec::new();
    let mut errors = Vec::new();
    let mut end = None;
    for event in events {
        match event {
            TurnEvent::AssistantMessage { message } => replies.push(message.text()),
            TurnEvent::Error { text } => errors.push(text.clone()),
            TurnEvent::Done { messages, hit_limit, .. } => {
                assert!(end.is_none());
                end = Some((messages.iter().map(|m| m.text()).collect(), *hit_limit));
            }
            _ => {}
        }
    }
    let (last, hit_limit) = end.expect("turn should emit Done");
    (replies, errors, last, hit_limit)
}

#[test]
fn assistant_message_event_only_emits_terminal_reply() {
    let mut g = Gateway::new("coop".to_owned());
    let mut turn = main_turn(&mut g, "hello", TrustLevel::Full, "fake_tool");
    let mut world = World::scripted(vec![
        says("before tool").with_tool_request("tool_1", "fake_tool", "{}"),
        says("after tool"),
    ]);
    let (replies, errors, last, hit_limit) = sorted(&world.run(&mut g, &mut turn));
    assert_eq!(replies, vec!["after tool"]);
    assert_eq!(last, vec!["after tool"]);
    assert!(errors.is_empty());
    assert!(!hit_limit);
    assert_eq!(texts(&g), vec!["hello", "before tool", "", "after tool"]);
}

#[test]
fn turns_advance_step_by_step() {
    let mut g = Gateway::new("coop".to_owned());
    let mut turn = open(&mut g, TrustLevel::Full, FinalReplyPolicy::Optional, 5);
    let step = turn.step(&mut g, TurnInput::Begin);
    let TurnAction::Ask { messages, with_tools: true } = step.action else {
        panic!("expected a question");
    };
    assert_eq!(messages.len(), 1);

    let step = turn.step(&mut g, reply(calls("a", "bash")));
    assert_eq!(kinds(&step), vec!["tool"]);
    assert!(matches!(step.action, TurnAction::RunTool { .. }));

    let done = TurnInput::ToolDone { content: "ok".to_owned(), is_error: false };
    let step = turn.step(&mut g, done);
    assert_eq!(kinds(&step), vec!["result"]);
    assert_eq!(step.action, TurnAction::Compact { force: false });

    let step = turn.step(&mut g, TurnInput::Compacted { compacted: false });
    assert!(matches!(step.action, TurnAction::Ask { with_tools: true, .. }));

    let step = turn.step(&mut g, reply(says("all done")));
    assert_eq!(kinds(&step), vec!["message", "done"]);
    assert_eq!(step.action, TurnAction::Stop);
    let TurnEvent::Done { usage, .. } = &step.events[1] else {
        panic!("expected the end");
    };
    assert_eq!(usage.input_tokens, Some(20));
}

#[test]
fn unknown_tools_are_answered_at_once() {
    let mut g = Gateway::new("coop".to_owned());
    let mut turn = open(&mut g, TrustLevel::Full, FinalReplyPolicy::Optional, 5);
    turn.step(&mut g, TurnInput::Begin);
    let step = turn.step(&mut g, reply(calls("a", "rm")));
    assert_eq!(kinds(&step), vec!["tool", "result"]);
    assert_eq!(step.action, TurnAction::Compact { force: false });
    let history = g.history(&g.default_session_key());
    assert_eq!(
        history[2].content[0],
        Content::tool_result("a", "tool not available in this session: rm", true)
    );
}

#[test]
fn provider_error_mid_turn_rolls_back_all_messages() {
    let mut g = Gateway::new("coop".to_owned());
    let mut turn = main_turn(&mut g, "hello", TrustLevel::Full, "bash");
    let mut first = true;
    let mut world = World::new(|_, _, _| {
        if std::mem::replace(&mut first, false) {
            let arguments = "{\"command\": \"echo hi\"}";
            Ok(Message::assistant().with_tool_request("tool_1", "bash", arguments))
        } else {
            let text = "Anthropic API error: 500 - internal server error";
            Err(Fault { text, overflow: false })
        }
    });
    let events = world.run(&mut g, &mut turn);
    assert!(events.iter().any(|e| matches!(e, TurnEvent::ToolStart { .. })));
    let (_, errors, last, hit_limit) = sorted(&events);
    assert_eq!(errors.len(), 1);
    assert!(last.is_empty());
    assert!(!hit_limit);
    assert!(texts(&g).is_empty());
}

#[test]
fn failed_turns_keep_what_was_there() {
    let mut g = Gateway::new("coop".to_owned());
    let key = g.default_session_key();
    g.append_message(&key, says("before"));
    let mut turn = open(&mut g, TrustLevel::Full, FinalReplyPolicy::Optional, 5);
    turn.step(&mut g, TurnInput::Begin);
    turn.step(&mut g, reply(calls("a", "rm")));
    turn.step(&mut g, TurnInput::Compacted { compacted: false });
    let step = turn.step(&mut g, TurnInput::Failure { error: "boom".to_owned(), overflow: false });
    assert_eq!(kinds(&step), vec!["error", "done"]);
    assert_eq!(texts(&g), vec!["before"]);
}

const BAD_REQUEST: &str = "Anthropic API error: 400 - bad request";

#[test]
fn provider_error_sends_detail_to_full_trust_user() {
    let mut g = Gateway::new("coop".to_owned());
    let mut turn = main_turn(&mut g, "hello", TrustLevel::Full, "bash");
    let mut world = World::new(|_, _, _| Err(Fault { text: BAD_REQUEST, overflow: false }));
    let (_, errors, _, _) = sorted(&world.run(&mut g, &mut turn));
    assert_eq!(errors, vec![BAD_REQUEST]);
    assert!(errors[0].contains("400"));
    assert!(texts(&g).is_empty());
}

#[test]
fn provider_error_hides_detail_from_public_trust_user() {
    let mut g = Gateway::new("coop".to_owned());
    let mut turn = main_turn(&mut g, "hello", TrustLevel::Public, "bash");
    let mut world = World::new(|_, _, _| Err(Fault { text: BAD_REQUEST, overflow: false }));
    let (_, errors, _, _) = sorted(&world.run(&mut g, &mut turn));
    assert!(!errors[0].contains("400"));
    assert!(errors[0].contains("Something went wrong"));
    assert_eq!(errors, vec![GENERIC_FAILURE]);
}

fn always_uses_tools(with_tools: bool) -> Answer {
    if with_tools {
        let arguments = "{\"command\": \"echo hi\"}";
        Ok(Message::assistant().with_tool_request("tool_1", "bash", arguments))
    } else {
        Ok(says("I hit the iteration limit. Here's a summary."))
    }
}

#[test]
fn hit_limit_forces_final_text_completion() {
    let mut g = Gateway::new("coop".to_owned());
    let mut turn = main_turn(&mut g, "hello", TrustLevel::Full, "bash");
    let mut world = World::new(|_, _, with_tools| always_uses_tools(with_tools));
    let (replies, errors, _, hit_limit) = sorted(&world.run(&mut g, &mut turn));
    assert_eq!(world.asked, 41);
    assert!(hit_limit);
    assert!(errors.is_empty());
    assert!(replies.last().unwrap().contains("iteration limit"));
    let history = g.history(&g.default_session_key());
    assert!(!history.last().unwrap().has_tool_requests());
    assert!(history
        .iter()
        .any(|m| m.role == Role::User && m.text().contains("maximum number of tool-call")));
    assert!(history.iter().any(|m| m.text() == LIMIT_MESSAGE));
}

#[test]
fn hit_limit_completion_failure_emits_error_event() {
    let mut g = Gateway::new("coop".to_owned());
    let mut turn = main_turn(&mut g, "hello", TrustLevel::Full, "bash");
    let mut world = World::new(|_, _, with_tools| {
        if with_tools {
            always_uses_tools(true)
        } else {
            Err(Fault { text: "API error during limit completion", overflow: false })
        }
    });
    let (_, errors, _, hit_limit) = sorted(&world.run(&mut g, &mut turn));
    assert!(hit_limit);
    assert_eq!(errors, vec![LIMIT_FAILED]);
    assert!(errors[0].contains("iteration limit"));
}

#[test]
fn cancelled_turn_commits_tool_results_before_injected_follow_up() {
    let mut g = Gateway::new("coop".to_owned());
    let key = g.default_session_key();
    assert!(g.begin_turn(&key));
    let mut turn = main_turn(&mut g, "start", TrustLevel::Full, "slow_tool");
    let mut world = World::scripted(vec![calls("tool_cancelled_turn", "slow_tool")]);
    world.tool = Box::new(|g: &mut Gateway| {
        let key = g.default_session_key();
        g.inject_pending_inbound(&key, "follow-up during tool".to_owned());
        assert!(g.cancel_active_turn(&key, false));
        "slow tool finished".to_owned()
    });
    world.run(&mut g, &mut turn);
    g.end_turn(&key);

    let history = g.history(&key);
    assert_eq!(history.len(), 4);
    assert_eq!(history[0].role, Role::User);
    assert_eq!(history[1].role, Role::Assistant);
    assert_eq!(
        history[2].content,
        vec![Content::tool_result("tool_cancelled_turn", "slow tool finished", false)]
    );
    assert_eq!(history[3].role, Role::User);
    assert_eq!(history[3].text(), "follow-up during tool");

    assert!(g.begin_turn(&key));
    let mut turn = main_turn(&mut g, "next turn", TrustLevel::Full, "slow_tool");
    let mut world = World::new(|_, messages, _| {
        assert!(repair_history(&copy(messages)).is_none());
        Ok(says("history ok"))
    });
    world.run(&mut g, &mut turn);
    assert_eq!(texts(&g).last().unwrap(), "history ok");
}

#[test]
fn cancelled_turns_answer_every_call() {
    let mut g = Gateway::new("coop".to_owned());
    let key = g.default_session_key();
    assert!(g.begin_turn(&key));
    let mut turn = open(&mut g, TrustLevel::Full, FinalReplyPolicy::Optional, 5);
    turn.step(&mut g, TurnInput::Begin);
    let two = calls("a", "bash").with_tool_request("b", "bash", "{}");
    turn.step(&mut g, reply(two));
    assert!(g.cancel_active_turn(&key, false));
    let done = TurnInput::ToolDone { content: "ok".to_owned(), is_error: false };
    let step = turn.step(&mut g, done);
    assert_eq!(kinds(&step), vec!["result", "result", "done"]);
    let history = g.history(&key);
    assert_eq!(history.len(), 3);
    assert_eq!(history[2].content[0], Content::tool_result("a", "ok", false));
    assert_eq!(history[2].content[1], Content::tool_result("b", CANCELLED_RESULT, true));
    assert!(repair_history(&history).is_none());
}

#[test]
fn retries_truncated_tool_use_max_tokens_once_after_compaction() {
    let mut g = Gateway::new("coop".to_owned());
    let key = g.default_session_key();
    let mut turn = main_turn(&mut g, "hello", TrustLevel::Full, "bash");
    let mut first = true;
    let mut saw_summary = false;
    let mut world = World::new(|_, messages, _| {
        if std::mem::replace(&mut first, false) {
            let text = "Anthropic streamed tool_use for `bash` ended with invalid/incomplete input_json after max_tokens";
            return Err(Fault { text, overflow: true });
        }
        saw_summary = messages
            .iter()
            .any(|m| m.text().contains("<summary>Compacted summary of conversation.</summary>"));
        Ok(says("Recovered after compaction"))
    });
    let events = world.run(&mut g, &mut turn);
    let (asked, summaries) = (world.asked, world.summaries);
    drop(world);
    assert_eq!(asked, 2);
    assert_eq!(summaries, 1);
    assert!(saw_summary);
    assert!(g.cached_compaction(&key).is_some());
    assert!(events.contains(&TurnEvent::Compacting));
    let (_, errors, _, hit_limit) = sorted(&events);
    assert!(errors.is_empty());
    assert!(!hit_limit);
    assert_eq!(texts(&g), vec!["hello", "Recovered after compaction"]);
}

#[test]
fn overflow_is_compacted_only_once() {
    let overflow = || TurnInput::Failure { error: "too long".to_owned(), overflow: true };
    let mut g = Gateway::new("coop".to_owned());
    let mut turn = open(&mut g, TrustLevel::Full, FinalReplyPolicy::Optional, 5);
    turn.step(&mut g, TurnInput::Begin);
    let step = turn.step(&mut g, overflow());
    assert_eq!(step.action, TurnAction::Compact { force: true });
    let step = turn.step(&mut g, TurnInput::Compacted { compacted: true });
    assert!(matches!(step.action, TurnAction::Ask { .. }));
    let step = turn.step(&mut g, overflow());
    assert_eq!(kinds(&step), vec!["error", "done"]);
}

#[test]
fn overflow_without_compaction_fails() {
    let mut g = Gateway::new("coop".to_owned());
    let mut turn = open(&mut g, TrustLevel::Owner, FinalReplyPolicy::Optional, 5);
    turn.step(&mut g, TurnInput::Begin);
    turn.step(&mut g, TurnInput::Failure { error: "too long".to_owned(), overflow: true });
    let step = turn.step(&mut g, TurnInput::Compacted { compacted: false });
    assert_eq!(step.events[0], TurnEvent::Error { text: "too long".to_owned() });
    assert!(texts(&g).is_empty());
}

#[test]
fn signal_turn_repairs_empty_terminal_reply_after_tool_use() {
    let mut g = Gateway::new("coop".to_owned());
    let key = g.default_session_key();
    let policy = FinalReplyPolicy::for_turn(Some("signal"), None);
    let mut turn = start(&mut g, &key, "hello", TrustLevel::Full, policy, "fake_tool");
    let mut world = World::scripted(vec![
        says("before tool").with_tool_request("tool_1", "fake_tool", "{}"),
        says("   "),
        says("All set."),
    ]);
    let (replies, _, last, _) = sorted(&world.run(&mut g, &mut turn));
    assert_eq!(replies, vec!["All set."]);
    assert_eq!(last, vec!["All set."]);
}

#[test]
fn repairs_say_what_is_missing() {
    let mut g = Gateway::new("coop".to_owned());
    let mut turn = open(&mut g, TrustLevel::Full, FinalReplyPolicy::Signal, 5);
    turn.step(&mut g, TurnInput::Begin);
    let step = turn.step(&mut g, reply(says("  ")));
    let TurnAction::AskRepair { messages } = step.action else {
        panic!("expected a repair");
    };
    assert!(messages.last().unwrap().text().contains("final Signal reply"));
}

#[test]
fn cron_always_turn_repairs_empty_terminal_reply_after_tool_use() {
    let mut g = Gateway::new("coop".to_owned());
    let key = SessionKey {
        agent_id: "coop".to_owned(),
        kind: SessionKind::Cron("briefing".to_owned()),
    };
    let policy = FinalReplyPolicy::for_turn(Some("signal"), Some(CronDeliveryMode::Always));
    let mut turn = start(&mut g, &key, "check status", TrustLevel::Full, policy, "fake_tool");
    let mut world = World::scripted(vec![
        says("checking status").with_tool_request("tool_1", "fake_tool", "{}"),
        says(""),
        says("Scheduled update ready."),
    ]);
    let (replies, _, last, _) = sorted(&world.run(&mut g, &mut turn));
    assert_eq!(replies, vec!["Scheduled update ready."]);
    assert_eq!(last, vec!["Scheduled update ready."]);
}

#[test]
fn repairs_carry_what_was_sent() {
    let mut g = Gateway::new("coop".to_owned());
    let key = g.default_session_key();
    let policy = FinalReplyPolicy::for_turn(Some("signal"), None);
    let mut turn = start(&mut g, &key, "hello", TrustLevel::Full, policy, "bash");
    let mut loads = 0;
    let mut seen = Vec::new();
    let mut world = World::new(|g, messages, _| {
        seen.push(copy(messages));
        let key = g.default_session_key();
        if seen.len() == 1 {
            g.clear_session(&key);
            Ok(says(" "))
        } else {
            Ok(says("here"))
        }
    });
    world.load = Box::new(|messages| {
        loads += 1;
        let image = Content::Image { data: "YWJj".to_owned(), mime_type: "image/png".to_owned() };
        messages.into_iter().map(|m| m.with(image.clone())).collect()
    });
    world.run(&mut g, &mut turn);
    drop(world);
    assert_eq!(loads, 1);
    assert_eq!(seen.len(), 2);
    assert_eq!(seen[0].len(), 1);
    assert!(matches!(seen[0][0].content[1], Content::Image { .. }));
    assert_eq!(seen[1][..1], seen[0][..]);
    assert!(seen[1][1].text().contains("final Signal reply"));
}

#[test]
fn failed_repairs_leave_a_plain_reply() {
    let mut g = Gateway::new("coop".to_owned());
    let mut turn = open(&mut g, TrustLevel::Full, FinalReplyPolicy::CronAlways, 5);
    turn.step(&mut g, TurnInput::Begin);
    turn.step(&mut g, reply(says("")));
    turn.step(&mut g, TurnInput::RepairReply { outcome: RepairOutcome::Failed });
    assert_eq!(texts(&g), vec!["hello", "Completed."]);
}

#[test]
fn mid_turn_injected_messages_appear_in_session() {
    let mut g = Gateway::new("coop".to_owned());
    let mut turn = main_turn(&mut g, "original message", TrustLevel::Full, "bash");
    let mut world = World::new(|g, _, _| {
        let key = g.default_session_key();
        g.inject_pending_inbound(&key, "injected mid-turn follow-up".to_owned());
        Ok(says("slow reply"))
    });
    world.run(&mut g, &mut turn);
    let history = g.history(&g.default_session_key());
    assert!(history.len() >= 3);
    let said: Vec<_> =
        history.iter().filter(|m| m.role == Role::User).map(|m| m.text()).collect();
    assert!(said.iter().any(|t| t.contains("original message")));
    assert!(said.iter().any(|t| t.contains("injected mid-turn follow-up")));
}

#[test]
fn run_turn_omits_tools_and_images_for_model_capabilities() {
    let mut g = Gateway::new("coop".to_owned());
    let key = g.default_session_key();
    let image = Content::Image { data: "YWJj".to_owned(), mime_type: "image/png".to_owned() };
    let message = Message::user().with_text("please inspect input.png").with(image);
    let tools = tool_defs_for_session(&vec!["bash".to_owned()], &key.kind, None, false);
    assert!(tools.is_empty());
    let policy = FinalReplyPolicy::for_turn(None, None);
    let mut turn = Turn::open(
        &mut g,
        key,
        message,
        TrustLevel::Full,
        policy,
        tools,
        false,
        DEFAULT_MAX_ITERATIONS,
    );
    let mut world = World::new(|_, messages, _| {
        assert!(messages
            .iter()
            .all(|m| m.content.iter().all(|c| !matches!(c, Content::Image { .. }))));
        Ok(says("done"))
    });
    world.run(&mut g, &mut turn);
    assert_eq!(world.asked, 1);
}

#[test]
fn images_are_left_out_of_messages() {
    let image = Content::Image { data: "YWJj".to_owned(), mime_type: "image/png".to_owned() };
    let messages = vec![Message::user().with_text("look").with(image)];
    let Prepared::NeedImages { messages: kept } =
        prepare_messages_for_provider(copy(&messages), true)
    else {
        panic!("expected images to be loaded");
    };
    assert_eq!(kept, messages);
    let Prepared::Ready { messages: left } = prepare_messages_for_provider(copy(&messages), false)
    else {
        panic!("expected the messages to be sent");
    };
    assert_eq!(left[0].content.len(), 1);
    assert_eq!(strip_images_from_messages(&messages)[0].text(), "look");
}

fn copy(messages: &[Message]) -> Vec<Message> {
    copy_messages(messages, 0, messages.len())
}

#[test]
fn terminal_messages_are_the_last_reply() {
    let messages = vec![says("first"), calls("a", "bash"), Message::user().with_text("x")];
    assert_eq!(terminal_turn_messages(&messages)[0].text(), "first");
    assert!(terminal_turn_messages(&vec![calls("a", "bash")]).is_empty());
}

#[test]
fn tools_that_cannot_run_are_errors() {
    let mut g = Gateway::new("coop".to_owned());
    let mut turn = open(&mut g, TrustLevel::Full, FinalReplyPolicy::Optional, 5);
    turn.step(&mut g, TurnInput::Begin);
    turn.step(&mut g, reply(calls("a", "bash")));
    turn.step(&mut g, tool_failure("no shell"));
    let history = g.history(&g.default_session_key());
    assert_eq!(history[2].content[0], Content::tool_result("a", "internal error: no shell", true));
}
