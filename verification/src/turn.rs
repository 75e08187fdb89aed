//! A turn of the agent: the exchange with the provider and the tools from an
//! incoming message to the final reply.
//!
//! A turn advances by [`Turn::step`]: each input is what came of the last
//! action, and each action says what to do next. The conversation itself is
//! kept in the [`Gateway`].
use vstd::prelude::*;

use crate::compact_session::{compaction_context, session_context};
use crate::final_reply::FinalReplyPolicy;
use crate::gateway::{Gateway, GatewayView, SessionUsage};
use crate::message::{
    answers, content_views, content_views_push, copy_content, copy_messages, has_requests,
    has_result_for, message_views, message_views_push, request_views, requests_in, text_of, user_text, Content,
    ContentView, Message, MessageView, RequestView, Role, ToolRequest,
};
use crate::session::{KeyView, SessionKey, TrustLevel};
use crate::stream::{repair_terminal_reply, repaired_reply, RepairOutcome, RepairView};
use crate::text::{cat2, holds_text, views};
use crate::usage::{count, count_of, Usage};

verus! {

/// What the agent is told when it may not call more tools.
pub const LIMIT_MESSAGE: &'static str = "You have reached the maximum number of tool-call iterations for this turn. You cannot call any more tools. Summarize what you accomplished, what is still incomplete, and what the user should know to continue.";

/// What the user is told when the summary at the limit failed.
pub const LIMIT_FAILED: &'static str = "Hit iteration limit and failed to generate summary.";

/// What a user is told who may not see the error.
pub const GENERIC_FAILURE: &'static str = "Something went wrong. Please try again later.";

/// The result of a tool call that the user stopped.
pub const CANCELLED_RESULT: &'static str = "tool execution was cancelled because the turn was stopped by the user";

/// Stands before the name of a tool that the session does not have.
pub const UNAVAILABLE_TOOL: &'static str = "tool not available in this session: ";

/// What happens during a turn, for those who watch it.
#[derive(Debug, PartialEq, Eq)]
pub enum TurnEvent {
    /// A piece of text from the provider.
    TextDelta { text: String },
    /// The conversation is being compacted.
    Compacting,
    /// The final reply.
    AssistantMessage { message: Message },
    /// A tool is called.
    ToolStart { request: ToolRequest },
    /// A tool call has a result.
    ToolResult { id: String, message: Message },
    /// The turn failed.
    Error { text: String },
    /// The turn is over.
    Done { messages: Vec<Message>, usage: Usage, hit_limit: bool },
}

/// What a [`TurnEvent`] stands for.
pub enum EventView {
    TextDelta { text: Seq<char> },
    Compacting,
    AssistantMessage { message: MessageView },
    ToolStart { request: RequestView },
    ToolResult { id: Seq<char>, message: MessageView },
    Error { text: Seq<char> },
    Done { messages: Seq<MessageView>, usage: Usage, hit_limit: bool },
}

impl View for TurnEvent {
    type V = EventView;

    open spec fn view(&self) -> EventView {
        match *self {
            TurnEvent::TextDelta { text } => EventView::TextDelta { text: text@ },
            TurnEvent::Compacting => EventView::Compacting,
            TurnEvent::AssistantMessage { message } => EventView::AssistantMessage {
                message: message@,
            },
            TurnEvent::ToolStart { request } => EventView::ToolStart { request: request@ },
            TurnEvent::ToolResult { id, message } => EventView::ToolResult {
                id: id@,
                message: message@,
            },
            TurnEvent::Error { text } => EventView::Error { text: text@ },
            TurnEvent::Done { messages, usage, hit_limit } => EventView::Done {
                messages: message_views(messages@),
                usage,
                hit_limit,
            },
        }
    }
}

/// The views of a list of events.
pub open spec fn event_views(e: Seq<TurnEvent>) -> Seq<EventView> {
    Seq::new(e.len(), |i: int| e[i]@)
}

/// What a turn needs done next.
#[derive(Debug, PartialEq, Eq)]
pub enum TurnAction {
    /// Put into the messages the images that they name, and hand them back as
    /// [`TurnInput::Loaded`].
    LoadImages { messages: Vec<Message> },
    /// Ask the provider with these very messages, with the tools or without.
    Ask { messages: Vec<Message>, with_tools: bool },
    /// Ask the provider for the missing reply with these very messages, without
    /// tools.
    AskRepair { messages: Vec<Message> },
    /// Compact the conversation, if it is due or (with `force`) in any case.
    Compact { force: bool },
    /// Call a tool.
    RunTool { request: ToolRequest },
    /// Nothing: the turn is over.
    Stop,
}

/// What a [`TurnAction`] stands for.
pub enum ActionView {
    LoadImages { messages: Seq<MessageView> },
    Ask { messages: Seq<MessageView>, with_tools: bool },
    AskRepair { messages: Seq<MessageView> },
    Compact { force: bool },
    RunTool { request: RequestView },
    Stop,
}

impl View for TurnAction {
    type V = ActionView;

    open spec fn view(&self) -> ActionView {
        match *self {
            TurnAction::LoadImages { messages } => ActionView::LoadImages {
                messages: message_views(messages@),
            },
            TurnAction::Ask { messages, with_tools } => ActionView::Ask {
                messages: message_views(messages@),
                with_tools,
            },
            TurnAction::AskRepair { messages } => ActionView::AskRepair {
                messages: message_views(messages@),
            },
            TurnAction::Compact { force } => ActionView::Compact { force },
            TurnAction::RunTool { request } => ActionView::RunTool { request: request@ },
            TurnAction::Stop => ActionView::Stop,
        }
    }
}

/// What came of the last action.
pub enum TurnInput {
    /// Nothing yet: the turn begins.
    Begin,
    /// The messages, with the images that they name.
    Loaded { messages: Vec<Message> },
    /// The provider replied.
    Reply { response: Message, usage: Usage },
    /// The provider failed. `overflow` says whether the error calls for
    /// compaction.
    Failure { error: String, overflow: bool },
    /// The missing reply was asked for.
    RepairReply { outcome: RepairOutcome },
    /// The tool returned.
    ToolDone { content: String, is_error: bool },
    /// The compaction is over; `compacted` says whether anything was done.
    Compacted { compacted: bool },
}

/// What a [`TurnInput`] stands for.
pub enum InputView {
    Begin,
    Loaded { messages: Seq<MessageView> },
    Reply { response: MessageView, usage: Usage },
    Failure { error: Seq<char>, overflow: bool },
    RepairReply { outcome: RepairView },
    ToolDone { content: Seq<char>, is_error: bool },
    Compacted { compacted: bool },
}

impl View for TurnInput {
    type V = InputView;

    open spec fn view(&self) -> InputView {
        match *self {
            TurnInput::Begin => InputView::Begin,
            TurnInput::Loaded { messages } => InputView::Loaded {
                messages: message_views(messages@),
            },
            TurnInput::Reply { response, usage } => InputView::Reply { response: response@, usage },
            TurnInput::Failure { error, overflow } => InputView::Failure { error: error@, overflow },
            TurnInput::RepairReply { outcome } => InputView::RepairReply { outcome: outcome@ },
            TurnInput::ToolDone { content, is_error } => InputView::ToolDone {
                content: content@,
                is_error,
            },
            TurnInput::Compacted { compacted } => InputView::Compacted { compacted },
        }
    }
}

/// What a tool that could not be run comes to: an error that the agent sees.
pub fn tool_failure(error: &str) -> (r: TurnInput)
    ensures
        r@ == (InputView::ToolDone { content: "internal error: "@ + error@, is_error: true }),
{
    TurnInput::ToolDone { content: cat2("internal error: ", error), is_error: true }
}

/// Where a turn stands.
pub enum Phase {
    /// Nothing was asked yet.
    Starting,
    /// The images for a request are being loaded; `with_tools` says whether it
    /// offers tools.
    Loading { with_tools: bool },
    /// The provider was asked with these messages.
    Waiting { asked: Vec<Message> },
    /// The provider was asked for the missing reply.
    Repairing { response: Message },
    /// A compaction after an error is under way.
    Recovering { error: String },
    /// The tool call at `next` is under way.
    Running { next: usize },
    /// A compaction after tool calls is under way.
    Compacting,
    /// The provider was asked for a summary at the limit.
    Summarizing,
    /// The turn is over.
    Ended,
}

/// What a [`Phase`] stands for.
pub enum PhaseView {
    Starting,
    Loading { with_tools: bool },
    Waiting { asked: Seq<MessageView> },
    Repairing { response: MessageView },
    Recovering { error: Seq<char> },
    Running { next: int },
    Compacting,
    Summarizing,
    Ended,
}

impl View for Phase {
    type V = PhaseView;

    open spec fn view(&self) -> PhaseView {
        match *self {
            Phase::Starting => PhaseView::Starting,
            Phase::Loading { with_tools } => PhaseView::Loading { with_tools },
            Phase::Waiting { asked } => PhaseView::Waiting { asked: message_views(asked@) },
            Phase::Repairing { response } => PhaseView::Repairing { response: response@ },
            Phase::Recovering { error } => PhaseView::Recovering { error: error@ },
            Phase::Running { next } => PhaseView::Running { next: next as int },
            Phase::Compacting => PhaseView::Compacting,
            Phase::Summarizing => PhaseView::Summarizing,
            Phase::Ended => PhaseView::Ended,
        }
    }
}

/// How many times a turn asks the model before it has to sum up, unless it is
/// told otherwise.
pub const DEFAULT_MAX_ITERATIONS: u32 = 40;

/// A turn under way.
pub struct Turn {
    pub key: SessionKey,
    pub trust: TrustLevel,
    pub policy: FinalReplyPolicy,
    /// The names of the tools that the session has.
    pub tools: Vec<String>,
    /// Whether the model takes images.
    pub image_input: bool,
    pub max_iterations: u32,
    /// The messages of the session before the turn.
    pub start_len: usize,
    pub iteration: u32,
    /// Whether this iteration was tried again after a compaction.
    pub retried: bool,
    pub usage: Usage,
    pub new_messages: Vec<Message>,
    pub hit_limit: bool,
    /// The tool calls of the last response.
    pub calls: Vec<ToolRequest>,
    /// Their results so far.
    pub results: Vec<Content>,
    pub phase: Phase,
}

/// What a [`Turn`] stands for.
#[verifier::ext_equal]
pub struct TurnView {
    pub key: KeyView,
    pub trust: TrustLevel,
    pub policy: FinalReplyPolicy,
    pub tools: Seq<Seq<char>>,
    pub image_input: bool,
    pub max_iterations: u32,
    pub start_len: usize,
    pub iteration: u32,
    pub retried: bool,
    pub usage: Usage,
    pub new_messages: Seq<MessageView>,
    pub hit_limit: bool,
    pub calls: Seq<RequestView>,
    pub results: Seq<ContentView>,
    pub phase: PhaseView,
}

impl View for Turn {
    type V = TurnView;

    open spec fn view(&self) -> TurnView {
        TurnView {
            key: self.key@,
            trust: self.trust,
            policy: self.policy,
            tools: views(self.tools@),
            image_input: self.image_input,
            max_iterations: self.max_iterations,
            start_len: self.start_len,
            iteration: self.iteration,
            retried: self.retried,
            usage: self.usage,
            new_messages: message_views(self.new_messages@),
            hit_limit: self.hit_limit,
            calls: request_views(self.calls@),
            results: content_views(self.results@),
            phase: self.phase@,
        }
    }
}

/// What a step says: what happened, and what to do next.
#[derive(Debug, PartialEq, Eq)]
pub struct TurnStep {
    pub events: Vec<TurnEvent>,
    pub action: TurnAction,
}

/// What a [`TurnStep`] stands for.
#[verifier::ext_equal]
pub struct StepView {
    pub events: Seq<EventView>,
    pub action: ActionView,
}

impl View for TurnStep {
    type V = StepView;

    open spec fn view(&self) -> StepView {
        StepView { events: event_views(self.events@), action: self.action@ }
    }
}

/// The state after a step, and what the step says.
#[verifier::ext_equal]
pub struct Outcome {
    pub g: GatewayView,
    pub t: TurnView,
    pub step: StepView,
}

/// The parts of a message that are no images.
pub open spec fn non_images(c: Seq<ContentView>) -> Seq<ContentView>
    decreases c.len(),
{
    if c.len() == 0 {
        Seq::empty()
    } else if c.last() is Image {
        non_images(c.drop_last())
    } else {
        non_images(c.drop_last()).push(c.last())
    }
}

/// Messages without their images.
pub open spec fn without_images(m: Seq<MessageView>) -> Seq<MessageView> {
    Seq::new(
        m.len(),
        |i: int| MessageView { role: m[i].role, content: non_images(m[i].content) },
    )
}

/// What becomes of messages before a provider is sent them.
pub enum Prepared {
    /// They are sent so.
    Ready { messages: Vec<Message> },
    /// The images that they name are put in first.
    NeedImages { messages: Vec<Message> },
}

/// What a [`Prepared`] stands for.
pub enum PreparedView {
    Ready { messages: Seq<MessageView> },
    NeedImages { messages: Seq<MessageView> },
}

impl View for Prepared {
    type V = PreparedView;

    open spec fn view(&self) -> PreparedView {
        match *self {
            Prepared::Ready { messages } => PreparedView::Ready {
                messages: message_views(messages@),
            },
            Prepared::NeedImages { messages } => PreparedView::NeedImages {
                messages: message_views(messages@),
            },
        }
    }
}

/// Messages on their way to a model: one that takes images gets those that the
/// messages name, any other gets none.
pub open spec fn prepared(m: Seq<MessageView>, image_input: bool) -> PreparedView {
    if image_input {
        PreparedView::NeedImages { messages: m }
    } else {
        PreparedView::Ready { messages: without_images(m) }
    }
}

/// Removes the images from messages.
pub fn strip_images_from_messages(messages: &Vec<Message>) -> (r: Vec<Message>)
    ensures
        message_views(r@) == without_images(message_views(messages@)),
{
    let ghost m = message_views(messages@);
    let mut out: Vec<Message> = Vec::new();
    for i in 0..messages.len()
        invariant
            m == message_views(messages@),
            message_views(out@) == without_images(m).take(i as int),
    {
        let ghost c = m[i as int].content;
        let mut kept: Vec<Content> = Vec::new();
        assert(content_views(kept@) =~= Seq::empty());
        let count: usize = messages[i].content.len();
        for j in 0..count
            invariant
                i < messages.len(),
                count == messages@[i as int].content@.len(),
                c == content_views(messages@[i as int].content@),
                content_views(kept@) == non_images(c.take(j as int)),
        {
            assert(c.take(j + 1).drop_last() =~= c.take(j as int));
            assert(c.take(j + 1).last() == messages@[i as int].content@[j as int]@);
            let image = match &messages[i].content[j] {
                Content::Image { .. } => true,
                _ => false,
            };
            if !image {
                let ghost before = kept@;
                let x = messages[i].content[j].clone();
                kept.push(x);
                proof {
                    content_views_push(before, x);
                }
            }
        }
        assert(c.take(count as int) =~= c);
        let ghost before = out@;
        let x = Message { role: messages[i].role, content: kept };
        out.push(x);
        proof {
            message_views_push(before, x);
            assert(message_views(out@) =~= without_images(m).take(i + 1));
        }
    }
    assert(without_images(m).take(messages.len() as int) =~= without_images(m));
    out
}

/// Prepares messages for a provider: for a model that takes images the caller
/// puts in those that the messages name, for any other all images are removed.
pub fn prepare_messages_for_provider(messages: Vec<Message>, image_input: bool) -> (r: Prepared)
    ensures
        r@ == prepared(message_views(messages@), image_input),
{
    if image_input {
        Prepared::NeedImages { messages }
    } else {
        Prepared::Ready { messages: strip_images_from_messages(&messages) }
    }
}

/// The last of the first `n` messages that is a reply without tool calls.
pub open spec fn last_reply(m: Seq<MessageView>, n: int) -> Seq<MessageView>
    decreases n,
{
    if n <= 0 {
        Seq::empty()
    } else if m[n - 1].role == Role::Assistant && !has_requests(m[n - 1]) {
        seq![m[n - 1]]
    } else {
        last_reply(m, n - 1)
    }
}

/// The final reply among the messages of a turn.
pub fn terminal_turn_messages(messages: &Vec<Message>) -> (r: Vec<Message>)
    ensures
        message_views(r@) == last_reply(message_views(messages@), messages@.len() as int),
{
    let ghost m = message_views(messages@);
    let mut out: Vec<Message> = Vec::new();
    assert(message_views(out@) =~= Seq::empty());
    let mut i: usize = messages.len();
    while i > 0
        invariant
            m == message_views(messages@),
            i <= messages.len(),
            message_views(out@) == Seq::<MessageView>::empty(),
            last_reply(m, messages@.len() as int) == last_reply(m, i as int),
        decreases i,
    {
        assert(m[i - 1] == messages@[i - 1]@);
        if messages[i - 1].role == Role::Assistant && !messages[i - 1].has_tool_requests() {
            let x = messages[i - 1].clone();
            out.push(x);
            assert(message_views(out@) =~= seq![x@]);
            return out;
        }
        i -= 1;
    }
    out
}

/// A step that sends messages to the provider: in an iteration with the tools,
/// for the summary at the limit without.
pub open spec fn sending(
    g: GatewayView,
    t: TurnView,
    events: Seq<EventView>,
    messages: Seq<MessageView>,
    with_tools: bool,
) -> Outcome {
    let phase = if with_tools {
        PhaseView::Waiting { asked: messages }
    } else {
        PhaseView::Summarizing
    };
    Outcome {
        g,
        t: TurnView { phase, ..t },
        step: StepView { events, action: ActionView::Ask { messages, with_tools } },
    }
}

/// A step towards a request: the messages of the session are sent without
/// images where the model takes none, else the images that they name are
/// loaded first.
pub open spec fn asking(
    g: GatewayView,
    t: TurnView,
    events: Seq<EventView>,
    with_tools: bool,
) -> Outcome {
    match prepared(session_context(g, t.key), t.image_input) {
        PreparedView::Ready { messages } => sending(g, t, events, messages, with_tools),
        PreparedView::NeedImages { messages } => Outcome {
            g,
            t: TurnView { phase: PhaseView::Loading { with_tools }, ..t },
            step: StepView { events, action: ActionView::LoadImages { messages } },
        },
    }
}

/// The end of a turn: its usage is recorded and the final reply handed out.
#[verifier::opaque]
pub open spec fn finished(g: GatewayView, t: TurnView, events: Seq<EventView>) -> Outcome {
    let u = g.usage_of(t.key);
    Outcome {
        g: g.with_usage(
            t.key,
            SessionUsage {
                cumulative: u.cumulative.plus(t.usage),
                last_input_tokens: u.last_input_tokens,
            },
        ),
        t: TurnView { phase: PhaseView::Ended, ..t },
        step: StepView {
            events: events.push(
                EventView::Done {
                    messages: last_reply(t.new_messages, t.new_messages.len() as int),
                    usage: t.usage,
                    hit_limit: t.hit_limit,
                },
            ),
            action: ActionView::Stop,
        },
    }
}

/// After the last iteration: waiting messages join the session, and at the
/// limit the provider is asked for a summary without tools, unless the turn
/// was cancelled.
#[verifier::opaque]
pub open spec fn wound_up(g: GatewayView, t: TurnView, events: Seq<EventView>) -> Outcome {
    let g1 = g.drained(t.key);
    if t.hit_limit && !g.cancelled(t.key) {
        let m = user_text(LIMIT_MESSAGE@);
        asking(
            g1.with_message(t.key, m),
            TurnView { new_messages: t.new_messages.push(m), ..t },
            events,
            false,
        )
    } else {
        finished(g1, t, events)
    }
}

/// The start of an iteration: unless the turn was cancelled or has no
/// iteration left, waiting messages join the session and the provider is
/// asked.
#[verifier::opaque]
pub open spec fn iterating(g: GatewayView, t: TurnView, events: Seq<EventView>) -> Outcome {
    if t.iteration >= t.max_iterations || g.cancelled(t.key) {
        wound_up(g, t, events)
    } else {
        asking(
            g.drained(t.key),
            TurnView { retried: false, ..t },
            events,
            true,
        )
    }
}

/// A user message with one tool result.
pub open spec fn result_message(c: ContentView) -> MessageView {
    MessageView { role: Role::User, content: seq![c] }
}

/// The event for a tool result.
pub open spec fn result_event(c: ContentView) -> EventView {
    EventView::ToolResult { id: c->ToolResult_id, message: result_message(c) }
}

/// The result of a tool call that was cancelled.
pub open spec fn cancelled_result(id: Seq<char>) -> ContentView {
    ContentView::ToolResult { id, output: CANCELLED_RESULT@, is_error: true }
}

/// A cancelled result for each of the first `n` calls that has no result.
pub open spec fn cancelled_results(
    calls: Seq<RequestView>,
    done: Seq<ContentView>,
    n: int,
) -> Seq<ContentView>
    decreases n,
{
    if n <= 0 {
        Seq::empty()
    } else {
        let rest = cancelled_results(calls, done, n - 1);
        if answers(done, calls[n - 1].id) {
            rest
        } else {
            rest.push(cancelled_result(calls[n - 1].id))
        }
    }
}

/// The events for tool results.
pub open spec fn result_events(c: Seq<ContentView>) -> Seq<EventView> {
    Seq::new(c.len(), |i: int| result_event(c[i]))
}

/// After the tool calls: their results join the session, where the turn was
/// cancelled with a result for every call that has none. Then the turn is
/// closed if it was cancelled, else the conversation is compacted if that is
/// due.
#[verifier::opaque]
pub open spec fn tools_done(g: GatewayView, t: TurnView, events: Seq<EventView>) -> Outcome {
    let added = if g.cancelled(t.key) {
        cancelled_results(t.calls, t.results, t.calls.len() as int)
    } else {
        Seq::empty()
    };
    let results = t.results + added;
    let events1 = events + result_events(added);
    let m = MessageView { role: Role::User, content: results };
    let t1 = TurnView {
        results,
        new_messages: if results.len() > 0 {
            t.new_messages.push(m)
        } else {
            t.new_messages
        },
        ..t
    };
    let g1 = if results.len() > 0 {
        g.with_message(t.key, m)
    } else {
        g
    };
    if g.cancelled(t.key) {
        wound_up(g1, t1, events1)
    } else {
        Outcome {
            g: g1,
            t: TurnView { phase: PhaseView::Compacting, ..t1 },
            step: StepView { events: events1, action: ActionView::Compact { force: false } },
        }
    }
}

/// The turn with the result of the call at `next`.
pub open spec fn with_result(t: TurnView, next: int, c: ContentView) -> TurnView {
    TurnView { results: t.results.push(c), phase: PhaseView::Running { next: next + 1 }, ..t }
}

/// The result of the call at `next`.
pub open spec fn call_result(
    t: TurnView,
    next: int,
    output: Seq<char>,
    is_error: bool,
) -> ContentView {
    ContentView::ToolResult { id: t.calls[next].id, output, is_error }
}

/// The tool calls from `next` on: a call of a tool that the session has is
/// made, any other gets an error as its result. A cancelled turn makes no
/// further call.
#[verifier::opaque]
pub open spec fn calling(g: GatewayView, t: TurnView, next: int, events: Seq<EventView>) -> Outcome
    decreases t.calls.len() - next,
{
    if next < 0 || next >= t.calls.len() || g.cancelled(t.key) {
        tools_done(g, t, events)
    } else {
        let c = t.calls[next];
        let events1 = events.push(EventView::ToolStart { request: c });
        if t.tools.contains(c.name) {
            Outcome {
                g,
                t: TurnView { phase: PhaseView::Running { next }, ..t },
                step: StepView { events: events1, action: ActionView::RunTool { request: c } },
            }
        } else {
            let r = call_result(t, next, UNAVAILABLE_TOOL@ + c.name, true);
            calling(g, with_result(t, next, r), next + 1, events1.push(result_event(r)))
        }
    }
}

/// A reply joins the session. One with tool calls leads to those calls, any
/// other is the final reply.
#[verifier::opaque]
pub open spec fn committed(
    g: GatewayView,
    t: TurnView,
    m: MessageView,
    events: Seq<EventView>,
) -> Outcome {
    let g1 = g.with_message(t.key, m);
    let t1 = TurnView { new_messages: t.new_messages.push(m), ..t };
    if has_requests(m) {
        calling(
            g1,
            TurnView { calls: requests_in(m.content), results: Seq::empty(), ..t1 },
            0,
            events,
        )
    } else {
        wound_up(g1, t1, events.push(EventView::AssistantMessage { message: m }))
    }
}

/// What a user is told of an error: the error itself from full trust on.
pub open spec fn told(trust: TrustLevel, error: Seq<char>) -> Seq<char> {
    if trust.rank() <= TrustLevel::Full.rank() {
        error
    } else {
        GENERIC_FAILURE@
    }
}

/// A failed turn: the session goes back to what it was before the turn.
#[verifier::opaque]
pub open spec fn rolled_back(g: GatewayView, t: TurnView, error: Seq<char>) -> Outcome {
    Outcome {
        g: g.truncated(t.key, t.start_len),
        t: TurnView { phase: PhaseView::Ended, ..t },
        step: StepView {
            events: seq![
                EventView::Error { text: told(t.trust, error) },
                EventView::Done { messages: Seq::empty(), usage: t.usage, hit_limit: false },
            ],
            action: ActionView::Stop,
        },
    }
}

/// The session after a provider call: its context size is that of the call.
pub open spec fn counted(g: GatewayView, k: KeyView, u: Usage) -> GatewayView {
    g.with_usage(
        k,
        SessionUsage { last_input_tokens: u.context_tokens(), ..g.usage_of(k) },
    )
}

/// Whether a usage reports anything.
pub open spec fn reports(u: Usage) -> bool {
    u.context_tokens() > 0 || count(u.output_tokens) > 0 || u.stop_reason is Some
}

/// The provider replied.
#[verifier::opaque]
pub open spec fn replied(
    g: GatewayView,
    t: TurnView,
    response: MessageView,
    usage: Usage,
) -> Outcome {
    let g1 = counted(g, t.key, usage);
    let t1 = TurnView { usage: t.usage.plus(usage), ..t };
    if t.phase is Summarizing {
        finished(
            g1.with_message(t.key, response),
            TurnView { new_messages: t1.new_messages.push(response), ..t1 },
            seq![EventView::AssistantMessage { message: response }],
        )
    } else if !has_requests(response) && t.policy.wants_repair(text_of(response)) {
        Outcome {
            g: g1,
            t: TurnView { phase: PhaseView::Repairing { response }, ..t1 },
            step: StepView {
                events: Seq::empty(),
                action: ActionView::AskRepair {
                    messages: t.phase->asked.push(user_text(t.policy.repair_text()->0)),
                },
            },
        }
    } else {
        committed(g1, t1, response, Seq::empty())
    }
}

/// The provider failed.
#[verifier::opaque]
pub open spec fn failing(g: GatewayView, t: TurnView, error: Seq<char>, overflow: bool) -> Outcome {
    if t.phase is Summarizing {
        finished(g, t, seq![EventView::Error { text: LIMIT_FAILED@ }])
    } else if !t.retried && overflow {
        Outcome {
            g,
            t: TurnView { phase: PhaseView::Recovering { error }, ..t },
            step: StepView { events: Seq::empty(), action: ActionView::Compact { force: true } },
        }
    } else {
        rolled_back(g, t, error)
    }
}

/// The missing reply was asked for.
#[verifier::opaque]
pub open spec fn repair_replied(g: GatewayView, t: TurnView, outcome: RepairView) -> Outcome {
    let r = repaired_reply(t.policy, t.phase->response, outcome);
    if reports(r.1) {
        committed(
            counted(g, t.key, r.1),
            TurnView { usage: t.usage.plus(r.1), ..t },
            r.0,
            Seq::empty(),
        )
    } else {
        committed(g, t, r.0, Seq::empty())
    }
}

/// A compaction is over: after an error the iteration is tried again if
/// something was compacted, else the turn has failed; after tool calls the
/// next iteration begins.
#[verifier::opaque]
pub open spec fn compaction_over(g: GatewayView, t: TurnView, compacted: bool) -> Outcome {
    match t.phase {
        PhaseView::Recovering { error } => if compacted {
            asking(g, TurnView { retried: true, ..t }, Seq::empty(), true)
        } else {
            rolled_back(g, t, error)
        },
        _ => iterating(
            g,
            TurnView {
                hit_limit: t.hit_limit || t.iteration + 1 >= t.max_iterations,
                iteration: (t.iteration + 1) as u32,
                ..t
            },
            Seq::empty(),
        ),
    }
}

/// One step of a turn.
pub open spec fn stepped(g: GatewayView, t: TurnView, input: InputView) -> Outcome {
    match input {
        InputView::Begin => iterating(g, t, Seq::empty()),
        InputView::Loaded { messages } => sending(
            g,
            t,
            Seq::empty(),
            messages,
            t.phase->with_tools,
        ),
        InputView::Reply { response, usage } => replied(g, t, response, usage),
        InputView::Failure { error, overflow } => failing(g, t, error, overflow),
        InputView::RepairReply { outcome } => repair_replied(g, t, outcome),
        InputView::ToolDone { content, is_error } => {
            let next = t.phase->next;
            let r = call_result(t, next, content, is_error);
            calling(g, with_result(t, next, r), next + 1, seq![result_event(r)])
        },
        InputView::Compacted { compacted } => compaction_over(g, t, compacted),
    }
}

/// Whether an input is what the phase of a turn waits for.
pub open spec fn awaited(t: TurnView, input: InputView) -> bool {
    match input {
        InputView::Begin => t.phase is Starting,
        InputView::Loaded { .. } => t.phase is Loading,
        InputView::Reply { .. } => t.phase is Waiting || t.phase is Summarizing,
        InputView::Failure { .. } => t.phase is Waiting || t.phase is Summarizing,
        InputView::RepairReply { .. } => t.phase is Repairing,
        InputView::ToolDone { .. } => t.phase is Running,
        InputView::Compacted { .. } => t.phase is Compacting || t.phase is Recovering,
    }
}

/// Whether the counters of a turn fit its phase.
pub open spec fn in_order(t: TurnView) -> bool {
    &&& t.phase is Waiting || t.phase is Repairing || t.phase is Recovering || t.phase is Running
        || t.phase is Compacting ==> t.iteration < t.max_iterations
    &&& t.phase matches PhaseView::Loading { with_tools } ==> (with_tools ==> t.iteration
        < t.max_iterations)
    &&& t.phase matches PhaseView::Running { next } ==> 0 <= next < t.calls.len()
    &&& t.phase matches PhaseView::Repairing { response } ==> t.policy.repair_text() is Some
}

/// Whether the state after a step, and what the step says, are those of an
/// outcome.
pub open spec fn yields(g: Gateway, t: Turn, r: TurnStep, o: Outcome) -> bool {
    g@ == o.g && t@ == o.t && r@ == o.step
}

fn push_event(events: &mut Vec<TurnEvent>, e: TurnEvent)
    ensures
        event_views(final(events)@) == event_views(old(events)@).push(e@),
{
    events.push(e);
    assert(event_views(events@) =~= event_views(old(events)@).push(e@));
}

fn result_event_of(id: &str, output: &str, is_error: bool) -> (r: TurnEvent)
    ensures
        r@ == result_event(ContentView::ToolResult { id: id@, output: output@, is_error }),
{
    let m = Message::user();
    assert(m@.content =~= Seq::empty());
    let message = m.with_tool_result(id, output, is_error);
    assert(message@ =~= result_message(
        ContentView::ToolResult { id: id@, output: output@, is_error },
    ));
    TurnEvent::ToolResult { id: id.to_owned(), message }
}

impl Turn {
    /// Opens a turn: the message joins the session.
    pub fn open(
        g: &mut Gateway,
        key: SessionKey,
        message: Message,
        trust: TrustLevel,
        policy: FinalReplyPolicy,
        tools: Vec<String>,
        image_input: bool,
        max_iterations: u32,
    ) -> (r: Turn)
        requires
            old(g).wf(),
        ensures
            final(g).wf(),
            final(g).same_buffers(old(g)),
            final(g)@ == old(g)@.with_message(key@, message@),
            in_order(r@),
            r@ == (TurnView {
                key: key@,
                trust,
                policy,
                tools: views(tools@),
                image_input,
                max_iterations,
                start_len: old(g)@.history(key@).len() as usize,
                iteration: 0,
                retried: false,
                usage: Usage::zero(),
                new_messages: Seq::empty(),
                hit_limit: false,
                calls: Seq::empty(),
                results: Seq::empty(),
                phase: PhaseView::Starting,
            }),
            r.start_len == old(g)@.history(key@).len(),
    {
        let start_len: usize = g.session_message_count(&key);
        g.append_message(&key, message);
        let r = Turn {
            key,
            trust,
            policy,
            tools,
            image_input,
            max_iterations,
            start_len,
            iteration: 0,
            retried: false,
            usage: Usage::none(),
            new_messages: Vec::new(),
            hit_limit: false,
            calls: Vec::new(),
            results: Vec::new(),
            phase: Phase::Starting,
        };
        assert(r@.new_messages =~= Seq::empty());
        assert(r@.calls =~= Seq::empty());
        assert(r@.results =~= Seq::empty());
        r
    }

    fn send(
        &mut self,
        g: &Gateway,
        messages: Vec<Message>,
        events: Vec<TurnEvent>,
        with_tools: bool,
    ) -> (r: TurnStep)
        ensures
            yields(
                *g,
                *final(self),
                r,
                sending(
                    g@,
                    old(self)@,
                    event_views(events@),
                    message_views(messages@),
                    with_tools,
                ),
            ),
    {
        if with_tools {
            let asked = copy_messages(messages.as_slice(), 0, messages.len());
            assert(message_views(messages@).subrange(0, messages@.len() as int) =~= message_views(
                messages@,
            ));
            self.phase = Phase::Waiting { asked };
        } else {
            self.phase = Phase::Summarizing;
        }
        TurnStep { events, action: TurnAction::Ask { messages, with_tools } }
    }

    fn ask(&mut self, g: &mut Gateway, events: Vec<TurnEvent>, with_tools: bool) -> (r: TurnStep)
        requires
            old(g).wf(),
        ensures
            final(g).wf(),
            final(g).same_buffers(old(g)),
            yields(
                *final(g),
                *final(self),
                r,
                asking(old(g)@, old(self)@, event_views(events@), with_tools),
            ),
    {
        let context = compaction_context(g, &self.key);
        match prepare_messages_for_provider(context, self.image_input) {
            Prepared::Ready { messages } => self.send(g, messages, events, with_tools),
            Prepared::NeedImages { messages } => {
                self.phase = Phase::Loading { with_tools };
                TurnStep { events, action: TurnAction::LoadImages { messages } }
            },
        }
    }

    fn finish(&mut self, g: &mut Gateway, events: Vec<TurnEvent>) -> (r: TurnStep)
        requires
            old(g).wf(),
        ensures
            final(g).wf(),
            final(g).same_buffers(old(g)),
            yields(
                *final(g),
                *final(self),
                r,
                finished(old(g)@, old(self)@, event_views(events@)),
            ),
    {
        proof {
            reveal(finished);
        }
        g.record_turn_usage(&self.key, &self.usage);
        let messages = terminal_turn_messages(&self.new_messages);
        let mut events = events;
        push_event(
            &mut events,
            TurnEvent::Done { messages, usage: self.usage.clone(), hit_limit: self.hit_limit },
        );
        self.phase = Phase::Ended;
        TurnStep { events, action: TurnAction::Stop }
    }

    fn add_new_message(&mut self, m: Message)
        ensures
            final(self)@ == (TurnView {
                new_messages: old(self)@.new_messages.push(m@),
                ..old(self)@
            }),
    {
        let ghost before = self.new_messages@;
        self.new_messages.push(m);
        proof {
            message_views_push(before, m);
        }
    }

    fn close(&mut self, g: &mut Gateway, events: Vec<TurnEvent>) -> (r: TurnStep)
        requires
            old(g).wf(),
        ensures
            final(g).wf(),
            final(g).same_buffers(old(g)),
            yields(
                *final(g),
                *final(self),
                r,
                wound_up(old(g)@, old(self)@, event_views(events@)),
            ),
    {
        proof {
            reveal(wound_up);
        }
        let cancelled = g.is_cancelled(&self.key);
        g.drain_pending_inbound(&self.key);
        if self.hit_limit && !cancelled {
            let m = Message::user_saying(LIMIT_MESSAGE);
            g.append_message(&self.key, m.clone());
            self.add_new_message(m);
            self.ask(g, events, false)
        } else {
            self.finish(g, events)
        }
    }

    fn iterate(&mut self, g: &mut Gateway, events: Vec<TurnEvent>) -> (r: TurnStep)
        requires
            old(g).wf(),
        ensures
            final(g).wf(),
            final(g).same_buffers(old(g)),
            yields(
                *final(g),
                *final(self),
                r,
                iterating(old(g)@, old(self)@, event_views(events@)),
            ),
    {
        proof {
            reveal(iterating);
        }
        if self.iteration >= self.max_iterations || g.is_cancelled(&self.key) {
            return self.close(g, events);
        }
        g.drain_pending_inbound(&self.key);
        self.retried = false;
        self.ask(g, events, true)
    }

    fn finish_tools(&mut self, g: &mut Gateway, events: Vec<TurnEvent>) -> (r: TurnStep)
        requires
            old(g).wf(),
        ensures
            final(g).wf(),
            final(g).same_buffers(old(g)),
            yields(
                *final(g),
                *final(self),
                r,
                tools_done(old(g)@, old(self)@, event_views(events@)),
            ),
    {
        proof {
            reveal(tools_done);
        }
        let cancelled = g.is_cancelled(&self.key);
        let ghost start = self@;
        let ghost done = self@.results;
        let ghost events0 = event_views(events@);
        let mut events = events;
        let mut added: Vec<Content> = Vec::new();
        assert(content_views(added@) =~= Seq::empty());
        assert(events0 + result_events(content_views(added@)) =~= events0);
        if cancelled {
            for i in 0..self.calls.len()
                invariant
                    start == self@,
                    done == content_views(self.results@),
                    content_views(added@) == cancelled_results(start.calls, done, i as int),
                    event_views(events@) == events0 + result_events(content_views(added@)),
            {
                assert(start.calls[i as int].id == self.calls@[i as int].id@);
                if !has_result_for(&self.results, self.calls[i].id.as_str()) {
                    let ghost before = added@;
                    let x = Content::tool_result(self.calls[i].id.as_str(), CANCELLED_RESULT, true);
                    added.push(x);
                    push_event(
                        &mut events,
                        result_event_of(self.calls[i].id.as_str(), CANCELLED_RESULT, true),
                    );
                    proof {
                        content_views_push(before, x);
                        assert(result_events(content_views(added@)) =~= result_events(
                            content_views(before),
                        ).push(result_event(x@)));
                        assert(event_views(events@) =~= events0 + result_events(
                            content_views(added@),
                        ));
                    }
                }
            }
        }
        let ghost a = self.results@;
        let ghost b = added@;
        self.results.append(&mut added);
        assert(self.results@ =~= a + b);
        assert(self@.results =~= done + content_views(b));
        if self.results.len() > 0 {
            let m = Message { role: Role::User, content: copy_content(&self.results) };
            g.append_message(&self.key, m.clone());
            self.add_new_message(m);
        }
        if cancelled {
            self.close(g, events)
        } else {
            self.phase = Phase::Compacting;
            TurnStep { events, action: TurnAction::Compact { force: false } }
        }
    }

    fn add_result(&mut self, next: usize, output: &str, is_error: bool)
        requires
            next < old(self).calls@.len(),
        ensures
            final(self)@ == with_result(
                old(self)@,
                next as int,
                call_result(old(self)@, next as int, output@, is_error),
            ),
            final(self).calls@ == old(self).calls@,
    {
        let ghost before = self.results@;
        let n: usize = self.calls.len();
        let x = Content::tool_result(self.calls[next].id.as_str(), output, is_error);
        self.results.push(x);
        self.phase = Phase::Running { next: next + 1 };
        proof {
            content_views_push(before, x);
        }
    }

    fn call_tools(&mut self, g: &mut Gateway, from: usize, events: Vec<TurnEvent>) -> (r: TurnStep)
        requires
            old(g).wf(),
            from <= old(self).calls@.len(),
        ensures
            final(g).wf(),
            final(g).same_buffers(old(g)),
            yields(
                *final(g),
                *final(self),
                r,
                calling(old(g)@, old(self)@, from as int, event_views(events@)),
            ),
    {
        let ghost g0 = g@;
        let ghost goal = calling(g@, self@, from as int, event_views(events@));
        let mut log = events;
        let mut next: usize = from;
        while next < self.calls.len() && !g.is_cancelled(&self.key)
            invariant
                g.wf(),
                g@ == g0,
                g.same_buffers(old(g)),
                next <= self.calls@.len(),
                goal == calling(old(g)@, old(self)@, from as int, event_views(events@)),
                goal == calling(g@, self@, next as int, event_views(log@)),
            decreases self.calls@.len() - next,
        {
            reveal(calling);
            let request = self.calls[next].clone();
            assert(self@.calls[next as int] == request@);
            push_event(&mut log, TurnEvent::ToolStart { request: request.clone() });
            if holds_text(&self.tools, request.name.as_str()) {
                self.phase = Phase::Running { next };
                return TurnStep { events: log, action: TurnAction::RunTool { request } };
            }
            let output = cat2(UNAVAILABLE_TOOL, request.name.as_str());
            self.add_result(next, output.as_str(), true);
            push_event(
                &mut log,
                result_event_of(request.id.as_str(), output.as_str(), true),
            );
            next += 1;
        }
        reveal(calling);
        self.finish_tools(g, log)
    }

    fn commit(&mut self, g: &mut Gateway, m: Message, events: Vec<TurnEvent>) -> (r: TurnStep)
        requires
            old(g).wf(),
        ensures
            final(g).wf(),
            final(g).same_buffers(old(g)),
            yields(
                *final(g),
                *final(self),
                r,
                committed(old(g)@, old(self)@, m@, event_views(events@)),
            ),
    {
        proof {
            reveal(committed);
        }
        g.append_message(&self.key, m.clone());
        self.add_new_message(m.clone());
        if m.has_tool_requests() {
            self.calls = m.tool_requests();
            self.results = Vec::new();
            assert(self@.results =~= Seq::empty());
            self.call_tools(g, 0, events)
        } else {
            let mut events = events;
            push_event(&mut events, TurnEvent::AssistantMessage { message: m });
            self.close(g, events)
        }
    }

    fn roll_back(&mut self, g: &mut Gateway, error: &str) -> (r: TurnStep)
        requires
            old(g).wf(),
        ensures
            final(g).wf(),
            final(g).same_buffers(old(g)),
            yields(*final(g), *final(self), r, rolled_back(old(g)@, old(self)@, error@)),
    {
        proof {
            reveal(rolled_back);
        }
        g.truncate_session(&self.key, self.start_len);
        let text = if self.trust.at_least(TrustLevel::Full) {
            error.to_owned()
        } else {
            GENERIC_FAILURE.to_owned()
        };
        let mut events: Vec<TurnEvent> = Vec::new();
        assert(event_views(events@) =~= Seq::empty());
        push_event(&mut events, TurnEvent::Error { text });
        let messages: Vec<Message> = Vec::new();
        assert(message_views(messages@) =~= Seq::empty());
        push_event(
            &mut events,
            TurnEvent::Done { messages, usage: self.usage.clone(), hit_limit: false },
        );
        self.phase = Phase::Ended;
        let r = TurnStep { events, action: TurnAction::Stop };
        assert(r@.events =~= rolled_back(old(g)@, old(self)@, error@).step.events);
        r
    }

    fn take_reply(&mut self, g: &mut Gateway, response: Message, usage: Usage) -> (r: TurnStep)
        requires
            old(g).wf(),
            old(self)@.phase is Waiting || old(self)@.phase is Summarizing,
        ensures
            final(g).wf(),
            final(g).same_buffers(old(g)),
            yields(*final(g), *final(self), r, replied(old(g)@, old(self)@, response@, usage)),
    {
        proof {
            reveal(replied);
        }
        g.update_last_input_tokens(&self.key, &usage);
        self.usage.add_usage(&usage);
        let mut events: Vec<TurnEvent> = Vec::new();
        assert(event_views(events@) =~= Seq::empty());
        let summarizing = match &self.phase {
            Phase::Summarizing => true,
            _ => false,
        };
        if summarizing {
            g.append_message(&self.key, response.clone());
            self.add_new_message(response.clone());
            push_event(&mut events, TurnEvent::AssistantMessage { message: response });
            assert(event_views(events@) =~= seq![
                EventView::AssistantMessage { message: response@ },
            ]);
            return self.finish(g, events);
        }
        let text = response.text();
        if !response.has_tool_requests() && self.policy.needs_repair(text.as_str()) {
            let mut messages = match &self.phase {
                Phase::Waiting { asked } => {
                    let m = copy_messages(asked.as_slice(), 0, asked.len());
                    assert(message_views(asked@).subrange(0, asked@.len() as int)
                        =~= message_views(asked@));
                    m
                },
                _ => Vec::new(),
            };
            if let Some(prompt) = self.policy.repair_prompt() {
                let ghost before = messages@;
                let m = Message::user_saying(prompt.as_str());
                messages.push(m);
                proof {
                    message_views_push(before, m);
                }
            }
            self.phase = Phase::Repairing { response };
            return TurnStep { events, action: TurnAction::AskRepair { messages } };
        }
        self.commit(g, response, events)
    }

    fn take_failure(&mut self, g: &mut Gateway, error: String, overflow: bool) -> (r: TurnStep)
        requires
            old(g).wf(),
        ensures
            final(g).wf(),
            final(g).same_buffers(old(g)),
            yields(*final(g), *final(self), r, failing(old(g)@, old(self)@, error@, overflow)),
    {
        proof {
            reveal(failing);
        }
        let mut events: Vec<TurnEvent> = Vec::new();
        assert(event_views(events@) =~= Seq::empty());
        let summarizing = match &self.phase {
            Phase::Summarizing => true,
            _ => false,
        };
        if summarizing {
            push_event(&mut events, TurnEvent::Error { text: LIMIT_FAILED.to_owned() });
            assert(event_views(events@) =~= seq![EventView::Error { text: LIMIT_FAILED@ }]);
            self.finish(g, events)
        } else if !self.retried && overflow {
            self.phase = Phase::Recovering { error };
            TurnStep { events, action: TurnAction::Compact { force: true } }
        } else {
            self.roll_back(g, error.as_str())
        }
    }

    fn take_repair(&mut self, g: &mut Gateway, outcome: RepairOutcome) -> (r: TurnStep)
        requires
            old(g).wf(),
            old(self)@.phase is Repairing,
        ensures
            final(g).wf(),
            final(g).same_buffers(old(g)),
            yields(*final(g), *final(self), r, repair_replied(old(g)@, old(self)@, outcome@)),
    {
        proof {
            reveal(repair_replied);
        }
        let events: Vec<TurnEvent> = Vec::new();
        assert(event_views(events@) =~= Seq::empty());
        let original = match &self.phase {
            Phase::Repairing { response } => response.clone(),
            _ => Message::assistant(),
        };
        let (m, u) = repair_terminal_reply(self.policy, original, outcome);
        if u.context_input_tokens() > 0 || count_of(u.output_tokens) > 0 || u.stop_reason.is_some() {
            g.update_last_input_tokens(&self.key, &u);
            self.usage.add_usage(&u);
        }
        self.commit(g, m, events)
    }

    fn take_tool_result(&mut self, g: &mut Gateway, content: String, is_error: bool) -> (r: TurnStep)
        requires
            old(g).wf(),
            in_order(old(self)@),
            old(self)@.phase is Running,
        ensures
            final(g).wf(),
            final(g).same_buffers(old(g)),
            yields(
                *final(g),
                *final(self),
                r,
                stepped(old(g)@, old(self)@, InputView::ToolDone { content: content@, is_error }),
            ),
    {
        let mut events: Vec<TurnEvent> = Vec::new();
        assert(event_views(events@) =~= Seq::empty());
        let next: usize = match &self.phase {
            Phase::Running { next } => *next,
            _ => 0,
        };
        assert(self@.calls[next as int].id == self.calls@[next as int].id@);
        let event = result_event_of(self.calls[next].id.as_str(), content.as_str(), is_error);
        push_event(&mut events, event);
        self.add_result(next, content.as_str(), is_error);
        assert(event_views(events@) =~= seq![event@]);
        self.call_tools(g, next + 1, events)
    }

    fn take_compaction(&mut self, g: &mut Gateway, compacted: bool) -> (r: TurnStep)
        requires
            old(g).wf(),
            old(self)@.iteration < old(self)@.max_iterations,
        ensures
            final(g).wf(),
            final(g).same_buffers(old(g)),
            yields(*final(g), *final(self), r, compaction_over(old(g)@, old(self)@, compacted)),
    {
        proof {
            reveal(compaction_over);
        }
        let events: Vec<TurnEvent> = Vec::new();
        assert(event_views(events@) =~= Seq::empty());
        let error = match &self.phase {
            Phase::Recovering { error } => Some(error.clone()),
            _ => None,
        };
        match error {
            Some(error) => if compacted {
                self.retried = true;
                self.ask(g, events, true)
            } else {
                self.roll_back(g, error.as_str())
            },
            None => {
                if self.iteration + 1 >= self.max_iterations {
                    self.hit_limit = true;
                }
                self.iteration = self.iteration + 1;
                self.iterate(g, events)
            },
        }
    }

    /// Takes in what came of the last action, and says what to do next.
    pub fn step(&mut self, g: &mut Gateway, input: TurnInput) -> (r: TurnStep)
        requires
            old(g).wf(),
            in_order(old(self)@),
            awaited(old(self)@, input@),
        ensures
            final(g).wf(),
            final(g).same_buffers(old(g)),
            yields(*final(g), *final(self), r, stepped(old(g)@, old(self)@, input@)),
            in_order(final(self)@),
    {
        proof {
            step_keeps_order(g@, self@, input@);
        }
        match input {
            TurnInput::Begin => {
                let events: Vec<TurnEvent> = Vec::new();
                assert(event_views(events@) =~= Seq::empty());
                self.iterate(g, events)
            },
            TurnInput::Loaded { messages } => {
                let events: Vec<TurnEvent> = Vec::new();
                assert(event_views(events@) =~= Seq::empty());
                let with_tools = match &self.phase {
                    Phase::Loading { with_tools } => *with_tools,
                    _ => false,
                };
                self.send(g, messages, events, with_tools)
            },
            TurnInput::Reply { response, usage } => self.take_reply(g, response, usage),
            TurnInput::Failure { error, overflow } => self.take_failure(g, error, overflow),
            TurnInput::RepairReply { outcome } => self.take_repair(g, outcome),
            TurnInput::ToolDone { content, is_error } => self.take_tool_result(
                g,
                content,
                is_error,
            ),
            TurnInput::Compacted { compacted } => self.take_compaction(g, compacted),
        }
    }
}

proof fn calling_keeps_order(g: GatewayView, t: TurnView, next: int, events: Seq<EventView>)
    requires
        t.iteration < t.max_iterations,
        0 <= next <= t.calls.len(),
    ensures
        in_order(calling(g, t, next, events).t),
    decreases t.calls.len() - next,
{
    reveal(calling);
    tools_done_keeps_order(g, t, events);
    if next < t.calls.len() && !g.cancelled(t.key) {
        let c = t.calls[next];
        if !t.tools.contains(c.name) {
            let r = call_result(t, next, UNAVAILABLE_TOOL@ + c.name, true);
            calling_keeps_order(
                g,
                with_result(t, next, r),
                next + 1,
                events.push(EventView::ToolStart { request: c }).push(result_event(r)),
            );
        }
    }
}

proof fn close_keeps_order(g: GatewayView, t: TurnView, events: Seq<EventView>)
    ensures
        in_order(wound_up(g, t, events).t),
        in_order(iterating(g, t, events).t),
        in_order(finished(g, t, events).t),
{
    reveal(wound_up);
    reveal(iterating);
    reveal(finished);
}

proof fn tools_done_keeps_order(g: GatewayView, t: TurnView, events: Seq<EventView>)
    requires
        t.iteration < t.max_iterations,
    ensures
        in_order(tools_done(g, t, events).t),
{
    reveal(tools_done);
    reveal(wound_up);
    reveal(finished);
}

/// A step leaves the counters of a turn in order.
pub proof fn step_keeps_order(g: GatewayView, t: TurnView, input: InputView)
    requires
        in_order(t),
        awaited(t, input),
    ensures
        in_order(stepped(g, t, input).t),
{
    reveal(rolled_back);
    match input {
        InputView::Begin => {
            close_keeps_order(g, t, Seq::empty());
        },
        InputView::Loaded { messages } => {},
        InputView::Reply { response, usage } => {
            reveal(replied);
            reveal(finished);
            let g1 = counted(g, t.key, usage);
            let t1 = TurnView { usage: t.usage.plus(usage), ..t };
            commit_keeps_order(g1, t1, response);
        },
        InputView::Failure { error, overflow } => {
            reveal(failing);
            reveal(finished);
        },
        InputView::Compacted { compacted } => {
            reveal(compaction_over);
            reveal(iterating);
            reveal(wound_up);
            reveal(finished);
        },
        InputView::RepairReply { outcome } => {
            reveal(repair_replied);
            let r = repaired_reply(t.policy, t.phase->response, outcome);
            commit_keeps_order(
                counted(g, t.key, r.1),
                TurnView { usage: t.usage.plus(r.1), ..t },
                r.0,
            );
            commit_keeps_order(g, t, r.0);
        },
        InputView::ToolDone { content, is_error } => {
            let next = t.phase->next;
            let r = call_result(t, next, content, is_error);
            calling_keeps_order(g, with_result(t, next, r), next + 1, seq![result_event(r)]);
        },
    }
}

proof fn commit_keeps_order(g: GatewayView, t: TurnView, m: MessageView)
    requires
        t.iteration < t.max_iterations || t.phase is Summarizing,
    ensures
        t.iteration < t.max_iterations ==> in_order(committed(g, t, m, Seq::empty()).t),
{
    reveal(committed);
    if t.iteration < t.max_iterations {
        let g1 = g.with_message(t.key, m);
        close_keeps_order(
            g1,
            TurnView { new_messages: t.new_messages.push(m), ..t },
            Seq::<EventView>::empty().push(EventView::AssistantMessage { message: m }),
        );
        let t1 = TurnView {
            new_messages: t.new_messages.push(m),
            calls: requests_in(m.content),
            results: Seq::empty(),
            ..t
        };
        calling_keeps_order(g1, t1, 0, Seq::empty());
    }
}

} // verus!
