//! Calls of a provider: when a failed call is tried again, when streaming
//! gives way to a plain call, and what a stream adds up to.
use vstd::prelude::*;

use crate::config::StreamPolicy;
use crate::final_reply::FinalReplyPolicy;
use crate::message::{assistant_text, has_requests, text_of, Message, MessageView, Role};
use crate::text::{
    cat5, contains_text, has_text, is_blank, lower_ascii, opt_view, same_text, to_lower_ascii,
    trimmed,
};
use crate::usage::Usage;

verus! {

/// How often a stream is tried again before its first output.
pub const MAX_EARLY_STREAM_RETRIES: u32 = 2;

/// The wait before the first retry of a stream, in milliseconds.
pub const EARLY_STREAM_RETRY_BASE_BACKOFF_MS: u64 = 200;

/// How often a plain call is tried again.
pub const MAX_EARLY_NON_STREAM_RETRIES: u32 = 3;

/// The wait before the first retry of a plain call, in milliseconds.
pub const EARLY_NON_STREAM_RETRY_BASE_BACKOFF_MS: u64 = 200;

/// Two to the `n`.
pub open spec fn doublings(n: nat) -> nat
    decreases n,
{
    if n == 0 {
        1
    } else {
        2 * doublings((n - 1) as nat)
    }
}

/// The wait before the retry after attempt `attempt`: it doubles with every
/// attempt, up to the eighth.
pub open spec fn backoff(base: nat, attempt: u32) -> nat {
    base * doublings(if attempt < 8 { attempt as nat } else { 8 })
}

proof fn doublings_bound(n: nat)
    requires
        n <= 8,
    ensures
        doublings(n) <= 256,
{
    reveal_with_fuel(doublings, 9);
}

fn double_up(base: u64, attempt: u32) -> (r: u64)
    requires
        base <= 1000,
    ensures
        r == backoff(base as nat, attempt),
{
    let steps: u32 = if attempt < 8 {
        attempt
    } else {
        8
    };
    let mut factor: u64 = 1;
    for i in 0..steps
        invariant
            steps <= 8,
            factor == doublings(i as nat),
    {
        proof {
            doublings_bound(i as nat);
        }
        factor = factor * 2;
    }
    proof {
        doublings_bound(steps as nat);
        assert(base * factor <= 1000 * 256) by (nonlinear_arith)
            requires
                base <= 1000,
                factor <= 256,
        ;
    }
    base * factor
}

/// The wait before a stream is tried again, in milliseconds.
pub fn early_stream_retry_backoff(attempt: u32) -> (r: u64)
    ensures
        r == backoff(EARLY_STREAM_RETRY_BASE_BACKOFF_MS as nat, attempt),
{
    double_up(EARLY_STREAM_RETRY_BASE_BACKOFF_MS, attempt)
}

/// The wait before a plain call is tried again, in milliseconds.
pub fn early_non_stream_retry_backoff(attempt: u32) -> (r: u64)
    ensures
        r == backoff(EARLY_NON_STREAM_RETRY_BASE_BACKOFF_MS as nat, attempt),
{
    double_up(EARLY_NON_STREAM_RETRY_BASE_BACKOFF_MS, attempt)
}

/// A duration of whole seconds and nanoseconds in milliseconds, at most the
/// largest `u64`.
pub fn duration_to_millis_u64(seconds: u64, nanoseconds: u32) -> (r: u64)
    ensures
        ({
            let ms = seconds * 1000 + nanoseconds / 1_000_000;
            r == (if ms > u64::MAX {
                u64::MAX as int
            } else {
                ms
            })
        }),
{
    let ms: u128 = seconds as u128 * 1000 + (nanoseconds / 1_000_000) as u128;
    if ms > u64::MAX as u128 {
        u64::MAX
    } else {
        ms as u64
    }
}

/// Whether the text of an error says that the connection failed.
pub open spec fn transient(error: Seq<char>) -> bool {
    let t = lower_ascii(error);
    ||| has_text(t, "error sending request for url"@)
    ||| has_text(t, "connection reset"@)
    ||| has_text(t, "connection closed"@)
    ||| has_text(t, "connection terminated"@)
    ||| has_text(t, "network connection lost"@)
    ||| has_text(t, "network error"@)
    ||| has_text(t, "remote protocol error"@)
    ||| has_text(t, "peer closed"@)
    ||| has_text(t, "broken pipe"@)
    ||| has_text(t, "unexpected eof"@)
    ||| has_text(t, "timed out"@)
    ||| has_text(t, "timeout"@)
    ||| has_text(t, "deadline has elapsed"@)
    ||| has_text(t, "body write aborted"@)
}

/// Whether an error says that the connection failed.
pub fn is_transient_transport_error(error: &str) -> (r: bool)
    ensures
        r == transient(error@),
{
    let lower = to_lower_ascii(error);
    let t = lower.as_str();
    contains_text(t, "error sending request for url") || contains_text(t, "connection reset")
        || contains_text(t, "connection closed") || contains_text(t, "connection terminated")
        || contains_text(t, "network connection lost") || contains_text(t, "network error")
        || contains_text(t, "remote protocol error") || contains_text(t, "peer closed")
        || contains_text(t, "broken pipe") || contains_text(t, "unexpected eof") || contains_text(
        t,
        "timed out",
    ) || contains_text(t, "timeout") || contains_text(t, "deadline has elapsed") || contains_text(
        t,
        "body write aborted",
    )
}

/// A call of a provider on its way.
#[derive(Clone, Copy, Debug, PartialEq, Eq, Structural)]
pub struct AssistantCall {
    pub streaming: bool,
    pub policy: StreamPolicy,
    /// The attempts that failed before this one, of this kind of call.
    pub attempt: u32,
}

/// What a failed call leads to.
#[derive(Clone, Copy, Debug, PartialEq, Eq, Structural)]
pub enum CallDecision {
    /// The error stands.
    Fail,
    /// The same call again after a wait.
    Retry { backoff_ms: u64 },
    /// A plain call in place of the stream.
    FallBack,
}

/// What a failed call leads to. An error after the first output of a stream
/// stands, and so does one that calls for compaction. A failed connection is
/// tried again a few times. Then a stream gives way to a plain call, unless
/// streaming is required.
pub open spec fn call_decision(
    call: AssistantCall,
    saw_output: bool,
    overflow: bool,
    error: Seq<char>,
) -> CallDecision {
    if overflow || (call.streaming && saw_output) {
        CallDecision::Fail
    } else if call.streaming {
        if transient(error) && call.attempt < MAX_EARLY_STREAM_RETRIES {
            CallDecision::Retry {
                backoff_ms: backoff(EARLY_STREAM_RETRY_BASE_BACKOFF_MS as nat, call.attempt) as u64,
            }
        } else if call.policy == StreamPolicy::Require {
            CallDecision::Fail
        } else {
            CallDecision::FallBack
        }
    } else if transient(error) && call.attempt < MAX_EARLY_NON_STREAM_RETRIES {
        CallDecision::Retry {
            backoff_ms: backoff(EARLY_NON_STREAM_RETRY_BASE_BACKOFF_MS as nat, call.attempt) as u64,
        }
    } else {
        CallDecision::Fail
    }
}

/// The call that follows a decision.
pub open spec fn next_call(call: AssistantCall, d: CallDecision) -> AssistantCall {
    match d {
        CallDecision::Fail => call,
        CallDecision::Retry { .. } => AssistantCall { attempt: (call.attempt + 1) as u32, ..call },
        CallDecision::FallBack => AssistantCall { streaming: false, attempt: 0, ..call },
    }
}

/// How many more calls can follow a call.
pub open spec fn calls_left(call: AssistantCall) -> int {
    if call.streaming {
        (if call.attempt < MAX_EARLY_STREAM_RETRIES {
            MAX_EARLY_STREAM_RETRIES - call.attempt
        } else {
            0
        }) + 1 + MAX_EARLY_NON_STREAM_RETRIES
    } else if call.attempt < MAX_EARLY_NON_STREAM_RETRIES {
        MAX_EARLY_NON_STREAM_RETRIES - call.attempt
    } else {
        0
    }
}

impl AssistantCall {
    /// Starts a call: it streams where the provider can and the policy lets
    /// it. Fails where streaming is required and the provider cannot.
    pub fn start(
        policy: StreamPolicy,
        supports_streaming: bool,
        provider: &str,
        model: &str,
    ) -> (r: Result<AssistantCall, String>)
        ensures
            match r {
                Ok(call) => !(policy == StreamPolicy::Require && !supports_streaming) && call == (
                AssistantCall {
                    streaming: supports_streaming && policy != StreamPolicy::Disable,
                    policy,
                    attempt: 0,
                }),
                Err(e) => policy == StreamPolicy::Require && !supports_streaming && e@
                    == "provider '"@ + provider@
                    + "' does not support stream_policy=require for model '"@ + model@ + "'"@,
            },
    {
        if policy == StreamPolicy::Require && !supports_streaming {
            return Err(
                cat5(
                    "provider '",
                    provider,
                    "' does not support stream_policy=require for model '",
                    model,
                    "'",
                ),
            );
        }
        Ok(
            AssistantCall {
                streaming: supports_streaming && policy != StreamPolicy::Disable,
                policy,
                attempt: 0,
            },
        )
    }

    /// Decides what follows a failed call. `overflow` says whether the error
    /// calls for compaction.
    pub fn failed(&mut self, saw_output: bool, overflow: bool, error: &str) -> (r: CallDecision)
        ensures
            r == call_decision(*old(self), saw_output, overflow, error@),
            *final(self) == next_call(*old(self), r),
    {
        if overflow || (self.streaming && saw_output) {
            return CallDecision::Fail;
        }
        let again = is_transient_transport_error(error);
        if self.streaming {
            if again && self.attempt < MAX_EARLY_STREAM_RETRIES {
                let backoff_ms: u64 = early_stream_retry_backoff(self.attempt);
                self.attempt = self.attempt + 1;
                CallDecision::Retry { backoff_ms }
            } else if self.policy == StreamPolicy::Require {
                CallDecision::Fail
            } else {
                self.streaming = false;
                self.attempt = 0;
                CallDecision::FallBack
            }
        } else if again && self.attempt < MAX_EARLY_NON_STREAM_RETRIES {
            let backoff_ms: u64 = early_non_stream_retry_backoff(self.attempt);
            self.attempt = self.attempt + 1;
            CallDecision::Retry { backoff_ms }
        } else {
            CallDecision::Fail
        }
    }
}

/// Every retry and every fallback leaves fewer calls, so a provider is called
/// at most seven times for one reply.
pub proof fn retries_are_bounded(
    call: AssistantCall,
    saw_output: bool,
    overflow: bool,
    error: Seq<char>,
)
    ensures
        ({
            let d = call_decision(call, saw_output, overflow, error);
            d != CallDecision::Fail ==> 0 <= calls_left(next_call(call, d)) < calls_left(call)
        }),
        call.attempt == 0 ==> calls_left(call) <= 6,
{
}

/// Where streaming is required, no plain call takes the place of a stream.
pub proof fn required_stream_never_falls_back(
    call: AssistantCall,
    saw_output: bool,
    overflow: bool,
    error: Seq<char>,
)
    requires
        call.policy == StreamPolicy::Require,
        call.streaming,
    ensures
        ({
            let d = call_decision(call, saw_output, overflow, error);
            d != CallDecision::FallBack && next_call(call, d).streaming
        }),
{
}

/// What a stream has brought so far.
#[derive(Debug, PartialEq, Eq)]
pub struct StreamState {
    pub response: Message,
    pub usage: Usage,
    pub saw_output: bool,
}

impl StreamState {
    /// Nothing yet.
    pub fn new() -> (r: StreamState)
        ensures
            r.response.role == Role::Assistant,
            r.response.content@.len() == 0,
            r.usage == Usage::zero(),
            !r.saw_output,
    {
        StreamState { response: Message::assistant(), usage: Usage::none(), saw_output: false }
    }

    /// Takes in one item of the stream. An item with a message and a usage is
    /// the whole response; a message alone is a piece of text, which is
    /// returned unless it is empty.
    pub fn accept(&mut self, message: Option<Message>, usage: Option<Usage>) -> (r: Option<String>)
        ensures
            final(self).saw_output == (old(self).saw_output || message is Some || usage is Some),
            match (message, usage) {
                (Some(m), Some(u)) => final(self).response == m && final(self).usage == old(
                    self,
                ).usage.plus(u) && r is None,
                (Some(m), None) => final(self).response == old(self).response && final(self).usage
                    == old(self).usage && opt_view(r) == (if text_of(m@).len() == 0 {
                    None
                } else {
                    Some(text_of(m@))
                }),
                (None, _) => final(self).response == old(self).response && final(self).usage == old(
                    self,
                ).usage && r is None,
            },
    {
        if message.is_some() || usage.is_some() {
            self.saw_output = true;
        }
        if let Some(m) = message {
            if let Some(u) = usage {
                self.usage.add_usage(&u);
                self.response = m;
                None
            } else {
                let t = m.text();
                if t.as_str().is_empty() {
                    None
                } else {
                    Some(t)
                }
            }
        } else {
            None
        }
    }
}

/// The text that a plain call hands out at once, unless it is empty.
pub fn whole_text(response: &Message) -> (r: Option<String>)
    ensures
        opt_view(r) == (if text_of(response@).len() == 0 {
            None
        } else {
            Some(text_of(response@))
        }),
{
    let t = response.text();
    if t.as_str().is_empty() {
        None
    } else {
        Some(t)
    }
}

/// The error for a response that announces tool calls and has none.
pub const NO_TOOL_REQUESTS: &'static str = "provider returned stop_reason=tool_use but no tool requests were parsed";

/// Whether a response announces tool calls and has none.
pub open spec fn lacks_announced_calls(m: MessageView, u: Usage) -> bool {
    opt_view(u.stop_reason) == Some("tool_use"@) && !has_requests(m)
}

/// Checks a response: one that announces tool calls must have some.
pub fn check_response(response: &Message, usage: &Usage) -> (r: Result<(), String>)
    ensures
        match r {
            Ok(_) => !lacks_announced_calls(response@, *usage),
            Err(e) => lacks_announced_calls(response@, *usage) && e@ == NO_TOOL_REQUESTS@,
        },
{
    match &usage.stop_reason {
        Some(reason) => if same_text(reason.as_str(), "tool_use") && !response.has_tool_requests() {
            Err(NO_TOOL_REQUESTS.to_owned())
        } else {
            Ok(())
        },
        None => Ok(()),
    }
}

/// What came of asking for a missing reply.
#[derive(Debug, PartialEq, Eq)]
pub enum RepairOutcome {
    /// The provider replied.
    Replied { response: Message, usage: Usage },
    /// The call failed.
    Failed,
}

/// What a [`RepairOutcome`] stands for.
pub enum RepairView {
    Replied { response: MessageView, usage: Usage },
    Failed,
}

impl View for RepairOutcome {
    type V = RepairView;

    open spec fn view(&self) -> RepairView {
        match *self {
            RepairOutcome::Replied { response, usage } => RepairView::Replied {
                response: response@,
                usage,
            },
            RepairOutcome::Failed => RepairView::Failed,
        }
    }
}

/// The reply of a turn after asking for a missing one: what the provider said,
/// if it said something without calling tools; else the policy's fallback;
/// else the reply as it was.
pub open spec fn repaired_reply(
    policy: FinalReplyPolicy,
    original: MessageView,
    outcome: RepairView,
) -> (MessageView, Usage) {
    let stand_in = match policy.fallback() {
        Some(t) => assistant_text(t),
        None => original,
    };
    match outcome {
        RepairView::Replied { response, usage } => if !has_requests(response) && trimmed(
            text_of(response),
        ).len() > 0 {
            (response, usage)
        } else {
            (stand_in, usage)
        },
        RepairView::Failed => (stand_in, Usage::zero()),
    }
}

/// The reply of a turn after asking for a missing one.
pub fn repair_terminal_reply(policy: FinalReplyPolicy, original: Message, outcome: RepairOutcome) -> (r: (
    Message,
    Usage,
))
    ensures
        (r.0@, r.1) == repaired_reply(policy, original@, outcome@),
{
    let stand_in = match policy.fallback_text() {
        Some(t) => Message::assistant_saying(t),
        None => original,
    };
    match outcome {
        RepairOutcome::Replied { response, usage } => {
            let t = response.text();
            if !response.has_tool_requests() && !is_blank(t.as_str()) {
                (response, usage)
            } else {
                (stand_in, usage)
            }
        },
        RepairOutcome::Failed => (stand_in, Usage::none()),
    }
}

/// A Signal or always-delivered turn that is repaired never ends blank,
/// whatever the provider says.
pub proof fn repaired_reply_is_not_blank(
    policy: FinalReplyPolicy,
    original: MessageView,
    outcome: RepairView,
)
    requires
        policy == FinalReplyPolicy::Signal || policy == FinalReplyPolicy::CronAlways,
    ensures
        trimmed(text_of(repaired_reply(policy, original, outcome).0)).len() > 0,
{
    reveal_strlit("Done.");
    reveal_strlit("Completed.");
    let t = policy.fallback()->0;
    let m = assistant_text(t);
    assert(m.content.drop_last() =~= Seq::empty());
    assert(crate::message::texts_in(m.content) =~= seq![t]) by {
        assert(crate::message::texts_in(m.content.drop_last()) =~= Seq::empty());
    }
    assert(crate::message::concatenated(seq![t]) =~= t) by {
        assert(seq![t].drop_last() =~= Seq::empty());
        assert(crate::message::concatenated(seq![t].drop_last()) =~= Seq::empty());
    }
    crate::text::trimmed_fixed(t);
}

} // verus!
