use coop_gateway::config::StreamPolicy;
use coop_gateway::final_reply::FinalReplyPolicy;
use coop_gateway::message::Message;
use coop_gateway::stream::{
    check_response, duration_to_millis_u64, early_non_stream_retry_backoff,
    early_stream_retry_backoff, is_transient_transport_error, repair_terminal_reply, whole_text,
    AssistantCall, CallDecision, NO_TOOL_REQUESTS, RepairOutcome, StreamState,
};
use coop_gateway::usage::Usage;

fn start(policy: StreamPolicy, streams: bool) -> AssistantCall {
    AssistantCall::start(policy, streams, "p", "m").unwrap()
}

#[test]
fn disable_stream_policy_uses_non_streaming_path() {
    assert!(!start(StreamPolicy::Disable, true).streaming);
    assert!(start(StreamPolicy::Prefer, true).streaming);
    assert!(!start(StreamPolicy::Prefer, false).streaming);
    assert_eq!(
        AssistantCall::start(StreamPolicy::Require, false, "p", "m").unwrap_err(),
        "provider 'p' does not support stream_policy=require for model 'm'"
    );
}

#[test]
fn retries_non_streaming_when_stream_fails_before_first_output() {
    let mut call = start(StreamPolicy::Prefer, true);
    assert_eq!(call.failed(false, false, "bad request"), CallDecision::FallBack);
    assert!(!call.streaming);
}

#[test]
fn require_stream_policy_does_not_fallback_to_non_streaming() {
    let mut call = start(StreamPolicy::Require, true);
    assert_eq!(call.failed(false, false, "bad request"), CallDecision::Fail);
    assert!(call.streaming);
}

#[test]
fn retries_transient_stream_failures_before_falling_back() {
    let mut call = start(StreamPolicy::Prefer, true);
    let error = "Connection reset by peer";
    assert_eq!(call.failed(false, false, error), CallDecision::Retry { backoff_ms: 200 });
    assert_eq!(call.failed(false, false, error), CallDecision::Retry { backoff_ms: 400 });
    assert_eq!(call.failed(false, false, error), CallDecision::FallBack);
    assert_eq!(call.failed(false, false, error), CallDecision::Retry { backoff_ms: 200 });
}

#[test]
fn retries_transient_non_stream_failures_before_erroring() {
    let mut call = start(StreamPolicy::Disable, true);
    let error = "operation TIMED OUT";
    for backoff_ms in [200, 400, 800] {
        assert_eq!(call.failed(false, false, error), CallDecision::Retry { backoff_ms });
    }
    assert_eq!(call.failed(false, false, error), CallDecision::Fail);
}

#[test]
fn output_and_overflow_end_a_call() {
    let mut call = start(StreamPolicy::Prefer, true);
    assert_eq!(call.failed(true, false, "connection reset"), CallDecision::Fail);
    assert_eq!(call.failed(false, true, "connection reset"), CallDecision::Fail);
    assert_eq!(call.attempt, 0);
}

#[test]
fn backoff_doubles_up_to_a_bound() {
    assert_eq!(early_stream_retry_backoff(3), 1600);
    assert_eq!(early_stream_retry_backoff(8), early_stream_retry_backoff(u32::MAX));
    assert_eq!(early_non_stream_retry_backoff(1), 400);
    assert_eq!(duration_to_millis_u64(2, 5_999_999), 2005);
    assert_eq!(duration_to_millis_u64(u64::MAX, 0), u64::MAX);
}

#[test]
fn transient_errors_are_told_by_their_text() {
    assert!(is_transient_transport_error("error sending request for URL (x)"));
    assert!(is_transient_transport_error("Broken pipe"));
    assert!(!is_transient_transport_error("invalid api key"));
}

fn usage(stop_reason: Option<&str>) -> Usage {
    Usage {
        input_tokens: Some(3),
        output_tokens: None,
        cache_read_tokens: None,
        cache_write_tokens: None,
        stop_reason: stop_reason.map(str::to_owned),
    }
}

#[test]
fn streams_collect_their_reply() {
    let mut state = StreamState::new();
    assert_eq!(state.accept(None, None), None);
    assert!(!state.saw_output);
    let delta = Message::assistant().with_text("he");
    assert_eq!(state.accept(Some(delta), None), Some("he".to_owned()));
    assert!(state.saw_output);
    let whole = Message::assistant().with_text("hello");
    assert_eq!(state.accept(Some(whole), Some(usage(None))), None);
    assert_eq!(state.response.text(), "hello");
    assert_eq!(state.usage.input_tokens, Some(3));
    assert_eq!(whole_text(&state.response), Some("hello".to_owned()));
    assert_eq!(whole_text(&Message::assistant()), None);
}

#[test]
fn tool_use_stop_without_tool_requests_emits_error_and_rolls_back() {
    let empty = Message::assistant().with_text("hm");
    assert_eq!(
        check_response(&empty, &usage(Some("tool_use"))),
        Err(NO_TOOL_REQUESTS.to_owned())
    );
    assert_eq!(check_response(&empty, &usage(Some("end_turn"))), Ok(()));
    let call = Message::assistant().with_tool_request("a", "bash", "{}");
    assert_eq!(check_response(&call, &usage(Some("tool_use"))), Ok(()));
}

#[test]
fn missing_replies_are_repaired() {
    let blank = || Message::assistant().with_text(" ");
    let replied = |text: &str| RepairOutcome::Replied {
        response: Message::assistant().with_text(text),
        usage: usage(None),
    };
    let repaired = |policy, outcome| repair_terminal_reply(policy, blank(), outcome).0.text();
    assert_eq!(repaired(FinalReplyPolicy::Signal, replied("yes")), "yes");
    assert_eq!(repaired(FinalReplyPolicy::Signal, replied(" ")), "Done.");
    assert_eq!(repaired(FinalReplyPolicy::CronAlways, RepairOutcome::Failed), "Completed.");
    assert_eq!(repaired(FinalReplyPolicy::CronAsNeeded, RepairOutcome::Failed), " ");
}
