use coop_gateway::config::CronDeliveryMode;
use coop_gateway::final_reply::FinalReplyPolicy;

#[test]
fn signal_turns_require_repair() {
    let policy = FinalReplyPolicy::for_turn(Some("signal"), None);
    assert_eq!(policy, FinalReplyPolicy::Signal);
    assert!(policy.needs_repair("   \n"));
}

#[test]
fn cron_delivery_takes_priority_over_signal_channel() {
    let policy = FinalReplyPolicy::for_turn(Some("signal"), Some(CronDeliveryMode::Always));
    assert_eq!(policy, FinalReplyPolicy::CronAlways);
}

#[test]
fn terminal_channel_does_not_require_repair() {
    let policy = FinalReplyPolicy::for_turn(Some("terminal:default"), None);
    assert_eq!(policy, FinalReplyPolicy::Optional);
    assert!(!policy.needs_repair(""));
}

#[test]
fn signal_has_fallback() {
    assert_eq!(FinalReplyPolicy::Signal.fallback_text(), Some("Done."));
}

#[test]
fn as_needed_has_no_fallback() {
    assert!(FinalReplyPolicy::CronAsNeeded.fallback_text().is_none());
}
