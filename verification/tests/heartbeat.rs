use coop_gateway::heartbeat::{
    contains_legacy_heartbeat_token, is_heartbeat_content_empty, strip_suppression_token,
    SuppressionTokenResult,
};


#[test]
fn exact_match_suppresses() {
    assert_eq!(
        strip_suppression_token("NO_ACTION_NEEDED"),
        SuppressionTokenResult::Suppress,
    );
}

#[test]
fn legacy_exact_match_suppresses() {
    assert_eq!(
        strip_suppression_token("HEARTBEAT_OK"),
        SuppressionTokenResult::Suppress,
    );
}

#[test]
fn with_whitespace_suppresses() {
    assert_eq!(
        strip_suppression_token("  NO_ACTION_NEEDED  "),
        SuppressionTokenResult::Suppress,
    );
}

#[test]
fn markdown_bold_suppresses() {
    assert_eq!(
        strip_suppression_token("**NO_ACTION_NEEDED**"),
        SuppressionTokenResult::Suppress,
    );
}

#[test]
fn markdown_italic_suppresses() {
    assert_eq!(
        strip_suppression_token("*NO_ACTION_NEEDED*"),
        SuppressionTokenResult::Suppress,
    );
}

#[test]
fn markdown_backtick_suppresses() {
    assert_eq!(
        strip_suppression_token("`NO_ACTION_NEEDED`"),
        SuppressionTokenResult::Suppress,
    );
}

#[test]
fn backtick_token_at_start_with_content() {
    assert_eq!(
        strip_suppression_token("`NO_ACTION_NEEDED` Your server is down"),
        SuppressionTokenResult::Deliver("Your server is down".to_owned()),
    );
}

#[test]
fn backtick_token_at_end_with_content() {
    assert_eq!(
        strip_suppression_token("Your server is down `NO_ACTION_NEEDED`"),
        SuppressionTokenResult::Deliver("Your server is down".to_owned()),
    );
}

#[test]
fn empty_string_suppresses() {
    assert_eq!(
        strip_suppression_token(""),
        SuppressionTokenResult::Suppress,
    );
}

#[test]
fn whitespace_only_suppresses() {
    assert_eq!(
        strip_suppression_token("   "),
        SuppressionTokenResult::Suppress,
    );
}

#[test]
fn token_at_start_with_real_content() {
    assert_eq!(
        strip_suppression_token("NO_ACTION_NEEDED. Also, you have a meeting at 3pm"),
        SuppressionTokenResult::Deliver("Also, you have a meeting at 3pm".to_owned()),
    );
}

#[test]
fn token_at_end_with_real_content() {
    assert_eq!(
        strip_suppression_token("Your server is down. NO_ACTION_NEEDED"),
        SuppressionTokenResult::Deliver("Your server is down.".to_owned()),
    );
}

#[test]
fn no_token_real_content() {
    assert_eq!(
        strip_suppression_token("Your server is down"),
        SuppressionTokenResult::Deliver("Your server is down".to_owned()),
    );
}

#[test]
fn token_mid_sentence_not_stripped() {
    let text = "The status is NO_ACTION_NEEDED and everything is fine";
    assert_eq!(
        strip_suppression_token(text),
        SuppressionTokenResult::Deliver(text.to_owned()),
    );
}

#[test]
fn token_at_both_edges_delivers_empty_suppresses() {
    assert_eq!(
        strip_suppression_token("NO_ACTION_NEEDED NO_ACTION_NEEDED"),
        SuppressionTokenResult::Suppress,
    );
}

#[test]
fn legacy_and_new_tokens_at_edges_suppress() {
    assert_eq!(
        strip_suppression_token("HEARTBEAT_OK NO_ACTION_NEEDED"),
        SuppressionTokenResult::Suppress,
    );
}

#[test]
fn bold_token_at_start_with_content() {
    assert_eq!(
        strip_suppression_token("**NO_ACTION_NEEDED** Your server is down"),
        SuppressionTokenResult::Deliver("Your server is down".to_owned()),
    );
}

#[test]
fn token_with_newlines() {
    assert_eq!(
        strip_suppression_token("\n  NO_ACTION_NEEDED\n  "),
        SuppressionTokenResult::Suppress,
    );
}

#[test]
fn token_at_end_with_trailing_period() {
    assert_eq!(
        strip_suppression_token("All clear. NO_ACTION_NEEDED"),
        SuppressionTokenResult::Deliver("All clear.".to_owned()),
    );
}

#[test]
fn real_content_with_period_at_end() {
    assert_eq!(
        strip_suppression_token("Your server is down."),
        SuppressionTokenResult::Deliver("Your server is down.".to_owned()),
    );
}

#[test]
fn detects_legacy_token() {
    assert!(contains_legacy_heartbeat_token("HEARTBEAT_OK"));
    assert!(!contains_legacy_heartbeat_token("NO_ACTION_NEEDED"));
}

#[test]
fn empty_file_is_empty() {
    assert!(is_heartbeat_content_empty(""));
}

#[test]
fn whitespace_only_file_is_empty() {
    assert!(is_heartbeat_content_empty("   \n  \n  "));
}

#[test]
fn headers_only_is_empty() {
    assert!(is_heartbeat_content_empty("# Heartbeat\n## Tasks\n"));
}

#[test]
fn empty_checklist_is_empty() {
    assert!(is_heartbeat_content_empty("# Tasks\n- [ ]\n- [ ]\n- [x]\n"));
}

#[test]
fn empty_list_items_is_empty() {
    assert!(is_heartbeat_content_empty("# Tasks\n- \n- \n"));
}

#[test]
fn file_with_real_content_is_not_empty() {
    assert!(!is_heartbeat_content_empty("# Tasks\n- [ ] Deploy v2.0\n"));
}

#[test]
fn mixed_empty_and_real_is_not_empty() {
    assert!(!is_heartbeat_content_empty(
        "# Heartbeat\n- [ ]\n- Check server status\n"
    ));
}

#[test]
fn bare_dash_is_empty() {
    assert!(is_heartbeat_content_empty("-\n-\n"));
}

#[test]
fn content_after_header_is_not_empty() {
    assert!(!is_heartbeat_content_empty("# Heartbeat\nServer is down\n"));
}
