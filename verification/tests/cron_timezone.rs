use chrono::TimeZone;
use coop_gateway::config::{CronConfig, UserConfig};
use coop_gateway::cron_timezone::{
    next_cron_fire_after, parse_cron_fault, resolve_cron_timezone_with_default,
    resolve_user_timezone_with_default,
};
use coop_gateway::session::TrustLevel;

fn utc_seconds(year: i32, month: u32, day: u32, hour: u32, min: u32, sec: u32) -> i64 {
    chrono::Utc
        .with_ymd_and_hms(year, month, day, hour, min, sec)
        .single()
        .expect("valid UTC datetime")
        .timestamp()
}

#[test]
fn resolve_cron_timezone_prefers_explicit_timezone() {
    let cron = CronConfig {
        name: "briefing".to_owned(),
        cron: "0 8 * * *".to_owned(),
        timezone: Some("Europe/Berlin".to_owned()),
        message: "Morning briefing".to_owned(),
        user: Some("alice".to_owned()),
        delivery: None,
        deliver: None,
        review_prompt: None,
        sandbox: None,
    };
    let users = vec![UserConfig {
        name: "alice".to_owned(),
        trust: TrustLevel::Full,
        match_patterns: vec![],
        model: None,
        timezone: Some("America/Chicago".to_owned()),
        sandbox: None,
    }];

    let timezone = resolve_cron_timezone_with_default(&cron, &users, None).expect("should parse timezone");
    assert_eq!(timezone, "Europe/Berlin");
}

#[test]
fn resolve_cron_timezone_falls_back_to_user_timezone() {
    let cron = CronConfig {
        name: "briefing".to_owned(),
        cron: "0 8 * * *".to_owned(),
        timezone: None,
        message: "Morning briefing".to_owned(),
        user: Some("alice".to_owned()),
        delivery: None,
        deliver: None,
        review_prompt: None,
        sandbox: None,
    };
    let users = vec![UserConfig {
        name: "alice".to_owned(),
        trust: TrustLevel::Full,
        match_patterns: vec![],
        model: None,
        timezone: Some("America/Chicago".to_owned()),
        sandbox: None,
    }];

    let timezone = resolve_cron_timezone_with_default(&cron, &users, None).expect("should parse timezone");
    assert_eq!(timezone, "America/Chicago");
}

#[test]
fn resolve_user_timezone_defaults_to_system_timezone() {
    let user = UserConfig {
        name: "alice".to_owned(),
        trust: TrustLevel::Full,
        match_patterns: vec![],
        model: None,
        timezone: None,
        sandbox: None,
    };

    let timezone =
        resolve_user_timezone_with_default(&user, Some("America/Los_Angeles"))
            .expect("should resolve timezone");
    assert_eq!(timezone, "America/Los_Angeles");
}

#[test]
fn resolve_cron_timezone_uses_users_default_timezone_when_unset() {
    let cron = CronConfig {
        name: "briefing".to_owned(),
        cron: "0 8 * * *".to_owned(),
        timezone: None,
        message: "Morning briefing".to_owned(),
        user: Some("alice".to_owned()),
        delivery: None,
        deliver: None,
        review_prompt: None,
        sandbox: None,
    };
    let users = vec![UserConfig {
        name: "alice".to_owned(),
        trust: TrustLevel::Full,
        match_patterns: vec![],
        model: None,
        timezone: None,
        sandbox: None,
    }];

    let timezone =
        resolve_cron_timezone_with_default(&cron, &users, Some("Europe/Berlin"))
            .expect("should resolve timezone");
    assert_eq!(timezone, "Europe/Berlin");
}

#[test]
fn resolve_cron_timezone_defaults_to_system_timezone() {
    let cron = CronConfig {
        name: "cleanup".to_owned(),
        cron: "0 3 * * *".to_owned(),
        timezone: None,
        message: "Run cleanup".to_owned(),
        user: None,
        delivery: None,
        deliver: None,
        review_prompt: None,
        sandbox: None,
    };

    let timezone =
        resolve_cron_timezone_with_default(&cron, &vec![], Some("America/Los_Angeles"))
            .expect("should resolve timezone");
    assert_eq!(timezone, "America/Los_Angeles");
}

#[test]
fn resolve_cron_timezone_falls_back_to_utc_when_system_timezone_is_unavailable() {
    let cron = CronConfig {
        name: "cleanup".to_owned(),
        cron: "0 3 * * *".to_owned(),
        timezone: None,
        message: "Run cleanup".to_owned(),
        user: None,
        delivery: None,
        deliver: None,
        review_prompt: None,
        sandbox: None,
    };

    let timezone = resolve_cron_timezone_with_default(&cron, &vec![], None)
    .expect("should fall back to UTC");
    assert_eq!(timezone, "UTC");
}

#[test]
fn next_cron_fire_after_uses_timezone_local_wall_clock() {
    let schedule = "0 8 * * *";
    let after = utc_seconds(2026, 3, 11, 12, 0, 0);

    let next = next_cron_fire_after(schedule, "America/Chicago", after)
        .expect("should compute next cron fire");

    assert_eq!(next, utc_seconds(2026, 3, 11, 13, 0, 0));
}

#[test]
fn next_cron_fire_after_tracks_dst_transitions() {
    let schedule = "0 8 * * *";
    let after = utc_seconds(2026, 3, 7, 14, 1, 0);

    let next = next_cron_fire_after(schedule, "America/Chicago", after)
        .expect("should compute next cron fire");

    assert_eq!(next, utc_seconds(2026, 3, 8, 13, 0, 0));
}

#[test]
fn only_expressions_of_schedules_fire() {
    let after = utc_seconds(2026, 3, 11, 12, 0, 0);
    assert_eq!(parse_cron_fault("*/30 * * * *"), None);
    assert!(parse_cron_fault("not a cron").is_some());
    assert!(parse_cron_fault("0 25 * * *").is_some());
    assert_eq!(next_cron_fire_after("not a cron", "UTC", after), None);
    assert_eq!(next_cron_fire_after("0 8 * * *", "Mars/Olympus_Mons", after), None);
}
