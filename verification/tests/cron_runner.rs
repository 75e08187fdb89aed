use coop_gateway::config::{
    default_memory_db_path, AgentConfig, ChannelsConfig, Config, CronConfig, CronDelivery,
    CronDeliveryMode, MemoryAutoCaptureConfig, MemoryConfig, MemoryPromptIndexConfig,
    MemoryRetentionConfig, PromptConfig, ProviderConfig, SandboxConfig, StreamPolicy,
    SubagentsConfig, UserConfig, WebConfig, WebFetchConfig, WebSearchConfig,
};
use coop_gateway::cron_runner::{
    announce_to_session, cron_session_key, find_only_task, pick_manual_cron,
    resolve_cron_delivery_targets, CronAction, CronRun, CronRunTrigger, CronTriggerResult,
    CronTriggerStatus,
};
use coop_gateway::gateway::Gateway;
use coop_gateway::session::TrustLevel;

fn base_config() -> Config {
    Config {
        agent: AgentConfig {
            id: "test".to_owned(),
            model: "test-model".to_owned(),
            workspace: "/srv/workspace".to_owned(),
            context_limit: None,
            subagents: SubagentsConfig {
                enabled: true,
                max_spawn_depth: 1,
                max_active_children: 4,
                max_concurrent: 4,
                default_timeout_seconds: 600,
                default_max_turns: 20,
                model: None,
                profiles: vec![],
            },
        },
        users: vec![],
        groups: vec![],
        channels: ChannelsConfig { signal: None },
        provider: provider("anthropic"),
        providers: vec![],
        aliases: vec![],
        prompt: PromptConfig::default(),
        memory: MemoryConfig {
            db_path: default_memory_db_path(),
            embedding: None,
            prompt_index: MemoryPromptIndexConfig::default(),
            retention: MemoryRetentionConfig::default(),
            auto_capture: MemoryAutoCaptureConfig { enabled: true, min_turn_messages: 4 },
        },
        cron: vec![],
        sandbox: SandboxConfig {
            enabled: false,
            allow_network: false,
            memory: "2g".to_owned(),
            pids_limit: 512,
        },
        web: WebConfig {
            search: WebSearchConfig { provider: None, timeout_seconds: None, max_results: None },
            fetch: WebFetchConfig { max_chars: None, timeout_seconds: None },
        },
    }
}

fn provider(name: &str) -> ProviderConfig {
    ProviderConfig {
        name: name.to_owned(),
        api_keys: vec![],
        base_url: None,
        api_key_env: None,
        models: vec![],
        model_context_limits: vec![],
        model_capabilities: vec![],
        extra_headers: vec![],
        stream_policy: StreamPolicy::Prefer,
        reasoning: None,
    }
}

fn user(name: &str, patterns: &[&str]) -> UserConfig {
    UserConfig {
        name: name.to_owned(),
        trust: TrustLevel::Full,
        match_patterns: patterns.iter().map(|p| (*p).to_owned()).collect(),
        model: None,
        timezone: None,
        sandbox: None,
    }
}

fn task(message: &str, user: Option<&str>) -> CronConfig {
    CronConfig {
        name: "beat".to_owned(),
        cron: "*/30 * * * *".to_owned(),
        message: message.to_owned(),
        user: user.map(str::to_owned),
        timezone: None,
        deliver: None,
        delivery: None,
        review_prompt: None,
        sandbox: None,
    }
}

fn config() -> Config {
    let mut c = base_config();
    c.users = vec![user("alice", &["terminal:default", "signal:alice-uuid", "email", "x:y:z"])];
    c
}

fn places(c: &Config, t: &CronConfig) -> Vec<(String, String)> {
    let found = resolve_cron_delivery_targets(c, t);
    found.into_iter().map(|t| (t.channel, t.target)).collect()
}

#[test]
fn answers_go_where_the_user_is() {
    let c = config();
    let pair = |a: &str, b: &str| (a.to_owned(), b.to_owned());
    let alice = task("hi", Some("alice"));
    assert_eq!(places(&c, &alice), vec![pair("signal", "alice-uuid"), pair("x", "y:z")]);
    assert_eq!(places(&c, &task("hi", Some("bob"))), vec![]);
    assert_eq!(places(&c, &task("hi", None)), vec![]);
    let mut fixed = task("hi", Some("alice"));
    fixed.deliver =
        Some(CronDelivery { channel: "terminal".to_owned(), target: "default".to_owned() });
    assert_eq!(places(&c, &fixed), vec![pair("terminal", "default")]);
}

fn finish(action: CronAction) -> CronTriggerResult {
    let CronAction::Finish { result } = action else {
        panic!("expected the end");
    };
    result
}

#[test]
fn scheduled_answers_are_delivered() {
    let c = config();
    let (mut run, action) =
        CronRun::begin(task("hi", Some("alice")), &c, &CronRunTrigger::Scheduled, false);
    let CronAction::Wait { sessions } = action else {
        panic!("expected a wait");
    };
    let names: Vec<_> = sessions.iter().map(|k| k.text()).collect();
    assert_eq!(names, vec!["test:dm:signal:alice-uuid", "test:dm:x:y:z"]);
    let CronAction::Dispatch { sender, content, channel, mode } = run.waited() else {
        panic!("expected a turn");
    };
    assert_eq!(sender, "cron:beat:alice");
    assert!(content.ends_with("hi") && content.contains("via signal."));
    assert_eq!(channel, Some("signal".to_owned()));
    assert_eq!(mode, Some(CronDeliveryMode::Always));
    let CronAction::Announce { place: 0, content, session } = run.replied("done".to_owned(), false)
    else {
        panic!("expected a delivery");
    };
    assert_eq!(content, "done");
    assert_eq!(session.unwrap().text(), "test:dm:signal:alice-uuid");
    assert!(matches!(run.announced(true), CronAction::Announce { place: 1, .. }));
    let result = finish(run.announced(false));
    assert_eq!(result, CronTriggerResult::completed("beat", "done".to_owned(), 1, 2));
}

#[test]
fn idle_heartbeats_are_skipped() {
    let c = config();
    let t = task("check HEARTBEAT.md", Some("alice"));
    let (mut run, action) = CronRun::begin(t.clone(), &c, &CronRunTrigger::Scheduled, false);
    assert_eq!(action, CronAction::ReadHeartbeat);
    let result = finish(run.heartbeat(Some("# Heartbeat\n")));
    assert_eq!(result.status, CronTriggerStatus::SkippedHeartbeat);
    let (mut run, _) = CronRun::begin(t, &c, &CronRunTrigger::Scheduled, false);
    assert!(matches!(run.heartbeat(Some("- water the plants")), CronAction::Wait { .. }));
}

#[test]
fn as_needed_answers_are_reviewed() {
    let c = config();
    let run_to_reply = || {
        let t = task("check HEARTBEAT.md", Some("alice"));
        let (mut run, _) = CronRun::begin(t, &c, &CronRunTrigger::Scheduled, false);
        run.heartbeat(None);
        run.waited();
        run
    };
    let mut run = run_to_reply();
    let result = finish(run.replied("NO_ACTION_NEEDED".to_owned(), false));
    assert_eq!(result.status, CronTriggerStatus::Suppressed);

    let mut run = run_to_reply();
    let CronAction::Review { response, .. } = run.replied("Water!".to_owned(), false) else {
        panic!("expected a review");
    };
    assert_eq!(response, "Water!");
    assert_eq!(finish(run.reviewed(Some(false))).status, CronTriggerStatus::Suppressed);

    let mut run = run_to_reply();
    run.replied("Water!".to_owned(), false);
    assert!(matches!(run.reviewed(None), CronAction::Announce { .. }));
}

#[test]
fn manual_runs_can_stay_silent() {
    let c = config();
    let trigger = |deliver| CronRunTrigger::Manual {
        deliver,
        origin_session_id: "test:dm:signal:alice-uuid".to_owned(),
    };
    let (mut run, action) = CronRun::begin(task("hi", Some("alice")), &c, &trigger(false), false);
    assert_eq!(action, CronAction::Wait { sessions: vec![] });
    assert!(matches!(run.waited(), CronAction::Dispatch { channel: None, .. }));
    let result = finish(run.replied("done".to_owned(), false));
    assert_eq!((result.delivered_to, result.attempted_to), (0, 0));

    let (mut run, action) = CronRun::begin(task("hi", Some("alice")), &c, &trigger(true), false);
    let CronAction::Wait { sessions } = action else {
        panic!("expected a wait");
    };
    assert_eq!(sessions.len(), 1);
    run.waited();
    assert!(matches!(
        run.replied("done".to_owned(), false),
        CronAction::Announce { session: None, .. }
    ));
    assert_eq!(trigger(true).kind(), "manual");
    assert!(!trigger(false).delivery_enabled());
    assert_eq!(CronRunTrigger::Scheduled.origin_session_id(), None);
}

#[test]
fn busy_and_empty_runs_end() {
    let c = config();
    let scheduled = CronRunTrigger::Scheduled;
    let (_, action) = CronRun::begin(task("hi", None), &c, &scheduled, true);
    assert_eq!(finish(action).status, CronTriggerStatus::Busy);
    let (mut run, _) = CronRun::begin(task("hi", None), &c, &scheduled, false);
    run.waited();
    assert_eq!(finish(run.replied(" ".to_owned(), false)).status, CronTriggerStatus::CompletedEmpty);
    let (mut run, _) = CronRun::begin(task("hi", None), &c, &scheduled, false);
    run.waited();
    assert_eq!(finish(run.replied(" ".to_owned(), true)).status, CronTriggerStatus::Busy);
}

#[test]
fn tasks_are_found_by_name() {
    let mut c = config();
    c.cron = vec![task("hi", Some("alice"))];
    assert_eq!(pick_manual_cron(&c, "beat", Some("Europe/Berlin")), Ok((0, "Europe/Berlin".to_owned())));
    assert_eq!(pick_manual_cron(&c, "x", None), Err("unknown cron: x".to_owned()));
    c.cron.push(task("again", None));
    assert_eq!(find_only_task(&c.cron, "beat"), Err("cron name 'beat' is not unique".to_owned()));
}

#[test]
fn announcements_stand_in_the_conversation() {
    let mut g = Gateway::new("test".to_owned());
    let key = cron_session_key("test", "beat");
    assert_eq!(key.text(), "test:cron:beat");
    announce_to_session(&mut g, &key, "beat", "hi", "done");
    let texts: Vec<_> = g.history(&key).iter().map(|m| m.text()).collect();
    assert_eq!(texts, vec!["[Scheduled: beat]\nhi", "done"]);
}
