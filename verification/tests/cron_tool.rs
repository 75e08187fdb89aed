use coop_gateway::config::{
    default_memory_db_path, AgentConfig, ChannelsConfig, Config, CronConfig,
    MemoryAutoCaptureConfig, MemoryConfig, MemoryPromptIndexConfig, MemoryRetentionConfig,
    PromptConfig, ProviderConfig, SandboxConfig, StreamPolicy, SubagentsConfig, UserConfig,
    WebConfig, WebFetchConfig, WebSearchConfig,
};
use coop_gateway::cron_runner::{CronTriggerResult, CronTriggerStatus};
use coop_gateway::cron_tool::{
    check_cron_trigger, cron_effective_trust, cron_trigger_definition, format_result, trust_label,
    unknown_cron_tool,
};
use coop_gateway::session::{SessionKind, TrustLevel};

fn base_config() -> Config {
    Config {
        agent: AgentConfig {
            id: "test".to_owned(),
            model: "test-model".to_owned(),
            workspace: "/srv/workspace".to_owned(),
            context_limit: None,
            subagents: SubagentsConfig {
                enabled: true,
                max_spawn_depth: 1,
                max_active_children: 4,
                max_concurrent: 4,
                default_timeout_seconds: 600,
                default_max_turns: 20,
                model: None,
                profiles: vec![],
            },
        },
        users: vec![],
        groups: vec![],
        channels: ChannelsConfig { signal: None },
        provider: provider("anthropic"),
        providers: vec![],
        aliases: vec![],
        prompt: PromptConfig::default(),
        memory: MemoryConfig {
            db_path: default_memory_db_path(),
            embedding: None,
            prompt_index: MemoryPromptIndexConfig::default(),
            retention: MemoryRetentionConfig::default(),
            auto_capture: MemoryAutoCaptureConfig { enabled: true, min_turn_messages: 4 },
        },
        cron: vec![],
        sandbox: SandboxConfig {
            enabled: false,
            allow_network: false,
            memory: "2g".to_owned(),
            pids_limit: 512,
        },
        web: WebConfig {
            search: WebSearchConfig { provider: None, timeout_seconds: None, max_results: None },
            fetch: WebFetchConfig { max_chars: None, timeout_seconds: None },
        },
    }
}

fn provider(name: &str) -> ProviderConfig {
    ProviderConfig {
        name: name.to_owned(),
        api_keys: vec![],
        base_url: None,
        api_key_env: None,
        models: vec![],
        model_context_limits: vec![],
        model_capabilities: vec![],
        extra_headers: vec![],
        stream_policy: StreamPolicy::Prefer,
        reasoning: None,
    }
}

fn task(name: &str, user: Option<&str>) -> CronConfig {
    CronConfig {
        name: name.to_owned(),
        cron: "0 8 * * *".to_owned(),
        message: "do it".to_owned(),
        user: user.map(str::to_owned),
        timezone: None,
        deliver: None,
        delivery: None,
        review_prompt: None,
        sandbox: None,
    }
}

fn make_config(cron: CronConfig, users: Vec<UserConfig>) -> Config {
    let mut config = base_config();
    config.cron = vec![cron];
    config.users = users;
    config
}

fn user(name: &str, trust: TrustLevel) -> UserConfig {
    UserConfig {
        name: name.to_owned(),
        trust,
        match_patterns: vec![format!("signal:{name}-uuid")],
        model: None,
        timezone: None,
        sandbox: None,
    }
}

#[test]
fn cron_trigger_rejects_cron_sessions() {
    let config = make_config(task("heartbeat", None), vec![]);
    let kind = SessionKind::Cron("heartbeat".to_owned());
    let output = check_cron_trigger(&config, "heartbeat", TrustLevel::Full, &kind).unwrap();
    assert!(output.is_error);
    assert!(output.content.contains("cannot be used from a cron session"));
}

#[test]
fn cron_trigger_rejects_lower_trust_than_target_cron() {
    let config =
        make_config(task("owner-task", Some("alice")), vec![user("alice", TrustLevel::Owner)]);
    let output =
        check_cron_trigger(&config, "owner-task", TrustLevel::Full, &SessionKind::Main).unwrap();
    assert!(output.is_error);
    assert!(output.content.contains("executes with Owner trust"));
}

#[test]
fn cron_trigger_sends_command_and_formats_result() {
    let config = make_config(task("inner-task", Some("bob")), vec![user("bob", TrustLevel::Inner)]);
    let refused = check_cron_trigger(&config, "inner-task", TrustLevel::Inner, &SessionKind::Main);
    assert_eq!(refused, None);
    let result = CronTriggerResult {
        cron_name: "inner-task".to_owned(),
        status: CronTriggerStatus::Completed,
        response: Some("cron response ok".to_owned()),
        delivered_to: 0,
        attempted_to: 0,
    };
    let output = format_result(&result, false);
    assert!(!output.is_error);
    assert!(output.content.contains("Cron 'inner-task' completed."));
    assert!(output.content.contains("cron response ok"));
}

#[test]
fn results_tell_of_their_delivery() {
    let told = |delivered: usize, attempted: usize| {
        let r = CronTriggerResult::completed("t", "done".to_owned(), delivered, attempted);
        format_result(&r, true).content
    };
    assert_eq!(told(1, 2), "Cron 't' completed and delivered to 1 target(s).\n\ndone");
    assert_eq!(
        told(0, 2),
        "Cron 't' completed, but delivery failed for all 2 target(s).\n\ndone"
    );
    assert_eq!(
        told(0, 0),
        "Cron 't' completed, but no delivery targets were resolved.\n\ndone"
    );
    assert!(format_result(&CronTriggerResult::busy("t"), true).is_error);
    assert!(!format_result(&CronTriggerResult::suppressed("t"), true).is_error);
    assert!(!format_result(&CronTriggerResult::completed_empty("t"), true).is_error);
    assert!(!format_result(&CronTriggerResult::skipped_heartbeat("t"), true).is_error);
}

#[test]
fn unknown_tasks_and_tools_are_refused() {
    let config = make_config(task("t", None), vec![]);
    let output = check_cron_trigger(&config, "u", TrustLevel::Owner, &SessionKind::Main).unwrap();
    assert!(output.is_error);
    assert_eq!(unknown_cron_tool("cron_trigger"), None);
    assert_eq!(unknown_cron_tool("cron").unwrap().content, "unknown tool: cron");
    assert_eq!(cron_trigger_definition().name, "cron_trigger");
    assert_eq!(cron_effective_trust(&config, None), TrustLevel::Full);
    assert_eq!(trust_label(TrustLevel::Owner), "Owner");
}
