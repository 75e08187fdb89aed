use coop_gateway::check_report::{CheckReport, Severity};
use coop_gateway::config::{
    default_file_cache, default_file_trust, default_memory_db_path, AgentConfig, ChannelsConfig,
    Config, CronConfig, MemoryAutoCaptureConfig, MemoryConfig, MemoryPromptIndexConfig,
    MemoryRetentionConfig, PromptConfig, PromptFileEntry, ProviderConfig, SandboxConfig,
    SignalChannelConfig, StreamPolicy, SubagentsConfig, UserConfig, WebConfig, WebFetchConfig,
    WebSearchConfig,
};
use coop_gateway::config_watcher::{
    check_restart_only_fields, diff_sections, try_reload, wakes_scheduler, ConfigWatch, Reload,
};
use coop_gateway::session::TrustLevel;

fn base_config() -> Config {
    Config {
        agent: AgentConfig {
            id: "test".to_owned(),
            model: "test-model".to_owned(),
            workspace: "/srv/workspace".to_owned(),
            context_limit: None,
            subagents: SubagentsConfig {
                enabled: true,
                max_spawn_depth: 1,
                max_active_children: 4,
                max_concurrent: 4,
                default_timeout_seconds: 600,
                default_max_turns: 20,
                model: None,
                profiles: vec![],
            },
        },
        users: vec![],
        groups: vec![],
        channels: ChannelsConfig { signal: None },
        provider: provider("anthropic"),
        providers: vec![],
        aliases: vec![],
        prompt: PromptConfig::default(),
        memory: MemoryConfig {
            db_path: default_memory_db_path(),
            embedding: None,
            prompt_index: MemoryPromptIndexConfig::default(),
            retention: MemoryRetentionConfig::default(),
            auto_capture: MemoryAutoCaptureConfig { enabled: true, min_turn_messages: 4 },
        },
        cron: vec![],
        sandbox: SandboxConfig {
            enabled: false,
            allow_network: false,
            memory: "2g".to_owned(),
            pids_limit: 512,
        },
        web: WebConfig {
            search: WebSearchConfig { provider: None, timeout_seconds: None, max_results: None },
            fetch: WebFetchConfig { max_chars: None, timeout_seconds: None },
        },
    }
}

fn provider(name: &str) -> ProviderConfig {
    ProviderConfig {
        name: name.to_owned(),
        api_keys: vec![],
        base_url: None,
        api_key_env: None,
        models: vec![],
        model_context_limits: vec![],
        model_capabilities: vec![],
        extra_headers: vec![],
        stream_policy: StreamPolicy::Prefer,
        reasoning: None,
    }
}

fn named(id: &str, model: &str, workspace: &str) -> Config {
    let mut c = base_config();
    c.agent.id = id.to_owned();
    c.agent.model = model.to_owned();
    c.agent.workspace = workspace.to_owned();
    c
}

fn with_user(mut c: Config, name: &str, trust: TrustLevel) -> Config {
    c.users.push(UserConfig {
        name: name.to_owned(),
        trust,
        match_patterns: vec![],
        model: None,
        timezone: None,
        sandbox: None,
    });
    c
}

fn with_cron(mut c: Config) -> Config {
    c.cron.push(CronConfig {
        name: "test".to_owned(),
        cron: "*/30 * * * *".to_owned(),
        message: "hello".to_owned(),
        user: None,
        timezone: None,
        deliver: None,
        delivery: None,
        review_prompt: None,
        sandbox: None,
    });
    c
}

#[test]
fn check_restart_only_rejects_agent_id_change() {
    let ws = "/tmp/ws";
    let a = named("a", "m", ws);
    let b = named("b", "m", ws);
    let reasons = check_restart_only_fields(&a, &b).unwrap();
    assert!(reasons.contains(&"agent.id"));
}

#[test]
fn check_restart_only_rejects_workspace_change() {
    let a = named("a", "m", "/ws1");
    let b = named("a", "m", "/ws2");
    let reasons = check_restart_only_fields(&a, &b).unwrap();
    assert!(reasons.contains(&"agent.workspace"));
}

#[test]
fn check_restart_only_allows_user_changes() {
    let a = with_user(named("a", "m", "."), "alice", TrustLevel::Full);
    let b = with_user(named("a", "m", "."), "bob", TrustLevel::Inner);
    assert!(check_restart_only_fields(&a, &b).is_none());
}

#[test]
fn check_restart_only_allows_model_change() {
    let a = named("a", "model-a", ".");
    let b = named("a", "model-b", ".");
    assert!(check_restart_only_fields(&a, &b).is_none());
}

#[test]
fn diff_sections_detects_user_changes() {
    let a = with_user(named("a", "m", "."), "alice", TrustLevel::Full);
    let b = with_user(named("a", "m", "."), "bob", TrustLevel::Inner);
    let changed = diff_sections(&a, &b);
    assert!(changed.contains(&"users"));
}

#[test]
fn diff_sections_detects_model_change() {
    let a = named("a", "model-a", ".");
    let b = named("a", "model-b", ".");
    let changed = diff_sections(&a, &b);
    assert!(changed.contains(&"agent.model"));
}

#[test]
fn diff_sections_empty_when_identical() {
    let a = named("a", "m", ".");
    let b = named("a", "m", ".");
    let changed = diff_sections(&a, &b);
    assert!(changed.is_empty());
}

#[test]
fn diff_sections_detects_prompt_change() {
    let a = named("a", "m", ".");
    let mut b = named("a", "m", ".");
    b.prompt.shared_files = vec![PromptFileEntry {
        path: "SOUL.md".to_owned(),
        trust: default_file_trust(),
        cache: default_file_cache(),
        description: None,
    }];
    let changed = diff_sections(&a, &b);
    assert!(changed.contains(&"prompt"));
}

#[test]
fn every_restart_field_is_named() {
    let a = base_config();
    let mut b = base_config();
    b.agent.id = "other".to_owned();
    b.agent.workspace = "/other".to_owned();
    b.provider.name = "openai".to_owned();
    b.memory.db_path = "/other.db".to_owned();
    b.channels.signal =
        Some(SignalChannelConfig { db_path: "./db/signal.db".to_owned(), verbose: false });
    let reasons = check_restart_only_fields(&a, &b).unwrap();
    assert!(reasons.contains(&"agent.id"));
    assert!(reasons.contains(&"agent.workspace"));
    assert!(reasons.contains(&"memory.db_path"));
    assert!(reasons.contains(&"channels"));
}

fn clean() -> CheckReport {
    CheckReport::new()
}

fn failing(name: &'static str) -> CheckReport {
    let mut report = CheckReport::new();
    report.note(name, Severity::Error, false, "broken".to_owned());
    report
}

#[test]
fn try_reload_rejects_invalid_toml() {
    let current = named("test", "test-model", ".");
    assert_eq!(try_reload(&current, None, &clean()), Reload::Unreadable);
}

#[test]
fn try_reload_rejects_restart_only_change() {
    let current = named("test", "test-model", ".");
    let new = named("changed", "test-model", ".");
    assert_eq!(
        try_reload(&current, Some(&new), &clean()),
        Reload::NeedsRestart { fields: vec!["agent.id"] }
    );
}

#[test]
fn try_reload_accepts_user_change() {
    let current = with_user(named("test", "test-model", "."), "alice", TrustLevel::Full);
    let new = with_user(current.clone(), "bob", TrustLevel::Inner);
    assert_eq!(
        try_reload(&current, Some(&new), &clean()),
        Reload::Apply { changed: vec!["users"] }
    );
}

#[test]
fn try_reload_skips_identical_content() {
    let current = named("test", "test-model", ".");
    let again = named("test", "test-model", ".");
    assert_eq!(try_reload(&current, Some(&again), &clean()), Reload::Unchanged);
}

#[test]
fn try_reload_rejects_a_failed_check() {
    let current = named("test", "test-model", ".");
    let new = named("test", "other-model", ".");
    assert_eq!(
        try_reload(&current, Some(&new), &failing("workspace_exists")),
        Reload::Invalid { errors: vec!["workspace_exists: broken".to_owned()] }
    );
    assert_eq!(
        try_reload(&current, Some(&new), &failing("api_key_present")),
        Reload::Apply { changed: vec!["agent.model"] }
    );
}

#[test]
fn poll_loop_notifies_on_cron_change() {
    let current = named("test", "test-model", ".");
    let new = with_cron(current.clone());
    assert_eq!(
        try_reload(&current, Some(&new), &clean()),
        Reload::Apply { changed: vec!["cron"] }
    );
    assert!(wakes_scheduler(&current.cron, &new));
}

#[test]
fn poll_loop_does_not_notify_on_non_cron_change() {
    let current = named("test", "test-model", ".");
    let new = with_user(current.clone(), "alice", TrustLevel::Full);
    assert!(!wakes_scheduler(&current.cron, &new));
}

#[test]
fn poll_loop_detects_change() {
    let mut watch = ConfigWatch::new(1);
    assert!(!watch.changed(1));
    assert!(watch.changed(2));
    watch.settle(2);
    assert!(!watch.changed(2));
    assert!(watch.changed(1));
}
