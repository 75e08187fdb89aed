use coop_gateway::check_report::{CheckReport, Severity};
use coop_gateway::config::{
    default_memory_db_path, AgentConfig, CacheHintConfig, ChannelsConfig, Config, CronConfig,
    MemoryAutoCaptureConfig, MemoryConfig, MemoryPromptIndexConfig, MemoryRetentionConfig,
    PromptConfig, PromptFileEntry, ProviderConfig, SandboxConfig, SandboxOverrides, StreamPolicy,
    SubagentsConfig, UserConfig, WebConfig, WebFetchConfig, WebSearchConfig,
};
use coop_gateway::config_tool::{
    check_sandbox_changes, check_trust_escalation, check_user_changes, ConfigCall, ConfigReadTool,
    ConfigToolExecutor, ConfigWriteTool, WriteRequest,
};
use coop_gateway::session::TrustLevel;

fn base_config() -> Config {
    Config {
        agent: AgentConfig {
            id: "test".to_owned(),
            model: "test-model".to_owned(),
            workspace: "/srv/workspace".to_owned(),
            context_limit: None,
            subagents: SubagentsConfig {
                enabled: true,
                max_spawn_depth: 1,
                max_active_children: 4,
                max_concurrent: 4,
                default_timeout_seconds: 600,
                default_max_turns: 20,
                model: None,
                profiles: vec![],
            },
        },
        users: vec![],
        groups: vec![],
        channels: ChannelsConfig { signal: None },
        provider: provider("anthropic"),
        providers: vec![],
        aliases: vec![],
        prompt: PromptConfig::default(),
        memory: MemoryConfig {
            db_path: default_memory_db_path(),
            embedding: None,
            prompt_index: MemoryPromptIndexConfig::default(),
            retention: MemoryRetentionConfig::default(),
            auto_capture: MemoryAutoCaptureConfig { enabled: true, min_turn_messages: 4 },
        },
        cron: vec![],
        sandbox: SandboxConfig {
            enabled: false,
            allow_network: false,
            memory: "2g".to_owned(),
            pids_limit: 512,
        },
        web: WebConfig {
            search: WebSearchConfig { provider: None, timeout_seconds: None, max_results: None },
            fetch: WebFetchConfig { max_chars: None, timeout_seconds: None },
        },
    }
}

fn provider(name: &str) -> ProviderConfig {
    ProviderConfig {
        name: name.to_owned(),
        api_keys: vec![],
        base_url: None,
        api_key_env: None,
        models: vec![],
        model_context_limits: vec![],
        model_capabilities: vec![],
        extra_headers: vec![],
        stream_policy: StreamPolicy::Prefer,
        reasoning: None,
    }
}

fn config_with_users(users: Vec<UserConfig>) -> Config {
    let mut cfg = base_config();
    cfg.users = users;
    cfg
}

fn alice_full() -> UserConfig {
    UserConfig {
        name: "alice".to_owned(),
        trust: TrustLevel::Full,
        match_patterns: vec!["signal:alice-uuid".to_owned()],
        model: None,
        timezone: None,
        sandbox: None,
    }
}

fn bob_inner() -> UserConfig {
    UserConfig {
        name: "bob".to_owned(),
        trust: TrustLevel::Inner,
        match_patterns: vec!["signal:bob-uuid".to_owned()],
        model: None,
        timezone: None,
        sandbox: None,
    }
}

#[test]
fn owner_can_change_anything() {
    let current = config_with_users(vec![alice_full()]);
    let mut proposed = current.clone();
    proposed.users[0].trust = TrustLevel::Owner;
    assert!(check_trust_escalation(TrustLevel::Owner, &current, &proposed).is_none());
}

#[test]
fn full_cannot_escalate_trust() {
    let current = config_with_users(vec![alice_full(), bob_inner()]);
    let mut proposed = current.clone();
    proposed.users[1].trust = TrustLevel::Full; // bob: inner -> full
    let result = check_trust_escalation(TrustLevel::Full, &current, &proposed);
    assert!(result.is_some());
    assert!(result.unwrap().contains("cannot change trust"));
}

#[test]
fn full_cannot_demote_trust() {
    let current = config_with_users(vec![alice_full(), bob_inner()]);
    let mut proposed = current.clone();
    proposed.users[1].trust = TrustLevel::Familiar; // bob: inner -> familiar
    let result = check_trust_escalation(TrustLevel::Full, &current, &proposed);
    assert!(result.is_some());
    assert!(result.unwrap().contains("cannot change trust"));
}

#[test]
fn full_cannot_add_user() {
    let current = config_with_users(vec![alice_full()]);
    let proposed = config_with_users(vec![alice_full(), bob_inner()]);
    let result = check_trust_escalation(TrustLevel::Full, &current, &proposed);
    assert!(result.is_some());
    assert!(result.unwrap().contains("cannot add user"));
}

#[test]
fn full_cannot_remove_user() {
    let current = config_with_users(vec![alice_full(), bob_inner()]);
    let proposed = config_with_users(vec![alice_full()]);
    let result = check_trust_escalation(TrustLevel::Full, &current, &proposed);
    assert!(result.is_some());
    assert!(result.unwrap().contains("cannot remove user"));
}

#[test]
fn full_cannot_change_match_rules() {
    let current = config_with_users(vec![alice_full()]);
    let mut proposed = current.clone();
    proposed.users[0].match_patterns = vec!["terminal:default".to_owned()];
    let result = check_trust_escalation(TrustLevel::Full, &current, &proposed);
    assert!(result.is_some());
    assert!(result.unwrap().contains("cannot change match rules"));
}

#[test]
fn full_cannot_disable_sandbox() {
    let mut current = base_config();
    current.sandbox.enabled = true;
    let mut proposed = current.clone();
    proposed.sandbox.enabled = false;
    let result = check_trust_escalation(TrustLevel::Full, &current, &proposed);
    assert!(result.is_some());
    assert!(result.unwrap().contains("sandbox.enabled"));
}

#[test]
fn full_cannot_change_sandbox_network() {
    let mut current = base_config();
    current.sandbox.enabled = true;
    let mut proposed = current.clone();
    proposed.sandbox.allow_network = true;
    let result = check_trust_escalation(TrustLevel::Full, &current, &proposed);
    assert!(result.is_some());
    assert!(result.unwrap().contains("sandbox.allow_network"));
}

#[test]
fn full_cannot_change_user_sandbox_overrides() {
    let current = config_with_users(vec![alice_full()]);
    let mut proposed = current.clone();
    proposed.users[0].sandbox = Some(SandboxOverrides {
        allow_network: Some(true),
        memory: None,
        pids_limit: None,
    });
    let result = check_trust_escalation(TrustLevel::Full, &current, &proposed);
    assert!(result.is_some());
    assert!(result.unwrap().contains("sandbox overrides"));
}

#[test]
fn full_cannot_change_cron_sandbox_overrides() {
    let mut current = base_config();
    current.cron = vec![CronConfig {
        name: "heartbeat".to_owned(),
        cron: "*/30 * * * *".to_owned(),
        message: "check".to_owned(),
        user: None,
        timezone: None,
        delivery: None,
        deliver: None,
        review_prompt: None,
        sandbox: None,
    }];
    let mut proposed = current.clone();
    proposed.cron[0].sandbox = Some(SandboxOverrides {
        allow_network: Some(true),
        memory: None,
        pids_limit: None,
    });
    let result = check_trust_escalation(TrustLevel::Full, &current, &proposed);
    assert!(result.is_some());
    assert!(result.unwrap().contains("sandbox overrides for cron"));
}

#[test]
fn full_cannot_change_prompt_config() {
    let current = base_config();
    let mut proposed = current.clone();
    proposed.prompt.shared_files.push(PromptFileEntry {
            path: "EVIL.md".to_owned(),
            trust: TrustLevel::Full,
            cache: CacheHintConfig::Session,
            description: Some("injected file".to_owned()),
        });
    let result = check_trust_escalation(TrustLevel::Full, &current, &proposed);
    assert!(result.is_some());
    assert!(result.unwrap().contains("prompt file configuration"));
}

#[test]
fn owner_can_change_prompt_config() {
    let current = base_config();
    let mut proposed = current.clone();
    proposed.prompt.shared_files.push(PromptFileEntry {
            path: "EXTRA.md".to_owned(),
            trust: TrustLevel::Full,
            cache: CacheHintConfig::Session,
            description: Some("extra file".to_owned()),
        });
    assert!(check_trust_escalation(TrustLevel::Owner, &current, &proposed).is_none());
}

#[test]
fn full_can_change_model() {
    let current = base_config();
    let mut proposed = current.clone();
    proposed.agent.model = "new-model".to_owned();
    assert!(check_trust_escalation(TrustLevel::Full, &current, &proposed).is_none());
}

#[test]
fn full_can_change_cron_message() {
    let mut current = base_config();
    current.cron = vec![CronConfig {
        name: "heartbeat".to_owned(),
        cron: "*/30 * * * *".to_owned(),
        message: "check".to_owned(),
        user: None,
        timezone: None,
        delivery: None,
        deliver: None,
        review_prompt: None,
        sandbox: None,
    }];
    let mut proposed = current.clone();
    proposed.cron[0].message = "updated check".to_owned();
    assert!(check_trust_escalation(TrustLevel::Full, &current, &proposed).is_none());
}

#[test]
fn inner_cannot_escalate_trust() {
    let current = config_with_users(vec![alice_full(), bob_inner()]);
    let mut proposed = current.clone();
    proposed.users[0].trust = TrustLevel::Inner; // alice: full -> inner
    let result = check_trust_escalation(TrustLevel::Inner, &current, &proposed);
    assert!(result.is_some());
}

fn write_tool() -> ConfigWriteTool {
    ConfigWriteTool::new("/etc/coop.toml".to_owned())
}

fn report_of(severity: Severity, passed: bool, message: &str) -> CheckReport {
    let mut report = CheckReport::new();
    report.note("test", severity, passed, message.to_owned());
    report
}

#[test]
fn test_config_read_returns_content() {
    let tool = ConfigReadTool::new("/etc/coop.toml".to_owned());
    assert_eq!(tool.refusal(TrustLevel::Full), None);
    let output = tool.answer(Ok("[agent]".to_owned()));
    assert!(!output.is_error);
    assert_eq!(output.content, "[agent]");
}

#[test]
fn test_config_read_trust_gate() {
    let tool = ConfigReadTool::new("/etc/coop.toml".to_owned());
    let output = tool.refusal(TrustLevel::Public).unwrap();
    assert!(output.is_error);
    assert!(output.content.contains("Full trust"));
    assert_eq!(tool.refusal(TrustLevel::Owner), None);
    assert!(tool.refusal(TrustLevel::Inner).is_some());
}

#[test]
fn test_config_read_missing_file() {
    let tool = ConfigReadTool::new("/etc/nonexistent.toml".to_owned());
    let output = tool.answer(Err("not found"));
    assert!(output.is_error);
    assert_eq!(output.content, "failed to read /etc/nonexistent.toml: not found");
}

#[test]
fn test_config_write_valid() {
    let tool = write_tool();
    assert_eq!(
        tool.request(r#"{"content":"[agent]"}"#, TrustLevel::Full),
        WriteRequest::Write { content: "[agent]".to_owned() }
    );
    assert_eq!(tool.review(TrustLevel::Full, Some(&base_config()), Ok(&base_config())), None);
    let output = tool.answer(&report_of(Severity::Info, true, "ok"), Some("/etc/coop.toml.bak"));
    assert!(!output.is_error);
    assert!(output.content.starts_with("Config written successfully. Backup: /etc/coop.toml.bak"));
    let output = tool.answer(&report_of(Severity::Info, true, "ok"), None);
    assert!(output.content.contains("No backup (new file)"));
}

#[test]
fn test_config_write_invalid_toml() {
    let output = write_tool()
        .review(TrustLevel::Owner, Some(&base_config()), Err("expected a key"))
        .unwrap();
    assert!(output.is_error);
    assert!(output.content.contains("NOT modified"));
    assert!(output.content.contains("Invalid TOML: expected a key"));
}

#[test]
fn test_config_write_trust_gate() {
    let tool = write_tool();
    let WriteRequest::Refused { output } =
        tool.request(r#"{"content":"anything"}"#, TrustLevel::Public)
    else {
        panic!("expected a refusal");
    };
    assert!(output.is_error);
    assert!(output.content.contains("Full trust"));
}

#[test]
fn test_config_write_missing_workspace() {
    let report = report_of(Severity::Error, false, "workspace directory not found");
    let output = write_tool().answer(&report, None);
    assert!(output.is_error);
    assert!(output.content.contains("NOT modified"));
    assert!(output.content.contains("workspace directory not found"));
}

#[test]
fn write_requests_need_content() {
    let missing = WriteRequest::Malformed { error: "missing 'content' parameter" };
    assert_eq!(write_tool().request("{}", TrustLevel::Full), missing);
    assert_eq!(write_tool().request(r#"{"content":7}"#, TrustLevel::Full), missing);
    assert_eq!(write_tool().request("not json", TrustLevel::Owner), missing);
    assert_eq!(
        write_tool().request_of(Some("x".to_owned()), TrustLevel::Owner),
        WriteRequest::Write { content: "x".to_owned() }
    );
}

#[test]
fn config_write_rejects_trust_escalation_e2e() {
    let current = config_with_users(vec![alice_full(), bob_inner()]);
    let mut proposed = current.clone();
    proposed.users[1].trust = TrustLevel::Owner;
    let output = write_tool().review(TrustLevel::Full, Some(&current), Ok(&proposed)).unwrap();
    assert!(output.is_error);
    assert!(
        output.content.contains("trust escalation")
            || output.content.contains("cannot change trust")
    );
}

#[test]
fn config_write_rejects_adding_user_e2e() {
    let current = config_with_users(vec![alice_full(), bob_inner()]);
    let mut proposed = current.clone();
    let mut eve = alice_full();
    eve.name = "eve".to_owned();
    eve.trust = TrustLevel::Owner;
    eve.match_patterns = vec!["terminal:default".to_owned()];
    proposed.users.push(eve);
    let output = write_tool().review(TrustLevel::Full, Some(&current), Ok(&proposed)).unwrap();
    assert!(output.is_error);
    assert!(output.content.contains("cannot add user"));
}

#[test]
fn config_write_owner_can_escalate_e2e() {
    let current = config_with_users(vec![alice_full(), bob_inner()]);
    let mut proposed = current.clone();
    proposed.users[1].trust = TrustLevel::Full;
    assert_eq!(write_tool().review(TrustLevel::Owner, Some(&current), Ok(&proposed)), None);
    assert_eq!(write_tool().review(TrustLevel::Full, None, Ok(&proposed)), None);
}

#[test]
fn config_calls_go_to_their_tools() {
    let executor = ConfigToolExecutor::new("/etc/coop.toml".to_owned());
    assert_eq!(executor.call("config_read"), ConfigCall::Read);
    assert_eq!(executor.call("config_write"), ConfigCall::Write);
    let ConfigCall::Unknown { output } = executor.call("config_erase") else {
        panic!("expected no such tool");
    };
    assert_eq!(output.content, "unknown tool: config_erase");
    let names: Vec<_> = executor.tools().iter().map(|t| t.name).collect();
    assert_eq!(names, vec!["config_read", "config_write"]);
}

#[test]
fn other_security_settings_are_kept() {
    let current = base_config();
    for change in [
        |c: &mut Config| c.sandbox.memory = "8g".to_owned(),
        |c: &mut Config| c.sandbox.pids_limit = 1,
    ] {
        let mut proposed = current.clone();
        change(&mut proposed);
        assert!(check_trust_escalation(TrustLevel::Full, &current, &proposed).is_some());
        assert!(check_sandbox_changes(&current, &proposed).is_some());
        assert!(check_user_changes(&current, &proposed).is_none());
    }
    let twice = config_with_users(vec![alice_full(), alice_full()]);
    assert!(check_trust_escalation(TrustLevel::Full, &twice, &twice).is_none());
}

fn alice_owner() -> UserConfig {
    UserConfig { trust: TrustLevel::Owner, ..alice_full() }
}

#[test]
fn entries_of_one_name_count_as_users() {
    let one = config_with_users(vec![alice_full()]);
    let two = config_with_users(vec![alice_owner(), alice_full()]);
    let reason = check_trust_escalation(TrustLevel::Full, &one, &two).unwrap();
    assert!(reason.contains("cannot add user 'alice'"));
    let reason = check_trust_escalation(TrustLevel::Full, &two, &one).unwrap();
    assert!(reason.contains("cannot remove user 'alice'"));
    assert_eq!(check_trust_escalation(TrustLevel::Full, &two, &two.clone()), None);
    assert_eq!(check_trust_escalation(TrustLevel::Owner, &one, &two), None);
}

#[test]
fn entries_of_one_name_are_compared_in_order() {
    let current = config_with_users(vec![alice_full(), bob_inner(), alice_owner()]);
    let swapped = config_with_users(vec![alice_owner(), bob_inner(), alice_full()]);
    let reason = check_user_changes(&current, &swapped).unwrap();
    assert!(reason.contains("cannot change trust for user 'alice' from Full to Owner"));
    let moved = config_with_users(vec![bob_inner(), alice_full(), alice_owner()]);
    assert_eq!(check_user_changes(&current, &moved), None);
}
