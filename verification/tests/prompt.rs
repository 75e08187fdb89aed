use coop_gateway::config::{
    default_memory_db_path, AgentConfig, ChannelsConfig, Config, CronDeliveryMode, GroupConfig,
    GroupTrigger, MemoryAutoCaptureConfig, MemoryConfig, MemoryPromptIndexConfig,
    MemoryRetentionConfig, PromptConfig, ProviderConfig, SandboxConfig, StreamPolicy,
    SubagentsConfig, TrustCeiling, UserConfig, WebConfig, WebFetchConfig, WebSearchConfig,
};
use coop_gateway::models::{
    auto_capture_applies, check_model_for_session, configured_context_limit_for_model,
    configured_model_name, configured_user_model, main_provider_for_model, model_name_for_user,
    stream_policy_for_model, tool_defs_for_session, ProviderSource,
};
use coop_gateway::prompt::{
    add_group_intro, build_group_intro, build_prompt, find_group_config_by_session,
    signal_target_from_session,
};
use coop_gateway::session::{SessionKey, SessionKind, TrustLevel};

fn base_config() -> Config {
    Config {
        agent: AgentConfig {
            id: "test".to_owned(),
            model: "test-model".to_owned(),
            workspace: "/srv/workspace".to_owned(),
            context_limit: None,
            subagents: SubagentsConfig {
                enabled: true,
                max_spawn_depth: 1,
                max_active_children: 4,
                max_concurrent: 4,
                default_timeout_seconds: 600,
                default_max_turns: 20,
                model: None,
                profiles: vec![],
            },
        },
        users: vec![],
        groups: vec![],
        channels: ChannelsConfig { signal: None },
        provider: provider("anthropic"),
        providers: vec![],
        aliases: vec![],
        prompt: PromptConfig::default(),
        memory: MemoryConfig {
            db_path: default_memory_db_path(),
            embedding: None,
            prompt_index: MemoryPromptIndexConfig::default(),
            retention: MemoryRetentionConfig::default(),
            auto_capture: MemoryAutoCaptureConfig { enabled: true, min_turn_messages: 4 },
        },
        cron: vec![],
        sandbox: SandboxConfig {
            enabled: false,
            allow_network: false,
            memory: "2g".to_owned(),
            pids_limit: 512,
        },
        web: WebConfig {
            search: WebSearchConfig { provider: None, timeout_seconds: None, max_results: None },
            fetch: WebFetchConfig { max_chars: None, timeout_seconds: None },
        },
    }
}

fn provider(name: &str) -> ProviderConfig {
    ProviderConfig {
        name: name.to_owned(),
        api_keys: vec![],
        base_url: None,
        api_key_env: None,
        models: vec![],
        model_context_limits: vec![],
        model_capabilities: vec![],
        extra_headers: vec![],
        stream_policy: StreamPolicy::Prefer,
        reasoning: None,
    }
}

fn user(name: &str, pattern: &str, model: Option<&str>) -> UserConfig {
    UserConfig {
        name: name.to_owned(),
        trust: TrustLevel::Full,
        match_patterns: vec![pattern.to_owned()],
        model: model.map(str::to_owned),
        timezone: None,
        sandbox: None,
    }
}

fn texts(list: &[&str]) -> Vec<String> {
    list.iter().map(|s| (*s).to_owned()).collect()
}

#[test]
fn build_prompt_includes_always_cron_delivery_block() {
    let kind = SessionKind::Cron("beat".to_owned());
    let blocks = texts(&["stable", "volatile"]);
    let mode = Some(CronDeliveryMode::Always);
    let built = build_prompt(blocks, &kind, mode, Some("signal"), Some("index"));
    assert!(built[0].starts_with("stable\n\n## Scheduled Delivery\n"));
    assert!(built[0].contains("via signal.") && built[0].contains("delivery = \"always\""));
    assert_eq!(built[1], "volatile\n\nindex");
}

#[test]
fn build_prompt_includes_as_needed_cron_delivery_block() {
    let kind = SessionKind::Cron("beat".to_owned());
    let mode = Some(CronDeliveryMode::AsNeeded);
    let built = build_prompt(vec![], &kind, mode, None, None);
    assert_eq!(built.len(), 1);
    assert!(built[0].contains("via messaging.") && built[0].contains("delivery = \"as_needed\""));
    let main = build_prompt(texts(&["a"]), &SessionKind::Main, mode, None, None);
    assert_eq!(main, texts(&["a"]));
}

#[test]
fn group_intro_names_the_participants() {
    let users = vec![user("alice", "signal:a", None), user("bob", "terminal:b", None)];
    let intro = build_group_intro(GroupTrigger::Always, "coop", &users);
    assert!(intro.contains("Known participants: alice (trust:Full)."));
    assert!(intro.contains("always-on"));
    let quiet = build_group_intro(GroupTrigger::Mention, "coop", &vec![]);
    assert!(!quiet.contains("Known participants"));
    assert!(quiet.contains("explicitly mentioned"));
}

#[test]
fn signal_targets_go_by_the_session() {
    let target = |kind| signal_target_from_session(&kind);
    assert_eq!(
        target(SessionKind::Dm("signal:a".to_owned())),
        Some(("direct", "a".to_owned()))
    );
    assert_eq!(
        target(SessionKind::Group("signal:group:x".to_owned())),
        Some(("group", "group:x".to_owned()))
    );
    assert_eq!(target(SessionKind::Group("x".to_owned())), Some(("group", "group:x".to_owned())));
    assert_eq!(target(SessionKind::Main), None);
}

#[test]
fn user_configured_model_is_used_before_runtime_override() {
    let mut c = base_config();
    c.users = vec![user("alice", "signal:a", Some("b")), user("alice", "x:y", Some("c"))];
    assert_eq!(configured_user_model(&c, Some("alice")), Some("b".to_owned()));
    assert_eq!(configured_user_model(&c, Some("bob")), None);
    assert_eq!(configured_user_model(&c, None), None);
    assert_eq!(configured_model_name("d", None, None, None), "d");
    assert_eq!(configured_model_name("d", Some("D"), Some("u"), None), "D");
    assert_eq!(configured_model_name("d", Some("D"), Some("u"), Some("U")), "U");
    assert_eq!(model_name_for_user("c", Some("x"), false, Some("X")), "X");
    assert_eq!(model_name_for_user("c", Some("x"), true, Some("X")), "c");
    assert_eq!(model_name_for_user("c", Some("x"), false, None), "c");
}

#[test]
fn context_limits_go_by_the_model() {
    let keys = texts(&["a", "b", "a"]);
    let limits = vec![1, 2, 3];
    let limit = |agent, own, key: &str| {
        configured_context_limit_for_model(agent, own, &keys, &limits, key)
    };
    assert_eq!(limit(Some(9), true, "a"), Some(9));
    assert_eq!(limit(Some(9), false, "a"), Some(1));
    assert_eq!(limit(None, true, "b"), Some(2));
    assert_eq!(limit(None, true, "c"), None);
}

#[test]
fn providers_and_policies_are_picked() {
    let mut c = base_config();
    c.provider.stream_policy = StreamPolicy::Disable;
    let require = Some(StreamPolicy::Require);
    assert_eq!(stream_policy_for_model(&c, require), StreamPolicy::Disable);
    c.providers = vec![provider("openai")];
    assert_eq!(stream_policy_for_model(&c, require), StreamPolicy::Require);
    assert_eq!(stream_policy_for_model(&c, None), StreamPolicy::Disable);
    assert_eq!(main_provider_for_model(true, true), ProviderSource::Cached);
    assert_eq!(main_provider_for_model(false, true), ProviderSource::Registered);
    assert_eq!(main_provider_for_model(false, false), ProviderSource::Create);
    assert!(check_model_for_session("m", true, &SessionKind::Main).is_err());
    assert!(check_model_for_session("m", true, &SessionKind::Subagent(1)).is_ok());
    assert!(auto_capture_applies(true, 4, 4));
    assert!(!auto_capture_applies(true, 3, 4));
}

#[test]
fn scheduled_sessions_have_fewer_tools() {
    let tools = texts(&["bash", "signal_send", "cron_trigger", "read"]);
    let cron = SessionKind::Cron("beat".to_owned());
    assert_eq!(tool_defs_for_session(&tools, &cron, None, true), texts(&["bash", "read"]));
    assert_eq!(tool_defs_for_session(&tools, &SessionKind::Main, None, true), tools);
    let allowed = texts(&["read"]);
    assert_eq!(
        tool_defs_for_session(&tools, &SessionKind::Subagent(1), Some(&allowed), true),
        allowed
    );
    assert!(tool_defs_for_session(&tools, &SessionKind::Main, None, false).is_empty());
}

fn group(pattern: &str, trigger: GroupTrigger) -> GroupConfig {
    GroupConfig {
        match_patterns: vec![pattern.to_owned()],
        trigger,
        mention_names: vec![],
        trigger_regex: None,
        trigger_model: None,
        trigger_prompt: None,
        default_trust: TrustLevel::Familiar,
        trust_ceiling: TrustCeiling::Unbounded,
        history_limit: 50,
    }
}

#[test]
fn groups_are_introduced_where_they_are_configured() {
    let mut config = base_config();
    let key = |kind| SessionKey { agent_id: "test".to_owned(), kind };
    let here = key(SessionKind::Group("signal:group:beef".to_owned()));
    assert!(find_group_config_by_session(&here, &config).is_none());
    let mut blocks = vec!["first".to_owned()];
    add_group_intro(&mut blocks, &here, &config);
    assert_eq!(blocks, vec!["first"]);

    config.groups = vec![
        group("signal:group:dead", GroupTrigger::Mention),
        group("signal:group:beef", GroupTrigger::Always),
        group("*", GroupTrigger::Regex),
    ];
    let trigger = |k: &SessionKey| find_group_config_by_session(k, &config).map(|g| g.trigger);
    assert_eq!(trigger(&here), Some(GroupTrigger::Always));
    let other = key(SessionKind::Group("signal:group:cafe".to_owned()));
    assert_eq!(trigger(&other), Some(GroupTrigger::Regex));
    assert_eq!(trigger(&key(SessionKind::Main)), None);

    add_group_intro(&mut blocks, &here, &config);
    let intro = build_group_intro(GroupTrigger::Always, "test", &config.users);
    assert_eq!(blocks, vec![format!("first\n\n{intro}")]);
}
