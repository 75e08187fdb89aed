use coop_gateway::check_parts::{
    AliasFacts, DatabasePlace, EffectiveModalities, Facts, ModelAnswer, ModelFound, OfferedModel,
    PathFacts, ProviderFacts, SandboxFacts, SandboxProbe, WorkspaceFile, WorkspaceScan,
};
use coop_gateway::check_report::{CheckReport, CheckResult, Severity};
use coop_gateway::config::{
    default_memory_db_path, resolve_workspace, AgentConfig, AliasConfig, CacheHintConfig,
    ChannelsConfig, Config, ContextLimitConfig, CronConfig, CronDelivery, CronDeliveryMode,
    GroupConfig, GroupTrigger, HeaderConfig, MemoryAutoCaptureConfig, MemoryConfig,
    MemoryEmbeddingConfig, MemoryPromptIndexConfig, MemoryRetentionConfig, ModelCapabilityConfig,
    PromptConfig, PromptFileEntry, ProviderConfig, ReasoningConfig, SandboxConfig, SandboxOverrides,
    SignalChannelConfig, StreamPolicy, SubagentProfile, SubagentsConfig, TrustCeiling, UserConfig,
    WebConfig, WebFetchConfig, WebSearchConfig,
};
use coop_gateway::config_check::validate_config;
use coop_gateway::session::TrustLevel;

fn base_config() -> Config {
    Config {
        agent: AgentConfig {
            id: "test".to_owned(),
            model: "test-model".to_owned(),
            workspace: "/srv/workspace".to_owned(),
            context_limit: None,
            subagents: SubagentsConfig {
                enabled: true,
                max_spawn_depth: 1,
                max_active_children: 4,
                max_concurrent: 4,
                default_timeout_seconds: 600,
                default_max_turns: 20,
                model: None,
                profiles: vec![],
            },
        },
        users: vec![],
        groups: vec![],
        channels: ChannelsConfig { signal: None },
        provider: provider("anthropic"),
        providers: vec![],
        aliases: vec![],
        prompt: PromptConfig::default(),
        memory: MemoryConfig {
            db_path: default_memory_db_path(),
            embedding: None,
            prompt_index: MemoryPromptIndexConfig::default(),
            retention: MemoryRetentionConfig::default(),
            auto_capture: MemoryAutoCaptureConfig { enabled: true, min_turn_messages: 4 },
        },
        cron: vec![],
        sandbox: SandboxConfig {
            enabled: false,
            allow_network: false,
            memory: "2g".to_owned(),
            pids_limit: 512,
        },
        web: WebConfig {
            search: WebSearchConfig { provider: None, timeout_seconds: None, max_results: None },
            fetch: WebFetchConfig { max_chars: None, timeout_seconds: None },
        },
    }
}

fn provider(name: &str) -> ProviderConfig {
    ProviderConfig {
        name: name.to_owned(),
        api_keys: vec![],
        base_url: None,
        api_key_env: None,
        models: vec![],
        model_context_limits: vec![],
        model_capabilities: vec![],
        extra_headers: vec![],
        stream_policy: StreamPolicy::Prefer,
        reasoning: None,
    }
}

fn texts(list: &[&str]) -> Vec<String> {
    list.iter().map(|s| (*s).to_owned()).collect()
}

fn key_of(id: &str) -> String {
    id.trim().to_lowercase()
}

/// Models that providers offer without being told.
fn built_in(name: &str) -> Vec<String> {
    match name {
        "openai" => texts(&["gpt-5-mini", "gpt-5-codex", "gpt-5.4"]),
        "anthropic" => texts(&[
            "anthropic/sonnet-4-20250514",
            "anthropic/haiku-3-5-20241022",
        ]),
        _ => vec![],
    }
}

fn provider_facts(p: &ProviderConfig) -> ProviderFacts {
    let name = p.name.trim().to_lowercase();
    let ids = if p.models.is_empty() { built_in(&name) } else { p.models.clone() };
    ProviderFacts {
        normalized_name: name.clone(),
        model_keys: p.models.iter().map(|m| key_of(m)).collect(),
        capability_keys: p.model_capabilities.iter().map(|c| key_of(&c.model)).collect(),
        modalities: p
            .model_capabilities
            .iter()
            .map(|_| EffectiveModalities { text_input: true, text_output: true, image_output: false })
            .collect(),
        limit_keys: p.model_context_limits.iter().map(|l| key_of(&l.model)).collect(),
        offered: ids
            .iter()
            .map(|id| OfferedModel { id: id.clone(), key: key_of(id) })
            .collect(),
        api_key_env: p.api_key_env.clone().or(match name.as_str() {
            "anthropic" => Some("ANTHROPIC_API_KEY".to_owned()),
            "gemini" => Some("GEMINI_API_KEY".to_owned()),
            "openai" => Some("OPENAI_API_KEY".to_owned()),
            _ => None,
        }),
    }
}

fn main_providers(c: &Config) -> Vec<ProviderConfig> {
    if c.providers.is_empty() { vec![c.provider.clone()] } else { c.providers.clone() }
}

fn find_model(c: &Config, reference: &str) -> ModelAnswer {
    let alias = c.aliases.iter().find(|a| key_of(&a.alias) == key_of(reference));
    let id = alias.map_or(reference, |a| a.target.as_str());
    let mut found = None;
    for p in main_providers(c) {
        for m in provider_facts(&p).offered {
            if m.key == key_of(id) && found.is_none() {
                found = Some(ModelFound { id: m.id, provider: p.name.clone() });
            }
        }
    }
    ModelAnswer { alias: alias.map(|a| a.alias.clone()), found }
}

fn facts(c: &Config) -> Facts {
    let answer = |m: &Option<String>| match m {
        Some(m) => find_model(c, m),
        None => ModelAnswer { alias: None, found: None },
    };
    let mut real_model_keys = vec![];
    for p in main_providers(c) {
        for m in provider_facts(&p).offered {
            real_model_keys.push(m.key);
        }
    }
    let subagents = &c.agent.subagents;
    Facts {
        env: texts(&["HOME"]),
        workspace: Ok("/srv/workspace".to_owned()),
        scan: WorkspaceScan::Read {
            files: vec![WorkspaceFile { path: "SOUL.md".to_owned(), tokens: 3 }],
            prompt: Ok(3),
        },
        bootstrap_pending: false,
        provider: provider_facts(&c.provider),
        providers: c.providers.iter().map(provider_facts).collect(),
        agent_model: find_model(c, &c.agent.model),
        agent_model_visible: true,
        aliases: c
            .aliases
            .iter()
            .map(|a| AliasFacts {
                alias_key: key_of(&a.alias),
                target_key: key_of(&a.target),
                target_resolves: find_model(c, &a.target).found.is_some(),
            })
            .collect(),
        real_model_keys,
        memory_db: DatabasePlace::ToCreate { parent: "/srv/db".to_owned() },
        subagent_model_ok: answer(&subagents.model).found.is_some(),
        profile_models_ok: subagents
            .profiles
            .iter()
            .map(|p| answer(&p.model).found.is_some())
            .collect(),
        sandbox: SandboxFacts {
            probe: Ok(SandboxProbe {
                name: "linux".to_owned(),
                landlock: true,
                seccomp: true,
                cgroups_v2: true,
                internet_only: true,
            }),
            memory_ok: true,
            user_memory_ok: c.users.iter().map(|_| true).collect(),
            namespaces_disabled: false,
        },
        user_models: c.users.iter().map(|u| answer(&u.model)).collect(),
        system_timezone: Some("Europe/Berlin".to_owned()),
        signal_db: PathFacts { path: "/srv/db/signal.db".to_owned(), exists: true },
        trigger_model_names: c
            .groups
            .iter()
            .map(|g| g.trigger_model.clone().unwrap_or("default-trigger".to_owned()))
            .collect(),
        trigger_models: c.groups.iter().map(|g| answer(&g.trigger_model)).collect(),
        program: Ok(PathFacts { path: "/usr/bin/coop".to_owned(), exists: true }),
    }
}

fn check(c: &Config) -> CheckReport {
    validate_config(Ok((c, &facts(c))))
}

fn named<'a>(report: &'a CheckReport, name: &str) -> &'a CheckResult {
    report.results.iter().find(|r| r.name == name).unwrap()
}

fn failed<'a>(report: &'a CheckReport, name: &str) -> Option<&'a CheckResult> {
    report.results.iter().find(|r| r.name == name && !r.passed)
}

fn user(name: &str, patterns: &[&str]) -> UserConfig {
    UserConfig {
        name: name.to_owned(),
        trust: TrustLevel::Full,
        match_patterns: texts(patterns),
        model: None,
        timezone: None,
        sandbox: None,
    }
}

fn cron(name: &str, schedule: &str, message: &str) -> CronConfig {
    CronConfig {
        name: name.to_owned(),
        cron: schedule.to_owned(),
        message: message.to_owned(),
        user: None,
        timezone: None,
        deliver: None,
        delivery: None,
        review_prompt: None,
        sandbox: None,
    }
}

fn group(patterns: &[&str], trigger: GroupTrigger) -> GroupConfig {
    GroupConfig {
        match_patterns: texts(patterns),
        trigger,
        mention_names: vec![],
        trigger_regex: None,
        trigger_model: None,
        trigger_prompt: None,
        default_trust: TrustLevel::Familiar,
        trust_ceiling: TrustCeiling::Unbounded,
        history_limit: 50,
    }
}

fn file(path: &str) -> PromptFileEntry {
    PromptFileEntry {
        path: path.to_owned(),
        trust: TrustLevel::Full,
        cache: CacheHintConfig::Session,
        description: None,
    }
}

fn alias(alias: &str, target: &str) -> AliasConfig {
    AliasConfig { alias: alias.to_owned(), target: target.to_owned() }
}

fn non_env_errors(report: &CheckReport) -> Vec<&CheckResult> {
    report
        .results
        .iter()
        .filter(|r| {
            r.severity == Severity::Error
                && !r.passed
                && r.name != "api_key_present"
                && r.name != "memory_embedding_api_key"
        })
        .collect()
}

#[test]
fn test_valid_minimal_config() {
    let report = check(&base_config());
    let errors = non_env_errors(&report);
    assert!(errors.is_empty(), "expected no config errors: {errors:?}");
}

#[test]
fn test_invalid_agent_context_limit() {
    let mut c = base_config();
    c.agent.context_limit = Some(0);
    assert!(!named(&check(&c), "agent_context_limit").passed);
}

#[test]
fn test_invalid_provider_model_context_limit() {
    let mut c = base_config();
    c.agent.model = "gpt-5.4".to_owned();
    c.provider = provider("openai");
    c.provider.model_context_limits =
        vec![ContextLimitConfig { model: "gpt-5.4".to_owned(), limit: 0 }];
    assert!(!named(&check(&c), "provider_model_context_limits").passed);
}

#[test]
fn test_invalid_toml() {
    let c = base_config();
    let report = validate_config(Err("expected a table"));
    assert!(!named(&report, "toml_parse").passed);
    assert!(report.has_errors());
    assert_eq!(report.results.len(), 1, "should return early after parse failure");
}

#[test]
fn test_missing_workspace() {
    let mut c = base_config();
    c.agent.workspace = "./nonexistent".to_owned();
    let mut f = facts(&c);
    f.workspace = resolve_workspace("/srv/nonexistent".to_owned(), false);
    let report = validate_config(Ok((&c, &f)));
    assert!(!named(&report, "workspace_exists").passed);
    assert!(report.results.iter().all(|r| r.name != "workspace_files"));
}

#[test]
fn test_unknown_provider() {
    let mut c = base_config();
    c.provider = provider("invalid-provider");
    let report = check(&c);
    let provider_check = named(&report, "provider_known");
    assert!(!provider_check.passed);
    assert!(provider_check.message.contains("invalid-provider"));
}

#[test]
fn test_gemini_provider_is_accepted() {
    let mut c = base_config();
    c.agent.model = "gemini-2.5-flash".to_owned();
    c.provider = provider("gemini");
    c.provider.api_key_env = Some("HOME".to_owned());
    assert!(named(&check(&c), "provider_known").passed, "expected gemini to be accepted");
}

#[test]
fn test_multiple_providers_require_agent_model_to_match_one_provider() {
    let mut c = base_config();
    c.agent.model = "missing-model".to_owned();
    let mut a = provider("anthropic");
    a.models = texts(&["anthropic/sonnet-4-20250514"]);
    let mut b = provider("openai");
    b.models = texts(&["gpt-5-codex"]);
    c.providers = vec![a, b];
    let report = check(&c);
    let model_check = named(&report, "agent_model_provider");
    assert!(!model_check.passed);
    assert!(model_check.message.contains("missing-model"));
}

#[test]
fn test_model_aliases_allow_agent_and_user_models() {
    let mut c = base_config();
    c.agent.model = "main".to_owned();
    c.aliases = vec![alias("main", "gpt-5-mini"), alias("codex", "gpt-5-codex")];
    let mut a = provider("anthropic");
    a.models = texts(&["anthropic/sonnet-4-20250514"]);
    let mut b = provider("openai");
    b.models = texts(&["gpt-5-mini", "gpt-5-codex"]);
    c.providers = vec![a, b];
    let mut alice = user("alice", &[]);
    alice.model = Some("codex".to_owned());
    c.users = vec![alice];
    let report = check(&c);
    let alias_check = named(&report, "model_aliases");
    let agent_check = named(&report, "agent_model_provider");
    let user_check = named(&report, "users_models");
    assert!(alias_check.passed, "{alias_check:?}");
    assert!(agent_check.passed, "{agent_check:?}");
    assert!(agent_check.message.contains("alias 'main'"));
    assert!(user_check.passed, "{user_check:?}");
    assert!(user_check.message.contains("alias 'codex'"));
}

#[test]
fn test_model_aliases_reject_alias_chains() {
    let mut c = base_config();
    c.agent.model = "main".to_owned();
    c.aliases = vec![alias("main", "gpt-5-mini"), alias("fast", "main")];
    c.provider = provider("openai");
    let report = check(&c);
    let alias_check = named(&report, "model_aliases");
    assert!(!alias_check.passed);
    assert!(alias_check.message.contains("alias chaining is not supported"));
}

#[test]
fn test_groups_trigger_model_accepts_alias() {
    let mut c = base_config();
    c.agent.model = "main".to_owned();
    c.aliases = vec![
        alias("main", "anthropic/sonnet-4-20250514"),
        alias("fast", "anthropic/haiku-3-5-20241022"),
    ];
    c.channels.signal =
        Some(SignalChannelConfig { db_path: "./db/signal.db".to_owned(), verbose: false });
    let mut g = group(&["signal:group:deadbeef"], GroupTrigger::Llm);
    g.trigger_model = Some("fast".to_owned());
    c.groups = vec![g];
    let report = check(&c);
    let trigger_check = named(&report, "groups_trigger_models");
    assert!(trigger_check.passed, "{trigger_check:?}");
    assert!(trigger_check.message.contains("alias 'fast'"));
}

#[test]
fn test_multiple_providers_reject_duplicate_model_ids() {
    let mut c = base_config();
    c.agent.model = "gpt-5-codex".to_owned();
    let mut a = provider("openai");
    a.models = texts(&["gpt-5-codex"]);
    let mut b = provider("openai-compatible");
    b.base_url = Some("http://localhost:8000/v1".to_owned());
    b.models = texts(&["gpt-5-codex"]);
    b.api_key_env = Some("HOME".to_owned());
    c.providers = vec![a, b];
    let report = check(&c);
    let duplicate_check = named(&report, "providers_models_unique");
    assert!(!duplicate_check.passed);
    assert!(duplicate_check.message.contains("gpt-5-codex"));
    assert_eq!(
        duplicate_check.message,
        "duplicate model ids across providers: providers[0] -> gpt-5-codex, providers[1] -> gpt-5-codex"
    );
}

#[test]
fn test_user_model_must_match_available_model() {
    let mut c = base_config();
    c.agent.model = "gpt-5-mini".to_owned();
    c.provider = provider("openai");
    let mut alice = user("alice", &[]);
    alice.model = Some("gpt-5-codex".to_owned());
    c.users = vec![alice];
    let report = check(&c);
    let model_check = named(&report, "users_models");
    assert!(model_check.passed);
    assert!(model_check.message.contains("alice"));
    assert!(model_check.message.contains("gpt-5-codex"));
}

#[test]
fn test_user_model_rejects_unknown_model() {
    let mut c = base_config();
    c.agent.model = "gpt-5-mini".to_owned();
    c.provider = provider("openai");
    let mut alice = user("alice", &[]);
    alice.model = Some("missing-model".to_owned());
    c.users = vec![alice];
    let report = check(&c);
    let model_check = named(&report, "users_models");
    assert!(!model_check.passed);
    assert!(model_check.message.contains("alice"));
    assert!(model_check.message.contains("missing-model"));
}

fn embedding(provider: &str, model: &str, dimensions: usize) -> MemoryEmbeddingConfig {
    MemoryEmbeddingConfig {
        provider: provider.to_owned(),
        model: model.to_owned(),
        dimensions,
        base_url: None,
        api_key_env: None,
    }
}

#[test]
fn test_invalid_memory_embedding() {
    let mut c = base_config();
    c.memory.embedding = Some(embedding("", "", 0));
    assert!(!named(&check(&c), "memory_embedding").passed);
}

#[test]
fn test_embedding_dimension_upper_bound() {
    let mut c = base_config();
    c.memory.embedding = Some(embedding("openai", "text-embedding-3-small", 99999));
    assert!(!named(&check(&c), "memory_embedding").passed);
}

#[test]
fn test_openai_compatible_embedding_requires_extra_fields() {
    let mut c = base_config();
    c.memory.embedding = Some(embedding("openai-compatible", "text-embedding-3-small", 1536));
    assert!(!named(&check(&c), "memory_embedding").passed);
}

#[test]
fn test_memory_embedding_api_key_check() {
    let mut c = base_config();
    c.memory.embedding = Some(embedding("openai", "text-embedding-3-small", 8));
    let mut f = facts(&c);
    assert!(!named(&validate_config(Ok((&c, &f))), "memory_embedding_api_key").passed);
    f.env.push("OPENAI_API_KEY".to_owned());
    assert!(named(&validate_config(Ok((&c, &f))), "memory_embedding_api_key").passed);
}

#[test]
fn test_invalid_memory_prompt_index() {
    let mut c = base_config();
    c.memory.prompt_index.limit = 0;
    c.memory.prompt_index.max_tokens = 0;
    assert!(!named(&check(&c), "memory_prompt_index").passed);
}

#[test]
fn test_memory_prompt_index_recent_days_bounds() {
    let mut c = base_config();
    c.memory.prompt_index.recent_days = 0;
    assert!(!named(&check(&c), "memory_prompt_index").passed, "recent_days=0 should fail");
    c.memory.prompt_index.recent_days = 31;
    assert!(!named(&check(&c), "memory_prompt_index").passed, "recent_days=31 should fail");
    c.memory.prompt_index.recent_days = 3;
    assert!(named(&check(&c), "memory_prompt_index").passed, "recent_days=3 should pass");
}

#[test]
fn test_invalid_memory_auto_capture() {
    let mut c = base_config();
    c.memory.auto_capture.min_turn_messages = 0;
    assert!(!named(&check(&c), "memory_auto_capture").passed);
}

#[test]
fn test_invalid_memory_retention() {
    let mut c = base_config();
    c.memory.retention.archive_after_days = 30;
    c.memory.retention.delete_archive_after_days = 10;
    c.memory.retention.compress_after_days = 0;
    c.memory.retention.compression_min_cluster_size = 1;
    c.memory.retention.max_rows_per_run = 0;
    assert!(!named(&check(&c), "memory_retention").passed);
}

#[test]
fn test_invalid_cron() {
    let mut c = base_config();
    c.cron = vec![cron("bad", "not a cron", "test")];
    let report = check(&c);
    assert!(failed(&report, "cron_expressions").is_some());
    assert!(report.has_warnings());
}

#[test]
fn test_duplicate_cron_names_error() {
    let mut c = base_config();
    c.cron = vec![
        cron("heartbeat", "*/30 * * * *", "check one"),
        cron("heartbeat", "0 8 * * *", "check two"),
    ];
    let report = check(&c);
    assert!(failed(&report, "cron_names").unwrap().message.contains("heartbeat"));
    assert!(report.has_errors());
}

#[test]
fn test_invalid_user_timezone() {
    let mut c = base_config();
    let mut alice = user("alice", &["signal:alice-uuid"]);
    alice.timezone = Some("Mars/Olympus_Mons".to_owned());
    c.users = vec![alice];
    let report = check(&c);
    let found = failed(&report, "users_timezones").unwrap();
    assert!(found.message.contains("alice"));
    assert!(found.message.contains("invalid timezone"));
}

#[test]
fn test_invalid_cron_timezone() {
    let mut c = base_config();
    let mut t = cron("briefing", "0 8 * * *", "Morning briefing");
    t.timezone = Some("Mars/Olympus_Mons".to_owned());
    c.cron = vec![t];
    let report = check(&c);
    let found = failed(&report, "cron_timezones").unwrap();
    assert!(found.message.contains("briefing"));
    assert!(found.message.contains("invalid timezone"));
}

#[test]
fn test_cron_user_not_in_config() {
    let mut c = base_config();
    let mut t = cron("test", "*/30 * * * *", "test");
    t.user = Some("mallory".to_owned());
    c.cron = vec![t];
    let report = check(&c);
    let cron_users_check = named(&report, "cron_users");
    assert!(!cron_users_check.passed);
    assert!(cron_users_check.message.contains("mallory"));
}

#[test]
fn test_cron_user_no_deliverable_channels_warns() {
    let mut c = base_config();
    c.users = vec![user("alice", &["terminal:default"])];
    let mut t = cron("heartbeat", "*/30 * * * *", "check");
    t.user = Some("alice".to_owned());
    c.cron = vec![t];
    let report = check(&c);
    let found = named(&report, "cron_user_no_deliverable_channels");
    assert!(!found.passed);
    assert!(found.message.contains("alice"));
}

#[test]
fn test_cron_user_with_signal_channel_no_warning() {
    let mut c = base_config();
    c.users = vec![user("alice", &["signal:alice-uuid"])];
    let mut t = cron("heartbeat", "*/30 * * * *", "check");
    t.user = Some("alice".to_owned());
    c.cron = vec![t];
    assert!(check(&c).results.iter().all(|r| r.name != "cron_user_no_deliverable_channels"));
}

#[test]
fn test_cron_review_prompt_must_be_non_empty() {
    let mut c = base_config();
    let mut t = cron("heartbeat", "*/30 * * * *", "check HEARTBEAT.md");
    t.delivery = Some(CronDeliveryMode::AsNeeded);
    t.review_prompt = Some("   ".to_owned());
    c.cron = vec![t];
    let report = check(&c);
    let found = named(&report, "cron_review_prompt");
    assert!(!found.passed);
    assert!(found.message.contains("review_prompt must be non-empty"));
}

#[test]
fn test_report_has_errors() {
    let mut report = CheckReport::new();
    assert!(!report.has_errors());
    assert!(!report.has_warnings());
    report.push(CheckResult {
        name: "test",
        severity: Severity::Warning,
        passed: false,
        message: "warning".to_owned(),
    });
    assert!(!report.has_errors());
    assert!(report.has_warnings());
    report.push(CheckResult {
        name: "test2",
        severity: Severity::Error,
        passed: false,
        message: "error".to_owned(),
    });
    assert!(report.has_errors());
}

#[test]
fn test_report_json_output() {
    let mut report = CheckReport::new();
    report.push(CheckResult {
        name: "test_pass",
        severity: Severity::Error,
        passed: true,
        message: "ok".to_owned(),
    });
    report.push(CheckResult {
        name: "test_fail",
        severity: Severity::Warning,
        passed: false,
        message: "bad".to_owned(),
    });
    let json = report.to_json_value();
    assert_eq!(json.passed, true);
    assert_eq!(json.errors, 0);
    assert_eq!(json.warnings, 1);
    assert_eq!(json.checks.len(), 2);
    assert_eq!(json.checks[0].name, "test_pass");
    assert_eq!(json.checks[1].severity, "warning");
}

#[test]
fn test_prompt_files_default_passes() {
    let mut c = base_config();
    c.prompt.shared_files.push(file("MEMORY.md"));
    let report = check(&c);
    let prompt_check = report
        .results
        .iter()
        .find(|r| r.name == "prompt_files" && r.severity == Severity::Info);
    assert!(prompt_check.is_some(), "should have prompt_files info check");
    assert!(prompt_check.unwrap().passed);
    assert!(prompt_check.unwrap().message.contains("4 shared"));
}

#[test]
fn test_prompt_files_empty_path_rejected() {
    let mut c = base_config();
    c.prompt.shared_files = vec![file("")];
    let report = check(&c);
    assert!(failed(&report, "prompt_files").unwrap().message.contains("empty path"));
}

#[test]
fn test_prompt_files_absolute_path_rejected() {
    let mut c = base_config();
    c.prompt.shared_files = vec![file("/etc/passwd")];
    assert!(failed(&check(&c), "prompt_files").is_some(), "should reject absolute path");
}

#[test]
fn test_prompt_files_traversal_rejected() {
    let mut c = base_config();
    c.prompt.user_files = vec![file("../../etc/passwd")];
    assert!(failed(&check(&c), "prompt_files").is_some(), "should reject path traversal");
}

#[test]
fn test_prompt_files_duplicate_warns() {
    let mut c = base_config();
    c.prompt.shared_files = vec![file("SOUL.md"), file("SOUL.md")];
    let report = check(&c);
    let dup_check = report
        .results
        .iter()
        .find(|r| r.name == "prompt_files" && r.severity == Severity::Warning && !r.passed);
    assert!(dup_check.is_some(), "should warn about duplicate path");
    assert!(dup_check.unwrap().message.contains("duplicate"));
}

#[test]
fn test_config_check_rejects_missing_env_prefix() {
    let mut c = base_config();
    c.provider.api_keys = texts(&["ANTHROPIC_API_KEY"]);
    let report = check(&c);
    let found = failed(&report, "api_key_present");
    assert!(found.is_some(), "should reject entry without env: prefix");
    assert!(found.unwrap().message.contains("env:"));
}

#[test]
fn test_config_check_reports_all_missing_env_vars() {
    let mut c = base_config();
    c.provider.api_keys = texts(&["env:COOP_TEST_MISSING_KEY_A", "env:COOP_TEST_MISSING_KEY_B"]);
    let report = check(&c);
    let missing: Vec<_> = report
        .results
        .iter()
        .filter(|r| r.name == "api_key_present" && !r.passed)
        .collect();
    assert_eq!(missing.len(), 2, "should report both missing env vars");
    assert!(missing[0].message.contains("COOP_TEST_MISSING_KEY_A"));
    assert!(missing[1].message.contains("COOP_TEST_MISSING_KEY_B"));
}

#[test]
fn test_config_check_api_keys_with_home_env() {
    let mut c = base_config();
    c.provider.api_keys = texts(&["env:HOME"]);
    let report = check(&c);
    let found = report.results.iter().find(|r| r.name == "api_key_present" && r.passed);
    assert!(found.is_some(), "should pass when env var is set");
    assert!(found.unwrap().message.contains("1 API keys configured"));
    assert!(found.unwrap().message.contains("rotation enabled"));
}

#[test]
fn test_config_check_rejects_openai_reasoning_without_effort() {
    let mut c = base_config();
    c.agent.model = "gpt-5.4".to_owned();
    c.provider = provider("openai");
    c.provider.models = texts(&["gpt-5.4"]);
    c.provider.reasoning =
        Some(ReasoningConfig { effort: None, summary: Some("concise".to_owned()) });
    let report = check(&c);
    let found = failed(&report, "provider_reasoning");
    assert!(found.is_some(), "should reject reasoning without effort");
    assert!(found.unwrap().message.contains("reasoning.effort must be set"));
}

#[test]
fn test_config_check_rejects_reasoning_for_non_openai_provider() {
    let mut c = base_config();
    c.agent.model = "sonnet-4-20250514".to_owned();
    c.provider.reasoning = Some(ReasoningConfig { effort: Some("high".to_owned()), summary: None });
    let report = check(&c);
    let found = failed(&report, "provider_reasoning");
    assert!(found.is_some(), "should reject reasoning for non-openai provider");
    assert!(found.unwrap().message.contains("only supported for openai"));
}

fn check_with_groups(groups: Vec<GroupConfig>) -> CheckReport {
    let mut c = base_config();
    c.groups = groups;
    check(&c)
}

#[test]
fn test_valid_group_config_passes() {
    let mut g = group(&["signal:group:deadbeef"], GroupTrigger::Mention);
    g.mention_names = texts(&["coop"]);
    let report = check_with_groups(vec![g]);
    let errors: Vec<_> = report
        .results
        .iter()
        .filter(|r| r.name == "groups" && r.severity == Severity::Error && !r.passed)
        .collect();
    assert!(errors.is_empty(), "valid group should have no errors: {errors:?}");
}

#[test]
fn test_group_empty_match_fails() {
    let report = check_with_groups(vec![group(&[], GroupTrigger::Always)]);
    let found = report
        .results
        .iter()
        .find(|r| r.name == "groups" && !r.passed && r.message.contains("match list is empty"));
    assert!(found.is_some(), "empty match should fail");
}

#[test]
fn test_group_mention_without_names_fails() {
    let report = check_with_groups(vec![group(&["signal:group:aabb"], GroupTrigger::Mention)]);
    let found = report
        .results
        .iter()
        .find(|r| r.name == "groups" && !r.passed && r.message.contains("mention_names"));
    assert!(found.is_some(), "mention without names should fail");
}

#[test]
fn test_group_regex_without_pattern_fails() {
    let report = check_with_groups(vec![group(&["signal:group:aabb"], GroupTrigger::Regex)]);
    let found = report
        .results
        .iter()
        .find(|r| r.name == "groups" && !r.passed && r.message.contains("trigger_regex"));
    assert!(found.is_some(), "regex without pattern should fail");
}

#[test]
fn test_group_invalid_regex_fails() {
    let mut g = group(&["signal:group:aabb"], GroupTrigger::Regex);
    g.trigger_regex = Some("[invalid".to_owned());
    let report = check_with_groups(vec![g]);
    let found = report
        .results
        .iter()
        .find(|r| r.name == "groups" && !r.passed && r.message.contains("not a valid regex"));
    assert!(found.is_some(), "invalid regex should fail");
}

#[test]
fn test_group_owner_default_trust_warns() {
    let mut g = group(&["signal:group:aabb"], GroupTrigger::Always);
    g.default_trust = TrustLevel::Owner;
    let report = check_with_groups(vec![g]);
    let found = report.results.iter().find(|r| {
        r.name == "groups" && r.severity == Severity::Warning && r.message.contains("owner trust")
    });
    assert!(found.is_some(), "owner default_trust should warn");
}

#[test]
fn test_group_min_member_trust_ceiling_fails() {
    let mut g = group(&["signal:group:aabb"], GroupTrigger::Always);
    g.trust_ceiling = TrustCeiling::MinMember;
    let report = check_with_groups(vec![g]);
    let found = report.results.iter().find(|r| {
        r.name == "groups" && r.severity == Severity::Error && r.message.contains("min_member")
    });
    assert!(found.is_some(), "min_member trust_ceiling should fail");
}

#[test]
fn test_group_no_signal_channel_warns() {
    let report = check_with_groups(vec![group(&["signal:group:aabb"], GroupTrigger::Always)]);
    let found = report
        .results
        .iter()
        .find(|r| r.name == "groups" && r.message.contains("no signal channel"));
    assert!(found.is_some(), "groups without signal should warn");
}

#[test]
fn test_group_duplicate_match_warns() {
    let report = check_with_groups(vec![
        group(&["signal:group:aabb"], GroupTrigger::Always),
        group(&["signal:group:aabb"], GroupTrigger::Always),
    ]);
    let found = report
        .results
        .iter()
        .find(|r| r.name == "groups" && r.message.contains("duplicate"));
    assert!(found.is_some(), "duplicate match should warn");
}

#[test]
fn test_invalid_subagent_defaults_fail_validation() {
    let mut c = base_config();
    c.agent.subagents.max_spawn_depth = 0;
    c.agent.subagents.default_timeout_seconds = 0;
    c.agent.subagents.default_max_turns = 0;
    assert!(!named(&check(&c), "subagents_config").passed);
}

#[test]
fn test_unknown_subagent_profile_model_fails_validation() {
    let mut c = base_config();
    c.agent.subagents.profiles = vec![SubagentProfile {
        name: "code".to_owned(),
        model: Some("missing-model".to_owned()),
        tools: None,
        default_timeout_seconds: None,
        default_max_turns: None,
        allow_spawn: false,
    }];
    let report = check(&c);
    let found = named(&report, "subagents_profile_model");
    assert!(!found.passed);
    assert!(found.message.contains("missing-model"));
}

#[test]
fn summary_counts_what_failed() {
    let mut report = CheckReport::new();
    report.note("a", Severity::Info, true, "first".to_owned());
    report.note("b", Severity::Error, true, "second".to_owned());
    assert_eq!(report.to_summary_string(), "· first\n✓ second\n\nall checks passed");
    report.note("c", Severity::Warning, false, "third".to_owned());
    report.note("d", Severity::Error, false, "fourth".to_owned());
    assert_eq!(
        report.to_summary_string(),
        "· first\n✓ second\n⚠ third\n✗ fourth\n\n1 error(s), 1 warning(s)"
    );
    assert_eq!(report.error_count(), 1);
    assert_eq!(report.warning_count(), 1);
}

#[test]
fn full_report_of_a_minimal_config() {
    let report = check(&base_config());
    let names: Vec<&str> = report.results.iter().map(|r| r.name).collect();
    assert_eq!(
        names,
        vec![
            "toml_parse",
            "required_fields",
            "agent_context_limit",
            "workspace_exists",
            "provider_known",
            "provider_stream_policy",
            "provider_reasoning",
            "provider_models_valid",
            "provider_model_capabilities",
            "provider_model_context_limits",
            "api_key_present",
            "memory_db_path",
            "memory_prompt_index",
            "memory_auto_capture",
            "memory_retention",
            "prompt_files",
            "subagents_config",
            "workspace_files",
            "prompt_builds",
            "users",
            "binary_exists",
        ]
    );
    assert_eq!(named(&report, "workspace_files").message, "workspace files: SOUL.md (3 tok)");
    assert_eq!(named(&report, "prompt_files").message, "prompt files: 3 shared, 3 per-user");
}

#[test]
fn provider_entries_are_checked_in_detail() {
    let mut c = base_config();
    c.provider = provider("openai-compatible");
    c.provider.base_url = Some("localhost".to_owned());
    c.provider.api_key_env = Some(" ".to_owned());
    c.provider.models = texts(&["A", "a", ""]);
    c.provider.model_capabilities = vec![ModelCapabilityConfig {
        model: "a".to_owned(),
        input_modalities: Some(vec![]),
        output_modalities: None,
        hidden: false,
        subagent_only: false,
    }];
    c.provider.extra_headers = vec![
        HeaderConfig { name: "X-Ok".to_owned(), value: "1".to_owned() },
        HeaderConfig { name: "X-Bad".to_owned(), value: "1\n2".to_owned() },
    ];
    let mut f = facts(&c);
    f.provider.modalities[0].text_output = false;
    let report = validate_config(Ok((&c, &f)));
    assert_eq!(
        named(&report, "provider_base_url").message,
        "provider requires base_url with http:// or https:// for openai-compatible"
    );
    assert_eq!(named(&report, "provider_api_key_env").message, "provider.api_key_env must not be empty");
    assert_eq!(
        named(&report, "provider_models_valid").message,
        "provider.models must not contain empty entries"
    );
    assert_eq!(
        named(&report, "provider_model_capabilities").message,
        "provider.model_capabilities contains invalid entries: a input_modalities must not be empty, a must support text or image output"
    );
    assert_eq!(named(&report, "provider_models_unique").message, "provider.models contains duplicates: a");
    assert_eq!(
        named(&report, "provider_extra_headers").message,
        "provider.extra_headers contains invalid entry 'X-Bad'"
    );
    assert_eq!(
        named(&report, "api_key_present").message,
        "provider:   environment variable not set"
    );
}

#[test]
fn sandbox_is_checked_where_it_is_enabled() {
    let mut c = base_config();
    c.sandbox.enabled = true;
    c.sandbox.allow_network = true;
    c.sandbox.pids_limit = 0;
    let mut alice = user("alice", &["signal:alice-uuid"]);
    alice.trust = TrustLevel::Inner;
    alice.sandbox = Some(SandboxOverrides {
        allow_network: None,
        memory: Some("lots".to_owned()),
        pids_limit: Some(0),
    });
    c.users = vec![alice];
    let mut f = facts(&c);
    f.sandbox.memory_ok = false;
    f.sandbox.user_memory_ok = vec![false];
    f.sandbox.namespaces_disabled = true;
    f.sandbox.probe = Ok(SandboxProbe {
        name: "linux".to_owned(),
        landlock: false,
        seccomp: false,
        cgroups_v2: false,
        internet_only: false,
    });
    let report = validate_config(Ok((&c, &f)));
    let names: Vec<&str> = report
        .results
        .iter()
        .map(|r| r.name)
        .filter(|n| n.starts_with("sandbox"))
        .collect();
    assert_eq!(
        names,
        vec![
            "sandbox_available",
            "sandbox_available",
            "sandbox_available",
            "sandbox_available",
            "sandbox_internet_only",
            "sandbox_memory",
            "sandbox_pids",
            "sandbox_no_owner",
            "sandbox_user_overrides",
            "sandbox_user_overrides",
            "sandbox_user_namespaces",
        ]
    );
    f.sandbox.probe = Err("no namespaces".to_owned());
    let report = validate_config(Ok((&c, &f)));
    assert_eq!(named(&report, "sandbox_available").message, "sandbox not available: no namespaces");
}

#[test]
fn several_owners_are_warned_of() {
    let mut c = base_config();
    c.sandbox.enabled = true;
    let mut a = user("a", &[]);
    a.trust = TrustLevel::Owner;
    let mut b = user("b", &[]);
    b.trust = TrustLevel::Owner;
    c.users = vec![a, b];
    let report = check(&c);
    assert!(named(&report, "sandbox_multiple_owners").message.starts_with("2 users"));
}

#[test]
fn cron_settings_are_warned_of() {
    let mut c = base_config();
    let mut t = cron("beat", "*/30 * * * *", "read HEARTBEAT.md, else say HEARTBEAT_OK");
    t.deliver = Some(CronDelivery { channel: "email".to_owned(), target: "a@b".to_owned() });
    c.cron = vec![t];
    let report = check(&c);
    assert!(failed(&report, "cron_delivery").is_some());
    assert!(failed(&report, "cron_delivery_mode").is_some());
    assert!(failed(&report, "cron_message_tokens").is_some());
    assert_eq!(named(&report, "cron_timezones").message, "cron 'beat': timezone Europe/Berlin");
}

#[test]
fn web_tools_are_checked() {
    let mut c = base_config();
    c.web.search.provider = Some("bing".to_owned());
    c.web.search.timeout_seconds = Some(0);
    c.web.search.max_results = Some(11);
    c.web.fetch.max_chars = Some(99);
    c.web.fetch.timeout_seconds = Some(0);
    let report = check(&c);
    for name in [
        "web_search_provider",
        "web_search_timeout",
        "web_search_max_results",
        "web_fetch_max_chars",
        "web_fetch_timeout",
    ] {
        assert!(failed(&report, name).is_some(), "{name}");
    }
}

#[test]
fn program_in_a_build_directory_is_warned_of() {
    let c = base_config();
    let mut f = facts(&c);
    f.program = Ok(PathFacts { path: "/src/target/debug/coop".to_owned(), exists: true });
    assert!(failed(&validate_config(Ok((&c, &f))), "binary_exists").is_some());
    f.program = Err("unknown".to_owned());
    assert_eq!(
        named(&validate_config(Ok((&c, &f))), "binary_exists").message,
        "failed to resolve current executable: unknown"
    );
}

#[test]
fn aliases_are_checked_in_detail() {
    let mut c = base_config();
    c.provider = provider("openai");
    c.aliases = vec![
        alias(" ", "x"),
        alias("a", " "),
        alias("A", "gpt-5.4"),
        alias("gpt-5.4", "nowhere"),
    ];
    let report = check(&c);
    assert_eq!(
        named(&report, "model_aliases").message,
        "models.aliases invalid: empty alias key; alias 'a' has an empty target; duplicate normalized alias keys: 'a' and 'A'; alias 'a' target ' ' does not resolve to a configured model; alias 'A' points to another alias target 'gpt-5.4' — alias chaining is not supported; alias 'gpt-5.4' collides with a configured model id; alias 'gpt-5.4' target 'nowhere' does not resolve to a configured model"
    );
}

#[test]
fn subagent_profiles_are_checked_in_detail() {
    let mut c = base_config();
    let profile = |name: &str| SubagentProfile {
        name: name.to_owned(),
        model: None,
        tools: Some(texts(&["bash", "bash"])),
        default_timeout_seconds: Some(60),
        default_max_turns: Some(0),
        allow_spawn: true,
    };
    let mut good = profile("good");
    good.tools = None;
    good.default_max_turns = Some(3);
    c.agent.subagents.profiles = vec![profile("bad"), good];
    let report = check(&c);
    let lines: Vec<&str> = report
        .results
        .iter()
        .filter(|r| r.name == "subagents_profiles")
        .map(|r| r.message.as_str())
        .collect();
    assert_eq!(
        lines,
        vec![
            "subagent profile 'bad' contains duplicate tools: bash",
            "subagent profile 'good': 0 tools, timeout=60, max_turns=3",
        ]
    );
    assert!(failed(&report, "subagents_profile_allow_spawn").is_some());
}
