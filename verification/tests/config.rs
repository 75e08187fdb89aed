use coop_gateway::config::{
    default_file_cache, default_file_trust, default_memory_db_path, default_provider,
    find_config_path, resolve_workspace, CacheHintConfig, CandidatePath, LOCAL_CONFIG,
    MemoryEmbeddingConfig, MemoryPromptIndexConfig, MemoryRetentionConfig, PromptConfig,
    PromptFileEntry,
};
use coop_gateway::session::TrustLevel;

#[test]
fn prompt_file_entry_to_core_defaults_description() {
    let entry = PromptFileEntry {
        path: "SOUL.md".into(),
        trust: TrustLevel::Familiar,
        cache: CacheHintConfig::Stable,
        description: None,
    };
    let core = entry.to_core();
    assert_eq!(core.description, "SOUL");
    assert_eq!(core.path, "SOUL.md");
    assert_eq!(core.min_trust, TrustLevel::Familiar);
}

#[test]
fn prompt_file_entry_to_core_uses_description() {
    let entry = PromptFileEntry {
        path: "SOUL.md".into(),
        trust: TrustLevel::Full,
        cache: CacheHintConfig::Session,
        description: Some("Agent personality".into()),
    };
    let core = entry.to_core();
    assert_eq!(core.description, "Agent personality");
}

#[test]
fn prompt_file_entry_defaults() {
    assert_eq!(default_file_trust(), TrustLevel::Full);
    assert_eq!(default_file_cache(), CacheHintConfig::Session);
}

#[test]
fn parse_minimal_config_gets_default_prompt() {
    let prompt = PromptConfig::default();
    assert_eq!(prompt.shared_files.len(), 3);
    assert_eq!(prompt.shared_files[0].path, "SOUL.md");
    assert_eq!(prompt.shared_files[1].path, "IDENTITY.md");
    assert_eq!(prompt.shared_files[2].path, "TOOLS.md");
    assert_eq!(prompt.user_files.len(), 3);
    assert_eq!(prompt.user_files[0].path, "AGENTS.md");
    assert_eq!(prompt.user_files[1].path, "USER.md");
    assert_eq!(prompt.user_files[2].path, "TOOLS.md");
}

#[test]
fn core_descriptions_drop_one_suffix() {
    let described = |path: &str| {
        let entry = PromptFileEntry {
            path: path.to_owned(),
            trust: TrustLevel::Full,
            cache: CacheHintConfig::Volatile,
            description: None,
        };
        entry.to_core().description
    };
    assert_eq!(described("notes/deep.md.md"), "notes/deep.md");
    assert_eq!(described("plain.txt"), "plain.txt");
    assert_eq!(described(".md"), "");
}

#[test]
fn prompt_config_lists_core_configs() {
    let prompt = PromptConfig::default();
    let shared: Vec<_> = prompt.shared_core_configs().into_iter().map(|c| c.path).collect();
    let user: Vec<_> = prompt.user_core_configs().into_iter().map(|c| c.path).collect();
    assert_eq!(shared, vec!["SOUL.md", "IDENTITY.md", "TOOLS.md"]);
    assert_eq!(user, vec!["AGENTS.md", "USER.md", "TOOLS.md"]);
}

#[test]
fn resolve_workspace_fails_for_missing_dir() {
    let err = resolve_workspace("/tmp/./does-not-exist".to_owned(), false).unwrap_err();
    assert!(err.contains("workspace directory not found"), "unexpected error: {err}");
}

#[test]
fn resolve_workspace_succeeds_for_existing_dir() {
    assert_eq!(resolve_workspace("/srv/ws".to_owned(), true), Ok("/srv/ws".to_owned()));
}

fn at(path: &str, exists: bool) -> Option<CandidatePath> {
    Some(CandidatePath { path: path.to_owned(), exists })
}

#[test]
fn config_path_is_the_first_that_is_there() {
    let (x, h) = ("/x/coop.toml", "/h/coop.toml");
    assert_eq!(find_config_path(Some("/e"), true, at(x, true), at(h, true)), "/e");
    assert_eq!(find_config_path(None, true, at(x, true), at(h, true)), LOCAL_CONFIG);
    assert_eq!(find_config_path(None, false, at(x, true), at(h, true)), x);
    assert_eq!(find_config_path(None, false, at(x, false), at(h, true)), h);
    assert_eq!(find_config_path(None, false, None, at(h, false)), LOCAL_CONFIG);
}

fn embedding(provider: &str, api_key_env: Option<&str>) -> MemoryEmbeddingConfig {
    MemoryEmbeddingConfig {
        provider: provider.to_owned(),
        model: "m".to_owned(),
        dimensions: 8,
        base_url: None,
        api_key_env: api_key_env.map(str::to_owned),
    }
}

#[test]
fn embedding_keys_go_by_the_provider() {
    let key = |provider| embedding(provider, None).required_api_key_env();
    assert_eq!(embedding(" OpenAI ", None).normalized_provider(), "openai");
    assert_eq!(key("openai"), Some("OPENAI_API_KEY".to_owned()));
    assert_eq!(key("voyage"), Some("VOYAGE_API_KEY".to_owned()));
    assert_eq!(key("cohere"), Some("COHERE_API_KEY".to_owned()));
    assert_eq!(key("openai-compatible"), None);
    assert_eq!(
        embedding("openai-compatible", Some("MY_KEY")).required_api_key_env(),
        Some("MY_KEY".to_owned())
    );
    assert!(embedding("cohere", None).is_supported_provider());
    assert!(!embedding("other", None).is_supported_provider());
}

#[test]
fn memory_defaults() {
    let index = MemoryPromptIndexConfig::default();
    assert_eq!((index.enabled, index.limit, index.max_tokens), (true, 12, 1200));
    let m = MemoryRetentionConfig::default().to_maintenance_config();
    assert_eq!(m, MemoryRetentionConfig::default().to_maintenance_config());
    assert_eq!(default_memory_db_path(), "./db/memory.db");
    assert_eq!(default_provider(), "anthropic");
}
