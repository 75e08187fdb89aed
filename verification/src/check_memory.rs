//! Checks of the memory, the prompt files and the subagents.
use vstd::prelude::*;

use crate::check_parts::{
    bool_text, bool_word, find_last, find_repeats, has_blank, is_web_address, last_place, repeats,
    some_blank, web_address, DatabasePlace, Facts, WorkspaceFile, WorkspaceScan,
};
use crate::check_report::{noted, CheckReport, CheckView, Severity};
use crate::config::{
    embedding_provider, Config, MemoryConfig, MemoryEmbeddingConfig, MemoryRetentionConfig,
    PromptConfig, PromptFileEntry, SubagentProfile, SubagentsConfig,
};
use crate::text::{
    cat2, cat3, cat4, cat5, contains_text, decimal, decimal_text, has_text, holds_text, is_blank,
    join_texts, joined, same_text, starts_with, trimmed, views,
};

verus! {

pub open spec fn database_check(checks: Seq<CheckView>, place: DatabasePlace) -> Seq<CheckView> {
    match place {
        DatabasePlace::Ready { path } => noted(
            checks,
            "memory_db_path"@,
            Severity::Error,
            true,
            "memory db: "@ + path@,
        ),
        DatabasePlace::ToCreate { parent } => noted(
            checks,
            "memory_db_path"@,
            Severity::Error,
            true,
            "memory db parent will be created on first start: "@ + parent@,
        ),
        DatabasePlace::NotDirectory { parent } => noted(
            checks,
            "memory_db_path"@,
            Severity::Error,
            false,
            "memory db parent is not a directory: "@ + parent@,
        ),
        DatabasePlace::NoParent { path } => noted(
            checks,
            "memory_db_path"@,
            Severity::Error,
            false,
            "invalid memory db path: "@ + path@,
        ),
    }
}

fn check_database(report: &mut CheckReport, place: &DatabasePlace)
    ensures
        final(report)@ == database_check(old(report)@, *place),
{
    let (ok, message) = match place {
        DatabasePlace::Ready { path } => (true, cat2("memory db: ", path.as_str())),
        DatabasePlace::ToCreate { parent } => (
            true,
            cat2("memory db parent will be created on first start: ", parent.as_str()),
        ),
        DatabasePlace::NotDirectory { parent } => (
            false,
            cat2("memory db parent is not a directory: ", parent.as_str()),
        ),
        DatabasePlace::NoParent { path } => (false, cat2("invalid memory db path: ", path.as_str())),
    };
    report.note("memory_db_path", Severity::Error, ok, message);
}

pub open spec fn prompt_index_check(checks: Seq<CheckView>, m: MemoryConfig) -> Seq<CheckView> {
    let p = m.prompt_index;
    let ok = p.limit > 0 && p.max_tokens > 0 && 0 < p.recent_days <= 30;
    noted(
        checks,
        "memory_prompt_index"@,
        Severity::Error,
        ok,
        if ok {
            "memory.prompt_index: enabled="@ + bool_text(p.enabled) + ", include_file_links="@
                + bool_text(p.include_file_links) + ", limit="@ + decimal(p.limit as nat)
                + ", max_tokens="@ + decimal(p.max_tokens as nat) + ", recent_days="@
                + decimal(p.recent_days as nat)
        } else {
            "memory.prompt_index requires limit > 0, max_tokens > 0, and recent_days in 1..=30"@
        },
    )
}

fn check_prompt_index(report: &mut CheckReport, m: &MemoryConfig)
    ensures
        final(report)@ == prompt_index_check(old(report)@, *m),
{
    let p = &m.prompt_index;
    let ok = p.limit > 0 && p.max_tokens > 0 && p.recent_days > 0 && p.recent_days <= 30;
    let message = if ok {
        cat2(
            cat5(
                cat5(
                    "memory.prompt_index: enabled=",
                    bool_word(p.enabled),
                    ", include_file_links=",
                    bool_word(p.include_file_links),
                    ", limit=",
                ).as_str(),
                decimal_text(p.limit as u64).as_str(),
                ", max_tokens=",
                decimal_text(p.max_tokens as u64).as_str(),
                ", recent_days=",
            ).as_str(),
            decimal_text(p.recent_days as u64).as_str(),
        )
    } else {
        "memory.prompt_index requires limit > 0, max_tokens > 0, and recent_days in 1..=30".to_owned()
    };
    report.note("memory_prompt_index", Severity::Error, ok, message);
}

pub open spec fn auto_capture_check(checks: Seq<CheckView>, m: MemoryConfig) -> Seq<CheckView> {
    let a = m.auto_capture;
    let ok = a.min_turn_messages >= 1;
    noted(
        checks,
        "memory_auto_capture"@,
        Severity::Error,
        ok,
        if ok {
            "memory.auto_capture: enabled="@ + bool_text(a.enabled) + ", min_turn_messages="@
                + decimal(a.min_turn_messages as nat)
        } else {
            "memory.auto_capture requires min_turn_messages >= 1"@
        },
    )
}

fn check_auto_capture(report: &mut CheckReport, m: &MemoryConfig)
    ensures
        final(report)@ == auto_capture_check(old(report)@, *m),
{
    let a = &m.auto_capture;
    let ok = a.min_turn_messages >= 1;
    let message = if ok {
        cat4(
            "memory.auto_capture: enabled=",
            bool_word(a.enabled),
            ", min_turn_messages=",
            decimal_text(a.min_turn_messages as u64).as_str(),
        )
    } else {
        "memory.auto_capture requires min_turn_messages >= 1".to_owned()
    };
    report.note("memory_auto_capture", Severity::Error, ok, message);
}

/// Whether memories are kept for sensible times.
pub open spec fn retention_ok(r: MemoryRetentionConfig) -> bool {
    r.archive_after_days > 0 && r.delete_archive_after_days > 0 && r.compress_after_days > 0
        && r.compression_min_cluster_size > 1 && r.max_rows_per_run > 0
        && r.delete_archive_after_days >= r.archive_after_days
}

pub open spec fn retention_check(checks: Seq<CheckView>, m: MemoryConfig) -> Seq<CheckView> {
    let r = m.retention;
    noted(
        checks,
        "memory_retention"@,
        Severity::Error,
        retention_ok(r),
        if retention_ok(r) {
            "memory.retention: enabled="@ + bool_text(r.enabled) + ", archive_after_days="@
                + decimal(r.archive_after_days as nat) + ", delete_archive_after_days="@
                + decimal(r.delete_archive_after_days as nat) + ", compress_after_days="@
                + decimal(r.compress_after_days as nat) + ", compression_min_cluster_size="@
                + decimal(r.compression_min_cluster_size as nat) + ", max_rows_per_run="@
                + decimal(r.max_rows_per_run as nat)
        } else {
            "memory.retention requires positive day values, compression_min_cluster_size > 1, max_rows_per_run > 0, and delete_archive_after_days >= archive_after_days"@
        },
    )
}

fn check_retention(report: &mut CheckReport, m: &MemoryConfig)
    ensures
        final(report)@ == retention_check(old(report)@, *m),
{
    let r = &m.retention;
    let ok = r.archive_after_days > 0 && r.delete_archive_after_days > 0 && r.compress_after_days
        > 0 && r.compression_min_cluster_size > 1 && r.max_rows_per_run > 0
        && r.delete_archive_after_days >= r.archive_after_days;
    let message = if ok {
        cat4(
            cat5(
                cat5(
                    "memory.retention: enabled=",
                    bool_word(r.enabled),
                    ", archive_after_days=",
                    decimal_text(r.archive_after_days as u64).as_str(),
                    ", delete_archive_after_days=",
                ).as_str(),
                decimal_text(r.delete_archive_after_days as u64).as_str(),
                ", compress_after_days=",
                decimal_text(r.compress_after_days as u64).as_str(),
                ", compression_min_cluster_size=",
            ).as_str(),
            decimal_text(r.compression_min_cluster_size as u64).as_str(),
            ", max_rows_per_run=",
            decimal_text(r.max_rows_per_run as u64).as_str(),
        )
    } else {
        "memory.retention requires positive day values, compression_min_cluster_size > 1, max_rows_per_run > 0, and delete_archive_after_days >= archive_after_days".to_owned()
    };
    report.note("memory_retention", Severity::Error, ok, message);
}

pub open spec fn embedding_ok(e: MemoryEmbeddingConfig) -> bool {
    &&& e.provider_key().len() > 0
    &&& trimmed(e.model@).len() > 0
    &&& 0 < e.dimensions <= 8192
    &&& embedding_provider(e.provider_key())
    &&& e.provider_key() == "openai-compatible"@ ==> {
        &&& e.base_url is Some && web_address(e.base_url->0@)
        &&& e.api_key_env is Some && trimmed(e.api_key_env->0@).len() > 0
    }
}

fn is_embedding_ok(e: &MemoryEmbeddingConfig) -> (r: bool)
    ensures
        r == embedding_ok(*e),
{
    let provider = e.normalized_provider();
    let complete = !provider.as_str().is_empty() && !is_blank(e.model.as_str()) && e.dimensions > 0
        && e.dimensions <= 8192 && e.is_supported_provider();
    if !same_text(provider.as_str(), "openai-compatible") {
        return complete;
    }
    let url_ok = match &e.base_url {
        Some(url) => is_web_address(url.as_str()),
        None => false,
    };
    let env_ok = match &e.api_key_env {
        Some(name) => !is_blank(name.as_str()),
        None => false,
    };
    complete && url_ok && env_ok
}

/// The variable that holds the key of the embedding model, or nothing.
pub open spec fn embedding_env(e: MemoryEmbeddingConfig) -> Seq<char> {
    match e.key_env() {
        Some(name) => name,
        None => Seq::empty(),
    }
}

pub open spec fn embedding_checks(
    checks: Seq<CheckView>,
    m: MemoryConfig,
    env: Seq<Seq<char>>,
) -> Seq<CheckView> {
    match m.embedding {
        None => checks,
        Some(e) => if embedding_ok(e) {
            let name = embedding_env(e);
            let set = name.len() > 0 && env.contains(name);
            let a = noted(
                checks,
                "memory_embedding"@,
                Severity::Error,
                true,
                "embedding: provider="@ + e.provider_key() + ", model="@ + e.model@
                    + ", dimensions="@ + decimal(e.dimensions as nat),
            );
            noted(
                a,
                "memory_embedding_api_key"@,
                Severity::Error,
                set,
                if set {
                    name + ": present"@
                } else {
                    name + " environment variable not set"@
                },
            )
        } else {
            noted(
                checks,
                "memory_embedding"@,
                Severity::Error,
                false,
                "memory.embedding requires provider in {openai,voyage,cohere,openai-compatible}, non-empty model, dimensions in 1..=8192, and openai-compatible base_url/api_key_env"@,
            )
        },
    }
}

fn check_embedding(report: &mut CheckReport, m: &MemoryConfig, env: &Vec<String>)
    ensures
        final(report)@ == embedding_checks(old(report)@, *m, views(env@)),
{
    if let Some(e) = &m.embedding {
        if is_embedding_ok(e) {
            let provider = e.normalized_provider();
            report.note(
                "memory_embedding",
                Severity::Error,
                true,
                cat2(
                    cat5(
                        "embedding: provider=",
                        provider.as_str(),
                        ", model=",
                        e.model.as_str(),
                        ", dimensions=",
                    ).as_str(),
                    decimal_text(e.dimensions as u64).as_str(),
                ),
            );
            let name = match e.required_api_key_env() {
                Some(name) => name,
                None => String::new(),
            };
            assert(name@ =~= embedding_env(*e));
            let set = !name.as_str().is_empty() && holds_text(env, name.as_str());
            let message = if set {
                cat2(name.as_str(), ": present")
            } else {
                cat2(name.as_str(), " environment variable not set")
            };
            report.note("memory_embedding_api_key", Severity::Error, set, message);
        } else {
            report.note(
                "memory_embedding",
                Severity::Error,
                false,
                "memory.embedding requires provider in {openai,voyage,cohere,openai-compatible}, non-empty model, dimensions in 1..=8192, and openai-compatible base_url/api_key_env".to_owned(),
            );
        }
    }
}

/// What is reported of the memory.
pub open spec fn memory_checks(checks: Seq<CheckView>, c: Config, f: Facts) -> Seq<CheckView> {
    let a = database_check(checks, f.memory_db);
    let b = prompt_index_check(a, c.memory);
    let d = auto_capture_check(b, c.memory);
    let e = retention_check(d, c.memory);
    embedding_checks(e, c.memory, views(f.env@))
}

/// Checks the memory.
pub fn check_memory(report: &mut CheckReport, c: &Config, f: &Facts)
    ensures
        final(report)@ == memory_checks(old(report)@, *c, *f),
{
    check_database(report, &f.memory_db);
    check_prompt_index(report, &c.memory);
    check_auto_capture(report, &c.memory);
    check_retention(report, &c.memory);
    check_embedding(report, &c.memory, &f.env);
}

/// Whether a path leads out of the directory that it is meant in.
pub open spec fn strays(path: Seq<char>) -> bool {
    has_text(path, ".."@) || "/"@.is_prefix_of(path)
}

/// What is reported of the first `n` prompt files of a kind.
pub open spec fn prompt_path_checks(
    checks: Seq<CheckView>,
    scope: Seq<char>,
    files: Seq<PromptFileEntry>,
    n: int,
) -> Seq<CheckView>
    decreases n,
{
    if n <= 0 {
        checks
    } else {
        let before = prompt_path_checks(checks, scope, files, n - 1);
        let entry = files[n - 1];
        let a = if entry.path@.len() == 0 {
            noted(
                before,
                "prompt_files"@,
                Severity::Error,
                false,
                "prompt."@ + scope + "_files has an entry with empty path"@,
            )
        } else {
            before
        };
        if strays(entry.path@) {
            noted(
                a,
                "prompt_files"@,
                Severity::Error,
                false,
                "prompt."@ + scope + "_files path '"@ + entry.path@
                    + "' must be relative (no '..' or absolute paths)"@,
            )
        } else {
            a
        }
    }
}

/// Whether the first `n` prompt files have paths that can be used.
pub open spec fn paths_ok(files: Seq<PromptFileEntry>, n: int) -> bool {
    forall|i: int|
        0 <= i < n ==> (#[trigger] files[i]).path@.len() > 0 && !strays(files[i].path@)
}

fn check_prompt_paths(report: &mut CheckReport, scope: &str, files: &Vec<PromptFileEntry>) -> (ok:
    bool)
    ensures
        final(report)@ == prompt_path_checks(old(report)@, scope@, files@, files@.len() as int),
        ok == paths_ok(files@, files@.len() as int),
{
    let mut ok = true;
    for i in 0..files.len()
        invariant
            report@ == prompt_path_checks(old(report)@, scope@, files@, i as int),
            ok == paths_ok(files@, i as int),
    {
        let entry = &files[i];
        if entry.path.as_str().is_empty() {
            report.note(
                "prompt_files",
                Severity::Error,
                false,
                cat3("prompt.", scope, "_files has an entry with empty path"),
            );
            ok = false;
            assert(files@[i as int].path@.len() == 0);
        }
        if contains_text(entry.path.as_str(), "..") || starts_with(entry.path.as_str(), "/") {
            report.note(
                "prompt_files",
                Severity::Error,
                false,
                cat5(
                    "prompt.",
                    scope,
                    "_files path '",
                    entry.path.as_str(),
                    "' must be relative (no '..' or absolute paths)",
                ),
            );
            ok = false;
            assert(strays(files@[i as int].path@));
        }
    }
    ok
}

pub open spec fn paths_of(files: Seq<PromptFileEntry>) -> Seq<Seq<char>> {
    files.map(|i: int, e: PromptFileEntry| e.path@)
}

/// What is reported of paths, among the first `n`, that stand twice.
pub open spec fn repeated_path_checks(
    checks: Seq<CheckView>,
    scope: Seq<char>,
    paths: Seq<Seq<char>>,
    n: int,
) -> Seq<CheckView>
    decreases n,
{
    if n <= 0 {
        checks
    } else {
        let before = repeated_path_checks(checks, scope, paths, n - 1);
        if last_place(paths, paths[n - 1], n - 1) is Some {
            noted(
                before,
                "prompt_files"@,
                Severity::Warning,
                false,
                "duplicate path '"@ + paths[n - 1] + "' in prompt."@ + scope + "_files"@,
            )
        } else {
            before
        }
    }
}

fn check_repeated_paths(report: &mut CheckReport, scope: &str, files: &Vec<PromptFileEntry>)
    ensures
        final(report)@ == repeated_path_checks(
            old(report)@,
            scope@,
            paths_of(files@),
            files@.len() as int,
        ),
{
    let mut paths: Vec<String> = Vec::new();
    for i in 0..files.len()
        invariant
            paths@.len() == i,
            forall|j: int| 0 <= j < i ==> (#[trigger] paths@[j])@ == files@[j].path@,
    {
        paths.push(files[i].path.clone());
    }
    assert(views(paths@) =~= paths_of(files@));
    for i in 0..files.len()
        invariant
            paths@.len() == files@.len(),
            views(paths@) == paths_of(files@),
            report@ == repeated_path_checks(old(report)@, scope@, paths_of(files@), i as int),
    {
        assert(views(paths@)[i as int] == paths@[i as int]@);
        if find_last(&paths, paths[i].as_str(), i).is_some() {
            report.note(
                "prompt_files",
                Severity::Warning,
                false,
                cat5("duplicate path '", paths[i].as_str(), "' in prompt.", scope, "_files"),
            );
        }
    }
}

/// What is reported of the prompt files.
pub open spec fn prompt_checks(checks: Seq<CheckView>, p: PromptConfig) -> Seq<CheckView> {
    let shared = p.shared_files@;
    let user = p.user_files@;
    let a = prompt_path_checks(checks, "shared"@, shared, shared.len() as int);
    let b = prompt_path_checks(a, "user"@, user, user.len() as int);
    let c = repeated_path_checks(b, "shared"@, paths_of(shared), shared.len() as int);
    let d = repeated_path_checks(c, "user"@, paths_of(user), user.len() as int);
    if paths_ok(shared, shared.len() as int) && paths_ok(user, user.len() as int) {
        noted(
            d,
            "prompt_files"@,
            Severity::Info,
            true,
            "prompt files: "@ + decimal(p.shared_files@.len() as nat) + " shared, "@
                + decimal(p.user_files@.len() as nat) + " per-user"@,
        )
    } else {
        d
    }
}

/// Checks the prompt files.
pub fn check_prompt(report: &mut CheckReport, p: &PromptConfig)
    ensures
        final(report)@ == prompt_checks(old(report)@, *p),
{
    let shared_ok = check_prompt_paths(report, "shared", &p.shared_files);
    let user_ok = check_prompt_paths(report, "user", &p.user_files);
    check_repeated_paths(report, "shared", &p.shared_files);
    check_repeated_paths(report, "user", &p.user_files);
    if shared_ok && user_ok {
        report.note(
            "prompt_files",
            Severity::Info,
            true,
            cat5(
                "prompt files: ",
                decimal_text(p.shared_files.len() as u64).as_str(),
                " shared, ",
                decimal_text(p.user_files.len() as u64).as_str(),
                " per-user",
            ),
        );
    }
}

pub open spec fn limits_ok(s: SubagentsConfig) -> bool {
    s.max_spawn_depth >= 1 && s.max_active_children > 0 && s.max_concurrent > 0
        && s.default_timeout_seconds > 0 && s.default_max_turns > 0
}

pub open spec fn subagent_limits_check(checks: Seq<CheckView>, s: SubagentsConfig) -> Seq<
    CheckView,
> {
    noted(
        checks,
        "subagents_config"@,
        Severity::Error,
        limits_ok(s),
        if limits_ok(s) {
            "subagents: enabled="@ + bool_text(s.enabled) + ", max_spawn_depth="@
                + decimal(s.max_spawn_depth as nat) + ", max_active_children="@
                + decimal(s.max_active_children as nat) + ", max_concurrent="@
                + decimal(s.max_concurrent as nat) + ", default_timeout_seconds="@
                + decimal(s.default_timeout_seconds as nat) + ", default_max_turns="@
                + decimal(s.default_max_turns as nat)
        } else {
            "agent.subagents requires max_spawn_depth >= 1, max_active_children > 0, max_concurrent > 0, default_timeout_seconds > 0, and default_max_turns > 0"@
        },
    )
}

fn check_subagent_limits(report: &mut CheckReport, s: &SubagentsConfig)
    ensures
        final(report)@ == subagent_limits_check(old(report)@, *s),
{
    let ok = s.max_spawn_depth >= 1 && s.max_active_children > 0 && s.max_concurrent > 0
        && s.default_timeout_seconds > 0 && s.default_max_turns > 0;
    let message = if ok {
        cat4(
            cat5(
                cat5(
                    "subagents: enabled=",
                    bool_word(s.enabled),
                    ", max_spawn_depth=",
                    decimal_text(s.max_spawn_depth as u64).as_str(),
                    ", max_active_children=",
                ).as_str(),
                decimal_text(s.max_active_children as u64).as_str(),
                ", max_concurrent=",
                decimal_text(s.max_concurrent as u64).as_str(),
                ", default_timeout_seconds=",
            ).as_str(),
            decimal_text(s.default_timeout_seconds as u64).as_str(),
            ", default_max_turns=",
            decimal_text(s.default_max_turns as u64).as_str(),
        )
    } else {
        "agent.subagents requires max_spawn_depth >= 1, max_active_children > 0, max_concurrent > 0, default_timeout_seconds > 0, and default_max_turns > 0".to_owned()
    };
    report.note("subagents_config", Severity::Error, ok, message);
}

pub open spec fn subagent_model_check(
    checks: Seq<CheckView>,
    s: SubagentsConfig,
    ok: bool,
) -> Seq<CheckView> {
    match s.model {
        Some(model) => noted(
            checks,
            "subagents_model"@,
            Severity::Error,
            ok,
            if ok {
                "agent.subagents.model '"@ + model@ + "' is available"@
            } else {
                "agent.subagents.model '"@ + model@
                    + "' must appear in one configured provider's model list or built-in catalog"@
            },
        ),
        None => checks,
    }
}

fn check_subagent_model(report: &mut CheckReport, s: &SubagentsConfig, ok: bool)
    ensures
        final(report)@ == subagent_model_check(old(report)@, *s, ok),
{
    if let Some(model) = &s.model {
        let message = if ok {
            cat3("agent.subagents.model '", model.as_str(), "' is available")
        } else {
            cat3(
                "agent.subagents.model '",
                model.as_str(),
                "' must appear in one configured provider's model list or built-in catalog",
            )
        };
        report.note("subagents_model", Severity::Error, ok, message);
    }
}

/// The tools of a profile.
pub open spec fn tools_of(p: SubagentProfile) -> Seq<Seq<char>> {
    match p.tools {
        Some(tools) => views(tools@),
        None => Seq::empty(),
    }
}

pub open spec fn repeated_tools(p: SubagentProfile) -> Seq<Seq<char>> {
    repeats(tools_of(p), tools_of(p), true, tools_of(p).len() as int)
}

pub open spec fn timeout_note(p: SubagentProfile) -> Seq<char> {
    match p.default_timeout_seconds {
        Some(n) => ", timeout="@ + decimal(n as nat),
        None => Seq::empty(),
    }
}

pub open spec fn turns_note(p: SubagentProfile) -> Seq<char> {
    match p.default_max_turns {
        Some(n) => ", max_turns="@ + decimal(n as nat),
        None => Seq::empty(),
    }
}

pub open spec fn positive_timeout(p: SubagentProfile) -> bool {
    p.default_timeout_seconds is None || p.default_timeout_seconds->0 > 0
}

pub open spec fn positive_turns(p: SubagentProfile) -> bool {
    p.default_max_turns is None || p.default_max_turns->0 > 0
}

pub open spec fn profile_ok(p: SubagentProfile) -> bool {
    !some_blank(tools_of(p)) && repeated_tools(p).len() == 0 && positive_timeout(p)
        && positive_turns(p)
}

pub open spec fn profile_line(p: SubagentProfile) -> Seq<char> {
    if profile_ok(p) {
        "subagent profile '"@ + p.name@ + "': "@ + decimal(tools_of(p).len() as nat) + " tools"@
            + timeout_note(p) + turns_note(p)
    } else if some_blank(tools_of(p)) {
        "subagent profile '"@ + p.name@ + "' contains an empty tool name"@
    } else if repeated_tools(p).len() > 0 {
        "subagent profile '"@ + p.name@ + "' contains duplicate tools: "@
            + joined(repeated_tools(p), ", "@)
    } else if !positive_timeout(p) {
        "subagent profile '"@ + p.name@ + "' requires default_timeout_seconds > 0 when set"@
    } else {
        "subagent profile '"@ + p.name@ + "' requires default_max_turns > 0 when set"@
    }
}

fn describe_profile(p: &SubagentProfile) -> (r: (bool, String))
    ensures
        r.0 == profile_ok(*p),
        r.1@ == profile_line(*p),
{
    let none: Vec<String> = Vec::new();
    let tools = match &p.tools {
        Some(tools) => tools,
        None => &none,
    };
    assert(views(tools@) =~= tools_of(*p));
    let blank = has_blank(tools);
    let twice = find_repeats(tools, tools, true);
    let timeout_ok = match p.default_timeout_seconds {
        Some(n) => n > 0,
        None => true,
    };
    let turns_ok = match p.default_max_turns {
        Some(n) => n > 0,
        None => true,
    };
    assert(views(twice@).len() == twice@.len());
    if !blank && twice.len() == 0 && timeout_ok && turns_ok {
        let timeout = match p.default_timeout_seconds {
            Some(n) => cat2(", timeout=", decimal_text(n as u64).as_str()),
            None => String::new(),
        };
        let turns = match p.default_max_turns {
            Some(n) => cat2(", max_turns=", decimal_text(n as u64).as_str()),
            None => String::new(),
        };
        assert(timeout@ =~= timeout_note(*p));
        assert(turns@ =~= turns_note(*p));
        (true, cat3(
            cat5(
                "subagent profile '",
                p.name.as_str(),
                "': ",
                decimal_text(tools.len() as u64).as_str(),
                " tools",
            ).as_str(),
            timeout.as_str(),
            turns.as_str(),
        ))
    } else if blank {
        (false, cat3("subagent profile '", p.name.as_str(), "' contains an empty tool name"))
    } else if twice.len() > 0 {
        let list = join_texts(&twice, ", ");
        (false, cat4(
            "subagent profile '",
            p.name.as_str(),
            "' contains duplicate tools: ",
            list.as_str(),
        ))
    } else if !timeout_ok {
        (false, cat3(
            "subagent profile '",
            p.name.as_str(),
            "' requires default_timeout_seconds > 0 when set",
        ))
    } else {
        (false, cat3(
            "subagent profile '",
            p.name.as_str(),
            "' requires default_max_turns > 0 when set",
        ))
    }
}

/// What is reported of one profile.
pub open spec fn profile_check(
    checks: Seq<CheckView>,
    p: SubagentProfile,
    depth: u32,
    model_ok: bool,
) -> Seq<CheckView> {
    let a = noted(
        checks,
        "subagents_profiles"@,
        Severity::Error,
        profile_ok(p),
        profile_line(p),
    );
    let b = match p.model {
        Some(model) => noted(
            a,
            "subagents_profile_model"@,
            Severity::Error,
            model_ok,
            if model_ok {
                "subagent profile '"@ + p.name@ + "' model '"@ + model@ + "' is available"@
            } else {
                "subagent profile '"@ + p.name@ + "' model '"@ + model@
                    + "' must appear in one configured provider's model list or built-in catalog"@
            },
        ),
        None => a,
    };
    if p.allow_spawn && depth < 2 {
        noted(
            b,
            "subagents_profile_allow_spawn"@,
            Severity::Warning,
            false,
            "subagent profile '"@ + p.name@ + "' sets allow_spawn=true but max_spawn_depth="@
                + decimal(depth as nat) + " prevents child subagents"@,
        )
    } else {
        b
    }
}

fn check_profile(report: &mut CheckReport, p: &SubagentProfile, depth: u32, model_ok: bool)
    ensures
        final(report)@ == profile_check(old(report)@, *p, depth, model_ok),
{
    let (ok, line) = describe_profile(p);
    report.note("subagents_profiles", Severity::Error, ok, line);
    if let Some(model) = &p.model {
        let message = if model_ok {
            cat5(
                "subagent profile '",
                p.name.as_str(),
                "' model '",
                model.as_str(),
                "' is available",
            )
        } else {
            cat5(
                "subagent profile '",
                p.name.as_str(),
                "' model '",
                model.as_str(),
                "' must appear in one configured provider's model list or built-in catalog",
            )
        };
        report.note("subagents_profile_model", Severity::Error, model_ok, message);
    }
    if p.allow_spawn && depth < 2 {
        report.note(
            "subagents_profile_allow_spawn",
            Severity::Warning,
            false,
            cat5(
                "subagent profile '",
                p.name.as_str(),
                "' sets allow_spawn=true but max_spawn_depth=",
                decimal_text(depth as u64).as_str(),
                " prevents child subagents",
            ),
        );
    }
}

/// What is reported of the first `n` profiles.
pub open spec fn profile_checks(
    checks: Seq<CheckView>,
    s: SubagentsConfig,
    models_ok: Seq<bool>,
    n: int,
) -> Seq<CheckView>
    decreases n,
{
    if n <= 0 {
        checks
    } else {
        profile_check(
            profile_checks(checks, s, models_ok, n - 1),
            s.profiles@[n - 1],
            s.max_spawn_depth,
            models_ok[n - 1],
        )
    }
}

/// What is reported of the subagents.
pub open spec fn subagent_checks(checks: Seq<CheckView>, c: Config, f: Facts) -> Seq<CheckView> {
    let s = c.agent.subagents;
    let a = subagent_limits_check(checks, s);
    let b = subagent_model_check(a, s, f.subagent_model_ok);
    profile_checks(b, s, f.profile_models_ok@, s.profiles@.len() as int)
}

/// Checks the subagents.
pub fn check_subagents(report: &mut CheckReport, c: &Config, f: &Facts)
    requires
        f.fits(*c),
    ensures
        final(report)@ == subagent_checks(old(report)@, *c, *f),
{
    let s = &c.agent.subagents;
    check_subagent_limits(report, s);
    check_subagent_model(report, s, f.subagent_model_ok);
    let ghost start = report@;
    for i in 0..s.profiles.len()
        invariant
            f.profile_models_ok@.len() == s.profiles@.len(),
            report@ == profile_checks(start, *s, f.profile_models_ok@, i as int),
    {
        check_profile(report, &s.profiles[i], s.max_spawn_depth, f.profile_models_ok[i]);
    }
}

pub open spec fn file_notes(files: Seq<WorkspaceFile>) -> Seq<Seq<char>> {
    files.map(|i: int, e: WorkspaceFile| e.path@ + " ("@ + decimal(e.tokens as nat) + " tok)"@)
}

pub open spec fn file_list(files: Seq<WorkspaceFile>) -> Seq<char> {
    if files.len() == 0 {
        "no workspace files found"@
    } else {
        joined(file_notes(files), ", "@)
    }
}

fn list_files(files: &Vec<WorkspaceFile>) -> (r: String)
    ensures
        r@ == file_list(files@),
{
    if files.len() == 0 {
        return "no workspace files found".to_owned();
    }
    let mut notes: Vec<String> = Vec::new();
    for i in 0..files.len()
        invariant
            notes@.len() == i,
            forall|j: int| 0 <= j < i ==> (#[trigger] notes@[j])@ == file_notes(files@)[j],
    {
        let e = &files[i];
        notes.push(cat4(e.path.as_str(), " (", decimal_text(e.tokens as u64).as_str(), " tok)"));
    }
    assert(views(notes@) =~= file_notes(files@));
    join_texts(&notes, ", ")
}

/// What is reported of the workspace's files.
pub open spec fn workspace_checks(checks: Seq<CheckView>, scan: WorkspaceScan) -> Seq<CheckView> {
    match scan {
        WorkspaceScan::Failed { error } => noted(
            checks,
            "workspace_files"@,
            Severity::Info,
            true,
            "workspace scan failed: "@ + error@,
        ),
        WorkspaceScan::Read { files, prompt } => {
            let a = noted(
                checks,
                "workspace_files"@,
                Severity::Info,
                true,
                "workspace files: "@ + file_list(files@),
            );
            match prompt {
                Ok(tokens) => noted(
                    a,
                    "prompt_builds"@,
                    Severity::Warning,
                    true,
                    "prompt: "@ + decimal(tokens as nat) + " / 30000 tokens"@,
                ),
                Err(error) => noted(
                    a,
                    "prompt_builds"@,
                    Severity::Warning,
                    false,
                    "prompt build failed: "@ + error@,
                ),
            }
        },
    }
}

/// Checks the workspace's files.
pub fn check_workspace_files(report: &mut CheckReport, scan: &WorkspaceScan)
    ensures
        final(report)@ == workspace_checks(old(report)@, *scan),
{
    match scan {
        WorkspaceScan::Failed { error } => {
            report.note(
                "workspace_files",
                Severity::Info,
                true,
                cat2("workspace scan failed: ", error.as_str()),
            );
        },
        WorkspaceScan::Read { files, prompt } => {
            let list = list_files(files);
            report.note("workspace_files", Severity::Info, true, cat2(
                "workspace files: ",
                list.as_str(),
            ));
            match prompt {
                Ok(tokens) => {
                    let tokens: u64 = *tokens;
                    report.note(
                        "prompt_builds",
                        Severity::Warning,
                        true,
                        cat3("prompt: ", decimal_text(tokens as u64).as_str(), " / 30000 tokens"),
                    );
                },
                Err(error) => {
                    report.note(
                        "prompt_builds",
                        Severity::Warning,
                        false,
                        cat2("prompt build failed: ", error.as_str()),
                    );
                },
            }
        },
    }
}

} // verus!
