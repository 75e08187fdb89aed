//! What a configuration report says of each thing that it looks at.
use vstd::prelude::*;

use crate::check_cron::{
    cron_channel_checks, cron_mode_checks, cron_names, cron_names_check, cron_target_checks,
    cron_token_checks, cron_user_checks, cron_zone_checks, program_check, review_prompt_checks,
    schedule_checks, web_checks,
};
use crate::check_memory::{
    auto_capture_check, database_check, embedding_checks, file_list, profile_check, prompt_checks,
    prompt_index_check, prompt_path_checks, repeated_path_checks, retention_check,
    subagent_limits_check, subagent_model_check, workspace_checks,
};
use crate::check_models::{
    agent_model_checks, alias_checks, alias_faults, alias_form_faults, provider_path,
};
use crate::check_parts::{
    model_line, repeats, DatabasePlace, Facts, ModelAnswer, PathFacts, ProviderFacts, SandboxProbe,
    WorkspaceFile, WorkspaceScan,
};
use crate::check_people::{
    group_checks, group_path, group_trust_checks, owner_checks, pattern_checks, probe_checks,
    sandbox_limit_checks, some_terminal, trigger_checks, user_check, user_checks,
};
use crate::check_provider::{
    base_url_check, capability_faults, header_entry_checks, key_entry_checks, key_env_check,
    key_list_checks, limit_faults, limits_check, models_check, name_check, reasoning_check,
    single_key_check, stream_policy_check, unique_models_check,
};
use crate::check_report::{CheckView, Severity};
use crate::config::{
    AliasConfig, Config, ContextLimitConfig, CronConfig, GroupConfig, GroupTrigger, HeaderConfig,
    MemoryConfig, ModelCapabilityConfig, PromptConfig, PromptFileEntry, ProviderConfig,
    SandboxConfig, StreamPolicy, SubagentProfile, SubagentsConfig, TrustCeiling, UserConfig,
    WebConfig,
};
use crate::config_check::{agent_checks, contents_checks, signal_check, unread_report};
use crate::cron_timezone::{cron_zone, schedule_fault, schedule_of, user_named, user_zone};
use crate::session::TrustLevel;
use crate::text::{decimal, joined, trimmed, views};

verus! {

/// An entry of a report.
pub open spec fn entry(
    name: Seq<char>,
    severity: Severity,
    passed: bool,
    message: Seq<char>,
) -> CheckView {
    CheckView { name, severity, passed, message }
}

/// What is said of a file that could not be read as a configuration.
pub proof fn unread_files_are_told(error: Seq<char>)
    ensures
        unread_report(error) == seq![entry("toml_parse"@, Severity::Error, false, error)],
{
}

/// Each task gets one line on its schedule and one on its time zone, in the
/// order of the tasks, and the line names the task.
pub proof fn schedules_are_told(
    checks: Seq<CheckView>,
    tasks: Seq<CronConfig>,
    users: Seq<UserConfig>,
    default: Option<Seq<char>>,
    n: int,
)
    requires
        0 < n <= tasks.len(),
    ensures
        schedule_fault(schedule_of(tasks[n - 1].cron@)) is None ==> schedule_checks(
            checks,
            tasks,
            n,
        ) == schedule_checks(checks, tasks, n - 1).push(
            entry(
                "cron_expressions"@,
                Severity::Warning,
                true,
                "cron '"@ + tasks[n - 1].name@ + "': valid"@,
            ),
        ),
        schedule_fault(schedule_of(tasks[n - 1].cron@)) matches Some(error) ==> schedule_checks(
            checks,
            tasks,
            n,
        ) == schedule_checks(checks, tasks, n - 1).push(
            entry(
                "cron_expressions"@,
                Severity::Warning,
                false,
                "cron '"@ + tasks[n - 1].name@ + "': "@ + error,
            ),
        ),
        cron_zone(tasks[n - 1], users, default) matches Ok(zone) ==> cron_zone_checks(
            checks,
            tasks,
            users,
            default,
            n,
        ) == cron_zone_checks(checks, tasks, users, default, n - 1).push(
            entry(
                "cron_timezones"@,
                Severity::Info,
                true,
                "cron '"@ + tasks[n - 1].name@ + "': timezone "@ + zone,
            ),
        ),
        cron_zone(tasks[n - 1], users, default) matches Err(error) ==> cron_zone_checks(
            checks,
            tasks,
            users,
            default,
            n,
        ) == cron_zone_checks(checks, tasks, users, default, n - 1).push(
            entry(
                "cron_timezones"@,
                Severity::Warning,
                false,
                "cron '"@ + tasks[n - 1].name@ + "': "@ + error,
            ),
        ),
{
}

/// A task that cannot do as it is set gets a line that names it; others get
/// none.
pub proof fn task_faults_are_told(
    checks: Seq<CheckView>,
    tasks: Seq<CronConfig>,
    users: Seq<UserConfig>,
    n: int,
)
    requires
        0 < n <= tasks.len(),
    ensures
        cron_user_checks(checks, tasks, users, n) == cron_user_checks(checks, tasks, users, n - 1)
            + (match tasks[n - 1].user {
            Some(user) if user_named(users, user@) is None => seq![
                entry(
                    "cron_users"@,
                    Severity::Warning,
                    false,
                    "cron '"@ + tasks[n - 1].name@ + "' references unknown user '"@ + user@ + "'"@,
                ),
            ],
            _ => Seq::empty(),
        }),
        cron_channel_checks(checks, tasks, n) == cron_channel_checks(checks, tasks, n - 1) + (
        match tasks[n - 1].deliver {
            Some(d) if d.channel@ != "signal"@ => seq![
                entry(
                    "cron_delivery"@,
                    Severity::Warning,
                    false,
                    "cron '"@ + tasks[n - 1].name@ + "' delivery channel '"@ + d.channel@
                        + "' not supported (only 'signal')"@,
                ),
            ],
            _ => Seq::empty(),
        }),
        review_prompt_checks(checks, tasks, n) == review_prompt_checks(checks, tasks, n - 1) + (
        match tasks[n - 1].review_prompt {
            Some(p) if trimmed(p@).len() == 0 => seq![
                entry(
                    "cron_review_prompt"@,
                    Severity::Error,
                    false,
                    "cron '"@ + tasks[n - 1].name@ + "' review_prompt must be non-empty if set"@,
                ),
            ],
            _ => Seq::empty(),
        }),
{
}

/// A task whose message holds what its settings should say gets a line that
/// names it, and so does one whose user can be reached nowhere.
pub proof fn task_messages_are_told(
    checks: Seq<CheckView>,
    tasks: Seq<CronConfig>,
    users: Seq<UserConfig>,
    n: int,
)
    requires
        0 < n <= tasks.len(),
    ensures
        cron_mode_checks(checks, tasks, n) == cron_mode_checks(checks, tasks, n - 1)
            || cron_mode_checks(checks, tasks, n) == cron_mode_checks(checks, tasks, n - 1).push(
            entry(
                "cron_delivery_mode"@,
                Severity::Warning,
                false,
                "cron '"@ + tasks[n - 1].name@
                    + "' relies on the legacy HEARTBEAT.md heuristic for delivery mode; set delivery = \"as_needed\" explicitly"@,
            ),
        ),
        cron_token_checks(checks, tasks, n) == cron_token_checks(checks, tasks, n - 1)
            || cron_token_checks(checks, tasks, n) == cron_token_checks(checks, tasks, n - 1).push(
            entry(
                "cron_message_tokens"@,
                Severity::Warning,
                false,
                "cron '"@ + tasks[n - 1].name@
                    + "' message embeds an internal delivery token; move that behavior to cron.delivery instead"@,
            ),
        ),
        cron_target_checks(checks, tasks, users, n) == cron_target_checks(
            checks,
            tasks,
            users,
            n - 1,
        ) || (tasks[n - 1].user matches Some(user) && cron_target_checks(checks, tasks, users, n)
            == cron_target_checks(checks, tasks, users, n - 1).push(
            entry(
                "cron_user_no_deliverable_channels"@,
                Severity::Warning,
                false,
                "cron '"@ + tasks[n - 1].name@ + "' has user '"@ + user@
                    + "' but no deliver override, and user has no non-terminal match patterns — cron will have no delivery targets"@,
            ),
        )),
{
}

/// Names that several tasks bear are told, each once.
pub proof fn repeated_tasks_are_told(checks: Seq<CheckView>, tasks: Seq<CronConfig>)
    ensures
        ({
            let names = cron_names(tasks);
            let twice = repeats(names, names, true, names.len() as int);
            cron_names_check(checks, tasks) == checks + (if twice.len() > 0 {
                seq![
                    entry(
                        "cron_names"@,
                        Severity::Error,
                        false,
                        "duplicate cron names: "@ + joined(twice, ", "@),
                    ),
                ]
            } else {
                Seq::empty()
            })
        }),
{
}

/// Each setting of the web tools that is out of range is told by its name.
pub proof fn web_settings_are_told(checks: Seq<CheckView>, web: WebConfig)
    requires
        web.search.provider is None,
    ensures
        web_checks(checks, web) == checks + (if web.search.timeout_seconds == Some(0u64) {
            seq![
                entry(
                    "web_search_timeout"@,
                    Severity::Error,
                    false,
                    "tools.web.search.timeout_seconds must be positive"@,
                ),
            ]
        } else {
            Seq::empty()
        }) + (match web.search.max_results {
            Some(m) if m < 1 || m > 10 => seq![
                entry(
                    "web_search_max_results"@,
                    Severity::Error,
                    false,
                    "tools.web.search.max_results must be 1-10"@,
                ),
            ],
            _ => Seq::empty(),
        }) + (match web.fetch.max_chars {
            Some(m) if m < 100 => seq![
                entry(
                    "web_fetch_max_chars"@,
                    Severity::Error,
                    false,
                    "tools.web.fetch.max_chars must be >= 100"@,
                ),
            ],
            _ => Seq::empty(),
        }) + (if web.fetch.timeout_seconds == Some(0u64) {
            seq![
                entry(
                    "web_fetch_timeout"@,
                    Severity::Error,
                    false,
                    "tools.web.fetch.timeout_seconds must be positive"@,
                ),
            ]
        } else {
            Seq::empty()
        }),
{
}

/// The search provider that is set is the first thing told of the web tools.
pub proof fn search_providers_are_told(checks: Seq<CheckView>, web: WebConfig)
    requires
        web.search.provider is Some,
    ensures
        ({
            let name = web.search.provider->0@;
            let known = name == "brave"@ || name == "perplexity"@ || name == "grok"@;
            let r = web_checks(checks, web);
            &&& r.len() > checks.len()
            &&& r.take(checks.len() as int) == checks
            &&& r[checks.len() as int] == entry(
                "web_search_provider"@,
                Severity::Error,
                known,
                if known {
                    "tools.web.search.provider: "@ + name
                } else {
                    "tools.web.search.provider '"@ + name
                        + "' is invalid (must be brave, perplexity, or grok)"@
                },
            )
        }),
{
}

/// What is said of the program: that it is missing, that it stands where it is
/// built, where it is, or that nothing is known of it.
pub proof fn programs_are_told(checks: Seq<CheckView>, p: PathFacts, error: String)
    ensures
        !p.exists ==> program_check(checks, Ok(p)) == checks.push(
            entry(
                "binary_exists"@,
                Severity::Warning,
                false,
                "current executable does not exist: "@ + p.path@,
            ),
        ),
        p.exists ==> program_check(checks, Ok(p)) == checks.push(
            entry("binary_exists"@, Severity::Warning, true, "binary: "@ + p.path@),
        ) || program_check(checks, Ok(p)) == checks.push(
            entry(
                "binary_exists"@,
                Severity::Warning,
                false,
                "binary is in a build directory: "@ + p.path@
                    + " (service may break if binary moves)"@,
            ),
        ),
        program_check(checks, Err(error)) == checks.push(
            entry(
                "binary_exists"@,
                Severity::Warning,
                false,
                "failed to resolve current executable: "@ + error@,
            ),
        ),
{
}

/// What is said of the place of the memory.
pub proof fn databases_are_told(checks: Seq<CheckView>, path: String)
    ensures
        database_check(checks, DatabasePlace::Ready { path }) == checks.push(
            entry("memory_db_path"@, Severity::Error, true, "memory db: "@ + path@),
        ),
        database_check(checks, DatabasePlace::ToCreate { parent: path }) == checks.push(
            entry(
                "memory_db_path"@,
                Severity::Error,
                true,
                "memory db parent will be created on first start: "@ + path@,
            ),
        ),
        database_check(checks, DatabasePlace::NotDirectory { parent: path }) == checks.push(
            entry(
                "memory_db_path"@,
                Severity::Error,
                false,
                "memory db parent is not a directory: "@ + path@,
            ),
        ),
        database_check(checks, DatabasePlace::NoParent { path }) == checks.push(
            entry("memory_db_path"@, Severity::Error, false, "invalid memory db path: "@ + path@),
        ),
{
}

/// Each part of the memory's settings gets one line under its own name, which
/// says what must be set where it fails.
pub proof fn memory_settings_are_told(checks: Seq<CheckView>, m: MemoryConfig)
    ensures
        prompt_index_check(checks, m).len() == checks.len() + 1,
        prompt_index_check(checks, m).drop_last() == checks,
        prompt_index_check(checks, m).last().name == "memory_prompt_index"@,
        prompt_index_check(checks, m).last().severity == Severity::Error,
        !prompt_index_check(checks, m).last().passed ==> prompt_index_check(
            checks,
            m,
        ).last().message
            == "memory.prompt_index requires limit > 0, max_tokens > 0, and recent_days in 1..=30"@,
        auto_capture_check(checks, m).len() == checks.len() + 1,
        auto_capture_check(checks, m).drop_last() == checks,
        auto_capture_check(checks, m).last().name == "memory_auto_capture"@,
        auto_capture_check(checks, m).last().severity == Severity::Error,
        !auto_capture_check(checks, m).last().passed ==> auto_capture_check(
            checks,
            m,
        ).last().message == "memory.auto_capture requires min_turn_messages >= 1"@,
        retention_check(checks, m).len() == checks.len() + 1,
        retention_check(checks, m).drop_last() == checks,
        retention_check(checks, m).last().name == "memory_retention"@,
        retention_check(checks, m).last().severity == Severity::Error,
        !retention_check(checks, m).last().passed ==> retention_check(checks, m).last().message
            == "memory.retention requires positive day values, compression_min_cluster_size > 1, max_rows_per_run > 0, and delete_archive_after_days >= archive_after_days"@,
{
}

/// What is said of memory settings that pass: each number under its name.
pub proof fn sound_memory_is_told(checks: Seq<CheckView>, m: MemoryConfig)
    ensures
        prompt_index_check(checks, m).last().passed ==> prompt_index_check(
            checks,
            m,
        ).last().message == "memory.prompt_index: enabled="@ + (if m.prompt_index.enabled {
            "true"@
        } else {
            "false"@
        }) + ", include_file_links="@ + (if m.prompt_index.include_file_links {
            "true"@
        } else {
            "false"@
        }) + ", limit="@ + decimal(m.prompt_index.limit as nat) + ", max_tokens="@ + decimal(
            m.prompt_index.max_tokens as nat,
        ) + ", recent_days="@ + decimal(m.prompt_index.recent_days as nat),
        auto_capture_check(checks, m).last().passed ==> auto_capture_check(
            checks,
            m,
        ).last().message == "memory.auto_capture: enabled="@ + (if m.auto_capture.enabled {
            "true"@
        } else {
            "false"@
        }) + ", min_turn_messages="@ + decimal(m.auto_capture.min_turn_messages as nat),
        retention_check(checks, m).last().passed ==> retention_check(checks, m).last().message
            == "memory.retention: enabled="@ + (if m.retention.enabled {
            "true"@
        } else {
            "false"@
        }) + ", archive_after_days="@ + decimal(m.retention.archive_after_days as nat)
            + ", delete_archive_after_days="@ + decimal(
            m.retention.delete_archive_after_days as nat,
        ) + ", compress_after_days="@ + decimal(m.retention.compress_after_days as nat)
            + ", compression_min_cluster_size="@ + decimal(
            m.retention.compression_min_cluster_size as nat,
        ) + ", max_rows_per_run="@ + decimal(m.retention.max_rows_per_run as nat),
{
}

/// An embedding model is told, and then whether its key is there; where its
/// settings fail nothing is said of the key.
pub proof fn embeddings_are_told(checks: Seq<CheckView>, m: MemoryConfig, env: Seq<Seq<char>>)
    ensures
        m.embedding is None ==> embedding_checks(checks, m, env) == checks,
        m.embedding is Some ==> {
            let r = embedding_checks(checks, m, env);
            let n = checks.len() as int;
            ||| r.len() == n + 1 && r.take(n) == checks && r[n] == entry(
                "memory_embedding"@,
                Severity::Error,
                false,
                "memory.embedding requires provider in {openai,voyage,cohere,openai-compatible}, non-empty model, dimensions in 1..=8192, and openai-compatible base_url/api_key_env"@,
            )
            ||| r.len() == n + 2 && r.take(n) == checks && r[n].name == "memory_embedding"@
                && r[n].passed && r[n + 1].name == "memory_embedding_api_key"@ && r[n + 1].severity
                == Severity::Error && (r[n + 1].passed ==> exists|v: Seq<char>|
                env.contains(v) && r[n + 1].message == #[trigger] (v + ": present"@)) && (
            !r[n + 1].passed ==> exists|v: Seq<char>|
                r[n + 1].message == #[trigger] (v + " environment variable not set"@))
        },
{
    if let Some(e) = m.embedding {
        let r = embedding_checks(checks, m, env);
        let n = checks.len() as int;
        if r.len() == n + 2 {
            let variable = crate::check_memory::embedding_env(e);
            assert(r[n + 1].passed ==> r[n + 1].message == variable + ": present"@);
            assert(!r[n + 1].passed ==> r[n + 1].message == variable
                + " environment variable not set"@);
        }
    }
}

/// An entry without a path, or with one that leaves the workspace, is told with
/// the list that it stands in, and so is a path that stands there twice.
pub proof fn prompt_paths_are_told(
    checks: Seq<CheckView>,
    scope: Seq<char>,
    files: Seq<PromptFileEntry>,
    paths: Seq<Seq<char>>,
    n: int,
)
    requires
        0 < n <= files.len(),
        n <= paths.len(),
    ensures
        files[n - 1].path@.len() == 0 ==> prompt_path_checks(
            checks,
            scope,
            files,
            n,
        ).len() > prompt_path_checks(checks, scope, files, n - 1).len() && prompt_path_checks(
            checks,
            scope,
            files,
            n,
        )[prompt_path_checks(checks, scope, files, n - 1).len() as int] == entry(
            "prompt_files"@,
            Severity::Error,
            false,
            "prompt."@ + scope + "_files has an entry with empty path"@,
        ),
        files[n - 1].path@.len() > 0 ==> prompt_path_checks(checks, scope, files, n)
            == prompt_path_checks(checks, scope, files, n - 1) || prompt_path_checks(
            checks,
            scope,
            files,
            n,
        ) == prompt_path_checks(checks, scope, files, n - 1).push(
            entry(
                "prompt_files"@,
                Severity::Error,
                false,
                "prompt."@ + scope + "_files path '"@ + files[n - 1].path@
                    + "' must be relative (no '..' or absolute paths)"@,
            ),
        ),
        repeated_path_checks(checks, scope, paths, n) == repeated_path_checks(
            checks,
            scope,
            paths,
            n - 1,
        ) || repeated_path_checks(checks, scope, paths, n) == repeated_path_checks(
            checks,
            scope,
            paths,
            n - 1,
        ).push(
            entry(
                "prompt_files"@,
                Severity::Warning,
                false,
                "duplicate path '"@ + paths[n - 1] + "' in prompt."@ + scope + "_files"@,
            ),
        ),
{
}

/// Where there are no prompt files, that is told.
pub proof fn missing_prompt_files_are_told(checks: Seq<CheckView>, p: PromptConfig)
    requires
        p.shared_files@.len() == 0,
        p.user_files@.len() == 0,
    ensures
        prompt_checks(checks, p) == checks.push(
            entry(
                "prompt_files"@,
                Severity::Info,
                true,
                "prompt files: "@ + decimal(0) + " shared, "@ + decimal(0) + " per-user"@,
            ),
        ),
{
}

/// What is said of the limits of subagents and of the model that is set for
/// them.
pub proof fn subagents_are_told(checks: Seq<CheckView>, s: SubagentsConfig, ok: bool)
    ensures
        subagent_limits_check(checks, s).len() == checks.len() + 1,
        subagent_limits_check(checks, s).drop_last() == checks,
        subagent_limits_check(checks, s).last().name == "subagents_config"@,
        subagent_limits_check(checks, s).last().severity == Severity::Error,
        !subagent_limits_check(checks, s).last().passed ==> subagent_limits_check(
            checks,
            s,
        ).last().message
            == "agent.subagents requires max_spawn_depth >= 1, max_active_children > 0, max_concurrent > 0, default_timeout_seconds > 0, and default_max_turns > 0"@,
        subagent_limits_check(checks, s).last().passed ==> subagent_limits_check(
            checks,
            s,
        ).last().message == "subagents: enabled="@ + (if s.enabled {
            "true"@
        } else {
            "false"@
        }) + ", max_spawn_depth="@ + decimal(s.max_spawn_depth as nat) + ", max_active_children="@
            + decimal(s.max_active_children as nat) + ", max_concurrent="@ + decimal(
            s.max_concurrent as nat,
        ) + ", default_timeout_seconds="@ + decimal(s.default_timeout_seconds as nat)
            + ", default_max_turns="@ + decimal(s.default_max_turns as nat),
        s.model is None ==> subagent_model_check(checks, s, ok) == checks,
        s.model matches Some(model) ==> subagent_model_check(checks, s, ok) == checks.push(
            entry(
                "subagents_model"@,
                Severity::Error,
                ok,
                "agent.subagents.model '"@ + model@ + (if ok {
                    "' is available"@
                } else {
                    "' must appear in one configured provider's model list or built-in catalog"@
                }),
            ),
        ),
{
    if let Some(model) = s.model {
        let m = subagent_model_check(checks, s, ok).last().message;
        assert(ok ==> m == "agent.subagents.model '"@ + model@ + "' is available"@);
    }
}

proof fn name_stands_first(a: Seq<char>, name: Seq<char>, rest: Seq<char>)
    ensures
        rest.len() > 0 && rest[0] == '\'' ==> (a + name + "'"@).is_prefix_of(a + name + rest),
{
    reveal_strlit("'");
    let x = a + name + "'"@;
    let y = a + name + rest;
    if rest.len() > 0 && rest[0] == '\'' {
        assert(y.subrange(0, x.len() as int) =~= x);
    }
}

/// What is said of a profile, of the model that it sets, and of one that may
/// spawn where nothing can be spawned.
pub proof fn profiles_are_told(
    checks: Seq<CheckView>,
    p: SubagentProfile,
    depth: u32,
    model_ok: bool,
)
    ensures
        ({
            let r = profile_check(checks, p, depth, model_ok);
            let n = checks.len() as int;
            let a: int = if p.model is Some {
                1
            } else {
                0
            };
            let b: int = if p.allow_spawn && depth < 2 {
                1
            } else {
                0
            };
            &&& r.len() == n + 1 + a + b
            &&& r.take(n) == checks
            &&& r[n].name == "subagents_profiles"@ && r[n].severity == Severity::Error
            &&& ("subagent profile '"@ + p.name@ + "'"@).is_prefix_of(r[n].message)
            &&& p.model matches Some(model) ==> r[n + 1] == entry(
                "subagents_profile_model"@,
                Severity::Error,
                model_ok,
                if model_ok {
                    "subagent profile '"@ + p.name@ + "' model '"@ + model@ + "' is available"@
                } else {
                    "subagent profile '"@ + p.name@ + "' model '"@ + model@
                        + "' must appear in one configured provider's model list or built-in catalog"@
                },
            )
            &&& b == 1 ==> r.last() == entry(
                "subagents_profile_allow_spawn"@,
                Severity::Warning,
                false,
                "subagent profile '"@ + p.name@ + "' sets allow_spawn=true but max_spawn_depth="@
                    + decimal(depth as nat) + " prevents child subagents"@,
            )
        }),
{
    let t = crate::check_memory::tools_of(p);
    let a = "subagent profile '"@;
    name_stands_first(
        a,
        p.name@,
        "': "@ + decimal(t.len() as nat) + " tools"@ + crate::check_memory::timeout_note(p)
            + crate::check_memory::turns_note(p),
    );
    reveal_strlit("': ");
    reveal_strlit("' contains an empty tool name");
    reveal_strlit("' contains duplicate tools: ");
    reveal_strlit("' requires default_timeout_seconds > 0 when set");
    reveal_strlit("' requires default_max_turns > 0 when set");
    assert(a + p.name@ + ("': "@ + decimal(t.len() as nat) + " tools"@
        + crate::check_memory::timeout_note(p) + crate::check_memory::turns_note(p)) =~= a + p.name@
        + "': "@ + decimal(t.len() as nat) + " tools"@ + crate::check_memory::timeout_note(p)
        + crate::check_memory::turns_note(p));
    name_stands_first(a, p.name@, "' contains an empty tool name"@);
    let twice = joined(crate::check_memory::repeated_tools(p), ", "@);
    name_stands_first(a, p.name@, "' contains duplicate tools: "@ + twice);
    assert(a + p.name@ + ("' contains duplicate tools: "@ + twice) =~= a + p.name@
        + "' contains duplicate tools: "@ + twice);
    name_stands_first(a, p.name@, "' requires default_timeout_seconds > 0 when set"@);
    name_stands_first(a, p.name@, "' requires default_max_turns > 0 when set"@);
}

/// What is said of the files of a workspace: each with its size, then whether a
/// prompt can be built of them.
pub proof fn workspaces_are_told(
    checks: Seq<CheckView>,
    files: Vec<WorkspaceFile>,
    tokens: u64,
    error: String,
)
    ensures
        files@.len() == 0 ==> file_list(files@) == "no workspace files found"@,
        files@.len() == 1 ==> file_list(files@) == files@[0].path@ + " ("@ + decimal(
            files@[0].tokens as nat,
        ) + " tok)"@,
        workspace_checks(checks, WorkspaceScan::Failed { error }) == checks.push(
            entry(
                "workspace_files"@,
                Severity::Info,
                true,
                "workspace scan failed: "@ + error@,
            ),
        ),
        workspace_checks(checks, WorkspaceScan::Read { files, prompt: Ok(tokens) }) == checks.push(
            entry(
                "workspace_files"@,
                Severity::Info,
                true,
                "workspace files: "@ + file_list(files@),
            ),
        ).push(
            entry(
                "prompt_builds"@,
                Severity::Warning,
                true,
                "prompt: "@ + decimal(tokens as nat) + " / 30000 tokens"@,
            ),
        ),
        workspace_checks(checks, WorkspaceScan::Read { files, prompt: Err(error) }) == checks.push(
            entry(
                "workspace_files"@,
                Severity::Info,
                true,
                "workspace files: "@ + file_list(files@),
            ),
        ).push(
            entry(
                "prompt_builds"@,
                Severity::Warning,
                false,
                "prompt build failed: "@ + error@,
            ),
        ),
{
    reveal_with_fuel(joined, 2);
}

/// A workspace that is not there is not looked into, and one whose first
/// conversation is still to come is told last.
pub proof fn pending_starts_are_told(checks: Seq<CheckView>, f: Facts)
    ensures
        f.workspace is Err ==> contents_checks(checks, f) == checks,
        f.workspace is Ok && !f.bootstrap_pending ==> contents_checks(checks, f)
            == workspace_checks(checks, f.scan),
        f.workspace is Ok && f.bootstrap_pending ==> contents_checks(checks, f) == workspace_checks(
            checks,
            f.scan,
        ).push(
            entry(
                "bootstrap_pending"@,
                Severity::Info,
                false,
                "Bootstrap conversation pending — run `coop chat` to personalize your agent."@,
            ),
        ),
{
}

/// What is said of the agent itself and of its channel.
pub proof fn agents_are_told(checks: Seq<CheckView>, c: Config, f: Facts)
    ensures
        agent_checks(checks, c) == checks.push(
            if c.agent.id@.len() > 0 && c.agent.model@.len() > 0 {
                entry(
                    "required_fields"@,
                    Severity::Error,
                    true,
                    "agent.id='"@ + c.agent.id@ + "', agent.model='"@ + c.agent.model@ + "'"@,
                )
            } else {
                entry(
                    "required_fields"@,
                    Severity::Error,
                    false,
                    "agent.id and agent.model must be non-empty"@,
                )
            },
        ).push(
            match c.agent.context_limit {
                None => entry(
                    "agent_context_limit"@,
                    Severity::Error,
                    true,
                    "agent.context_limit: auto-detect"@,
                ),
                Some(limit) => if limit > 0 {
                    entry(
                        "agent_context_limit"@,
                        Severity::Error,
                        true,
                        "agent.context_limit: "@ + decimal(limit as nat),
                    )
                } else {
                    entry(
                        "agent_context_limit"@,
                        Severity::Error,
                        false,
                        "agent.context_limit must be > 0 when set"@,
                    )
                },
            },
        ),
        c.channels.signal is None ==> signal_check(checks, c, f) == checks,
        c.channels.signal is Some && f.signal_db.exists ==> signal_check(checks, c, f)
            == checks.push(
            entry("signal_channel"@, Severity::Warning, true, "signal db: "@ + f.signal_db.path@),
        ),
        c.channels.signal is Some && !f.signal_db.exists ==> signal_check(checks, c, f)
            == checks.push(
            entry(
                "signal_channel"@,
                Severity::Warning,
                false,
                "signal db not found: "@ + f.signal_db.path@,
            ),
        ),
{
}

/// What is said of a sandbox that is there, of one that is not, and of limits
/// that cannot be kept.
pub proof fn sandboxes_are_told(
    checks: Seq<CheckView>,
    p: SandboxProbe,
    c: Config,
    s: SandboxConfig,
    memory_ok: bool,
    error: String,
)
    ensures
        probe_checks(checks, Err(error), c) == checks.push(
            entry(
                "sandbox_available"@,
                Severity::Error,
                false,
                "sandbox not available: "@ + error@,
            ),
        ),
        p.internet_only ==> probe_checks(checks, Ok(p), c) == checks.push(
            entry("sandbox_available"@, Severity::Info, true, "sandbox: "@ + p.name@),
        ) + (if p.landlock {
            Seq::empty()
        } else {
            seq![
                entry(
                    "sandbox_available"@,
                    Severity::Warning,
                    false,
                    "landlock not available — filesystem isolation is degraded"@,
                ),
            ]
        }) + (if p.seccomp {
            Seq::empty()
        } else {
            seq![
                entry(
                    "sandbox_available"@,
                    Severity::Warning,
                    false,
                    "seccomp not available — syscall filtering disabled"@,
                ),
            ]
        }) + (if p.cgroups_v2 {
            Seq::empty()
        } else {
            seq![
                entry(
                    "sandbox_available"@,
                    Severity::Warning,
                    false,
                    "cgroups v2 not writable — using setrlimit fallback for resource limits"@,
                ),
            ]
        }),
        sandbox_limit_checks(checks, s, memory_ok) == checks + (if memory_ok {
            Seq::empty()
        } else {
            seq![
                entry(
                    "sandbox_memory"@,
                    Severity::Error,
                    false,
                    "sandbox.memory '"@ + s.memory@
                        + "' is not a valid size (use number with K/M/G suffix)"@,
                ),
            ]
        }) + (if s.pids_limit > 0 {
            Seq::empty()
        } else {
            seq![
                entry("sandbox_pids"@, Severity::Error, false, "sandbox.pids_limit must be > 0"@),
            ]
        }),
{
}

/// Without users nobody owns the sandbox, and that is told; one owner, or
/// somebody at the terminal, is enough to say nothing.
pub proof fn owners_are_told(checks: Seq<CheckView>, user: UserConfig)
    ensures
        owner_checks(checks, Seq::empty()) == checks.push(
            entry(
                "sandbox_no_owner"@,
                Severity::Info,
                true,
                "no owner configured — terminal will default to owner trust when sandbox is enabled"@,
            ),
        ),
        user.trust == TrustLevel::Owner ==> owner_checks(checks, seq![user]) == checks,
        owner_checks(checks, seq![user, user]) == checks.push(
            entry(
                "sandbox_multiple_owners"@,
                Severity::Warning,
                false,
                decimal(2) + " users with trust=owner — there should be at most one"@,
            ),
        ) <==> user.trust == TrustLevel::Owner,
{
    reveal_with_fuel(crate::check_people::owners, 3);
    if user.trust != TrustLevel::Owner {
        assert(crate::check_people::owners(seq![user, user], 2) == 0);
        let r = owner_checks(checks, seq![user, user]);
        if r.len() > checks.len() {
            assert(r.last().passed);
        }
    }
}

/// Somebody speaks at the terminal exactly where some pattern of some user
/// begins so.
pub proof fn terminals_are_found(users: Seq<UserConfig>)
    ensures
        some_terminal(users) <==> exists|i: int, j: int|
            0 <= i < users.len() && 0 <= j < users[i].match_patterns@.len()
                && "terminal"@.is_prefix_of((#[trigger] users[i].match_patterns@[j])@),
{
    if some_terminal(users) {
        let i = choose|i: int|
            0 <= i < users.len() && crate::check_people::some_starts(
                views((#[trigger] users[i]).match_patterns@),
                "terminal"@,
            );
        let v = views(users[i].match_patterns@);
        let j = choose|j: int| 0 <= j < v.len() && "terminal"@.is_prefix_of(#[trigger] v[j]);
        assert("terminal"@.is_prefix_of(users[i].match_patterns@[j]@));
    }
    if exists|i: int, j: int|
        0 <= i < users.len() && 0 <= j < users[i].match_patterns@.len()
            && "terminal"@.is_prefix_of((#[trigger] users[i].match_patterns@[j])@) {
        let (i, j) = choose|i: int, j: int|
            0 <= i < users.len() && 0 <= j < users[i].match_patterns@.len()
                && "terminal"@.is_prefix_of((#[trigger] users[i].match_patterns@[j])@);
        let v = views(users[i].match_patterns@);
        assert("terminal"@.is_prefix_of(v[j]));
        assert(crate::check_people::some_starts(v, "terminal"@));
    }
}

/// What is said of a user: the model that is set for them, then their time
/// zone.
pub proof fn users_are_told(
    checks: Seq<CheckView>,
    user: UserConfig,
    answer: ModelAnswer,
    default: Option<Seq<char>>,
)
    ensures
        ({
            let zone = match user_zone(user, default) {
                Ok(zone) => entry(
                    "users_timezones"@,
                    Severity::Info,
                    true,
                    "user '"@ + user.name@ + "': timezone "@ + zone,
                ),
                Err(error) => entry(
                    "users_timezones"@,
                    Severity::Warning,
                    false,
                    "user '"@ + user.name@ + "': "@ + error,
                ),
            };
            &&& user.model is None ==> user_check(checks, user, answer, default) == checks.push(
                zone,
            )
            &&& user.model matches Some(model) ==> user_check(checks, user, answer, default)
                == checks.push(
                entry(
                    "users_models"@,
                    Severity::Error,
                    answer.found is Some,
                    model_line("user '"@ + user.name@ + "' model"@, model@, answer),
                ),
            ).push(zone)
        }),
{
}

/// Where there are no users, that is told.
pub proof fn missing_users_are_told(checks: Seq<CheckView>, c: Config, f: Facts)
    requires
        c.users@.len() == 0,
    ensures
        user_checks(checks, c, f) == checks.push(
            entry("users"@, Severity::Info, true, "no users configured"@),
        ),
{
}

/// What is said of a model that was asked for: which one it is and who offers
/// it, or that nobody does.
pub proof fn models_are_told(subject: Seq<char>, requested: Seq<char>, answer: ModelAnswer)
    ensures
        answer.found is None ==> model_line(subject, requested, answer) == subject + " '"@
            + requested
            + "' must appear in one configured provider's model list or built-in catalog"@,
        answer.found is Some && answer.alias is None ==> model_line(subject, requested, answer)
            == subject + " '"@ + answer.found->0.id@ + "' resolved via provider '"@
            + answer.found->0.provider@ + "'"@,
        answer.found is Some && answer.alias is Some ==> model_line(subject, requested, answer)
            == subject + " alias '"@ + answer.alias->0@ + "' -> '"@ + answer.found->0.id@
            + "' via provider '"@ + answer.found->0.provider@ + "'"@,
{
}

/// Groups and providers are told by their place in their lists.
pub proof fn places_are_told(i: int)
    ensures
        group_path(i) == "groups["@ + decimal(i as nat) + "]"@,
        provider_path(i) == "providers["@ + decimal(i as nat) + "]"@,
{
}

/// What is said of how a group is triggered and trusted.
pub proof fn groups_are_told(
    checks: Seq<CheckView>,
    path: Seq<char>,
    g: GroupConfig,
    model: Seq<char>,
    answer: ModelAnswer,
)
    ensures
        g.trigger == GroupTrigger::Mention ==> trigger_checks(checks, path, g) == checks + (
        if g.mention_names@.len() > 0 {
            Seq::empty()
        } else {
            seq![
                entry(
                    "groups"@,
                    Severity::Error,
                    false,
                    path + ": trigger='mention' requires non-empty mention_names"@,
                ),
            ]
        }),
        g.trigger == GroupTrigger::Regex && g.trigger_regex is None ==> trigger_checks(
            checks,
            path,
            g,
        ) == checks.push(
            entry(
                "groups"@,
                Severity::Error,
                false,
                path + ": trigger='regex' requires trigger_regex"@,
            ),
        ),
        g.trigger == GroupTrigger::Regex && g.trigger_regex is Some ==> trigger_checks(
            checks,
            path,
            g,
        ) == checks || trigger_checks(checks, path, g) == checks.push(
            entry(
                "groups"@,
                Severity::Error,
                false,
                path + ": trigger_regex '"@ + g.trigger_regex->0@ + "' is not a valid regex"@,
            ),
        ),
        g.trigger == GroupTrigger::Always || g.trigger == GroupTrigger::Llm ==> trigger_checks(
            checks,
            path,
            g,
        ) == checks,
        group_trust_checks(checks, path, g, model, answer) == checks + (if g.trigger
            == GroupTrigger::Llm || g.trigger_model is Some {
            seq![
                entry(
                    "groups_trigger_models"@,
                    Severity::Error,
                    answer.found is Some,
                    model_line(path + " trigger model"@, model, answer),
                ),
            ]
        } else {
            Seq::empty()
        }) + (if g.default_trust == TrustLevel::Owner {
            seq![
                entry(
                    "groups"@,
                    Severity::Warning,
                    false,
                    path + ": default_trust='owner' grants owner trust to unknown senders"@,
                ),
            ]
        } else {
            Seq::empty()
        }) + (if g.trust_ceiling == TrustCeiling::MinMember {
            seq![
                entry(
                    "groups"@,
                    Severity::Error,
                    false,
                    path + ": trust_ceiling='min_member' is not supported yet"@,
                ),
            ]
        } else {
            Seq::empty()
        }),
{
}

/// A pattern that is no group's, or that an earlier one repeats, is told with
/// the group that it stands in.
pub proof fn patterns_are_told(
    checks: Seq<CheckView>,
    path: Seq<char>,
    before: Seq<Seq<char>>,
    patterns: Seq<Seq<char>>,
    n: int,
)
    requires
        0 < n <= patterns.len(),
    ensures
        pattern_checks(checks, path, before, patterns, n) == pattern_checks(
            checks,
            path,
            before,
            patterns,
            n - 1,
        ) + (if patterns[n - 1] == "*"@ || "signal:group:"@.is_prefix_of(patterns[n - 1]) {
            Seq::empty()
        } else {
            seq![
                entry(
                    "groups"@,
                    Severity::Warning,
                    false,
                    path + ": match pattern '"@ + patterns[n - 1]
                        + "' does not look like a group id (expected 'signal:group:<hex>' or '*')"@,
                ),
            ]
        }) + (if before.contains(patterns[n - 1]) || exists|k: int|
            0 <= k < n - 1 && #[trigger] patterns[k] == patterns[n - 1] {
            seq![
                entry(
                    "groups"@,
                    Severity::Warning,
                    false,
                    path + ": duplicate match pattern '"@ + patterns[n - 1] + "'"@,
                ),
            ]
        } else {
            Seq::empty()
        }),
{
    let p = patterns[n - 1];
    let all = before + patterns.take(n - 1);
    if before.contains(p) {
        let k = choose|k: int| 0 <= k < before.len() && before[k] == p;
        assert(all[k] == p);
    }
    if exists|k: int| 0 <= k < n - 1 && #[trigger] patterns[k] == p {
        let k = choose|k: int| 0 <= k < n - 1 && #[trigger] patterns[k] == p;
        assert(all[before.len() + k] == p);
    }
    if all.contains(p) {
        let k = choose|k: int| 0 <= k < all.len() && all[k] == p;
        if k < before.len() {
            assert(before[k] == p);
        } else {
            assert(patterns[k - before.len()] == p);
        }
    }
}

/// Without groups nothing is said of them.
pub proof fn no_groups_are_told(checks: Seq<CheckView>, c: Config, f: Facts)
    requires
        c.groups@.len() == 0,
    ensures
        group_checks(checks, c, f) == checks,
{
}

/// What is said of the name of a provider, of its address and of the variable
/// that holds its key.
pub proof fn providers_are_told(
    checks: Seq<CheckView>,
    p: ProviderConfig,
    f: ProviderFacts,
    path: Seq<char>,
)
    ensures
        name_check(checks, p, f, path) == checks.push(
            entry("provider_known"@, Severity::Error, true, path + ".name: "@ + p.name@),
        ) || name_check(checks, p, f, path) == checks.push(
            entry(
                "provider_known"@,
                Severity::Error,
                false,
                path + ".name '"@ + p.name@
                    + "' is unsupported (supported: anthropic, gemini, openai, openai-compatible, ollama)"@,
            ),
        ),
        p.base_url is None && f.normalized_name@ != "openai-compatible"@ ==> base_url_check(
            checks,
            p,
            f,
            path,
        ) == checks,
        p.base_url is None && f.normalized_name@ == "openai-compatible"@ ==> base_url_check(
            checks,
            p,
            f,
            path,
        ) == checks.push(
            entry(
                "provider_base_url"@,
                Severity::Error,
                false,
                path + " requires base_url with http:// or https:// for openai-compatible"@,
            ),
        ),
        p.base_url matches Some(url) ==> base_url_check(checks, p, f, path) == checks.push(
            entry("provider_base_url"@, Severity::Error, true, path + ".base_url: "@ + url@),
        ) || base_url_check(checks, p, f, path) == checks.push(
            entry(
                "provider_base_url"@,
                Severity::Error,
                false,
                path + (if f.normalized_name@ == "openai-compatible"@ {
                    " requires base_url with http:// or https:// for openai-compatible"@
                } else {
                    ".base_url must start with http:// or https://"@
                }),
            ),
        ),
        p.api_key_env is None ==> key_env_check(checks, p, path) == checks,
        p.api_key_env matches Some(name) ==> key_env_check(checks, p, path) == checks.push(
            if trimmed(name@).len() > 0 {
                entry(
                    "provider_api_key_env"@,
                    Severity::Error,
                    true,
                    path + ".api_key_env: "@ + name@,
                )
            } else {
                entry(
                    "provider_api_key_env"@,
                    Severity::Error,
                    false,
                    path + ".api_key_env must not be empty"@,
                )
            },
        ),
        stream_policy_check(checks, p, path) == checks.push(
            entry(
                "provider_stream_policy"@,
                Severity::Info,
                true,
                path + ".stream_policy: "@ + (match p.stream_policy {
                    StreamPolicy::Prefer => "prefer"@,
                    StreamPolicy::Require => "require"@,
                    StreamPolicy::Disable => "disable"@,
                }),
            ),
        ),
{
}

/// What is said of a provider's reasoning.
pub proof fn reasoning_is_told(
    checks: Seq<CheckView>,
    p: ProviderConfig,
    f: ProviderFacts,
    path: Seq<char>,
)
    ensures
        p.reasoning is None ==> reasoning_check(checks, p, f, path) == checks.push(
            entry(
                "provider_reasoning"@,
                Severity::Info,
                true,
                path + ".reasoning: not configured"@,
            ),
        ),
        p.reasoning is Some && f.normalized_name@ != "openai"@ ==> reasoning_check(
            checks,
            p,
            f,
            path,
        ) == checks.push(
            entry(
                "provider_reasoning"@,
                Severity::Error,
                false,
                path + ".reasoning is only supported for openai providers"@,
            ),
        ),
        f.normalized_name@ == "openai"@ ==> (p.reasoning matches Some(r) ==> {
            &&& r.effort is None ==> reasoning_check(checks, p, f, path) == checks.push(
                entry(
                    "provider_reasoning"@,
                    Severity::Error,
                    false,
                    path + ".reasoning.effort must be set when reasoning is configured"@,
                ),
            )
            &&& r.effort matches Some(effort) ==> reasoning_check(checks, p, f, path)
                == checks.push(
                entry(
                    "provider_reasoning"@,
                    Severity::Info,
                    true,
                    path + ".reasoning: effort="@ + effort@ + ", summary="@ + (match r.summary {
                        Some(s) => s@,
                        None => "auto"@,
                    }),
                ),
            )
        }),
{
}

/// What is said of the models that a provider lists: how many there are, that
/// one is blank, and which stand there twice.
pub proof fn provider_models_are_told(
    checks: Seq<CheckView>,
    p: ProviderConfig,
    f: ProviderFacts,
    path: Seq<char>,
)
    ensures
        models_check(checks, p, path) == checks.push(
            entry(
                "provider_models_valid"@,
                Severity::Error,
                true,
                if p.models@.len() == 0 {
                    path + ".models: using built-in defaults"@
                } else {
                    path + ".models: "@ + decimal(p.models@.len() as nat) + " configured"@
                },
            ),
        ) || p.models@.len() > 0 && models_check(checks, p, path) == checks.push(
            entry(
                "provider_models_valid"@,
                Severity::Error,
                false,
                path + ".models must not contain empty entries"@,
            ),
        ),
        p.models@.len() == 0 ==> unique_models_check(checks, p, f, path) == checks,
        p.models@.len() > 0 ==> {
            let twice = repeats(
                views(f.model_keys@),
                views(p.models@),
                false,
                p.models@.len() as int,
            );
            unique_models_check(checks, p, f, path) == checks.push(
                entry(
                    "provider_models_unique"@,
                    Severity::Warning,
                    twice.len() == 0,
                    if twice.len() == 0 {
                        path + ".models: no duplicates"@
                    } else {
                        path + ".models contains duplicates: "@ + joined(twice, ", "@)
                    },
                ),
            )
        },
{
}

/// What is wrong with the capabilities of a model is told in order; an entry
/// without a model is told as that alone.
pub proof fn capability_faults_are_told(
    faults: Seq<Seq<char>>,
    c: ModelCapabilityConfig,
    key: Seq<char>,
    repeated: bool,
    m: crate::check_parts::EffectiveModalities,
)
    ensures
        key.len() == 0 ==> capability_faults(faults, c, key, repeated, m) == faults.push(
            "empty model capability key"@,
        ),
        key.len() > 0 ==> capability_faults(faults, c, key, repeated, m) == faults + (if repeated {
            seq!["duplicate normalized capability key: "@ + c.model@]
        } else {
            Seq::empty()
        }) + (match c.input_modalities {
            Some(v) if v@.len() == 0 => seq![c.model@ + " input_modalities must not be empty"@],
            _ => Seq::empty(),
        }) + (match c.output_modalities {
            Some(v) if v@.len() == 0 => seq![c.model@ + " output_modalities must not be empty"@],
            _ => Seq::empty(),
        }) + (if m.text_input {
            Seq::empty()
        } else {
            seq![c.model@ + " must support text input"@]
        }) + (if m.text_output || m.image_output {
            Seq::empty()
        } else {
            seq![c.model@ + " must support text or image output"@]
        }),
{
}

/// What is wrong with the context limits of a provider's models.
pub proof fn limit_faults_are_told(
    l: Seq<ContextLimitConfig>,
    keys: Seq<Seq<char>>,
    n: int,
    checks: Seq<CheckView>,
    p: ProviderConfig,
    f: ProviderFacts,
    path: Seq<char>,
)
    requires
        0 < n <= l.len(),
        n <= keys.len(),
    ensures
        keys[n - 1].len() == 0 ==> limit_faults(l, keys, n) == limit_faults(l, keys, n - 1).push(
            "empty model key"@,
        ),
        keys[n - 1].len() > 0 && l[n - 1].limit == 0 ==> limit_faults(l, keys, n).len()
            > limit_faults(l, keys, n - 1).len() && limit_faults(l, keys, n)[limit_faults(
            l,
            keys,
            n - 1,
        ).len() as int] == l[n - 1].model@ + " => 0"@,
        keys[n - 1].len() > 0 && l[n - 1].limit > 0 ==> limit_faults(l, keys, n) == limit_faults(
            l,
            keys,
            n - 1,
        ) || limit_faults(l, keys, n) == limit_faults(l, keys, n - 1).push(
            "duplicate normalized key: "@ + l[n - 1].model@,
        ),
        limits_check(checks, p, f, path).drop_last() == checks,
        limits_check(checks, p, f, path).last().name == "provider_model_context_limits"@,
        limits_check(checks, p, f, path).last().severity == Severity::Error,
        limits_check(checks, p, f, path).last().passed ==> limits_check(
            checks,
            p,
            f,
            path,
        ).last().message == path + ".model_context_limits: "@ + decimal(
            p.model_context_limits@.len() as nat,
        ) + " configured"@,
        !limits_check(checks, p, f, path).last().passed ==> limits_check(
            checks,
            p,
            f,
            path,
        ).last().message == path + ".model_context_limits contains invalid entries: "@ + joined(
            limit_faults(
                p.model_context_limits@,
                views(f.limit_keys@),
                p.model_context_limits@.len() as int,
            ),
            ", "@,
        ),
{
}

/// A key that is not there is told with the entry that names it, and headers
/// that cannot be sent by their names.
pub proof fn keys_are_told(
    checks: Seq<CheckView>,
    entries: Seq<Seq<char>>,
    headers: Seq<HeaderConfig>,
    path: Seq<char>,
    env: Seq<Seq<char>>,
    name: Seq<char>,
    n: int,
)
    requires
        0 < n <= entries.len(),
        n <= headers.len(),
    ensures
        entries[n - 1] == "env:"@ + name ==> key_entry_checks(checks, entries, path, env, n)
            == key_entry_checks(checks, entries, path, env, n - 1) + (if env.contains(name) {
            Seq::empty()
        } else {
            seq![
                entry(
                    "api_key_present"@,
                    Severity::Error,
                    false,
                    name + " environment variable not set (from "@ + path + ".api_keys entry '"@
                        + entries[n - 1] + "')"@,
                ),
            ]
        }),
        !"env:"@.is_prefix_of(entries[n - 1]) ==> key_entry_checks(checks, entries, path, env, n)
            == key_entry_checks(checks, entries, path, env, n - 1).push(
            entry(
                "api_key_present"@,
                Severity::Error,
                false,
                path + ".api_keys entry '"@ + entries[n - 1]
                    + "' must use 'env:' prefix (e.g. env:ANTHROPIC_API_KEY)"@,
            ),
        ),
        header_entry_checks(checks, headers, path, n) == header_entry_checks(
            checks,
            headers,
            path,
            n - 1,
        ) || header_entry_checks(checks, headers, path, n) == header_entry_checks(
            checks,
            headers,
            path,
            n - 1,
        ).push(
            entry(
                "provider_extra_headers"@,
                Severity::Error,
                false,
                path + ".extra_headers contains invalid entry '"@ + headers[n - 1].name@ + "'"@,
            ),
        ),
{
    reveal_strlit("env:");
    if entries[n - 1] == "env:"@ + name {
        assert(entries[n - 1].subrange(0, 4) =~= "env:"@);
        assert(entries[n - 1].skip(4) =~= name);
        assert(entries[n - 1].subrange(4, entries[n - 1].len() as int) =~= name);
    }
}

/// What is said of a provider's only key.
pub proof fn one_key_is_told(
    checks: Seq<CheckView>,
    p: ProviderConfig,
    f: ProviderFacts,
    path: Seq<char>,
    env: Seq<Seq<char>>,
)
    ensures
        f.api_key_env is None ==> single_key_check(checks, p, f, path, env) == checks.push(
            entry(
                "api_key_present"@,
                Severity::Info,
                true,
                path + ": provider authentication not required"@,
            ),
        ),
        f.api_key_env matches Some(name) ==> {
            let needed = f.normalized_name@ == "anthropic"@ || f.normalized_name@ == "gemini"@
                || f.normalized_name@ == "openai"@ || p.api_key_env is Some;
            let severity = if needed {
                Severity::Error
            } else {
                Severity::Info
            };
            &&& env.contains(name@) ==> single_key_check(checks, p, f, path, env) == checks.push(
                entry("api_key_present"@, severity, true, path + ": "@ + name@ + " present"@),
            )
            &&& !env.contains(name@) ==> single_key_check(checks, p, f, path, env) == checks.push(
                entry(
                    "api_key_present"@,
                    severity,
                    !needed,
                    path + ": "@ + name@ + (if needed {
                        " environment variable not set"@
                    } else {
                        " environment variable not set (optional)"@
                    }),
                ),
            )
        },
{
}

/// Keys that are all there are counted.
pub proof fn key_lists_are_told(
    checks: Seq<CheckView>,
    p: ProviderConfig,
    path: Seq<char>,
    env: Seq<Seq<char>>,
)
    ensures
        ({
            let n = p.api_keys@.len() as int;
            let told = key_entry_checks(checks, views(p.api_keys@), path, env, n);
            key_list_checks(checks, p, path, env) == told || key_list_checks(checks, p, path, env)
                == told.push(
                entry(
                    "api_key_present"@,
                    Severity::Info,
                    true,
                    path + ": "@ + decimal(n as nat) + " API keys configured (rotation enabled)"@,
                ),
            )
        }),
{
}

/// What is said of the agent's model, and of aliases.
pub proof fn agent_models_are_told(checks: Seq<CheckView>, c: Config, f: Facts)
    ensures
        agent_model_checks(checks, c, f) == checks.push(
            entry(
                "agent_model_provider"@,
                Severity::Error,
                f.agent_model.found is Some,
                model_line("agent.model"@, c.agent.model@, f.agent_model),
            ),
        ).push(
            entry(
                "agent_model_main_safe"@,
                Severity::Error,
                f.agent_model_visible,
                if f.agent_model_visible {
                    "agent.model '"@ + c.agent.model@ + "' is available for main sessions"@
                } else {
                    "agent.model '"@ + c.agent.model@
                        + "' is hidden or subagent-only; choose a main-session model and keep specialist models in subagent profiles"@
                },
            ),
        ),
        c.aliases@.len() == 0 ==> alias_checks(checks, c, f) == checks,
        c.aliases@.len() > 0 ==> alias_checks(checks, c, f) == checks.push(
            if alias_faults(c, f).len() == 0 {
                entry(
                    "model_aliases"@,
                    Severity::Error,
                    true,
                    "models.aliases: "@ + decimal(c.aliases@.len() as nat) + " configured"@,
                )
            } else {
                entry(
                    "model_aliases"@,
                    Severity::Error,
                    false,
                    "models.aliases invalid: "@ + joined(alias_faults(c, f), "; "@),
                )
            },
        ),
{
}

/// What is wrong with the form of an alias: it has no name, or no target.
pub proof fn alias_forms_are_told(a: Seq<AliasConfig>, keys: Seq<Seq<char>>, n: int)
    requires
        0 < n <= a.len(),
        n <= keys.len(),
    ensures
        keys[n - 1].len() == 0 ==> alias_form_faults(a, keys, n) == alias_form_faults(
            a,
            keys,
            n - 1,
        ).push("empty alias key"@),
        keys[n - 1].len() > 0 && trimmed(a[n - 1].target@).len() == 0 ==> alias_form_faults(
            a,
            keys,
            n,
        ).len() > alias_form_faults(a, keys, n - 1).len() && alias_form_faults(
            a,
            keys,
            n,
        )[alias_form_faults(a, keys, n - 1).len() as int] == "alias '"@ + a[n - 1].alias@
            + "' has an empty target"@,
{
}

} // verus!
