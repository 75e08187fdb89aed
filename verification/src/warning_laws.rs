//! When a configuration passes its check without a warning.
use vstd::prelude::*;

use crate::check_cron::{
    cron_channel_checks, cron_checks, cron_mode_checks, cron_names_check, cron_target_checks,
    cron_token_checks, cron_user_checks, cron_zone_checks, program_check, review_prompt_checks,
    schedule_checks, some_deliverable, web_checks,
};
use crate::check_laws::{
    all_new_is_distinct, distinct, last_place_is_none, new_at,
};
use crate::check_memory::{
    memory_checks, paths_of, profile_check, profile_checks, prompt_checks, prompt_path_checks,
    repeated_path_checks, subagent_checks, workspace_checks,
};
use crate::check_models::{
    agent_model_checks, alias_checks, each_provider_checks, provider_config_checks,
    unique_offers_check,
};
use crate::check_parts::{
    repeats, Facts, ModelAnswer, PathFacts, ProviderFacts, SandboxFacts, SandboxProbe,
    WorkspaceScan,
};
use crate::check_people::{
    each_group_checks, each_user_checks, group_checks, group_path, group_trust_checks,
    override_checks, owner_checks, owners, pattern_checks, patterns_before, probe_checks,
    sandbox_checks, sandbox_limit_checks, trigger_checks, user_check, user_checks, user_names,
};
use crate::check_provider::{
    header_entry_checks, key_entry_checks, provider_entry_checks, provider_settings_checks,
    single_key_check,
};
use crate::check_report::{any_failed, failed, noted, CheckView, Severity};
use crate::config::{
    Config, CronConfig, GroupConfig, HeaderConfig, PromptConfig, PromptFileEntry, ProviderConfig,
    SubagentsConfig, UserConfig, WebConfig,
};
use crate::config_check::{
    agent_checks, contents_checks, full_report, signal_check, workspace_check,
};
use crate::cron_timezone::{cron_zone, schedule_fault, timezone_known, user_named};
use crate::session::TrustLevel;
use crate::text::{before_colon_is_prefix, colon_splits, has_text, opt_view, views};

verus! {

/// Whether no check failed with a warning.
pub open spec fn calm(checks: Seq<CheckView>) -> bool {
    !any_failed(checks, Severity::Warning)
}

broadcast proof fn calm_noted(
    checks: Seq<CheckView>,
    name: Seq<char>,
    severity: Severity,
    passed: bool,
    message: Seq<char>,
)
    ensures
        #[trigger] calm(noted(checks, name, severity, passed, message)) == (calm(checks) && (passed
            || severity != Severity::Warning)),
{
    let all = noted(checks, name, severity, passed, message);
    if any_failed(checks, Severity::Warning) {
        let i = choose|i: int|
            0 <= i < checks.len() && failed(#[trigger] checks[i], Severity::Warning);
        assert(failed(all[i], Severity::Warning));
    }
    assert(all[checks.len() as int].passed == passed);
    if !passed && severity == Severity::Warning {
        assert(failed(all[checks.len() as int], Severity::Warning));
    }
    if any_failed(all, Severity::Warning) && (passed || severity != Severity::Warning) {
        let i = choose|i: int| 0 <= i < all.len() && failed(#[trigger] all[i], Severity::Warning);
        assert(failed(checks[i], Severity::Warning));
    }
}

/// Whether the models of a provider that have a key have each its own.
pub open spec fn models_differ(f: ProviderFacts, n: int) -> bool {
    forall|i: int, j: int|
        0 <= i < j < n && (#[trigger] f.model_keys@[i])@ == (#[trigger] f.model_keys@[j])@
            ==> f.model_keys@[i]@.len() == 0
}

spec fn keyed_once(keys: Seq<Seq<char>>, i: int) -> bool {
    keys[i].len() == 0 || new_at(keys, i)
}

proof fn keyed_repeats_are_none(keys: Seq<Seq<char>>, names: Seq<Seq<char>>, n: int)
    requires
        n <= keys.len(),
    ensures
        repeats(keys, names, false, n).len() == 0 <==> (forall|i: int|
            0 <= i < n ==> #[trigger] keyed_once(keys, i)),
    decreases n,
{
    if n > 0 {
        keyed_repeats_are_none(keys, names, n - 1);
        last_place_is_none(keys, keys[n - 1], n - 1);
        if forall|i: int| 0 <= i < n ==> #[trigger] keyed_once(keys, i) {
            assert(keyed_once(keys, n - 1));
        }
    }
}

proof fn models_differ_without_repeats(p: ProviderConfig, f: ProviderFacts)
    requires
        f.fits(p),
    ensures
        repeats(views(f.model_keys@), views(p.models@), false, p.models@.len() as int).len() == 0
            <==> models_differ(f, p.models@.len() as int),
{
    let keys = views(f.model_keys@);
    let n = p.models@.len() as int;
    keyed_repeats_are_none(keys, views(p.models@), n);
    assert forall|i: int| 0 <= i < n implies #[trigger] keys[i] == f.model_keys@[i]@ by {}
    if models_differ(f, n) {
        assert forall|i: int| 0 <= i < n implies #[trigger] keyed_once(keys, i) by {
            if keys[i].len() > 0 {
                assert forall|j: int| 0 <= j < i implies #[trigger] keys[j] != keys[i] by {
                    assert(keys[j] == f.model_keys@[j]@);
                    assert(keys[i] == f.model_keys@[i]@);
                }
            }
        }
    }
    if forall|i: int| 0 <= i < n ==> #[trigger] keyed_once(keys, i) {
        assert forall|i: int, j: int|
            0 <= i < j < n && (#[trigger] f.model_keys@[i])@
                == (#[trigger] f.model_keys@[j])@ implies f.model_keys@[i]@.len() == 0 by {
            assert(keyed_once(keys, j));
            assert(keys[i] == keys[j]);
        }
    }
}

proof fn calm_entries(
    checks: Seq<CheckView>,
    entries: Seq<Seq<char>>,
    headers: Seq<HeaderConfig>,
    path: Seq<char>,
    env: Seq<Seq<char>>,
    n: int,
)
    ensures
        calm(key_entry_checks(checks, entries, path, env, n)) == calm(checks),
        calm(header_entry_checks(checks, headers, path, n)) == calm(checks),
    decreases n,
{
    broadcast use calm_noted;

    if n > 0 {
        calm_entries(checks, entries, headers, path, env, n - 1);
    }
}

proof fn calm_provider(
    checks: Seq<CheckView>,
    p: ProviderConfig,
    f: ProviderFacts,
    path: Seq<char>,
    env: Seq<Seq<char>>,
)
    requires
        f.fits(p),
    ensures
        calm(provider_entry_checks(checks, p, f, path, env)) <==> calm(checks) && models_differ(
            f,
            p.models@.len() as int,
        ),
{
    broadcast use calm_noted;

    models_differ_without_repeats(p, f);
    let settings = provider_settings_checks(checks, p, f, path);
    assert(calm(settings) <==> calm(checks) && models_differ(f, p.models@.len() as int));
    calm_entries(
        settings,
        views(p.api_keys@),
        p.extra_headers@,
        path,
        env,
        p.api_keys@.len() as int,
    );
    let single = single_key_check(settings, p, f, path, env);
    assert(calm(single) == calm(settings));
    calm_entries(
        single,
        views(p.api_keys@),
        p.extra_headers@,
        path,
        env,
        p.extra_headers@.len() as int,
    );
}

proof fn calm_each_provider(
    checks: Seq<CheckView>,
    p: Seq<ProviderConfig>,
    f: Seq<ProviderFacts>,
    env: Seq<Seq<char>>,
    n: int,
)
    requires
        n <= p.len(),
        forall|i: int| 0 <= i < p.len() ==> (#[trigger] f[i]).fits(p[i]),
    ensures
        calm(each_provider_checks(checks, p, f, env, n)) <==> calm(checks) && (forall|i: int|
            0 <= i < n ==> models_differ(#[trigger] f[i], p[i].models@.len() as int)),
    decreases n,
{
    if n > 0 {
        calm_each_provider(checks, p, f, env, n - 1);
        assert(f[n - 1].fits(p[n - 1]));
        calm_provider(
            each_provider_checks(checks, p, f, env, n - 1),
            p[n - 1],
            f[n - 1],
            crate::check_models::provider_path(n - 1),
            env,
        );
    }
}

/// The models of the providers: none is listed twice by one provider.
pub open spec fn models_listed_once(c: Config, f: Facts) -> bool {
    if c.providers@.len() == 0 {
        models_differ(f.provider, c.provider.models@.len() as int)
    } else {
        forall|i: int|
            0 <= i < c.providers@.len() ==> models_differ(
                #[trigger] f.providers@[i],
                c.providers@[i].models@.len() as int,
            )
    }
}

proof fn calm_provider_config(checks: Seq<CheckView>, c: Config, f: Facts)
    requires
        f.fits(c),
    ensures
        calm(provider_config_checks(checks, c, f)) <==> calm(checks) && models_listed_once(c, f),
{
    broadcast use calm_noted;

    if c.providers@.len() == 0 {
        calm_provider(checks, c.provider, f.provider, "provider"@, views(f.env@));
    } else {
        let a = noted(
            checks,
            "providers_configured"@,
            Severity::Info,
            true,
            "providers: "@ + crate::text::decimal(c.providers@.len()) + " configured"@,
        );
        calm_each_provider(a, c.providers@, f.providers@, views(f.env@), c.providers@.len() as int);
        let b = each_provider_checks(
            a,
            c.providers@,
            f.providers@,
            views(f.env@),
            c.providers@.len() as int,
        );
        let d = unique_offers_check(b, f.providers@);
        assert(calm(d) == calm(b));
        assert(calm(agent_model_checks(d, c, f)) == calm(d));
    }
}

proof fn calm_paths(
    checks: Seq<CheckView>,
    scope: Seq<char>,
    files: Seq<PromptFileEntry>,
    n: int,
)
    ensures
        calm(prompt_path_checks(checks, scope, files, n)) == calm(checks),
    decreases n,
{
    broadcast use calm_noted;

    if n > 0 {
        calm_paths(checks, scope, files, n - 1);
    }
}

proof fn calm_repeated_paths(
    checks: Seq<CheckView>,
    scope: Seq<char>,
    paths: Seq<Seq<char>>,
    n: int,
)
    ensures
        calm(repeated_path_checks(checks, scope, paths, n)) <==> calm(checks) && (forall|i: int|
            0 <= i < n ==> #[trigger] new_at(paths, i)),
    decreases n,
{
    broadcast use calm_noted;

    if n > 0 {
        calm_repeated_paths(checks, scope, paths, n - 1);
        last_place_is_none(paths, paths[n - 1], n - 1);
        if forall|i: int| 0 <= i < n ==> #[trigger] new_at(paths, i) {
            assert(new_at(paths, n - 1));
        }
    }
}

/// The prompt files, each once.
pub open spec fn prompt_files_once(p: PromptConfig) -> bool {
    &&& forall|i: int, j: int|
        0 <= i < j < p.shared_files@.len() ==> (#[trigger] p.shared_files@[i]).path@ != (
        #[trigger] p.shared_files@[j]).path@
    &&& forall|i: int, j: int|
        0 <= i < j < p.user_files@.len() ==> (#[trigger] p.user_files@[i]).path@ != (
        #[trigger] p.user_files@[j]).path@
}

proof fn paths_once(files: Seq<PromptFileEntry>)
    ensures
        distinct(paths_of(files)) <==> (forall|i: int, j: int|
            0 <= i < j < files.len() ==> (#[trigger] files[i]).path@ != (
            #[trigger] files[j]).path@),
{
    let p = paths_of(files);
    assert forall|i: int| 0 <= i < files.len() implies #[trigger] p[i] == files[i].path@ by {}
    if distinct(p) {
        assert forall|i: int, j: int| 0 <= i < j < files.len() implies (#[trigger] files[i]).path@
            != (#[trigger] files[j]).path@ by {
            assert(p[i] != p[j]);
        }
    }
}

proof fn calm_prompt(checks: Seq<CheckView>, p: PromptConfig)
    ensures
        calm(prompt_checks(checks, p)) <==> calm(checks) && prompt_files_once(p),
{
    broadcast use calm_noted;

    let shared = p.shared_files@;
    let user = p.user_files@;
    let a = prompt_path_checks(checks, "shared"@, shared, shared.len() as int);
    let b = prompt_path_checks(a, "user"@, user, user.len() as int);
    let c = repeated_path_checks(b, "shared"@, paths_of(shared), shared.len() as int);
    calm_paths(checks, "shared"@, shared, shared.len() as int);
    calm_paths(a, "user"@, user, user.len() as int);
    calm_repeated_paths(b, "shared"@, paths_of(shared), shared.len() as int);
    calm_repeated_paths(c, "user"@, paths_of(user), user.len() as int);
    all_new_is_distinct(paths_of(shared));
    all_new_is_distinct(paths_of(user));
    paths_once(shared);
    paths_once(user);
}

/// The profiles of the subagents: one that may spawn others has room to.
pub open spec fn spawning_fits(s: SubagentsConfig) -> bool {
    s.max_spawn_depth <= 1 ==> forall|i: int|
        0 <= i < s.profiles@.len() ==> !(#[trigger] s.profiles@[i]).allow_spawn
}

proof fn calm_profiles(checks: Seq<CheckView>, s: SubagentsConfig, models_ok: Seq<bool>, n: int)
    ensures
        calm(profile_checks(checks, s, models_ok, n)) <==> calm(checks) && (s.max_spawn_depth >= 2
            || forall|i: int| 0 <= i < n ==> !(#[trigger] s.profiles@[i]).allow_spawn),
    decreases n,
{
    broadcast use calm_noted;

    if n > 0 {
        calm_profiles(checks, s, models_ok, n - 1);
        let p = s.profiles@[n - 1];
        let before = profile_checks(checks, s, models_ok, n - 1);
        assert(calm(profile_check(before, p, s.max_spawn_depth, models_ok[n - 1])) <==> calm(before)
            && !(p.allow_spawn && s.max_spawn_depth < 2));
    }
}

proof fn calm_subagents(checks: Seq<CheckView>, c: Config, f: Facts)
    ensures
        calm(subagent_checks(checks, c, f)) <==> calm(checks) && spawning_fits(c.agent.subagents),
{
    broadcast use calm_noted;

    let s = c.agent.subagents;
    let a = crate::check_memory::subagent_limits_check(checks, s);
    let b = crate::check_memory::subagent_model_check(a, s, f.subagent_model_ok);
    assert(calm(b) == calm(checks));
    calm_profiles(b, s, f.profile_models_ok@, s.profiles@.len() as int);
}

/// A workspace from which a prompt can be built, if it is there.
pub open spec fn prompt_builds(f: Facts) -> bool {
    f.workspace is Ok ==> (f.scan matches WorkspaceScan::Read { prompt, .. } ==> prompt is Ok)
}

proof fn calm_contents(checks: Seq<CheckView>, f: Facts)
    ensures
        calm(contents_checks(checks, f)) <==> calm(checks) && prompt_builds(f),
{
    broadcast use calm_noted;

    let a = workspace_checks(checks, f.scan);
    assert(calm(a) <==> calm(checks) && (f.scan matches WorkspaceScan::Read { prompt, .. } ==> prompt
        is Ok));
}

/// A sandbox that lacks nothing for the users that there are.
pub open spec fn sandbox_whole(p: SandboxProbe, c: Config) -> bool {
    &&& p.landlock
    &&& p.seccomp
    &&& p.cgroups_v2
    &&& p.internet_only || !c.sandbox.allow_network || forall|i: int|
        0 <= i < c.users@.len() ==> (#[trigger] c.users@[i]).trust == TrustLevel::Owner
            || c.users@[i].trust == TrustLevel::Full
}

/// The sandbox where it is enabled: whole, and with one owner at most.
pub open spec fn sandbox_calm(c: Config, f: SandboxFacts) -> bool {
    c.sandbox.enabled ==> {
        &&& f.probe matches Ok(p) ==> sandbox_whole(p, c)
        &&& forall|i: int, j: int|
            0 <= i < j < c.users@.len() ==> !((#[trigger] c.users@[i]).trust == TrustLevel::Owner
                && (#[trigger] c.users@[j]).trust == TrustLevel::Owner)
    }
}

proof fn owners_counted(users: Seq<UserConfig>, n: int)
    requires
        0 <= n <= users.len(),
    ensures
        owners(users, n) == 0 <==> (forall|i: int|
            0 <= i < n ==> (#[trigger] users[i]).trust != TrustLevel::Owner),
        owners(users, n) <= 1 <==> (forall|i: int, j: int|
            0 <= i < j < n ==> !((#[trigger] users[i]).trust == TrustLevel::Owner
                && (#[trigger] users[j]).trust == TrustLevel::Owner)),
    decreases n,
{
    if n > 0 {
        owners_counted(users, n - 1);
        if users[n - 1].trust == TrustLevel::Owner && owners(users, n - 1) > 0 {
            let i = choose|i: int|
                0 <= i < n - 1 && (#[trigger] users[i]).trust == TrustLevel::Owner;
            assert(users[i].trust == TrustLevel::Owner && users[n - 1].trust == TrustLevel::Owner);
        }
    }
}

proof fn calm_overrides(
    checks: Seq<CheckView>,
    users: Seq<UserConfig>,
    memory_ok: Seq<bool>,
    n: int,
)
    ensures
        calm(override_checks(checks, users, memory_ok, n)) == calm(checks),
    decreases n,
{
    broadcast use calm_noted;

    if n > 0 {
        calm_overrides(checks, users, memory_ok, n - 1);
    }
}

proof fn calm_sandbox(checks: Seq<CheckView>, c: Config, f: SandboxFacts)
    ensures
        calm(sandbox_checks(checks, c, f)) <==> calm(checks) && sandbox_calm(c, f),
{
    broadcast use calm_noted;

    let a = probe_checks(checks, f.probe, c);
    let b = sandbox_limit_checks(a, c.sandbox, f.memory_ok);
    let d = owner_checks(b, c.users@);
    if crate::check_people::some_limited(c.users@) {
        let i = choose|i: int|
            0 <= i < c.users@.len() && (#[trigger] c.users@[i]).trust.rank()
                > TrustLevel::Full.rank();
        assert(c.users@[i].trust != TrustLevel::Owner && c.users@[i].trust != TrustLevel::Full);
    }
    assert(calm(a) <==> calm(checks) && (f.probe matches Ok(p) ==> sandbox_whole(p, c)));
    assert(calm(b) == calm(a));
    owners_counted(c.users@, c.users@.len() as int);
    assert(calm(d) <==> calm(b) && owners(c.users@, c.users@.len() as int) <= 1);
    calm_overrides(d, c.users@, f.user_memory_ok@, c.users@.len() as int);
}

/// A user's time zone, where they have one, is one that there is.
pub open spec fn zone_is_known(u: UserConfig) -> bool {
    u.timezone matches Some(z) ==> timezone_known(z@)
}

/// The users: each has a name of their own, and a time zone that there is.
pub open spec fn users_calm(users: Seq<UserConfig>) -> bool {
    &&& forall|i: int, j: int|
        0 <= i < j < users.len() ==> (#[trigger] users[i]).name@ != (#[trigger] users[j]).name@
    &&& forall|i: int| 0 <= i < users.len() ==> zone_is_known(#[trigger] users[i])
}

proof fn calm_each_user(
    checks: Seq<CheckView>,
    users: Seq<UserConfig>,
    answers: Seq<ModelAnswer>,
    default: Option<Seq<char>>,
    n: int,
)
    ensures
        calm(each_user_checks(checks, users, answers, default, n)) <==> calm(checks) && (forall|
            i: int,
        | 0 <= i < n ==> zone_is_known(#[trigger] users[i])),
    decreases n,
{
    broadcast use calm_noted;

    if n > 0 {
        calm_each_user(checks, users, answers, default, n - 1);
        let before = each_user_checks(checks, users, answers, default, n - 1);
        assert(calm(user_check(before, users[n - 1], answers[n - 1], default)) <==> calm(before)
            && zone_is_known(users[n - 1]));
    }
}

proof fn names_once(users: Seq<UserConfig>)
    ensures
        distinct(user_names(users)) <==> (forall|i: int, j: int|
            0 <= i < j < users.len() ==> (#[trigger] users[i]).name@ != (
            #[trigger] users[j]).name@),
{
    let p = user_names(users);
    assert forall|i: int| 0 <= i < users.len() implies #[trigger] p[i] == users[i].name@ by {}
    if distinct(p) {
        assert forall|i: int, j: int| 0 <= i < j < users.len() implies (#[trigger] users[i]).name@
            != (#[trigger] users[j]).name@ by {
            assert(p[i] != p[j]);
        }
    }
}

proof fn calm_users(checks: Seq<CheckView>, c: Config, f: Facts)
    ensures
        calm(user_checks(checks, c, f)) <==> calm(checks) && users_calm(c.users@),
{
    broadcast use calm_noted;

    let names = user_names(c.users@);
    let twice = repeats(names, names, true, names.len() as int);
    crate::check_laws::repeats_are_none(names, names, names.len() as int);
    all_new_is_distinct(names);
    names_once(c.users@);
    let a = noted(
        checks,
        "users"@,
        Severity::Info,
        true,
        crate::text::decimal(names.len()) + " user(s): "@ + crate::text::joined(names, ", "@),
    );
    let b = if twice.len() > 0 {
        noted(
            a,
            "users_duplicates"@,
            Severity::Warning,
            false,
            "duplicate user names: "@ + crate::text::joined(twice, ", "@),
        )
    } else {
        a
    };
    assert(calm(b) <==> calm(a) && twice.len() == 0);
    calm_each_user(
        b,
        c.users@,
        f.user_models@,
        opt_view(f.system_timezone),
        names.len() as int,
    );
}

/// A pattern that a group can match.
pub open spec fn group_pattern(p: Seq<char>) -> bool {
    p == "*"@ || "signal:group:"@.is_prefix_of(p)
}

spec fn patterns_calm(before: Seq<Seq<char>>, patterns: Seq<Seq<char>>, n: int) -> bool {
    forall|i: int|
        0 <= i < n ==> group_pattern(#[trigger] patterns[i]) && !(before + patterns.take(
            i,
        )).contains(patterns[i])
}

proof fn calm_patterns(
    checks: Seq<CheckView>,
    path: Seq<char>,
    before: Seq<Seq<char>>,
    patterns: Seq<Seq<char>>,
    n: int,
)
    ensures
        calm(pattern_checks(checks, path, before, patterns, n)) <==> calm(checks) && patterns_calm(
            before,
            patterns,
            n,
        ),
    decreases n,
{
    broadcast use calm_noted;

    if n > 0 {
        calm_patterns(checks, path, before, patterns, n - 1);
        assert(patterns[n - 1] == patterns[n - 1]);
    }
}

/// Whether no text of a list stands at an earlier place of it too, from a place
/// on.
spec fn new_from(v: Seq<Seq<char>>, from: int) -> bool {
    forall|i: int| from <= i < v.len() ==> #[trigger] new_at(v, i)
}

proof fn patterns_new_from(before: Seq<Seq<char>>, patterns: Seq<Seq<char>>)
    ensures
        patterns_calm(before, patterns, patterns.len() as int) <==> new_from(
            before + patterns,
            before.len() as int,
        ) && (forall|i: int| 0 <= i < patterns.len() ==> group_pattern(#[trigger] patterns[i])),
{
    let all = before + patterns;
    let b = before.len() as int;
    assert forall|i: int| 0 <= i < patterns.len() implies (!(before + patterns.take(i)).contains(
        #[trigger] patterns[i],
    ) <==> new_at(all, b + i)) by {
        let head = before + patterns.take(i);
        assert(all[b + i] == patterns[i]);
        assert forall|j: int| 0 <= j < b + i implies #[trigger] all[j] == head[j] by {}
        if head.contains(patterns[i]) {
            let j = choose|j: int| 0 <= j < head.len() && head[j] == patterns[i];
            assert(all[j] == head[j]);
        }
        if !new_at(all, b + i) {
            let j = choose|j: int| 0 <= j < b + i && #[trigger] all[j] == all[b + i];
            assert(head[j] == patterns[i]);
        }
    }
    if patterns_calm(before, patterns, patterns.len() as int) {
        assert forall|i: int| b <= i < all.len() implies #[trigger] new_at(all, i) by {
            assert(patterns[i - b] == all[i]);
        }
    }
    if new_from(all, b) {
        assert forall|i: int| 0 <= i < patterns.len() implies !(before + patterns.take(i)).contains(
            #[trigger] patterns[i],
        ) by {
            assert(new_at(all, b + i));
        }
    }
}

proof fn calm_each_group(
    checks: Seq<CheckView>,
    groups: Seq<GroupConfig>,
    models: Seq<Seq<char>>,
    answers: Seq<ModelAnswer>,
    n: int,
)
    requires
        0 <= n <= groups.len(),
    ensures
        calm(each_group_checks(checks, groups, models, answers, n)) <==> calm(checks) && distinct(
            patterns_before(groups, n),
        ) && (forall|i: int| 0 <= i < n ==> group_calm(#[trigger] groups[i])),
    decreases n,
{
    broadcast use calm_noted;

    all_new_is_distinct(patterns_before(groups, n));
    if n > 0 {
        calm_each_group(checks, groups, models, answers, n - 1);
        let before = each_group_checks(checks, groups, models, answers, n - 1);
        let g = groups[n - 1];
        let path = group_path(n - 1);
        let a = if g.match_patterns@.len() == 0 {
            noted(before, "groups"@, Severity::Error, false, path + ": match list is empty"@)
        } else {
            before
        };
        let patterns = views(g.match_patterns@);
        let earlier = patterns_before(groups, n - 1);
        let count = g.match_patterns@.len() as int;
        let b = pattern_checks(a, path, earlier, patterns, count);
        calm_patterns(a, path, earlier, patterns, count);
        let c = trigger_checks(b, path, g);
        let d = group_trust_checks(c, path, g, models[n - 1], answers[n - 1]);
        assert(calm(a) == calm(before));
        assert(calm(c) == calm(b));
        assert(calm(d) <==> calm(c) && g.default_trust != TrustLevel::Owner);
        patterns_new_from(earlier, patterns);
        let all = earlier + patterns;
        assert(all == patterns_before(groups, n));
        all_new_is_distinct(earlier);
        all_new_is_distinct(all);
        assert(distinct(all) <==> distinct(earlier) && new_from(all, earlier.len() as int)) by {
            if distinct(all) {
                assert forall|i: int, j: int| 0 <= i < j < earlier.len() implies #[trigger] earlier[i]
                    != #[trigger] earlier[j] by {
                    assert(all[i] == earlier[i] && all[j] == earlier[j]);
                }
            }
            if distinct(earlier) && new_from(all, earlier.len() as int) {
                assert forall|i: int| 0 <= i < all.len() implies #[trigger] new_at(all, i) by {
                    if i < earlier.len() {
                        assert(new_at(earlier, i));
                        assert forall|j: int| 0 <= j < i implies #[trigger] all[j] != all[i] by {
                            assert(all[j] == earlier[j] && all[i] == earlier[i]);
                        }
                    }
                }
            }
        }
        assert forall|i: int| 0 <= i < count implies #[trigger] patterns[i]
            == g.match_patterns@[i]@ by {}
        assert(group_calm(g) <==> g.default_trust != TrustLevel::Owner && (forall|i: int|
            0 <= i < patterns.len() ==> group_pattern(#[trigger] patterns[i]))) by {
            if group_calm(g) {
                assert forall|i: int| 0 <= i < patterns.len() implies group_pattern(
                    #[trigger] patterns[i],
                ) by {
                    assert(group_pattern(g.match_patterns@[i]@));
                }
            }
            if forall|i: int| 0 <= i < patterns.len() ==> group_pattern(#[trigger] patterns[i]) {
                assert forall|i: int| 0 <= i < count implies group_pattern(
                    (#[trigger] g.match_patterns@[i])@,
                ) by {
                    assert(group_pattern(patterns[i]));
                }
            }
        }
        assert(d == each_group_checks(checks, groups, models, answers, n));
        assert(groups[n - 1] == groups[n - 1]);
    } else {
        assert(patterns_before(groups, n) =~= Seq::empty());
    }
}

/// A group whose patterns are those of groups, and that takes no stranger for
/// the owner.
pub open spec fn group_calm(g: GroupConfig) -> bool {
    &&& g.default_trust != TrustLevel::Owner
    &&& forall|i: int|
        0 <= i < g.match_patterns@.len() ==> group_pattern((#[trigger] g.match_patterns@[i])@)
}

/// The groups: each in order, no pattern twice among them all, and a channel to
/// hear them on.
pub open spec fn groups_calm(c: Config) -> bool {
    c.groups@.len() > 0 ==> {
        &&& distinct(patterns_before(c.groups@, c.groups@.len() as int))
        &&& forall|i: int| 0 <= i < c.groups@.len() ==> group_calm(#[trigger] c.groups@[i])
        &&& c.channels.signal is Some
    }
}

proof fn calm_groups(checks: Seq<CheckView>, c: Config, f: Facts)
    ensures
        calm(group_checks(checks, c, f)) <==> calm(checks) && groups_calm(c),
{
    broadcast use calm_noted;

    calm_each_group(
        checks,
        c.groups@,
        views(f.trigger_model_names@),
        f.trigger_models@,
        c.groups@.len() as int,
    );
}

/// A task that fires, for a user that there is, in a time zone that there is,
/// whose answers can go where they should, and that says how.
pub open spec fn task_calm(
    t: CronConfig,
    users: Seq<UserConfig>,
    default: Option<Seq<char>>,
) -> bool {
    &&& schedule_fault("0 "@ + t.cron@) is None
    &&& t.user matches Some(name) ==> exists|i: int|
        0 <= i < users.len() && (#[trigger] users[i]).name@ == name@
    &&& cron_zone(t, users, default) is Ok
    &&& t.deliver matches Some(d) ==> d.channel@ == "signal"@
    &&& t.deliver is None && t.user is Some && user_named(users, t.user->0@) is Some
        ==> some_way_out(user_named(users, t.user->0@)->0)
    &&& t.delivery is None ==> !has_text(t.message@, "HEARTBEAT.md"@)
    &&& !has_text(t.message@, "HEARTBEAT_OK"@)
    &&& !has_text(t.message@, "NO_ACTION_NEEDED"@)
}

/// Whether a user is found at some place but the terminal.
pub open spec fn some_way_out(u: UserConfig) -> bool {
    exists|i: int, a: Seq<char>, b: Seq<char>|
        0 <= i < u.match_patterns@.len() && (#[trigger] u.match_patterns@[i])@ == #[trigger] (a
            + ":"@ + b) && !a.contains(':') && a != "terminal"@
}

proof fn ways_out(u: UserConfig)
    ensures
        some_deliverable(views(u.match_patterns@)) <==> some_way_out(u),
{
    let v = views(u.match_patterns@);
    assert forall|i: int| 0 <= i < v.len() implies #[trigger] v[i] == u.match_patterns@[i]@ by {}
    if some_deliverable(v) {
        let i = choose|i: int|
            0 <= i < v.len() && crate::check_cron::deliverable(#[trigger] v[i]);
        before_colon_is_prefix(v[i]);
        let a = crate::text::before_colon(v[i]);
        let b = crate::text::after_colon(v[i])->0;
        assert(u.match_patterns@[i]@ == a + ":"@ + b);
        assert(!a.contains(':'));
    }
    if some_way_out(u) {
        let (i, a, b) = choose|i: int, a: Seq<char>, b: Seq<char>|
            0 <= i < u.match_patterns@.len() && (#[trigger] u.match_patterns@[i])@ == #[trigger] (a
                + ":"@ + b) && !a.contains(':') && a != "terminal"@;
        assert forall|k: int| 0 <= k < a.len() implies a[k] != ':' by {}
        colon_splits(a, b);
        assert(crate::check_cron::deliverable(v[i]));
    }
}

proof fn known_users(users: Seq<UserConfig>, name: Seq<char>)
    ensures
        user_named(users, name) is Some <==> exists|i: int|
            0 <= i < users.len() && (#[trigger] users[i]).name@ == name,
    decreases users.len(),
{
    if users.len() > 0 && users[0].name@ != name {
        known_users(users.skip(1), name);
        if exists|i: int| 0 <= i < users.len() && (#[trigger] users[i]).name@ == name {
            let i = choose|i: int| 0 <= i < users.len() && (#[trigger] users[i]).name@ == name;
            assert(users.skip(1)[i - 1] == users[i]);
        }
        if exists|i: int|
            0 <= i < users.skip(1).len() && (#[trigger] users.skip(1)[i]).name@ == name {
            let i = choose|i: int|
                0 <= i < users.skip(1).len() && (#[trigger] users.skip(1)[i]).name@ == name;
            assert(users[i + 1] == users.skip(1)[i]);
        }
    }
}

spec fn user_known(t: CronConfig, users: Seq<UserConfig>) -> bool {
    t.user matches Some(name) ==> user_named(users, name@) is Some
}

spec fn channel_known(t: CronConfig) -> bool {
    t.deliver matches Some(d) ==> d.channel@ == "signal"@
}

spec fn target_found(t: CronConfig, users: Seq<UserConfig>) -> bool {
    t.deliver is None && t.user is Some && user_named(users, t.user->0@) is Some
        ==> some_deliverable(views(user_named(users, t.user->0@)->0.match_patterns@))
}

spec fn mode_set(t: CronConfig) -> bool {
    t.delivery is None ==> !has_text(t.message@, "HEARTBEAT.md"@)
}

spec fn no_token(t: CronConfig) -> bool {
    !has_text(t.message@, "HEARTBEAT_OK"@) && !has_text(t.message@, "NO_ACTION_NEEDED"@)
}

proof fn calm_tasks(
    checks: Seq<CheckView>,
    tasks: Seq<CronConfig>,
    users: Seq<UserConfig>,
    default: Option<Seq<char>>,
    n: int,
)
    ensures
        calm(schedule_checks(checks, tasks, n)) <==> calm(checks) && (forall|i: int|
            0 <= i < n ==> schedule_fault("0 "@ + (#[trigger] tasks[i]).cron@) is None),
        calm(cron_user_checks(checks, tasks, users, n)) <==> calm(checks) && (forall|i: int|
            0 <= i < n ==> user_known(#[trigger] tasks[i], users)),
        calm(cron_zone_checks(checks, tasks, users, default, n)) <==> calm(checks) && (forall|
            i: int,
        | 0 <= i < n ==> cron_zone(#[trigger] tasks[i], users, default) is Ok),
        calm(cron_channel_checks(checks, tasks, n)) <==> calm(checks) && (forall|i: int|
            0 <= i < n ==> channel_known(#[trigger] tasks[i])),
        calm(cron_target_checks(checks, tasks, users, n)) <==> calm(checks) && (forall|i: int|
            0 <= i < n ==> target_found(#[trigger] tasks[i], users)),
        calm(cron_mode_checks(checks, tasks, n)) <==> calm(checks) && (forall|i: int|
            0 <= i < n ==> mode_set(#[trigger] tasks[i])),
        calm(cron_token_checks(checks, tasks, n)) <==> calm(checks) && (forall|i: int|
            0 <= i < n ==> no_token(#[trigger] tasks[i])),
        calm(review_prompt_checks(checks, tasks, n)) == calm(checks),
    decreases n,
{
    broadcast use calm_noted;

    if n > 0 {
        calm_tasks(checks, tasks, users, default, n - 1);
        assert(tasks[n - 1] == tasks[n - 1]);
    }
}

proof fn calm_cron(checks: Seq<CheckView>, c: Config, f: Facts)
    ensures
        calm(cron_checks(checks, c, f)) <==> calm(checks) && (forall|i: int|
            0 <= i < c.cron@.len() ==> task_calm(
                #[trigger] c.cron@[i],
                c.users@,
                opt_view(f.system_timezone),
            )),
{
    broadcast use calm_noted;

    let tasks = c.cron@;
    let users = c.users@;
    let zone = opt_view(f.system_timezone);
    let n = tasks.len() as int;
    let a = cron_names_check(checks, tasks);
    assert(calm(a) == calm(checks));
    let b = schedule_checks(a, tasks, n);
    calm_tasks(a, tasks, users, zone, n);
    let d = cron_user_checks(b, tasks, users, n);
    calm_tasks(b, tasks, users, zone, n);
    let e = cron_zone_checks(d, tasks, users, zone, n);
    calm_tasks(d, tasks, users, zone, n);
    let g = cron_channel_checks(e, tasks, n);
    calm_tasks(e, tasks, users, zone, n);
    let h = cron_target_checks(g, tasks, users, n);
    calm_tasks(g, tasks, users, zone, n);
    let i = cron_mode_checks(h, tasks, n);
    calm_tasks(h, tasks, users, zone, n);
    let j = cron_token_checks(i, tasks, n);
    calm_tasks(i, tasks, users, zone, n);
    calm_tasks(j, tasks, users, zone, n);
    assert forall|k: int| 0 <= k < n implies (task_calm(#[trigger] tasks[k], users, zone)
        <==> schedule_fault("0 "@ + tasks[k].cron@) is None && user_known(tasks[k], users)
        && cron_zone(tasks[k], users, zone) is Ok && channel_known(tasks[k]) && target_found(
        tasks[k],
        users,
    ) && mode_set(tasks[k]) && no_token(tasks[k])) by {
        if let Some(name) = tasks[k].user {
            known_users(users, name@);
            if let Some(u) = user_named(users, name@) {
                ways_out(u);
            }
        }
    }
}

/// A program that is installed where it stays.
pub open spec fn program_settled(program: Result<PathFacts, String>) -> bool {
    program matches Ok(p) && p.exists && !has_text(p.path@, "target/debug"@) && !has_text(
        p.path@,
        "target/release"@,
    )
}

/// Whether nothing about a configuration gives cause for a warning.
pub open spec fn careful_config(c: Config, f: Facts) -> bool {
    &&& models_listed_once(c, f)
    &&& prompt_files_once(c.prompt)
    &&& spawning_fits(c.agent.subagents)
    &&& prompt_builds(f)
    &&& sandbox_calm(c, f.sandbox)
    &&& users_calm(c.users@)
    &&& c.channels.signal is Some ==> f.signal_db.exists
    &&& groups_calm(c)
    &&& forall|i: int|
        0 <= i < c.cron@.len() ==> task_calm(
            #[trigger] c.cron@[i],
            c.users@,
            opt_view(f.system_timezone),
        )
    &&& program_settled(f.program)
}

proof fn calm_web(checks: Seq<CheckView>, web: WebConfig)
    ensures
        calm(web_checks(checks, web)) == calm(checks),
{
    broadcast use calm_noted;

}

proof fn calm_memory(checks: Seq<CheckView>, c: Config, f: Facts)
    ensures
        calm(memory_checks(checks, c, f)) == calm(checks),
{
    broadcast use calm_noted;

}

/// A configuration that can be read passes its check without a warning exactly
/// where nothing about it gives cause for one.
pub proof fn calm_report_means_careful(c: Config, f: Facts)
    requires
        f.fits(c),
    ensures
        !any_failed(full_report(c, f), Severity::Warning) <==> careful_config(c, f),
{
    broadcast use calm_noted;

    let parsed = noted(
        Seq::empty(),
        "toml_parse"@,
        Severity::Error,
        true,
        "config syntax valid"@,
    );
    assert(calm(Seq::<CheckView>::empty()));
    let agent = agent_checks(parsed, c);
    assert(calm(agent));
    let a = workspace_check(agent, f);
    assert(calm(a));
    let aliases = alias_checks(a, c, f);
    assert(calm(aliases));
    let b = provider_config_checks(aliases, c, f);
    calm_provider_config(aliases, c, f);
    let memory = memory_checks(b, c, f);
    calm_memory(b, c, f);
    let prompt = prompt_checks(memory, c.prompt);
    calm_prompt(memory, c.prompt);
    let d = subagent_checks(prompt, c, f);
    calm_subagents(prompt, c, f);
    let contents = contents_checks(d, f);
    calm_contents(d, f);
    let sandbox = sandbox_checks(contents, c, f.sandbox);
    calm_sandbox(contents, c, f.sandbox);
    let e = user_checks(sandbox, c, f);
    calm_users(sandbox, c, f);
    let signal = signal_check(e, c, f);
    assert(calm(signal) <==> calm(e) && (c.channels.signal is Some ==> f.signal_db.exists));
    let g = group_checks(signal, c, f);
    calm_groups(signal, c, f);
    let cron = cron_checks(g, c, f);
    calm_cron(g, c, f);
    let web = web_checks(cron, c.web);
    calm_web(cron, c.web);
    assert(calm(program_check(web, f.program)) <==> calm(web) && program_settled(f.program));
}

} // verus!
