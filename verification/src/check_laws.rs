//! When a configuration passes its check.
use vstd::prelude::*;

use crate::check_cron::{
    cron_channel_checks, cron_checks, cron_mode_checks, cron_names, cron_names_check,
    cron_target_checks, cron_token_checks, cron_user_checks, cron_zone_checks, program_check,
    review_prompt_checks, schedule_checks, web_checks,
};
use crate::check_memory::{
    embedding_env, embedding_ok, memory_checks, paths_of, paths_ok, profile_check, profile_checks,
    profile_ok, prompt_checks, prompt_path_checks, repeated_path_checks, subagent_checks,
    workspace_checks,
};
use crate::check_models::{
    alias_checks, alias_faults, alias_form_faults, alias_keys, alias_target_faults, double_offers,
    each_provider_checks, offers, provider_config_checks,
};
use crate::check_parts::{
    last_place, repeats, some_blank, web_address, AliasFacts, DatabasePlace, EffectiveModalities,
    Facts, ModelAnswer, ProviderFacts, SandboxFacts,
};
use crate::check_people::{
    each_group_checks, each_user_checks, group_checks, group_path, group_trust_checks,
    override_checks, owner_checks, pattern_checks, patterns_before, probe_checks, sandbox_checks,
    sandbox_limit_checks, trigger_checks, user_check, user_checks,
};
use crate::check_provider::{
    all_capability_faults, all_headers_ok, all_keys_ok, capability_faults, header_entry_checks,
    header_ok, key_entry_checks, key_entry_ok, limit_faults, provider_entry_checks,
    provider_settings_checks, single_key_check,
};
use crate::check_report::{any_failed, failed, noted, CheckView, Severity};
use crate::config::{
    AliasConfig, Config, ContextLimitConfig, CronConfig, GroupConfig, GroupTrigger, HeaderConfig,
    MemoryConfig, MemoryEmbeddingConfig, ModelCapabilityConfig, PromptConfig, PromptFileEntry,
    ProviderConfig, SandboxOverrides, SubagentProfile, SubagentsConfig, TrustCeiling, UserConfig,
    WebConfig, WebSearchConfig,
};
use crate::config_check::{
    agent_checks, contents_checks, full_report, signal_check, workspace_check,
};
use crate::config_write::{after_validation, WritePhase, WriteView};
use crate::group_trigger::regex_accepted;
use crate::text::{lower_ascii, occurs_at, opt_view, trimmed, views};

verus! {

/// Whether no check failed with an error.
pub open spec fn clean(checks: Seq<CheckView>) -> bool {
    !any_failed(checks, Severity::Error)
}

broadcast proof fn clean_noted(
    checks: Seq<CheckView>,
    name: Seq<char>,
    severity: Severity,
    passed: bool,
    message: Seq<char>,
)
    ensures
        #[trigger] clean(noted(checks, name, severity, passed, message)) == (clean(checks) && (
        passed || severity != Severity::Error)),
{
    let all = noted(checks, name, severity, passed, message);
    if any_failed(checks, Severity::Error) {
        let i = choose|i: int|
            0 <= i < checks.len() && failed(#[trigger] checks[i], Severity::Error);
        assert(failed(all[i], Severity::Error));
    }
    assert(all[checks.len() as int].passed == passed);
    if !passed && severity == Severity::Error {
        assert(failed(all[checks.len() as int], Severity::Error));
    }
    if any_failed(all, Severity::Error) && (passed || severity != Severity::Error) {
        let i = choose|i: int| 0 <= i < all.len() && failed(#[trigger] all[i], Severity::Error);
        assert(failed(checks[i], Severity::Error));
    }
}

/// Whether no text of a list stands in it twice.
pub open spec fn distinct(v: Seq<Seq<char>>) -> bool {
    forall|i: int, j: int| 0 <= i < j < v.len() ==> #[trigger] v[i] != #[trigger] v[j]
}

/// Whether the text at a place of a list stands nowhere before it.
pub open spec fn new_at(v: Seq<Seq<char>>, i: int) -> bool {
    forall|j: int| 0 <= j < i ==> #[trigger] v[j] != v[i]
}

pub proof fn last_place_is_none(v: Seq<Seq<char>>, t: Seq<char>, n: int)
    ensures
        last_place(v, t, n) is None <==> (forall|j: int| 0 <= j < n ==> #[trigger] v[j] != t),
    decreases n,
{
    if n > 0 {
        last_place_is_none(v, t, n - 1);
    }
}

pub proof fn repeats_are_none(keys: Seq<Seq<char>>, names: Seq<Seq<char>>, n: int)
    requires
        n <= keys.len(),
    ensures
        repeats(keys, names, true, n).len() == 0 <==> (forall|i: int|
            0 <= i < n ==> #[trigger] new_at(keys, i)),
    decreases n,
{
    if n > 0 {
        repeats_are_none(keys, names, n - 1);
        last_place_is_none(keys, keys[n - 1], n - 1);
        if forall|i: int| 0 <= i < n - 1 ==> #[trigger] new_at(keys, i) {
            if new_at(keys, n - 1) {
                assert(forall|i: int| 0 <= i < n ==> #[trigger] new_at(keys, i));
            }
        }
        if forall|i: int| 0 <= i < n ==> #[trigger] new_at(keys, i) {
            assert(new_at(keys, n - 1));
        }
    }
}

pub proof fn all_new_is_distinct(v: Seq<Seq<char>>)
    ensures
        distinct(v) <==> (forall|i: int| 0 <= i < v.len() ==> #[trigger] new_at(v, i)),
{
    if forall|i: int| 0 <= i < v.len() ==> #[trigger] new_at(v, i) {
        assert forall|i: int, j: int| 0 <= i < j < v.len() implies #[trigger] v[i]
            != #[trigger] v[j] by {
            assert(new_at(v, j));
        }
    }
}

/// The settings that every agent needs.
pub open spec fn agent_ok(c: Config) -> bool {
    c.agent.id@.len() > 0 && c.agent.model@.len() > 0 && c.agent.context_limit != Some(0usize)
}

/// An alias that names a model of its own.
pub open spec fn alias_ok(
    a: AliasConfig,
    f: Seq<AliasFacts>,
    model_keys: Seq<Seq<char>>,
    i: int,
) -> bool {
    &&& f[i].alias_key@.len() > 0
    &&& trimmed(a.target@).len() > 0
    &&& new_at(alias_keys(f), i)
    &&& !model_keys.contains(f[i].alias_key@)
    &&& f[i].target_key@.len() == 0 || !alias_keys(f).contains(f[i].target_key@)
    &&& f[i].target_resolves
}

pub open spec fn aliases_ok(c: Config, f: Facts) -> bool {
    forall|i: int|
        0 <= i < c.aliases@.len() ==> alias_ok(
            #[trigger] c.aliases@[i],
            f.aliases@,
            views(f.real_model_keys@),
            i,
        )
}

spec fn form_ok(a: AliasConfig, keys: Seq<Seq<char>>, i: int) -> bool {
    keys[i].len() > 0 && trimmed(a.target@).len() > 0 && new_at(keys, i)
}

proof fn form_faults_are_none(a: Seq<AliasConfig>, keys: Seq<Seq<char>>, n: int)
    ensures
        alias_form_faults(a, keys, n).len() == 0 <==> (forall|i: int|
            0 <= i < n ==> form_ok(#[trigger] a[i], keys, i)),
    decreases n,
{
    if n > 0 {
        form_faults_are_none(a, keys, n - 1);
        last_place_is_none(keys, keys[n - 1], n - 1);
        let before = alias_form_faults(a, keys, n - 1);
        assert(alias_form_faults(a, keys, n).len() == 0 <==> before.len() == 0 && form_ok(
            a[n - 1],
            keys,
            n - 1,
        ));
    }
}

proof fn target_faults_are_none(
    faults: Seq<Seq<char>>,
    a: Seq<AliasConfig>,
    f: Seq<AliasFacts>,
    model_keys: Seq<Seq<char>>,
    n: int,
)
    ensures
        alias_target_faults(faults, a, f, model_keys, n).len() == 0 <==> faults.len() == 0 && (
        forall|i: int|
            0 <= i < n && (#[trigger] f[i]).alias_key@.len() > 0 ==> !model_keys.contains(
                f[i].alias_key@,
            ) && (f[i].target_key@.len() == 0 || !alias_keys(f).contains(f[i].target_key@))
                && f[i].target_resolves),
    decreases n,
{
    if n > 0 {
        target_faults_are_none(faults, a, f, model_keys, n - 1);
        assert(f[n - 1] == f[n - 1]);
    }
}

proof fn clean_aliases(checks: Seq<CheckView>, c: Config, f: Facts)
    requires
        f.fits(c),
    ensures
        clean(alias_checks(checks, c, f)) <==> clean(checks) && aliases_ok(c, f),
{
    broadcast use clean_noted;

    let n = c.aliases@.len() as int;
    let keys = alias_keys(f.aliases@);
    let form = alias_form_faults(c.aliases@, keys, n);
    form_faults_are_none(c.aliases@, keys, n);
    target_faults_are_none(form, c.aliases@, f.aliases@, views(f.real_model_keys@), n);
    assert forall|i: int| 0 <= i < n implies #[trigger] keys[i] == f.aliases@[i].alias_key@ by {}
    if n > 0 && alias_faults(c, f).len() == 0 {
        assert forall|i: int| 0 <= i < n implies alias_ok(
            #[trigger] c.aliases@[i],
            f.aliases@,
            views(f.real_model_keys@),
            i,
        ) by {
            assert(keys[i] == f.aliases@[i].alias_key@);
        }
    }
    if aliases_ok(c, f) {
        assert forall|i: int| 0 <= i < n implies form_ok(#[trigger] c.aliases@[i], keys, i) by {
            assert(alias_ok(c.aliases@[i], f.aliases@, views(f.real_model_keys@), i));
        }
        assert forall|i: int| 0 <= i < n && (#[trigger] f.aliases@[i]).alias_key@.len() > 0 implies
        !views(f.real_model_keys@).contains(f.aliases@[i].alias_key@) && (
        f.aliases@[i].target_key@.len() == 0 || !keys.contains(f.aliases@[i].target_key@))
            && f.aliases@[i].target_resolves by {
            assert(alias_ok(c.aliases@[i], f.aliases@, views(f.real_model_keys@), i));
        }
    }
}

/// Capabilities that a model can have.
pub open spec fn capability_ok(
    c: ModelCapabilityConfig,
    keys: Seq<Seq<char>>,
    m: EffectiveModalities,
    i: int,
) -> bool {
    &&& keys[i].len() > 0
    &&& new_at(keys, i)
    &&& c.input_modalities matches Some(v) ==> v@.len() > 0
    &&& c.output_modalities matches Some(v) ==> v@.len() > 0
    &&& m.text_input
    &&& m.text_output || m.image_output
}

proof fn capability_faults_are_none(
    c: Seq<ModelCapabilityConfig>,
    keys: Seq<Seq<char>>,
    m: Seq<EffectiveModalities>,
    n: int,
)
    ensures
        all_capability_faults(c, keys, m, n).len() == 0 <==> (forall|i: int|
            0 <= i < n ==> capability_ok(#[trigger] c[i], keys, m[i], i)),
    decreases n,
{
    if n > 0 {
        capability_faults_are_none(c, keys, m, n - 1);
        last_place_is_none(keys, keys[n - 1], n - 1);
        assert(c[n - 1] == c[n - 1]);
        let before = all_capability_faults(c, keys, m, n - 1);
        let now = capability_faults(
            before,
            c[n - 1],
            keys[n - 1],
            last_place(keys, keys[n - 1], n - 1) is Some,
            m[n - 1],
        );
        assert(now.len() == 0 <==> before.len() == 0 && capability_ok(
            c[n - 1],
            keys,
            m[n - 1],
            n - 1,
        ));
    }
}

/// A context limit of a model.
pub open spec fn limit_ok(l: ContextLimitConfig, keys: Seq<Seq<char>>, i: int) -> bool {
    keys[i].len() > 0 && new_at(keys, i) && l.limit > 0
}

proof fn limit_faults_are_none(l: Seq<ContextLimitConfig>, keys: Seq<Seq<char>>, n: int)
    ensures
        limit_faults(l, keys, n).len() == 0 <==> (forall|i: int|
            0 <= i < n ==> limit_ok(#[trigger] l[i], keys, i)),
    decreases n,
{
    if n > 0 {
        limit_faults_are_none(l, keys, n - 1);
        last_place_is_none(keys, keys[n - 1], n - 1);
        assert(l[n - 1] == l[n - 1]);
    }
}

/// The settings of a provider, but for its keys.
pub open spec fn provider_settings_ok(p: ProviderConfig, f: ProviderFacts) -> bool {
    &&& f.normalized_name@ == "anthropic"@ || f.normalized_name@ == "gemini"@ || f.normalized_name@
        == "openai"@ || f.normalized_name@ == "openai-compatible"@ || f.normalized_name@
        == "ollama"@
    &&& f.normalized_name@ == "openai-compatible"@ ==> p.base_url is Some
    &&& p.base_url matches Some(url) ==> on_the_web(url@)
    &&& p.api_key_env matches Some(name) ==> trimmed(name@).len() > 0
    &&& p.reasoning matches Some(r) ==> f.normalized_name@ == "openai"@ && r.effort is Some
    &&& forall|i: int|
        0 <= i < p.models@.len() ==> trimmed((#[trigger] p.models@[i])@).len() > 0
    &&& forall|i: int|
        0 <= i < p.model_capabilities@.len() ==> capability_ok(
            #[trigger] p.model_capabilities@[i],
            views(f.capability_keys@),
            f.modalities@[i],
            i,
        )
    &&& forall|i: int|
        0 <= i < p.model_context_limits@.len() ==> limit_ok(
            #[trigger] p.model_context_limits@[i],
            views(f.limit_keys@),
            i,
        )
}

/// A text that is the address of something on the web, but for white space
/// around it.
pub open spec fn on_the_web(s: Seq<char>) -> bool {
    "http://"@.is_prefix_of(trimmed(s)) || "https://"@.is_prefix_of(trimmed(s))
}

proof fn web_addresses_begin_so(s: Seq<char>)
    ensures
        web_address(s) <==> on_the_web(s),
{
    reveal_strlit("http://");
    reveal_strlit("https://");
}

/// A text without ends of lines.
pub open spec fn on_one_line(s: Seq<char>) -> bool {
    forall|i: int| 0 <= i < s.len() ==> #[trigger] s[i] != '\n' && s[i] != '\r'
}

proof fn one_line_has_no_ends(s: Seq<char>)
    ensures
        crate::check_provider::one_line(s) <==> on_one_line(s),
{
    reveal_strlit("\n");
    reveal_strlit("\r");
    if on_one_line(s) {
        assert forall|i: int| !#[trigger] occurs_at(s, "\n"@, i) by {
            if occurs_at(s, "\n"@, i) {
                assert(s.subrange(i, i + 1)[0] == s[i]);
            }
        }
        assert forall|i: int| !#[trigger] occurs_at(s, "\r"@, i) by {
            if occurs_at(s, "\r"@, i) {
                assert(s.subrange(i, i + 1)[0] == s[i]);
            }
        }
    } else {
        let i = choose|i: int| 0 <= i < s.len() && !(#[trigger] s[i] != '\n' && s[i] != '\r');
        if s[i] == '\n' {
            assert(s.subrange(i, i + 1) =~= "\n"@);
            assert(occurs_at(s, "\n"@, i));
        } else {
            assert(s.subrange(i, i + 1) =~= "\r"@);
            assert(occurs_at(s, "\r"@, i));
        }
    }
}

/// A list entry that names a variable of the environment.
pub open spec fn names_variable(entry: Seq<char>, env: Seq<Seq<char>>) -> bool {
    "env:"@.is_prefix_of(entry) && env.contains(entry.skip(4))
}

/// A header that can be sent.
pub open spec fn header_fits(h: HeaderConfig) -> bool {
    trimmed(h.name@).len() > 0 && on_one_line(h.name@) && on_one_line(h.value@)
}

/// A provider that can be called: its settings are in order and its keys are in
/// the environment. Where there is no list of keys, its headers are looked at.
pub open spec fn provider_ok(p: ProviderConfig, f: ProviderFacts, env: Seq<Seq<char>>) -> bool {
    &&& provider_settings_ok(p, f)
    &&& if p.api_keys@.len() > 0 {
        forall|i: int|
            0 <= i < p.api_keys@.len() ==> names_variable((#[trigger] p.api_keys@[i])@, env)
    } else {
        &&& f.api_key_env is Some && (f.normalized_name@ == "anthropic"@ || f.normalized_name@
            == "gemini"@ || f.normalized_name@ == "openai"@ || p.api_key_env is Some)
            ==> env.contains(f.api_key_env->0@)
        &&& forall|i: int|
            0 <= i < p.extra_headers@.len() ==> header_fits(#[trigger] p.extra_headers@[i])
    }
}

proof fn clean_provider_settings(
    checks: Seq<CheckView>,
    p: ProviderConfig,
    f: ProviderFacts,
    path: Seq<char>,
)
    ensures
        clean(provider_settings_checks(checks, p, f, path)) <==> clean(checks)
            && provider_settings_ok(p, f),
{
    broadcast use clean_noted;

    if let Some(url) = p.base_url {
        web_addresses_begin_so(url@);
    }
    let models = views(p.models@);
    assert forall|i: int| 0 <= i < models.len() implies #[trigger] models[i] == p.models@[i]@ by {}
    if some_blank(models) {
        let i = choose|i: int| 0 <= i < models.len() && trimmed(#[trigger] models[i]).len() == 0;
        assert(trimmed(p.models@[i]@).len() == 0);
    } else {
        assert forall|i: int| 0 <= i < p.models@.len() implies trimmed(
            (#[trigger] p.models@[i])@,
        ).len() > 0 by {
            assert(trimmed(models[i]).len() != 0);
        }
    }
    capability_faults_are_none(
        p.model_capabilities@,
        views(f.capability_keys@),
        f.modalities@,
        p.model_capabilities@.len() as int,
    );
    limit_faults_are_none(
        p.model_context_limits@,
        views(f.limit_keys@),
        p.model_context_limits@.len() as int,
    );
}

proof fn clean_key_entries(
    checks: Seq<CheckView>,
    entries: Seq<Seq<char>>,
    path: Seq<char>,
    env: Seq<Seq<char>>,
    n: int,
)
    ensures
        clean(key_entry_checks(checks, entries, path, env, n)) <==> clean(checks) && all_keys_ok(
            entries,
            env,
            n,
        ),
    decreases n,
{
    broadcast use clean_noted;

    if n > 0 {
        clean_key_entries(checks, entries, path, env, n - 1);
        assert(all_keys_ok(entries, env, n) <==> all_keys_ok(entries, env, n - 1) && key_entry_ok(
            entries[n - 1],
            env,
        )) by {
            if all_keys_ok(entries, env, n - 1) && key_entry_ok(entries[n - 1], env) {
                assert forall|i: int| 0 <= i < n implies key_entry_ok(
                    #[trigger] entries[i],
                    env,
                ) by {}
            }
        }
    }
}

proof fn clean_header_entries(
    checks: Seq<CheckView>,
    headers: Seq<HeaderConfig>,
    path: Seq<char>,
    n: int,
)
    ensures
        clean(header_entry_checks(checks, headers, path, n)) <==> clean(checks) && all_headers_ok(
            headers,
            n,
        ),
    decreases n,
{
    broadcast use clean_noted;

    if n > 0 {
        clean_header_entries(checks, headers, path, n - 1);
        assert(all_headers_ok(headers, n) <==> all_headers_ok(headers, n - 1) && header_ok(
            headers[n - 1],
        )) by {
            if all_headers_ok(headers, n - 1) && header_ok(headers[n - 1]) {
                assert forall|i: int| 0 <= i < n implies header_ok(#[trigger] headers[i]) by {}
            }
        }
    }
}

proof fn clean_provider(
    checks: Seq<CheckView>,
    p: ProviderConfig,
    f: ProviderFacts,
    path: Seq<char>,
    env: Seq<Seq<char>>,
)
    ensures
        clean(provider_entry_checks(checks, p, f, path, env)) <==> clean(checks) && provider_ok(
            p,
            f,
            env,
        ),
{
    broadcast use clean_noted;

    let settings = provider_settings_checks(checks, p, f, path);
    clean_provider_settings(checks, p, f, path);
    reveal_strlit("env:");
    let entries = views(p.api_keys@);
    assert forall|i: int| 0 <= i < entries.len() implies #[trigger] entries[i] == p.api_keys@[i]@
        && key_entry_ok(entries[i], env) == names_variable(p.api_keys@[i]@, env) by {}
    assert(all_keys_ok(entries, env, entries.len() as int) <==> forall|i: int|
        0 <= i < p.api_keys@.len() ==> names_variable((#[trigger] p.api_keys@[i])@, env)) by {
        if all_keys_ok(entries, env, entries.len() as int) {
            assert forall|i: int| 0 <= i < p.api_keys@.len() implies names_variable(
                (#[trigger] p.api_keys@[i])@,
                env,
            ) by {
                assert(key_entry_ok(entries[i], env));
            }
        }
    }
    assert forall|i: int| 0 <= i < p.extra_headers@.len() implies header_ok(
        #[trigger] p.extra_headers@[i],
    ) == header_fits(p.extra_headers@[i]) by {
        one_line_has_no_ends(p.extra_headers@[i].name@);
        one_line_has_no_ends(p.extra_headers@[i].value@);
    }
    clean_key_entries(settings, views(p.api_keys@), path, env, p.api_keys@.len() as int);
    clean_header_entries(
        single_key_check(settings, p, f, path, env),
        p.extra_headers@,
        path,
        p.extra_headers@.len() as int,
    );
}

proof fn clean_providers(
    checks: Seq<CheckView>,
    p: Seq<ProviderConfig>,
    f: Seq<ProviderFacts>,
    env: Seq<Seq<char>>,
    n: int,
)
    ensures
        clean(each_provider_checks(checks, p, f, env, n)) <==> clean(checks) && (forall|i: int|
            0 <= i < n ==> provider_ok(#[trigger] p[i], f[i], env)),
    decreases n,
{
    if n > 0 {
        clean_providers(checks, p, f, env, n - 1);
        clean_provider(
            each_provider_checks(checks, p, f, env, n - 1),
            p[n - 1],
            f[n - 1],
            crate::check_models::provider_path(n - 1),
            env,
        );
        assert(p[n - 1] == p[n - 1]);
    }
}

proof fn double_offers_are_none(keys: Seq<Seq<char>>, labels: Seq<Seq<char>>, n: int)
    ensures
        double_offers(keys, labels, n).len() == 0 <==> (forall|i: int|
            0 <= i < n ==> #[trigger] new_at(keys, i)),
    decreases n,
{
    if n > 0 {
        double_offers_are_none(keys, labels, n - 1);
        last_place_is_none(keys, keys[n - 1], n - 1);
        if forall|i: int| 0 <= i < n ==> #[trigger] new_at(keys, i) {
            assert(new_at(keys, n - 1));
        }
    }
}

/// The providers: the only one is in order, or all of several are, no two of
/// them offer a model of one key, and one offers the agent's model.
pub open spec fn providers_ok(c: Config, f: Facts) -> bool {
    if c.providers@.len() == 0 {
        provider_ok(c.provider, f.provider, views(f.env@))
    } else {
        &&& forall|i: int|
            0 <= i < c.providers@.len() ==> provider_ok(
                #[trigger] c.providers@[i],
                f.providers@[i],
                views(f.env@),
            )
        &&& distinct(offers(f.providers@, f.providers@.len() as int).0)
        &&& f.agent_model.found is Some
        &&& f.agent_model_visible
    }
}

proof fn clean_provider_config(checks: Seq<CheckView>, c: Config, f: Facts)
    ensures
        clean(provider_config_checks(checks, c, f)) <==> clean(checks) && providers_ok(c, f),
{
    broadcast use clean_noted;

    if c.providers@.len() == 0 {
        clean_provider(checks, c.provider, f.provider, "provider"@, views(f.env@));
    } else {
        let a = noted(
            checks,
            "providers_configured"@,
            Severity::Info,
            true,
            "providers: "@ + crate::text::decimal(c.providers@.len()) + " configured"@,
        );
        clean_providers(a, c.providers@, f.providers@, views(f.env@), c.providers@.len() as int);
        let all = offers(f.providers@, f.providers@.len() as int);
        double_offers_are_none(all.0, all.1, all.0.len() as int);
        all_new_is_distinct(all.0);
    }
}

/// The memory's settings, and a place for its database.
pub open spec fn memory_ok(m: MemoryConfig, place: DatabasePlace, env: Seq<Seq<char>>) -> bool {
    &&& place is Ready || place is ToCreate
    &&& m.prompt_index.limit > 0
    &&& m.prompt_index.max_tokens > 0
    &&& 0 < m.prompt_index.recent_days <= 30
    &&& m.auto_capture.min_turn_messages >= 1
    &&& m.retention.archive_after_days > 0
    &&& m.retention.delete_archive_after_days >= m.retention.archive_after_days
    &&& m.retention.compress_after_days > 0
    &&& m.retention.compression_min_cluster_size >= 2
    &&& m.retention.max_rows_per_run > 0
    &&& m.embedding matches Some(e) ==> embedding_fits(e, env)
}

/// The settings of an embedding model, and its key in the environment.
pub open spec fn embedding_fits(e: MemoryEmbeddingConfig, env: Seq<Seq<char>>) -> bool {
    let name = lower_ascii(trimmed(e.provider@));
    &&& trimmed(e.model@).len() > 0
    &&& 1 <= e.dimensions <= 8192
    &&& {
        ||| name == "openai"@ && env.contains("OPENAI_API_KEY"@)
        ||| name == "voyage"@ && env.contains("VOYAGE_API_KEY"@)
        ||| name == "cohere"@ && env.contains("COHERE_API_KEY"@)
        ||| name == "openai-compatible"@ && e.base_url is Some && on_the_web(e.base_url->0@)
            && e.api_key_env is Some && trimmed(e.api_key_env->0@).len() > 0 && env.contains(
            trimmed(e.api_key_env->0@),
        )
    }
}

proof fn embedding_fits_where_ok(e: MemoryEmbeddingConfig, env: Seq<Seq<char>>)
    ensures
        embedding_fits(e, env) <==> embedding_ok(e) && embedding_env(e).len() > 0 && env.contains(
            embedding_env(e),
        ),
{
    reveal_strlit("openai");
    reveal_strlit("voyage");
    reveal_strlit("cohere");
    reveal_strlit("openai-compatible");
    reveal_strlit("OPENAI_API_KEY");
    reveal_strlit("VOYAGE_API_KEY");
    reveal_strlit("COHERE_API_KEY");
    assert("openai"@.len() == 6 && "voyage"@.len() == 6 && "cohere"@.len() == 6
        && "openai-compatible"@.len() == 17);
    assert("openai"@[0] == 'o' && "voyage"@[0] == 'v' && "cohere"@[0] == 'c');
    if let Some(url) = e.base_url {
        web_addresses_begin_so(url@);
    }
}

proof fn clean_memory(checks: Seq<CheckView>, c: Config, f: Facts)
    ensures
        clean(memory_checks(checks, c, f)) <==> clean(checks) && memory_ok(
            c.memory,
            f.memory_db,
            views(f.env@),
        ),
{
    broadcast use clean_noted;

    if let Some(e) = c.memory.embedding {
        embedding_fits_where_ok(e, views(f.env@));
    }
}

proof fn clean_prompt_paths(
    checks: Seq<CheckView>,
    scope: Seq<char>,
    files: Seq<PromptFileEntry>,
    n: int,
)
    ensures
        clean(prompt_path_checks(checks, scope, files, n)) <==> clean(checks) && paths_ok(files, n),
    decreases n,
{
    broadcast use clean_noted;

    if n > 0 {
        clean_prompt_paths(checks, scope, files, n - 1);
        assert(files[n - 1] == files[n - 1]);
    }
}

proof fn clean_repeated_paths(
    checks: Seq<CheckView>,
    scope: Seq<char>,
    paths: Seq<Seq<char>>,
    n: int,
)
    ensures
        clean(repeated_path_checks(checks, scope, paths, n)) == clean(checks),
    decreases n,
{
    broadcast use clean_noted;

    if n > 0 {
        clean_repeated_paths(checks, scope, paths, n - 1);
    }
}

/// The paths of the prompt files, all of them within the workspace.
pub open spec fn prompt_ok(p: PromptConfig) -> bool {
    &&& forall|i: int|
        0 <= i < p.shared_files@.len() ==> stays_within((#[trigger] p.shared_files@[i]).path@)
    &&& forall|i: int|
        0 <= i < p.user_files@.len() ==> stays_within((#[trigger] p.user_files@[i]).path@)
}

/// A path that is there, does not begin at the root, and goes nowhere up.
pub open spec fn stays_within(path: Seq<char>) -> bool {
    &&& path.len() > 0
    &&& path[0] != '/'
    &&& forall|i: int| 0 <= i < path.len() - 1 ==> !(#[trigger] path[i] == '.' && path[i + 1] == '.')
}

proof fn paths_that_stay(path: Seq<char>)
    ensures
        stays_within(path) <==> path.len() > 0 && !crate::check_memory::strays(path),
{
    reveal_strlit("..");
    reveal_strlit("/");
    if path.len() > 0 {
        if path[0] == '/' {
            assert("/"@ =~= path.subrange(0, 1));
        } else {
            assert(path.subrange(0, 1)[0] == path[0]);
        }
        if forall|i: int|
            0 <= i < path.len() - 1 ==> !(#[trigger] path[i] == '.' && path[i + 1] == '.') {
            assert forall|i: int| !#[trigger] occurs_at(path, ".."@, i) by {
                if occurs_at(path, ".."@, i) {
                    assert(path.subrange(i, i + 2)[0] == path[i]);
                    assert(path.subrange(i, i + 2)[1] == path[i + 1]);
                }
            }
        } else {
            let i = choose|i: int|
                0 <= i < path.len() - 1 && #[trigger] path[i] == '.' && path[i + 1] == '.';
            assert(path.subrange(i, i + 2) =~= ".."@);
            assert(occurs_at(path, ".."@, i));
        }
    }
}

proof fn clean_prompt(checks: Seq<CheckView>, p: PromptConfig)
    ensures
        clean(prompt_checks(checks, p)) <==> clean(checks) && prompt_ok(p),
{
    broadcast use clean_noted;

    let shared = p.shared_files@;
    let user = p.user_files@;
    let a = prompt_path_checks(checks, "shared"@, shared, shared.len() as int);
    let b = prompt_path_checks(a, "user"@, user, user.len() as int);
    let c = repeated_path_checks(b, "shared"@, paths_of(shared), shared.len() as int);
    clean_prompt_paths(checks, "shared"@, shared, shared.len() as int);
    clean_prompt_paths(a, "user"@, user, user.len() as int);
    assert forall|i: int| 0 <= i < shared.len() implies stays_within((#[trigger] shared[i]).path@)
        == (shared[i].path@.len() > 0 && !crate::check_memory::strays(shared[i].path@)) by {
        paths_that_stay(shared[i].path@);
    }
    assert forall|i: int| 0 <= i < user.len() implies stays_within((#[trigger] user[i]).path@) == (
    user[i].path@.len() > 0 && !crate::check_memory::strays(user[i].path@)) by {
        paths_that_stay(user[i].path@);
    }
    clean_repeated_paths(b, "shared"@, paths_of(shared), shared.len() as int);
    clean_repeated_paths(c, "user"@, paths_of(user), user.len() as int);
}

/// The settings of the subagents.
pub open spec fn subagents_ok(s: SubagentsConfig, model_ok: bool, models_ok: Seq<bool>) -> bool {
    &&& s.max_spawn_depth > 0
    &&& s.max_active_children > 0
    &&& s.max_concurrent > 0
    &&& s.default_timeout_seconds > 0
    &&& s.default_max_turns > 0
    &&& s.model is Some ==> model_ok
    &&& forall|i: int|
        0 <= i < s.profiles@.len() ==> profile_fits(#[trigger] s.profiles@[i]) && (
        s.profiles@[i].model is Some ==> models_ok[i])
}

/// A profile that can be used: tools with names, each once, and some time and
/// turns.
pub open spec fn profile_fits(p: SubagentProfile) -> bool {
    &&& p.tools matches Some(tools) ==> {
        &&& distinct(views(tools@))
        &&& forall|i: int| 0 <= i < tools@.len() ==> trimmed((#[trigger] tools@[i])@).len() > 0
    }
    &&& p.default_timeout_seconds != Some(0u64)
    &&& p.default_max_turns != Some(0u32)
}

proof fn profiles_fit_where_ok(p: SubagentProfile)
    ensures
        profile_ok(p) <==> profile_fits(p),
{
    if let Some(tools) = p.tools {
        let names = views(tools@);
        repeats_are_none(names, names, names.len() as int);
        all_new_is_distinct(names);
        assert forall|i: int| 0 <= i < names.len() implies #[trigger] names[i] == tools@[i]@ by {}
        if some_blank(names) {
            let i = choose|i: int| 0 <= i < names.len() && trimmed(#[trigger] names[i]).len() == 0;
            assert(trimmed(tools@[i]@).len() == 0);
        } else {
            assert forall|i: int| 0 <= i < tools@.len() implies trimmed(
                (#[trigger] tools@[i])@,
            ).len() > 0 by {
                assert(trimmed(names[i]).len() != 0);
            }
        }
    }
}

proof fn clean_profiles(checks: Seq<CheckView>, s: SubagentsConfig, models_ok: Seq<bool>, n: int)
    ensures
        clean(profile_checks(checks, s, models_ok, n)) <==> clean(checks) && (forall|i: int|
            0 <= i < n ==> profile_ok(#[trigger] s.profiles@[i]) && (s.profiles@[i].model is Some
                ==> models_ok[i])),
    decreases n,
{
    broadcast use clean_noted;

    if n > 0 {
        clean_profiles(checks, s, models_ok, n - 1);
        let p = s.profiles@[n - 1];
        let before = profile_checks(checks, s, models_ok, n - 1);
        assert(clean(profile_check(before, p, s.max_spawn_depth, models_ok[n - 1])) <==> clean(
            before,
        ) && profile_ok(p) && (p.model is Some ==> models_ok[n - 1]));
        assert(s.profiles@[n - 1] == s.profiles@[n - 1]);
    }
}

proof fn clean_subagents(checks: Seq<CheckView>, c: Config, f: Facts)
    ensures
        clean(subagent_checks(checks, c, f)) <==> clean(checks) && subagents_ok(
            c.agent.subagents,
            f.subagent_model_ok,
            f.profile_models_ok@,
        ),
{
    broadcast use clean_noted;

    let s = c.agent.subagents;
    let a = crate::check_memory::subagent_limits_check(checks, s);
    let b = crate::check_memory::subagent_model_check(a, s, f.subagent_model_ok);
    clean_profiles(b, s, f.profile_models_ok@, s.profiles@.len() as int);
    assert forall|i: int| 0 <= i < s.profiles@.len() implies profile_ok(#[trigger] s.profiles@[i])
        == profile_fits(s.profiles@[i]) by {
        profiles_fit_where_ok(s.profiles@[i]);
    }
}

proof fn clean_contents(checks: Seq<CheckView>, f: Facts)
    ensures
        clean(contents_checks(checks, f)) == clean(checks),
{
    broadcast use clean_noted;

    assert(clean(workspace_checks(checks, f.scan)) == clean(checks));
}

/// A user's own sandbox settings.
pub open spec fn override_ok(o: Option<SandboxOverrides>, memory_ok: bool) -> bool {
    o matches Some(s) ==> (s.memory is Some ==> memory_ok) && s.pids_limit != Some(0u32)
}

/// The sandbox, where it is enabled.
pub open spec fn sandbox_ok(c: Config, f: SandboxFacts) -> bool {
    c.sandbox.enabled ==> {
        &&& f.probe is Ok
        &&& f.memory_ok
        &&& c.sandbox.pids_limit > 0
        &&& !f.namespaces_disabled
        &&& forall|i: int|
            0 <= i < c.users@.len() ==> override_ok(
                (#[trigger] c.users@[i]).sandbox,
                f.user_memory_ok@[i],
            )
    }
}

proof fn clean_overrides(
    checks: Seq<CheckView>,
    users: Seq<UserConfig>,
    memory_ok: Seq<bool>,
    n: int,
)
    ensures
        clean(override_checks(checks, users, memory_ok, n)) <==> clean(checks) && (forall|i: int|
            0 <= i < n ==> override_ok((#[trigger] users[i]).sandbox, memory_ok[i])),
    decreases n,
{
    broadcast use clean_noted;

    if n > 0 {
        clean_overrides(checks, users, memory_ok, n - 1);
        assert(users[n - 1] == users[n - 1]);
    }
}

proof fn clean_sandbox(checks: Seq<CheckView>, c: Config, f: SandboxFacts)
    ensures
        clean(sandbox_checks(checks, c, f)) <==> clean(checks) && sandbox_ok(c, f),
{
    broadcast use clean_noted;

    let a = probe_checks(checks, f.probe, c);
    let b = sandbox_limit_checks(a, c.sandbox, f.memory_ok);
    let d = owner_checks(b, c.users@);
    assert(clean(a) <==> clean(checks) && f.probe is Ok);
    assert(clean(b) <==> clean(a) && f.memory_ok && c.sandbox.pids_limit > 0);
    assert(clean(d) == clean(b));
    clean_overrides(d, c.users@, f.user_memory_ok@, c.users@.len() as int);
}

/// The models of the users.
pub open spec fn users_ok(users: Seq<UserConfig>, answers: Seq<ModelAnswer>) -> bool {
    forall|i: int|
        0 <= i < users.len() && (#[trigger] users[i]).model is Some ==> answers[i].found is Some
}

proof fn clean_each_user(
    checks: Seq<CheckView>,
    users: Seq<UserConfig>,
    answers: Seq<ModelAnswer>,
    default: Option<Seq<char>>,
    n: int,
)
    ensures
        clean(each_user_checks(checks, users, answers, default, n)) <==> clean(checks) && (forall|
            i: int,
        |
            0 <= i < n && (#[trigger] users[i]).model is Some ==> answers[i].found is Some),
    decreases n,
{
    broadcast use clean_noted;

    if n > 0 {
        clean_each_user(checks, users, answers, default, n - 1);
        let before = each_user_checks(checks, users, answers, default, n - 1);
        assert(clean(user_check(before, users[n - 1], answers[n - 1], default)) <==> clean(before)
            && (users[n - 1].model is Some ==> answers[n - 1].found is Some));
    }
}

proof fn clean_users(checks: Seq<CheckView>, c: Config, f: Facts)
    ensures
        clean(user_checks(checks, c, f)) <==> clean(checks) && users_ok(
            c.users@,
            f.user_models@,
        ),
{
    broadcast use clean_noted;

    let names = crate::check_people::user_names(c.users@);
    let twice = repeats(names, names, true, names.len() as int);
    let a = noted(
        checks,
        "users"@,
        Severity::Info,
        true,
        crate::text::decimal(names.len()) + " user(s): "@ + crate::text::joined(names, ", "@),
    );
    let b = if twice.len() > 0 {
        noted(
            a,
            "users_duplicates"@,
            Severity::Warning,
            false,
            "duplicate user names: "@ + crate::text::joined(twice, ", "@),
        )
    } else {
        a
    };
    clean_each_user(
        b,
        c.users@,
        f.user_models@,
        opt_view(f.system_timezone),
        names.len() as int,
    );
}

/// A group that can be listened to.
pub open spec fn group_ok(g: GroupConfig, answer: ModelAnswer) -> bool {
    &&& g.match_patterns@.len() > 0
    &&& g.trigger == GroupTrigger::Mention ==> g.mention_names@.len() > 0
    &&& g.trigger == GroupTrigger::Regex ==> g.trigger_regex is Some && regex_accepted(
        g.trigger_regex->0@,
    )
    &&& g.trigger == GroupTrigger::Llm || g.trigger_model is Some ==> answer.found is Some
    &&& g.trust_ceiling != TrustCeiling::MinMember
}

proof fn clean_patterns(
    checks: Seq<CheckView>,
    path: Seq<char>,
    before: Seq<Seq<char>>,
    patterns: Seq<Seq<char>>,
    n: int,
)
    ensures
        clean(pattern_checks(checks, path, before, patterns, n)) == clean(checks),
    decreases n,
{
    broadcast use clean_noted;

    if n > 0 {
        clean_patterns(checks, path, before, patterns, n - 1);
    }
}

proof fn clean_each_group(
    checks: Seq<CheckView>,
    groups: Seq<GroupConfig>,
    models: Seq<Seq<char>>,
    answers: Seq<ModelAnswer>,
    n: int,
)
    ensures
        clean(each_group_checks(checks, groups, models, answers, n)) <==> clean(checks) && (forall|
            i: int,
        | 0 <= i < n ==> group_ok(#[trigger] groups[i], answers[i])),
    decreases n,
{
    broadcast use clean_noted;

    if n > 0 {
        clean_each_group(checks, groups, models, answers, n - 1);
        let before = each_group_checks(checks, groups, models, answers, n - 1);
        let g = groups[n - 1];
        let path = group_path(n - 1);
        let a = if g.match_patterns@.len() == 0 {
            noted(before, "groups"@, Severity::Error, false, path + ": match list is empty"@)
        } else {
            before
        };
        let patterns = views(g.match_patterns@);
        let earlier = patterns_before(groups, n - 1);
        let count = g.match_patterns@.len() as int;
        let b = pattern_checks(a, path, earlier, patterns, count);
        clean_patterns(a, path, earlier, patterns, count);
        let c = trigger_checks(b, path, g);
        let d = group_trust_checks(c, path, g, models[n - 1], answers[n - 1]);
        assert(clean(a) <==> clean(before) && g.match_patterns@.len() > 0);
        assert(clean(c) <==> clean(b) && (g.trigger == GroupTrigger::Mention
            ==> g.mention_names@.len() > 0) && (g.trigger == GroupTrigger::Regex
            ==> g.trigger_regex is Some && regex_accepted(g.trigger_regex->0@)));
        assert(clean(d) <==> clean(c) && (g.trigger == GroupTrigger::Llm || g.trigger_model is Some
            ==> answers[n - 1].found is Some) && g.trust_ceiling != TrustCeiling::MinMember);
        assert(d == each_group_checks(checks, groups, models, answers, n));
        assert(groups[n - 1] == groups[n - 1]);
    }
}

pub open spec fn groups_ok(groups: Seq<GroupConfig>, answers: Seq<ModelAnswer>) -> bool {
    forall|i: int| 0 <= i < groups.len() ==> group_ok(#[trigger] groups[i], answers[i])
}

proof fn clean_groups(checks: Seq<CheckView>, c: Config, f: Facts)
    ensures
        clean(group_checks(checks, c, f)) <==> clean(checks) && groups_ok(
            c.groups@,
            f.trigger_models@,
        ),
{
    broadcast use clean_noted;

    clean_each_group(
        checks,
        c.groups@,
        views(f.trigger_model_names@),
        f.trigger_models@,
        c.groups@.len() as int,
    );
}

/// The scheduled tasks: each has a name of its own, and none a blank review
/// prompt.
pub open spec fn cron_ok(tasks: Seq<CronConfig>) -> bool {
    &&& distinct(cron_names(tasks))
    &&& forall|i: int| 0 <= i < tasks.len() ==> review_ok(#[trigger] tasks[i])
}

pub open spec fn review_ok(t: CronConfig) -> bool {
    t.review_prompt matches Some(p) ==> trimmed(p@).len() > 0
}

proof fn clean_warnings(
    checks: Seq<CheckView>,
    tasks: Seq<CronConfig>,
    users: Seq<UserConfig>,
    default: Option<Seq<char>>,
    n: int,
)
    ensures
        clean(schedule_checks(checks, tasks, n)) == clean(checks),
        clean(cron_user_checks(checks, tasks, users, n)) == clean(checks),
        clean(cron_zone_checks(checks, tasks, users, default, n)) == clean(checks),
        clean(cron_channel_checks(checks, tasks, n)) == clean(checks),
        clean(cron_target_checks(checks, tasks, users, n)) == clean(checks),
        clean(cron_mode_checks(checks, tasks, n)) == clean(checks),
        clean(cron_token_checks(checks, tasks, n)) == clean(checks),
    decreases n,
{
    broadcast use clean_noted;

    if n > 0 {
        clean_warnings(checks, tasks, users, default, n - 1);
    }
}

proof fn clean_reviews(checks: Seq<CheckView>, tasks: Seq<CronConfig>, n: int)
    ensures
        clean(review_prompt_checks(checks, tasks, n)) <==> clean(checks) && (forall|i: int|
            0 <= i < n ==> review_ok(#[trigger] tasks[i])),
    decreases n,
{
    broadcast use clean_noted;

    if n > 0 {
        clean_reviews(checks, tasks, n - 1);
        assert(tasks[n - 1] == tasks[n - 1]);
    }
}

proof fn clean_cron(checks: Seq<CheckView>, c: Config, f: Facts)
    ensures
        clean(cron_checks(checks, c, f)) <==> clean(checks) && cron_ok(c.cron@),
{
    broadcast use clean_noted;

    let tasks = c.cron@;
    let users = c.users@;
    let zone = opt_view(f.system_timezone);
    let n = tasks.len() as int;
    let names = cron_names(tasks);
    repeats_are_none(names, names, n);
    all_new_is_distinct(names);
    let a = cron_names_check(checks, tasks);
    assert(clean(a) <==> clean(checks) && distinct(names));
    let b = schedule_checks(a, tasks, n);
    clean_warnings(a, tasks, users, zone, n);
    let d = cron_user_checks(b, tasks, users, n);
    clean_warnings(b, tasks, users, zone, n);
    let e = cron_zone_checks(d, tasks, users, zone, n);
    clean_warnings(d, tasks, users, zone, n);
    let g = cron_channel_checks(e, tasks, n);
    clean_warnings(e, tasks, users, zone, n);
    let h = cron_target_checks(g, tasks, users, n);
    clean_warnings(g, tasks, users, zone, n);
    let i = cron_mode_checks(h, tasks, n);
    clean_warnings(h, tasks, users, zone, n);
    let j = cron_token_checks(i, tasks, n);
    clean_warnings(i, tasks, users, zone, n);
    clean_reviews(j, tasks, n);
}

/// The limits of the web tools.
pub open spec fn web_ok(web: WebConfig) -> bool {
    &&& web.search.provider matches Some(p) ==> p@ == "brave"@ || p@ == "perplexity"@ || p@
        == "grok"@
    &&& web.search.timeout_seconds != Some(0u64)
    &&& web.search.max_results matches Some(n) ==> 1 <= n <= 10
    &&& web.fetch.max_chars matches Some(n) ==> n >= 100
    &&& web.fetch.timeout_seconds != Some(0u64)
}

proof fn clean_web(checks: Seq<CheckView>, web: WebConfig)
    ensures
        clean(web_checks(checks, web)) <==> clean(checks) && web_ok(web),
{
    broadcast use clean_noted;

}

/// A web search passes its check with each of the three providers that there
/// are, and with no other.
pub proof fn search_passes_with_its_providers(
    checks: Seq<CheckView>,
    web: WebConfig,
    name: String,
)
    requires
        !any_failed(checks, Severity::Error),
        web.search.provider == Some(name),
        web.search.timeout_seconds is None,
        web.search.max_results is None,
        web.fetch.max_chars is None,
        web.fetch.timeout_seconds is None,
    ensures
        name@ == "brave"@ || name@ == "perplexity"@ || name@ == "grok"@ ==> !any_failed(
            web_checks(checks, web),
            Severity::Error,
        ),
        name@ != "brave"@ && name@ != "perplexity"@ && name@ != "grok"@ ==> any_failed(
            web_checks(checks, web),
            Severity::Error,
        ),
{
    clean_web(checks, web);
}

/// Whether a configuration can be used.
pub open spec fn sound_config(c: Config, f: Facts) -> bool {
    &&& agent_ok(c)
    &&& f.workspace is Ok
    &&& aliases_ok(c, f)
    &&& providers_ok(c, f)
    &&& memory_ok(c.memory, f.memory_db, views(f.env@))
    &&& prompt_ok(c.prompt)
    &&& subagents_ok(c.agent.subagents, f.subagent_model_ok, f.profile_models_ok@)
    &&& sandbox_ok(c, f.sandbox)
    &&& users_ok(c.users@, f.user_models@)
    &&& groups_ok(c.groups@, f.trigger_models@)
    &&& cron_ok(c.cron@)
    &&& web_ok(c.web)
}

/// A configuration that can be read passes its check exactly where it can be
/// used.
pub proof fn clean_report_means_sound(c: Config, f: Facts)
    requires
        f.fits(c),
    ensures
        !any_failed(full_report(c, f), Severity::Error) <==> sound_config(c, f),
{
    broadcast use clean_noted;

    let parsed = noted(
        Seq::empty(),
        "toml_parse"@,
        Severity::Error,
        true,
        "config syntax valid"@,
    );
    assert(clean(Seq::<CheckView>::empty()));
    let agent = agent_checks(parsed, c);
    assert(clean(agent) <==> agent_ok(c));
    let a = workspace_check(agent, f);
    assert(clean(a) <==> clean(agent) && f.workspace is Ok);
    let aliases = alias_checks(a, c, f);
    clean_aliases(a, c, f);
    let b = provider_config_checks(aliases, c, f);
    clean_provider_config(aliases, c, f);
    let memory = memory_checks(b, c, f);
    clean_memory(b, c, f);
    let prompt = prompt_checks(memory, c.prompt);
    clean_prompt(memory, c.prompt);
    let d = subagent_checks(prompt, c, f);
    clean_subagents(prompt, c, f);
    let contents = contents_checks(d, f);
    clean_contents(d, f);
    let sandbox = sandbox_checks(contents, c, f.sandbox);
    clean_sandbox(contents, c, f.sandbox);
    let e = user_checks(sandbox, c, f);
    clean_users(sandbox, c, f);
    let signal = signal_check(e, c, f);
    assert(clean(signal) == clean(e));
    let g = group_checks(signal, c, f);
    clean_groups(signal, c, f);
    let cron = cron_checks(g, c, f);
    clean_cron(g, c, f);
    let web = web_checks(cron, c.web);
    clean_web(cron, c.web);
    assert(clean(program_check(web, f.program)) == clean(web));
}

/// A configuration that passes its check still passes it with each of the three
/// search providers that there are, and with no other.
pub proof fn search_providers_keep_a_config_sound(c: Config, d: Config, f: Facts, name: String)
    requires
        f.fits(c),
        f.fits(d),
        !any_failed(full_report(c, f), Severity::Error),
        d == (Config {
            web: WebConfig {
                search: WebSearchConfig { provider: Some(name), ..c.web.search },
                ..c.web
            },
            ..c
        }),
    ensures
        !any_failed(full_report(d, f), Severity::Error) <==> name@ == "brave"@ || name@
            == "perplexity"@ || name@ == "grok"@,
{
    clean_report_means_sound(c, f);
    clean_report_means_sound(d, f);
}

/// A configuration is kept from the file unless it can be used: after its
/// check, the old one is copied or replaced exactly where the new one is sound.
pub proof fn only_sound_configs_are_written(w: WriteView, c: Config, f: Facts, exists: bool)
    requires
        f.fits(c),
    ensures
        after_validation(w, full_report(c, f), exists).phase != WritePhase::Done <==> sound_config(
            c,
            f,
        ),
{
    clean_report_means_sound(c, f);
}

} // verus!
