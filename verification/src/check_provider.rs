//! Checks of the configured model providers.
use vstd::prelude::*;

use crate::check_parts::{
    add_text, find_last, find_repeats, has_blank, is_web_address, last_place, repeats, some_blank,
    web_address, EffectiveModalities, ProviderFacts,
};
use crate::check_report::{noted, CheckReport, CheckView, Severity};
use crate::config::{
    ContextLimitConfig, HeaderConfig, ModelCapabilityConfig, ModelModality, ProviderConfig,
};
use crate::text::{
    after_prefix, cat2, cat3, cat4, cat5, contains_text, decimal, decimal_text, has_text,
    holds_text, is_blank, join_texts, joined, same_text, strip_prefix_text, trimmed, views,
};

verus! {

/// The providers that there is a client for.
pub open spec fn known_provider(name: Seq<char>) -> bool {
    name == "anthropic"@ || name == "gemini"@ || name == "openai"@ || name == "openai-compatible"@
        || name == "ollama"@
}

fn is_known_provider(name: &str) -> (r: bool)
    ensures
        r == known_provider(name@),
{
    same_text(name, "anthropic") || same_text(name, "gemini") || same_text(name, "openai")
        || same_text(name, "openai-compatible") || same_text(name, "ollama")
}

pub open spec fn name_check(
    checks: Seq<CheckView>,
    p: ProviderConfig,
    f: ProviderFacts,
    path: Seq<char>,
) -> Seq<CheckView> {
    let ok = known_provider(f.normalized_name@);
    noted(
        checks,
        "provider_known"@,
        Severity::Error,
        ok,
        if ok {
            path + ".name: "@ + p.name@
        } else {
            path + ".name '"@ + p.name@
                + "' is unsupported (supported: anthropic, gemini, openai, openai-compatible, ollama)"@
        },
    )
}

fn check_name(report: &mut CheckReport, p: &ProviderConfig, f: &ProviderFacts, path: &str)
    ensures
        final(report)@ == name_check(old(report)@, *p, *f, path@),
{
    let ok = is_known_provider(f.normalized_name.as_str());
    let message = if ok {
        cat3(path, ".name: ", p.name.as_str())
    } else {
        cat4(
            path,
            ".name '",
            p.name.as_str(),
            "' is unsupported (supported: anthropic, gemini, openai, openai-compatible, ollama)",
        )
    };
    report.note("provider_known", Severity::Error, ok, message);
}

pub open spec fn base_url_check(
    checks: Seq<CheckView>,
    p: ProviderConfig,
    f: ProviderFacts,
    path: Seq<char>,
) -> Seq<CheckView> {
    if f.normalized_name@ == "openai-compatible"@ {
        match p.base_url {
            Some(url) if web_address(url@) => noted(
                checks,
                "provider_base_url"@,
                Severity::Error,
                true,
                path + ".base_url: "@ + url@,
            ),
            _ => noted(
                checks,
                "provider_base_url"@,
                Severity::Error,
                false,
                path + " requires base_url with http:// or https:// for openai-compatible"@,
            ),
        }
    } else {
        match p.base_url {
            Some(url) => noted(
                checks,
                "provider_base_url"@,
                Severity::Error,
                web_address(url@),
                if web_address(url@) {
                    path + ".base_url: "@ + url@
                } else {
                    path + ".base_url must start with http:// or https://"@
                },
            ),
            None => checks,
        }
    }
}

fn check_base_url(report: &mut CheckReport, p: &ProviderConfig, f: &ProviderFacts, path: &str)
    ensures
        final(report)@ == base_url_check(old(report)@, *p, *f, path@),
{
    if same_text(f.normalized_name.as_str(), "openai-compatible") {
        if let Some(url) = &p.base_url {
            if is_web_address(url.as_str()) {
                report.note(
                    "provider_base_url",
                    Severity::Error,
                    true,
                    cat3(path, ".base_url: ", url.as_str()),
                );
                return;
            }
        }
        report.note(
            "provider_base_url",
            Severity::Error,
            false,
            cat2(path, " requires base_url with http:// or https:// for openai-compatible"),
        );
    } else if let Some(url) = &p.base_url {
        let valid = is_web_address(url.as_str());
        let message = if valid {
            cat3(path, ".base_url: ", url.as_str())
        } else {
            cat2(path, ".base_url must start with http:// or https://")
        };
        report.note("provider_base_url", Severity::Error, valid, message);
    }
}

pub open spec fn key_env_check(
    checks: Seq<CheckView>,
    p: ProviderConfig,
    path: Seq<char>,
) -> Seq<CheckView> {
    match p.api_key_env {
        Some(name) => noted(
            checks,
            "provider_api_key_env"@,
            Severity::Error,
            trimmed(name@).len() > 0,
            if trimmed(name@).len() > 0 {
                path + ".api_key_env: "@ + name@
            } else {
                path + ".api_key_env must not be empty"@
            },
        ),
        None => checks,
    }
}

fn check_key_env(report: &mut CheckReport, p: &ProviderConfig, path: &str)
    ensures
        final(report)@ == key_env_check(old(report)@, *p, path@),
{
    if let Some(name) = &p.api_key_env {
        let valid = !is_blank(name.as_str());
        let message = if valid {
            cat3(path, ".api_key_env: ", name.as_str())
        } else {
            cat2(path, ".api_key_env must not be empty")
        };
        report.note("provider_api_key_env", Severity::Error, valid, message);
    }
}

pub open spec fn stream_policy_check(
    checks: Seq<CheckView>,
    p: ProviderConfig,
    path: Seq<char>,
) -> Seq<CheckView> {
    noted(
        checks,
        "provider_stream_policy"@,
        Severity::Info,
        true,
        path + ".stream_policy: "@ + p.stream_policy.name(),
    )
}

fn check_stream_policy(report: &mut CheckReport, p: &ProviderConfig, path: &str)
    ensures
        final(report)@ == stream_policy_check(old(report)@, *p, path@),
{
    let message = cat3(path, ".stream_policy: ", p.stream_policy.text());
    report.note("provider_stream_policy", Severity::Info, true, message);
}

pub open spec fn summary_name(summary: Option<String>) -> Seq<char> {
    match summary {
        Some(s) => s@,
        None => "auto"@,
    }
}

pub open spec fn reasoning_check(
    checks: Seq<CheckView>,
    p: ProviderConfig,
    f: ProviderFacts,
    path: Seq<char>,
) -> Seq<CheckView> {
    match p.reasoning {
        None => noted(
            checks,
            "provider_reasoning"@,
            Severity::Info,
            true,
            path + ".reasoning: not configured"@,
        ),
        Some(reasoning) => if f.normalized_name@ != "openai"@ {
            noted(
                checks,
                "provider_reasoning"@,
                Severity::Error,
                false,
                path + ".reasoning is only supported for openai providers"@,
            )
        } else {
            match reasoning.effort {
                None => noted(
                    checks,
                    "provider_reasoning"@,
                    Severity::Error,
                    false,
                    path + ".reasoning.effort must be set when reasoning is configured"@,
                ),
                Some(effort) => noted(
                    checks,
                    "provider_reasoning"@,
                    Severity::Info,
                    true,
                    path + ".reasoning: effort="@ + effort@ + ", summary="@
                        + summary_name(reasoning.summary),
                ),
            }
        },
    }
}

fn check_reasoning(report: &mut CheckReport, p: &ProviderConfig, f: &ProviderFacts, path: &str)
    ensures
        final(report)@ == reasoning_check(old(report)@, *p, *f, path@),
{
    match &p.reasoning {
        None => {
            report.note(
                "provider_reasoning",
                Severity::Info,
                true,
                cat2(path, ".reasoning: not configured"),
            );
        },
        Some(reasoning) => if !same_text(f.normalized_name.as_str(), "openai") {
            report.note(
                "provider_reasoning",
                Severity::Error,
                false,
                cat2(path, ".reasoning is only supported for openai providers"),
            );
        } else {
            match &reasoning.effort {
                None => {
                    report.note(
                        "provider_reasoning",
                        Severity::Error,
                        false,
                        cat2(path, ".reasoning.effort must be set when reasoning is configured"),
                    );
                },
                Some(effort) => {
                    let summary: &str = match &reasoning.summary {
                        Some(s) => s.as_str(),
                        None => "auto",
                    };
                    report.note(
                        "provider_reasoning",
                        Severity::Info,
                        true,
                        cat5(path, ".reasoning: effort=", effort.as_str(), ", summary=", summary),
                    );
                },
            }
        },
    }
}

pub open spec fn models_check(
    checks: Seq<CheckView>,
    p: ProviderConfig,
    path: Seq<char>,
) -> Seq<CheckView> {
    let bad = some_blank(views(p.models@));
    noted(
        checks,
        "provider_models_valid"@,
        Severity::Error,
        !bad,
        if bad {
            path + ".models must not contain empty entries"@
        } else if p.models@.len() == 0 {
            path + ".models: using built-in defaults"@
        } else {
            path + ".models: "@ + decimal(p.models@.len() as nat) + " configured"@
        },
    )
}

fn check_models(report: &mut CheckReport, p: &ProviderConfig, path: &str)
    ensures
        final(report)@ == models_check(old(report)@, *p, path@),
{
    let bad = has_blank(&p.models);
    let message = if bad {
        cat2(path, ".models must not contain empty entries")
    } else if p.models.len() == 0 {
        cat2(path, ".models: using built-in defaults")
    } else {
        cat4(path, ".models: ", decimal_text(p.models.len() as u64).as_str(), " configured")
    };
    report.note("provider_models_valid", Severity::Error, !bad, message);
}

/// Whether a list is there and empty.
pub open spec fn given_empty(list: Option<Vec<ModelModality>>) -> bool {
    match list {
        Some(v) => v@.len() == 0,
        None => false,
    }
}

fn is_given_empty(list: &Option<Vec<ModelModality>>) -> (r: bool)
    ensures
        r == given_empty(*list),
{
    match list {
        Some(v) => v.len() == 0,
        None => false,
    }
}

/// What is wrong with the capabilities of one model.
pub open spec fn capability_faults(
    faults: Seq<Seq<char>>,
    c: ModelCapabilityConfig,
    key: Seq<char>,
    repeated: bool,
    m: EffectiveModalities,
) -> Seq<Seq<char>> {
    if key.len() == 0 {
        faults.push("empty model capability key"@)
    } else {
        let a = if repeated {
            faults.push("duplicate normalized capability key: "@ + c.model@)
        } else {
            faults
        };
        let b = if given_empty(c.input_modalities) {
            a.push(c.model@ + " input_modalities must not be empty"@)
        } else {
            a
        };
        let d = if given_empty(c.output_modalities) {
            b.push(c.model@ + " output_modalities must not be empty"@)
        } else {
            b
        };
        let e = if !m.text_input {
            d.push(c.model@ + " must support text input"@)
        } else {
            d
        };
        if !m.text_output && !m.image_output {
            e.push(c.model@ + " must support text or image output"@)
        } else {
            e
        }
    }
}

fn find_capability_faults(
    faults: &mut Vec<String>,
    c: &ModelCapabilityConfig,
    key: &str,
    repeated: bool,
    m: &EffectiveModalities,
)
    ensures
        views(final(faults)@) == capability_faults(views(old(faults)@), *c, key@, repeated, *m),
{
    if key.is_empty() {
        add_text(faults, "empty model capability key".to_owned());
        return;
    }
    if repeated {
        add_text(faults, cat2("duplicate normalized capability key: ", c.model.as_str()));
    }
    if is_given_empty(&c.input_modalities) {
        add_text(faults, cat2(c.model.as_str(), " input_modalities must not be empty"));
    }
    if is_given_empty(&c.output_modalities) {
        add_text(faults, cat2(c.model.as_str(), " output_modalities must not be empty"));
    }
    if !m.text_input {
        add_text(faults, cat2(c.model.as_str(), " must support text input"));
    }
    if !m.text_output && !m.image_output {
        add_text(faults, cat2(c.model.as_str(), " must support text or image output"));
    }
}

/// What is wrong with the capabilities of the first `n` models.
pub open spec fn all_capability_faults(
    c: Seq<ModelCapabilityConfig>,
    keys: Seq<Seq<char>>,
    m: Seq<EffectiveModalities>,
    n: int,
) -> Seq<Seq<char>>
    decreases n,
{
    if n <= 0 {
        Seq::empty()
    } else {
        capability_faults(
            all_capability_faults(c, keys, m, n - 1),
            c[n - 1],
            keys[n - 1],
            last_place(keys, keys[n - 1], n - 1) is Some,
            m[n - 1],
        )
    }
}

pub open spec fn capabilities_check(
    checks: Seq<CheckView>,
    p: ProviderConfig,
    f: ProviderFacts,
    path: Seq<char>,
) -> Seq<CheckView> {
    let faults = all_capability_faults(
        p.model_capabilities@,
        views(f.capability_keys@),
        f.modalities@,
        p.model_capabilities@.len() as int,
    );
    noted(
        checks,
        "provider_model_capabilities"@,
        Severity::Error,
        faults.len() == 0,
        if faults.len() == 0 {
            path + ".model_capabilities: "@ + decimal(p.model_capabilities@.len() as nat)
                + " configured"@
        } else {
            path + ".model_capabilities contains invalid entries: "@ + joined(faults, ", "@)
        },
    )
}

fn check_capabilities(report: &mut CheckReport, p: &ProviderConfig, f: &ProviderFacts, path: &str)
    requires
        f.fits(*p),
    ensures
        final(report)@ == capabilities_check(old(report)@, *p, *f, path@),
{
    let mut faults: Vec<String> = Vec::new();
    assert(views(faults@) =~= Seq::<Seq<char>>::empty());
    for i in 0..p.model_capabilities.len()
        invariant
            f.fits(*p),
            views(faults@) == all_capability_faults(
                p.model_capabilities@,
                views(f.capability_keys@),
                f.modalities@,
                i as int,
            ),
    {
        assert(views(f.capability_keys@)[i as int] == f.capability_keys@[i as int]@);
        let key = f.capability_keys[i].as_str();
        let repeated = find_last(&f.capability_keys, key, i).is_some();
        find_capability_faults(
            &mut faults,
            &p.model_capabilities[i],
            key,
            repeated,
            &f.modalities[i],
        );
    }
    let ok = faults.len() == 0;
    let message = if ok {
        cat4(
            path,
            ".model_capabilities: ",
            decimal_text(p.model_capabilities.len() as u64).as_str(),
            " configured",
        )
    } else {
        let list = join_texts(&faults, ", ");
        cat3(path, ".model_capabilities contains invalid entries: ", list.as_str())
    };
    report.note("provider_model_capabilities", Severity::Error, ok, message);
}

pub open spec fn unique_models_check(
    checks: Seq<CheckView>,
    p: ProviderConfig,
    f: ProviderFacts,
    path: Seq<char>,
) -> Seq<CheckView> {
    let twice = repeats(views(f.model_keys@), views(p.models@), false, p.models@.len() as int);
    if p.models@.len() == 0 {
        checks
    } else {
        noted(
            checks,
            "provider_models_unique"@,
            Severity::Warning,
            twice.len() == 0,
            if twice.len() == 0 {
                path + ".models: no duplicates"@
            } else {
                path + ".models contains duplicates: "@ + joined(twice, ", "@)
            },
        )
    }
}

fn check_unique_models(report: &mut CheckReport, p: &ProviderConfig, f: &ProviderFacts, path: &str)
    requires
        f.fits(*p),
    ensures
        final(report)@ == unique_models_check(old(report)@, *p, *f, path@),
{
    if p.models.len() == 0 {
        return;
    }
    let twice = find_repeats(&f.model_keys, &p.models, false);
    let ok = twice.len() == 0;
    let message = if ok {
        cat2(path, ".models: no duplicates")
    } else {
        let list = join_texts(&twice, ", ");
        cat3(path, ".models contains duplicates: ", list.as_str())
    };
    report.note("provider_models_unique", Severity::Warning, ok, message);
}

/// What is wrong with the first `n` context limits.
pub open spec fn limit_faults(
    l: Seq<ContextLimitConfig>,
    keys: Seq<Seq<char>>,
    n: int,
) -> Seq<Seq<char>>
    decreases n,
{
    if n <= 0 {
        Seq::empty()
    } else {
        let faults = limit_faults(l, keys, n - 1);
        if keys[n - 1].len() == 0 {
            faults.push("empty model key"@)
        } else {
            let a = if l[n - 1].limit == 0 {
                faults.push(l[n - 1].model@ + " => 0"@)
            } else {
                faults
            };
            if last_place(keys, keys[n - 1], n - 1) is Some {
                a.push("duplicate normalized key: "@ + l[n - 1].model@)
            } else {
                a
            }
        }
    }
}

pub open spec fn limits_check(
    checks: Seq<CheckView>,
    p: ProviderConfig,
    f: ProviderFacts,
    path: Seq<char>,
) -> Seq<CheckView> {
    let faults = limit_faults(
        p.model_context_limits@,
        views(f.limit_keys@),
        p.model_context_limits@.len() as int,
    );
    noted(
        checks,
        "provider_model_context_limits"@,
        Severity::Error,
        faults.len() == 0,
        if faults.len() == 0 {
            path + ".model_context_limits: "@ + decimal(p.model_context_limits@.len() as nat)
                + " configured"@
        } else {
            path + ".model_context_limits contains invalid entries: "@ + joined(faults, ", "@)
        },
    )
}

fn check_limits(report: &mut CheckReport, p: &ProviderConfig, f: &ProviderFacts, path: &str)
    requires
        f.fits(*p),
    ensures
        final(report)@ == limits_check(old(report)@, *p, *f, path@),
{
    let mut faults: Vec<String> = Vec::new();
    assert(views(faults@) =~= Seq::<Seq<char>>::empty());
    for i in 0..p.model_context_limits.len()
        invariant
            f.fits(*p),
            views(faults@) == limit_faults(
                p.model_context_limits@,
                views(f.limit_keys@),
                i as int,
            ),
    {
        assert(views(f.limit_keys@)[i as int] == f.limit_keys@[i as int]@);
        let key = f.limit_keys[i].as_str();
        let entry = &p.model_context_limits[i];
        if key.is_empty() {
            add_text(&mut faults, "empty model key".to_owned());
        } else {
            if entry.limit == 0 {
                add_text(&mut faults, cat2(entry.model.as_str(), " => 0"));
            }
            if find_last(&f.limit_keys, key, i).is_some() {
                add_text(&mut faults, cat2("duplicate normalized key: ", entry.model.as_str()));
            }
        }
    }
    let ok = faults.len() == 0;
    let message = if ok {
        cat4(
            path,
            ".model_context_limits: ",
            decimal_text(p.model_context_limits.len() as u64).as_str(),
            " configured",
        )
    } else {
        let list = join_texts(&faults, ", ");
        cat3(path, ".model_context_limits contains invalid entries: ", list.as_str())
    };
    report.note("provider_model_context_limits", Severity::Error, ok, message);
}

/// Whether a key entry names an environment variable that is set.
pub open spec fn key_entry_ok(entry: Seq<char>, env: Seq<Seq<char>>) -> bool {
    match after_prefix(entry, "env:"@) {
        Some(name) => env.contains(name),
        None => false,
    }
}

/// What is reported of the first `n` key entries.
pub open spec fn key_entry_checks(
    checks: Seq<CheckView>,
    entries: Seq<Seq<char>>,
    path: Seq<char>,
    env: Seq<Seq<char>>,
    n: int,
) -> Seq<CheckView>
    decreases n,
{
    if n <= 0 {
        checks
    } else {
        let before = key_entry_checks(checks, entries, path, env, n - 1);
        let entry = entries[n - 1];
        match after_prefix(entry, "env:"@) {
            Some(name) => if env.contains(name) {
                before
            } else {
                noted(
                    before,
                    "api_key_present"@,
                    Severity::Error,
                    false,
                    name + " environment variable not set (from "@ + path + ".api_keys entry '"@
                        + entry + "')"@,
                )
            },
            None => noted(
                before,
                "api_key_present"@,
                Severity::Error,
                false,
                path + ".api_keys entry '"@ + entry
                    + "' must use 'env:' prefix (e.g. env:ANTHROPIC_API_KEY)"@,
            ),
        }
    }
}

pub open spec fn all_keys_ok(entries: Seq<Seq<char>>, env: Seq<Seq<char>>, n: int) -> bool {
    forall|i: int| 0 <= i < n ==> key_entry_ok(#[trigger] entries[i], env)
}

pub open spec fn key_list_checks(
    checks: Seq<CheckView>,
    p: ProviderConfig,
    path: Seq<char>,
    env: Seq<Seq<char>>,
) -> Seq<CheckView> {
    let n = p.api_keys@.len() as int;
    let entries = key_entry_checks(checks, views(p.api_keys@), path, env, n);
    if all_keys_ok(views(p.api_keys@), env, n) {
        noted(
            entries,
            "api_key_present"@,
            Severity::Info,
            true,
            path + ": "@ + decimal(p.api_keys@.len() as nat)
                + " API keys configured (rotation enabled)"@,
        )
    } else {
        entries
    }
}

fn check_key_list(report: &mut CheckReport, p: &ProviderConfig, path: &str, env: &Vec<String>)
    ensures
        final(report)@ == key_list_checks(old(report)@, *p, path@, views(env@)),
{
    let mut all_ok = true;
    for i in 0..p.api_keys.len()
        invariant
            report@ == key_entry_checks(
                old(report)@,
                views(p.api_keys@),
                path@,
                views(env@),
                i as int,
            ),
            all_ok == all_keys_ok(views(p.api_keys@), views(env@), i as int),
    {
        let entry = p.api_keys[i].as_str();
        assert(views(p.api_keys@)[i as int] == entry@);
        let ghost ok = key_entry_ok(entry@, views(env@));
        match strip_prefix_text(entry, "env:") {
            Some(name) => if !holds_text(env, name.as_str()) {
                report.note(
                    "api_key_present",
                    Severity::Error,
                    false,
                    cat2(
                        cat5(
                            name.as_str(),
                            " environment variable not set (from ",
                            path,
                            ".api_keys entry '",
                            entry,
                        ).as_str(),
                        "')",
                    ),
                );
                all_ok = false;
            },
            None => {
                report.note(
                    "api_key_present",
                    Severity::Error,
                    false,
                    cat4(
                        path,
                        ".api_keys entry '",
                        entry,
                        "' must use 'env:' prefix (e.g. env:ANTHROPIC_API_KEY)",
                    ),
                );
                all_ok = false;
            },
        }
        assert(!ok ==> !key_entry_ok(views(p.api_keys@)[i as int], views(env@)));
    }
    if all_ok {
        report.note(
            "api_key_present",
            Severity::Info,
            true,
            cat4(
                path,
                ": ",
                decimal_text(p.api_keys.len() as u64).as_str(),
                " API keys configured (rotation enabled)",
            ),
        );
    }
}

/// Whether a provider cannot be used without a key.
pub open spec fn key_required(p: ProviderConfig, f: ProviderFacts) -> bool {
    let name = f.normalized_name@;
    name == "anthropic"@ || name == "gemini"@ || name == "openai"@ || p.api_key_env is Some
}

pub open spec fn single_key_check(
    checks: Seq<CheckView>,
    p: ProviderConfig,
    f: ProviderFacts,
    path: Seq<char>,
    env: Seq<Seq<char>>,
) -> Seq<CheckView> {
    match f.api_key_env {
        Some(name) => {
            let set = env.contains(name@);
            noted(
                checks,
                "api_key_present"@,
                if key_required(p, f) {
                    Severity::Error
                } else {
                    Severity::Info
                },
                set || !key_required(p, f),
                if set {
                    path + ": "@ + name@ + " present"@
                } else if key_required(p, f) {
                    path + ": "@ + name@ + " environment variable not set"@
                } else {
                    path + ": "@ + name@ + " environment variable not set (optional)"@
                },
            )
        },
        None => noted(
            checks,
            "api_key_present"@,
            Severity::Info,
            true,
            path + ": provider authentication not required"@,
        ),
    }
}

fn check_single_key(
    report: &mut CheckReport,
    p: &ProviderConfig,
    f: &ProviderFacts,
    path: &str,
    env: &Vec<String>,
)
    ensures
        final(report)@ == single_key_check(old(report)@, *p, *f, path@, views(env@)),
{
    let provider = f.normalized_name.as_str();
    let required = same_text(provider, "anthropic") || same_text(provider, "gemini") || same_text(
        provider,
        "openai",
    ) || p.api_key_env.is_some();
    match &f.api_key_env {
        Some(name) => {
            let set = holds_text(env, name.as_str());
            let severity = if required {
                Severity::Error
            } else {
                Severity::Info
            };
            let message = if set {
                cat4(path, ": ", name.as_str(), " present")
            } else if required {
                cat4(path, ": ", name.as_str(), " environment variable not set")
            } else {
                cat4(path, ": ", name.as_str(), " environment variable not set (optional)")
            };
            report.note("api_key_present", severity, set || !required, message);
        },
        None => {
            report.note(
                "api_key_present",
                Severity::Info,
                true,
                cat2(path, ": provider authentication not required"),
            );
        },
    }
}

/// Whether a text stays on one line.
pub open spec fn one_line(s: Seq<char>) -> bool {
    !has_text(s, "\n"@) && !has_text(s, "\r"@)
}

pub open spec fn header_ok(h: HeaderConfig) -> bool {
    trimmed(h.name@).len() > 0 && one_line(h.name@) && one_line(h.value@)
}

fn is_header_ok(h: &HeaderConfig) -> (r: bool)
    ensures
        r == header_ok(*h),
{
    !is_blank(h.name.as_str()) && !contains_text(h.name.as_str(), "\n") && !contains_text(
        h.name.as_str(),
        "\r",
    ) && !contains_text(h.value.as_str(), "\n") && !contains_text(h.value.as_str(), "\r")
}

/// What is reported of the first `n` headers.
pub open spec fn header_entry_checks(
    checks: Seq<CheckView>,
    headers: Seq<HeaderConfig>,
    path: Seq<char>,
    n: int,
) -> Seq<CheckView>
    decreases n,
{
    if n <= 0 {
        checks
    } else {
        let before = header_entry_checks(checks, headers, path, n - 1);
        if header_ok(headers[n - 1]) {
            before
        } else {
            noted(
                before,
                "provider_extra_headers"@,
                Severity::Error,
                false,
                path + ".extra_headers contains invalid entry '"@ + headers[n - 1].name@ + "'"@,
            )
        }
    }
}

pub open spec fn all_headers_ok(headers: Seq<HeaderConfig>, n: int) -> bool {
    forall|i: int| 0 <= i < n ==> header_ok(#[trigger] headers[i])
}

pub open spec fn header_checks(
    checks: Seq<CheckView>,
    p: ProviderConfig,
    path: Seq<char>,
) -> Seq<CheckView> {
    let n = p.extra_headers@.len() as int;
    let entries = header_entry_checks(checks, p.extra_headers@, path, n);
    if n > 0 && all_headers_ok(p.extra_headers@, n) {
        noted(
            entries,
            "provider_extra_headers"@,
            Severity::Info,
            true,
            path + ".extra_headers: "@ + decimal(p.extra_headers@.len() as nat) + " configured"@,
        )
    } else {
        entries
    }
}

fn check_headers(report: &mut CheckReport, p: &ProviderConfig, path: &str)
    ensures
        final(report)@ == header_checks(old(report)@, *p, path@),
{
    let mut all_ok = true;
    for i in 0..p.extra_headers.len()
        invariant
            report@ == header_entry_checks(old(report)@, p.extra_headers@, path@, i as int),
            all_ok == all_headers_ok(p.extra_headers@, i as int),
    {
        let header = &p.extra_headers[i];
        if !is_header_ok(header) {
            report.note(
                "provider_extra_headers",
                Severity::Error,
                false,
                cat4(path, ".extra_headers contains invalid entry '", header.name.as_str(), "'"),
            );
            all_ok = false;
            assert(!header_ok(p.extra_headers@[i as int]));
        }
    }
    if all_ok && p.extra_headers.len() > 0 {
        report.note(
            "provider_extra_headers",
            Severity::Info,
            true,
            cat4(
                path,
                ".extra_headers: ",
                decimal_text(p.extra_headers.len() as u64).as_str(),
                " configured",
            ),
        );
    }
}

/// What is reported of one provider, but for its keys and headers.
pub open spec fn provider_settings_checks(
    checks: Seq<CheckView>,
    p: ProviderConfig,
    f: ProviderFacts,
    path: Seq<char>,
) -> Seq<CheckView> {
    let a = name_check(checks, p, f, path);
    let b = base_url_check(a, p, f, path);
    let c = key_env_check(b, p, path);
    let d = stream_policy_check(c, p, path);
    let e = reasoning_check(d, p, f, path);
    let g = models_check(e, p, path);
    let h = capabilities_check(g, p, f, path);
    let i = unique_models_check(h, p, f, path);
    limits_check(i, p, f, path)
}

/// What is reported of one provider.
pub open spec fn provider_entry_checks(
    checks: Seq<CheckView>,
    p: ProviderConfig,
    f: ProviderFacts,
    path: Seq<char>,
    env: Seq<Seq<char>>,
) -> Seq<CheckView> {
    let settings = provider_settings_checks(checks, p, f, path);
    if p.api_keys@.len() > 0 {
        key_list_checks(settings, p, path, env)
    } else {
        header_checks(single_key_check(settings, p, f, path, env), p, path)
    }
}

/// Checks one provider.
pub fn check_provider_entry(
    report: &mut CheckReport,
    p: &ProviderConfig,
    f: &ProviderFacts,
    path: &str,
    env: &Vec<String>,
)
    requires
        f.fits(*p),
    ensures
        final(report)@ == provider_entry_checks(old(report)@, *p, *f, path@, views(env@)),
{
    check_name(report, p, f, path);
    check_base_url(report, p, f, path);
    check_key_env(report, p, path);
    check_stream_policy(report, p, path);
    check_reasoning(report, p, f, path);
    check_models(report, p, path);
    check_capabilities(report, p, f, path);
    check_unique_models(report, p, f, path);
    check_limits(report, p, f, path);
    if p.api_keys.len() > 0 {
        check_key_list(report, p, path, env);
    } else {
        check_single_key(report, p, f, path, env);
        check_headers(report, p, path);
    }
}

} // verus!
