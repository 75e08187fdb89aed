//! Checks of the providers together, of the agent's model and of the aliases.
use vstd::prelude::*;

use crate::check_parts::{
    add_text, describe_model, find_last, last_place, model_line, AliasFacts, Facts, OfferedModel,
    ProviderFacts,
};
use crate::check_provider::{check_provider_entry, provider_entry_checks};
use crate::check_report::{noted, CheckReport, CheckView, Severity};
use crate::config::{AliasConfig, Config, ProviderConfig};
use crate::text::{
    cat2, cat3, cat5, decimal, decimal_text, holds_text, is_blank, join_texts, joined, trimmed,
    views,
};

verus! {

/// The place of a provider in the configuration.
pub open spec fn provider_path(i: int) -> Seq<char> {
    "providers["@ + decimal(i as nat) + "]"@
}

/// What is reported of the first `n` providers.
pub open spec fn each_provider_checks(
    checks: Seq<CheckView>,
    p: Seq<ProviderConfig>,
    f: Seq<ProviderFacts>,
    env: Seq<Seq<char>>,
    n: int,
) -> Seq<CheckView>
    decreases n,
{
    if n <= 0 {
        checks
    } else {
        provider_entry_checks(
            each_provider_checks(checks, p, f, env, n - 1),
            p[n - 1],
            f[n - 1],
            provider_path(n - 1),
            env,
        )
    }
}

fn check_each_provider(
    report: &mut CheckReport,
    p: &Vec<ProviderConfig>,
    f: &Vec<ProviderFacts>,
    env: &Vec<String>,
)
    requires
        f@.len() == p@.len(),
        forall|i: int| 0 <= i < p@.len() ==> (#[trigger] f@[i]).fits(p@[i]),
    ensures
        final(report)@ == each_provider_checks(
            old(report)@,
            p@,
            f@,
            views(env@),
            p@.len() as int,
        ),
{
    for i in 0..p.len()
        invariant
            f@.len() == p@.len(),
            forall|i: int| 0 <= i < p@.len() ==> (#[trigger] f@[i]).fits(p@[i]),
            report@ == each_provider_checks(old(report)@, p@, f@, views(env@), i as int),
    {
        let path = cat3("providers[", decimal_text(i as u64).as_str(), "]");
        check_provider_entry(report, &p[i], &f[i], path.as_str(), env);
    }
}

/// The keys and the places of the models that the first `n` of a provider's
/// models add to a list of them.
pub open spec fn with_offers(
    list: (Seq<Seq<char>>, Seq<Seq<char>>),
    models: Seq<OfferedModel>,
    i: int,
    n: int,
) -> (Seq<Seq<char>>, Seq<Seq<char>>)
    decreases n,
{
    if n <= 0 {
        list
    } else {
        let before = with_offers(list, models, i, n - 1);
        let m = models[n - 1];
        if m.key@.len() == 0 {
            before
        } else {
            (before.0.push(m.key@), before.1.push(provider_path(i) + " -> "@ + m.id@))
        }
    }
}

/// The keys and the places of all models of the first `n` providers.
pub open spec fn offers(f: Seq<ProviderFacts>, n: int) -> (Seq<Seq<char>>, Seq<Seq<char>>)
    decreases n,
{
    if n <= 0 {
        (Seq::empty(), Seq::empty())
    } else {
        with_offers(offers(f, n - 1), f[n - 1].offered@, n - 1, f[n - 1].offered@.len() as int)
    }
}

fn collect_offers(f: &Vec<ProviderFacts>) -> (r: (Vec<String>, Vec<String>))
    ensures
        views(r.0@) == offers(f@, f@.len() as int).0,
        views(r.1@) == offers(f@, f@.len() as int).1,
        r.0@.len() == r.1@.len(),
{
    let mut keys: Vec<String> = Vec::new();
    let mut labels: Vec<String> = Vec::new();
    assert(views(keys@) =~= Seq::<Seq<char>>::empty());
    assert(views(labels@) =~= Seq::<Seq<char>>::empty());
    for i in 0..f.len()
        invariant
            keys@.len() == labels@.len(),
            views(keys@) == offers(f@, i as int).0,
            views(labels@) == offers(f@, i as int).1,
    {
        let models = &f[i].offered;
        let ghost start = offers(f@, i as int);
        for j in 0..models.len()
            invariant
                keys@.len() == labels@.len(),
                views(keys@) == with_offers(start, models@, i as int, j as int).0,
                views(labels@) == with_offers(start, models@, i as int, j as int).1,
        {
            let m = &models[j];
            if !m.key.as_str().is_empty() {
                let path = cat3("providers[", decimal_text(i as u64).as_str(), "]");
                let label = cat3(path.as_str(), " -> ", m.id.as_str());
                let ghost was = (keys@, labels@);
                keys.push(m.key.clone());
                labels.push(label);
                assert(views(keys@) =~= views(was.0).push(m.key@));
                assert(views(labels@) =~= views(was.1).push(label@));
            }
        }
    }
    (keys, labels)
}

/// The pairs of places, among the first `n`, that offer one model.
pub open spec fn double_offers(
    keys: Seq<Seq<char>>,
    labels: Seq<Seq<char>>,
    n: int,
) -> Seq<Seq<char>>
    decreases n,
{
    if n <= 0 {
        Seq::empty()
    } else {
        let before = double_offers(keys, labels, n - 1);
        match last_place(keys, keys[n - 1], n - 1) {
            Some(k) => before.push(labels[k] + ", "@ + labels[n - 1]),
            None => before,
        }
    }
}

fn find_double_offers(keys: &Vec<String>, labels: &Vec<String>) -> (r: Vec<String>)
    requires
        keys@.len() == labels@.len(),
    ensures
        views(r@) == double_offers(views(keys@), views(labels@), keys@.len() as int),
{
    let mut out: Vec<String> = Vec::new();
    assert(views(out@) =~= Seq::<Seq<char>>::empty());
    for i in 0..keys.len()
        invariant
            keys@.len() == labels@.len(),
            views(out@) == double_offers(views(keys@), views(labels@), i as int),
    {
        assert(views(keys@)[i as int] == keys@[i as int]@);
        assert(views(labels@)[i as int] == labels@[i as int]@);
        if let Some(k) = find_last(keys, keys[i].as_str(), i) {
            assert(views(labels@)[k as int] == labels@[k as int]@);
            let both = cat3(labels[k].as_str(), ", ", labels[i].as_str());
            let ghost was = out@;
            out.push(both);
            assert(views(out@) =~= views(was).push(both@));
        }
    }
    out
}

pub open spec fn unique_offers_check(checks: Seq<CheckView>, f: Seq<ProviderFacts>) -> Seq<
    CheckView,
> {
    let all = offers(f, f.len() as int);
    let twice = double_offers(all.0, all.1, all.0.len() as int);
    noted(
        checks,
        "providers_models_unique"@,
        Severity::Error,
        twice.len() == 0,
        if twice.len() == 0 {
            "providers: all model ids are unique across providers"@
        } else {
            "duplicate model ids across providers: "@ + joined(twice, "; "@)
        },
    )
}

fn check_unique_offers(report: &mut CheckReport, f: &Vec<ProviderFacts>)
    ensures
        final(report)@ == unique_offers_check(old(report)@, f@),
{
    let (keys, labels) = collect_offers(f);
    let twice = find_double_offers(&keys, &labels);
    let ok = twice.len() == 0;
    let message = if ok {
        "providers: all model ids are unique across providers".to_owned()
    } else {
        let list = join_texts(&twice, "; ");
        cat2("duplicate model ids across providers: ", list.as_str())
    };
    report.note("providers_models_unique", Severity::Error, ok, message);
}

pub open spec fn agent_model_checks(checks: Seq<CheckView>, c: Config, f: Facts) -> Seq<CheckView> {
    let a = noted(
        checks,
        "agent_model_provider"@,
        Severity::Error,
        f.agent_model.found is Some,
        model_line("agent.model"@, c.agent.model@, f.agent_model),
    );
    noted(
        a,
        "agent_model_main_safe"@,
        Severity::Error,
        f.agent_model_visible,
        if f.agent_model_visible {
            "agent.model '"@ + c.agent.model@ + "' is available for main sessions"@
        } else {
            "agent.model '"@ + c.agent.model@
                + "' is hidden or subagent-only; choose a main-session model and keep specialist models in subagent profiles"@
        },
    )
}

fn check_agent_model(report: &mut CheckReport, c: &Config, f: &Facts)
    ensures
        final(report)@ == agent_model_checks(old(report)@, *c, *f),
{
    let line = describe_model("agent.model", c.agent.model.as_str(), &f.agent_model);
    report.note("agent_model_provider", Severity::Error, f.agent_model.found.is_some(), line);
    let message = if f.agent_model_visible {
        cat3("agent.model '", c.agent.model.as_str(), "' is available for main sessions")
    } else {
        cat3(
            "agent.model '",
            c.agent.model.as_str(),
            "' is hidden or subagent-only; choose a main-session model and keep specialist models in subagent profiles",
        )
    };
    report.note("agent_model_main_safe", Severity::Error, f.agent_model_visible, message);
}

/// What is reported of the providers: of the one there is, or where several
/// are listed of each, of all together and of the agent's model.
pub open spec fn provider_config_checks(checks: Seq<CheckView>, c: Config, f: Facts) -> Seq<
    CheckView,
> {
    if c.providers@.len() == 0 {
        provider_entry_checks(checks, c.provider, f.provider, "provider"@, views(f.env@))
    } else {
        let a = noted(
            checks,
            "providers_configured"@,
            Severity::Info,
            true,
            "providers: "@ + decimal(c.providers@.len() as nat) + " configured"@,
        );
        let b = each_provider_checks(
            a,
            c.providers@,
            f.providers@,
            views(f.env@),
            c.providers@.len() as int,
        );
        agent_model_checks(unique_offers_check(b, f.providers@), c, f)
    }
}

/// Checks the providers.
pub fn check_provider_config(report: &mut CheckReport, c: &Config, f: &Facts)
    requires
        f.fits(*c),
    ensures
        final(report)@ == provider_config_checks(old(report)@, *c, *f),
{
    if c.providers.len() == 0 {
        check_provider_entry(report, &c.provider, &f.provider, "provider", &f.env);
        return;
    }
    let message = cat3(
        "providers: ",
        decimal_text(c.providers.len() as u64).as_str(),
        " configured",
    );
    report.note("providers_configured", Severity::Info, true, message);
    check_each_provider(report, &c.providers, &f.providers, &f.env);
    check_unique_offers(report, &f.providers);
    check_agent_model(report, c, f);
}

pub open spec fn alias_keys(f: Seq<AliasFacts>) -> Seq<Seq<char>> {
    f.map(|i: int, a: AliasFacts| a.alias_key@)
}

fn collect_alias_keys(f: &Vec<AliasFacts>) -> (r: Vec<String>)
    ensures
        views(r@) == alias_keys(f@),
{
    let mut out: Vec<String> = Vec::new();
    for i in 0..f.len()
        invariant
            out@.len() == i,
            forall|j: int| 0 <= j < i ==> (#[trigger] out@[j])@ == f@[j].alias_key@,
    {
        out.push(f[i].alias_key.clone());
    }
    assert(views(out@) =~= alias_keys(f@));
    out
}

/// What is wrong with the first `n` aliases, each seen with those before it.
pub open spec fn alias_form_faults(
    a: Seq<AliasConfig>,
    keys: Seq<Seq<char>>,
    n: int,
) -> Seq<Seq<char>>
    decreases n,
{
    if n <= 0 {
        Seq::empty()
    } else {
        let before = alias_form_faults(a, keys, n - 1);
        let entry = a[n - 1];
        if keys[n - 1].len() == 0 {
            before.push("empty alias key"@)
        } else {
            let blank = if trimmed(entry.target@).len() == 0 {
                before.push("alias '"@ + entry.alias@ + "' has an empty target"@)
            } else {
                before
            };
            match last_place(keys, keys[n - 1], n - 1) {
                Some(k) => blank.push(
                    "duplicate normalized alias keys: '"@ + a[k].alias@ + "' and '"@ + entry.alias@
                        + "'"@,
                ),
                None => blank,
            }
        }
    }
}

fn find_alias_form_faults(a: &Vec<AliasConfig>, keys: &Vec<String>) -> (r: Vec<String>)
    requires
        keys@.len() == a@.len(),
    ensures
        views(r@) == alias_form_faults(a@, views(keys@), a@.len() as int),
{
    let mut out: Vec<String> = Vec::new();
    assert(views(out@) =~= Seq::<Seq<char>>::empty());
    for i in 0..a.len()
        invariant
            keys@.len() == a@.len(),
            views(out@) == alias_form_faults(a@, views(keys@), i as int),
    {
        assert(views(keys@)[i as int] == keys@[i as int]@);
        let entry = &a[i];
        if keys[i].as_str().is_empty() {
            add_text(&mut out, "empty alias key".to_owned());
        } else {
            if is_blank(entry.target.as_str()) {
                add_text(&mut out, cat3("alias '", entry.alias.as_str(), "' has an empty target"));
            }
            if let Some(k) = find_last(keys, keys[i].as_str(), i) {
                add_text(
                    &mut out,
                    cat5(
                        "duplicate normalized alias keys: '",
                        a[k].alias.as_str(),
                        "' and '",
                        entry.alias.as_str(),
                        "'",
                    ),
                );
            }
        }
    }
    out
}

/// What else is wrong with the first `n` aliases, each seen with all models and
/// all aliases.
pub open spec fn alias_target_faults(
    faults: Seq<Seq<char>>,
    a: Seq<AliasConfig>,
    f: Seq<AliasFacts>,
    model_keys: Seq<Seq<char>>,
    n: int,
) -> Seq<Seq<char>>
    decreases n,
{
    if n <= 0 {
        faults
    } else {
        let before = alias_target_faults(faults, a, f, model_keys, n - 1);
        let entry = a[n - 1];
        let fact = f[n - 1];
        if fact.alias_key@.len() == 0 {
            before
        } else {
            let hidden = if model_keys.contains(fact.alias_key@) {
                before.push("alias '"@ + entry.alias@ + "' collides with a configured model id"@)
            } else {
                before
            };
            if fact.target_key@.len() > 0 && alias_keys(f).contains(fact.target_key@) {
                hidden.push(
                    "alias '"@ + entry.alias@ + "' points to another alias target '"@
                        + entry.target@ + "' — alias chaining is not supported"@,
                )
            } else if !fact.target_resolves {
                hidden.push(
                    "alias '"@ + entry.alias@ + "' target '"@ + entry.target@
                        + "' does not resolve to a configured model"@,
                )
            } else {
                hidden
            }
        }
    }
}

fn find_alias_target_faults(
    out: &mut Vec<String>,
    a: &Vec<AliasConfig>,
    f: &Vec<AliasFacts>,
    keys: &Vec<String>,
    model_keys: &Vec<String>,
)
    requires
        f@.len() == a@.len(),
        views(keys@) == alias_keys(f@),
    ensures
        views(final(out)@) == alias_target_faults(
            views(old(out)@),
            a@,
            f@,
            views(model_keys@),
            a@.len() as int,
        ),
{
    for i in 0..a.len()
        invariant
            f@.len() == a@.len(),
            views(keys@) == alias_keys(f@),
            views(out@) == alias_target_faults(views(old(out)@), a@, f@, views(model_keys@), i as int),
    {
        let entry = &a[i];
        let fact = &f[i];
        if !fact.alias_key.as_str().is_empty() {
            if holds_text(model_keys, fact.alias_key.as_str()) {
                add_text(out, cat3(
                    "alias '",
                    entry.alias.as_str(),
                    "' collides with a configured model id",
                ));
            }
            if !fact.target_key.as_str().is_empty() && holds_text(keys, fact.target_key.as_str()) {
                add_text(
                    out,
                    cat5(
                        "alias '",
                        entry.alias.as_str(),
                        "' points to another alias target '",
                        entry.target.as_str(),
                        "' — alias chaining is not supported",
                    ),
                );
            } else if !fact.target_resolves {
                add_text(
                    out,
                    cat5(
                        "alias '",
                        entry.alias.as_str(),
                        "' target '",
                        entry.target.as_str(),
                        "' does not resolve to a configured model",
                    ),
                );
            }
        }
    }
}

pub open spec fn alias_faults(c: Config, f: Facts) -> Seq<Seq<char>> {
    let n = c.aliases@.len() as int;
    alias_target_faults(
        alias_form_faults(c.aliases@, alias_keys(f.aliases@), n),
        c.aliases@,
        f.aliases@,
        views(f.real_model_keys@),
        n,
    )
}

/// What is reported of the aliases.
pub open spec fn alias_checks(checks: Seq<CheckView>, c: Config, f: Facts) -> Seq<CheckView> {
    let faults = alias_faults(c, f);
    if c.aliases@.len() == 0 {
        checks
    } else {
        noted(
            checks,
            "model_aliases"@,
            Severity::Error,
            faults.len() == 0,
            if faults.len() == 0 {
                "models.aliases: "@ + decimal(c.aliases@.len() as nat) + " configured"@
            } else {
                "models.aliases invalid: "@ + joined(faults, "; "@)
            },
        )
    }
}

/// Checks the aliases.
pub fn check_model_aliases(report: &mut CheckReport, c: &Config, f: &Facts)
    requires
        f.fits(*c),
    ensures
        final(report)@ == alias_checks(old(report)@, *c, *f),
{
    if c.aliases.len() == 0 {
        return;
    }
    let keys = collect_alias_keys(&f.aliases);
    assert(views(keys@).len() == f.aliases@.len());
    let mut faults = find_alias_form_faults(&c.aliases, &keys);
    find_alias_target_faults(&mut faults, &c.aliases, &f.aliases, &keys, &f.real_model_keys);
    let ok = faults.len() == 0;
    let message = if ok {
        cat3("models.aliases: ", decimal_text(c.aliases.len() as u64).as_str(), " configured")
    } else {
        let list = join_texts(&faults, "; ");
        cat2("models.aliases invalid: ", list.as_str())
    };
    report.note("model_aliases", Severity::Error, ok, message);
}

} // verus!
