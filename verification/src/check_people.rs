//! Checks of the sandbox, the users and the groups.
use vstd::prelude::*;

use crate::check_parts::{
    describe_model, find_repeats, model_line, repeats, Facts, ModelAnswer, SandboxFacts,
    SandboxProbe,
};
use crate::check_report::{noted, CheckReport, CheckView, Severity};
use crate::config::{Config, GroupConfig, GroupTrigger, SandboxConfig, TrustCeiling, UserConfig};
use crate::cron_timezone::{resolve_user_timezone_with_default, user_zone};
use crate::group_trigger::{is_regex, regex_accepted};
use crate::session::TrustLevel;
use crate::text::{
    cat2, cat3, cat4, cat5, decimal, decimal_text, holds_text, join_texts, joined, opt_str_view,
    opt_view, same_text, starts_with, views,
};

verus! {

/// An optional text, borrowed.
pub fn borrow_text<'a>(o: &'a Option<String>) -> (r: Option<&'a str>)
    ensures
        opt_str_view(r) == opt_view(*o),
{
    match o {
        Some(s) => Some(s.as_str()),
        None => None,
    }
}

/// Whether some user is trusted less than fully.
pub open spec fn some_limited(users: Seq<UserConfig>) -> bool {
    exists|i: int|
        0 <= i < users.len() && (#[trigger] users[i]).trust.rank() > TrustLevel::Full.rank()
}

fn has_limited(users: &Vec<UserConfig>) -> (r: bool)
    ensures
        r == some_limited(users@),
{
    for i in 0..users.len()
        invariant
            forall|j: int|
                0 <= j < i ==> (#[trigger] users@[j]).trust.rank() <= TrustLevel::Full.rank(),
    {
        if users[i].trust.level() > TrustLevel::Full.level() {
            return true;
        }
    }
    false
}

pub open spec fn note_if(
    checks: Seq<CheckView>,
    missing: bool,
    name: Seq<char>,
    message: Seq<char>,
) -> Seq<CheckView> {
    if missing {
        noted(checks, name, Severity::Warning, false, message)
    } else {
        checks
    }
}

/// What is reported of what the sandbox can do here.
pub open spec fn probe_checks(
    checks: Seq<CheckView>,
    probe: Result<SandboxProbe, String>,
    c: Config,
) -> Seq<CheckView> {
    match probe {
        Ok(p) => {
            let a = noted(
                checks,
                "sandbox_available"@,
                Severity::Info,
                true,
                "sandbox: "@ + p.name@,
            );
            let b = note_if(
                a,
                !p.landlock,
                "sandbox_available"@,
                "landlock not available — filesystem isolation is degraded"@,
            );
            let d = note_if(
                b,
                !p.seccomp,
                "sandbox_available"@,
                "seccomp not available — syscall filtering disabled"@,
            );
            let e = note_if(
                d,
                !p.cgroups_v2,
                "sandbox_available"@,
                "cgroups v2 not writable — using setrlimit fallback for resource limits"@,
            );
            note_if(
                e,
                !p.internet_only && c.sandbox.allow_network && some_limited(c.users@),
                "sandbox_internet_only"@,
                "pasta (passt) not available — users below Full trust will have no network instead of internet-only. Install: apt install passt"@,
            )
        },
        Err(error) => noted(
            checks,
            "sandbox_available"@,
            Severity::Error,
            false,
            "sandbox not available: "@ + error@,
        ),
    }
}

fn warn_if(report: &mut CheckReport, missing: bool, name: &'static str, message: &str)
    ensures
        final(report)@ == note_if(old(report)@, missing, name@, message@),
{
    if missing {
        report.note(name, Severity::Warning, false, message.to_owned());
    }
}

fn check_probe(report: &mut CheckReport, probe: &Result<SandboxProbe, String>, c: &Config)
    ensures
        final(report)@ == probe_checks(old(report)@, *probe, *c),
{
    match probe {
        Ok(p) => {
            report.note("sandbox_available", Severity::Info, true, cat2(
                "sandbox: ",
                p.name.as_str(),
            ));
            warn_if(
                report,
                !p.landlock,
                "sandbox_available",
                "landlock not available — filesystem isolation is degraded",
            );
            warn_if(
                report,
                !p.seccomp,
                "sandbox_available",
                "seccomp not available — syscall filtering disabled",
            );
            warn_if(
                report,
                !p.cgroups_v2,
                "sandbox_available",
                "cgroups v2 not writable — using setrlimit fallback for resource limits",
            );
            let offline = !p.internet_only && c.sandbox.allow_network && has_limited(&c.users);
            warn_if(
                report,
                offline,
                "sandbox_internet_only",
                "pasta (passt) not available — users below Full trust will have no network instead of internet-only. Install: apt install passt",
            );
        },
        Err(error) => {
            report.note(
                "sandbox_available",
                Severity::Error,
                false,
                cat2("sandbox not available: ", error.as_str()),
            );
        },
    }
}

/// How many of the first `n` users are owners.
pub open spec fn owners(users: Seq<UserConfig>, n: int) -> nat
    decreases n,
{
    if n <= 0 {
        0
    } else {
        owners(users, n - 1) + if users[n - 1].trust == TrustLevel::Owner {
            1nat
        } else {
            0nat
        }
    }
}

fn count_owners(users: &Vec<UserConfig>) -> (r: usize)
    ensures
        r == owners(users@, users@.len() as int),
{
    let mut n: usize = 0;
    for i in 0..users.len()
        invariant
            n == owners(users@, i as int),
            n <= i,
    {
        if users[i].trust == TrustLevel::Owner {
            n += 1;
        }
    }
    n
}

/// Whether some text of a list begins with a prefix.
pub open spec fn some_starts(v: Seq<Seq<char>>, p: Seq<char>) -> bool {
    exists|i: int| 0 <= i < v.len() && p.is_prefix_of(#[trigger] v[i])
}

fn has_start(v: &Vec<String>, p: &str) -> (r: bool)
    ensures
        r == some_starts(views(v@), p@),
{
    for i in 0..v.len()
        invariant
            forall|j: int| 0 <= j < i ==> !p@.is_prefix_of(#[trigger] views(v@)[j]),
    {
        assert(views(v@)[i as int] == v@[i as int]@);
        if starts_with(v[i].as_str(), p) {
            return true;
        }
    }
    false
}

/// Whether some user speaks at the terminal.
pub open spec fn some_terminal(users: Seq<UserConfig>) -> bool {
    exists|i: int|
        0 <= i < users.len() && some_starts(
            views((#[trigger] users[i]).match_patterns@),
            "terminal"@,
        )
}

fn has_terminal(users: &Vec<UserConfig>) -> (r: bool)
    ensures
        r == some_terminal(users@),
{
    for i in 0..users.len()
        invariant
            forall|j: int|
                0 <= j < i ==> !some_starts(
                    views((#[trigger] users@[j]).match_patterns@),
                    "terminal"@,
                ),
    {
        if has_start(&users[i].match_patterns, "terminal") {
            return true;
        }
    }
    false
}

/// What is reported of the sandbox's own settings.
pub open spec fn sandbox_limit_checks(
    checks: Seq<CheckView>,
    s: SandboxConfig,
    memory_ok: bool,
) -> Seq<CheckView> {
    let a = if memory_ok {
        checks
    } else {
        noted(
            checks,
            "sandbox_memory"@,
            Severity::Error,
            false,
            "sandbox.memory '"@ + s.memory@
                + "' is not a valid size (use number with K/M/G suffix)"@,
        )
    };
    if s.pids_limit == 0 {
        noted(a, "sandbox_pids"@, Severity::Error, false, "sandbox.pids_limit must be > 0"@)
    } else {
        a
    }
}

fn check_sandbox_limits(report: &mut CheckReport, s: &SandboxConfig, memory_ok: bool)
    ensures
        final(report)@ == sandbox_limit_checks(old(report)@, *s, memory_ok),
{
    if !memory_ok {
        report.note(
            "sandbox_memory",
            Severity::Error,
            false,
            cat3(
                "sandbox.memory '",
                s.memory.as_str(),
                "' is not a valid size (use number with K/M/G suffix)",
            ),
        );
    }
    if s.pids_limit == 0 {
        report.note(
            "sandbox_pids",
            Severity::Error,
            false,
            "sandbox.pids_limit must be > 0".to_owned(),
        );
    }
}

/// What is reported of who owns the agent.
pub open spec fn owner_checks(checks: Seq<CheckView>, users: Seq<UserConfig>) -> Seq<CheckView> {
    let n = owners(users, users.len() as int);
    if n > 1 {
        noted(
            checks,
            "sandbox_multiple_owners"@,
            Severity::Warning,
            false,
            decimal(n as nat) + " users with trust=owner — there should be at most one"@,
        )
    } else if n == 0 && !some_terminal(users) {
        noted(
            checks,
            "sandbox_no_owner"@,
            Severity::Info,
            true,
            "no owner configured — terminal will default to owner trust when sandbox is enabled"@,
        )
    } else {
        checks
    }
}

fn check_owners(report: &mut CheckReport, users: &Vec<UserConfig>)
    ensures
        final(report)@ == owner_checks(old(report)@, users@),
{
    let n: usize = count_owners(users);
    if n > 1 {
        report.note(
            "sandbox_multiple_owners",
            Severity::Warning,
            false,
            cat2(
                decimal_text(n as u64).as_str(),
                " users with trust=owner — there should be at most one",
            ),
        );
    }
    if n == 0 && !has_terminal(users) {
        report.note(
            "sandbox_no_owner",
            Severity::Info,
            true,
            "no owner configured — terminal will default to owner trust when sandbox is enabled".to_owned(),
        );
    }
}

/// What is reported of the first `n` users' own sandbox settings.
pub open spec fn override_checks(
    checks: Seq<CheckView>,
    users: Seq<UserConfig>,
    memory_ok: Seq<bool>,
    n: int,
) -> Seq<CheckView>
    decreases n,
{
    if n <= 0 {
        checks
    } else {
        let before = override_checks(checks, users, memory_ok, n - 1);
        let user = users[n - 1];
        match user.sandbox {
            None => before,
            Some(s) => {
                let a = match s.memory {
                    Some(memory) => if memory_ok[n - 1] {
                        before
                    } else {
                        noted(
                            before,
                            "sandbox_user_overrides"@,
                            Severity::Error,
                            false,
                            "user '"@ + user.name@ + "' sandbox.memory '"@ + memory@
                                + "' is not a valid size"@,
                        )
                    },
                    None => before,
                };
                if s.pids_limit == Some(0u32) {
                    noted(
                        a,
                        "sandbox_user_overrides"@,
                        Severity::Error,
                        false,
                        "user '"@ + user.name@ + "' sandbox.pids_limit must be > 0"@,
                    )
                } else {
                    a
                }
            },
        }
    }
}

fn check_overrides(report: &mut CheckReport, users: &Vec<UserConfig>, memory_ok: &Vec<bool>)
    requires
        memory_ok@.len() == users@.len(),
    ensures
        final(report)@ == override_checks(
            old(report)@,
            users@,
            memory_ok@,
            users@.len() as int,
        ),
{
    for i in 0..users.len()
        invariant
            memory_ok@.len() == users@.len(),
            report@ == override_checks(old(report)@, users@, memory_ok@, i as int),
    {
        let user = &users[i];
        if let Some(s) = &user.sandbox {
            if let Some(memory) = &s.memory {
                if !memory_ok[i] {
                    report.note(
                        "sandbox_user_overrides",
                        Severity::Error,
                        false,
                        cat5(
                            "user '",
                            user.name.as_str(),
                            "' sandbox.memory '",
                            memory.as_str(),
                            "' is not a valid size",
                        ),
                    );
                }
            }
            if let Some(pids) = s.pids_limit {
                if pids == 0 {
                    report.note(
                        "sandbox_user_overrides",
                        Severity::Error,
                        false,
                        cat3("user '", user.name.as_str(), "' sandbox.pids_limit must be > 0"),
                    );
                }
            }
        }
    }
}

/// What is reported of the sandbox.
pub open spec fn sandbox_checks(checks: Seq<CheckView>, c: Config, f: SandboxFacts) -> Seq<
    CheckView,
> {
    if !c.sandbox.enabled {
        checks
    } else {
        let a = probe_checks(checks, f.probe, c);
        let b = sandbox_limit_checks(a, c.sandbox, f.memory_ok);
        let d = owner_checks(b, c.users@);
        let e = override_checks(d, c.users@, f.user_memory_ok@, c.users@.len() as int);
        if f.namespaces_disabled {
            noted(
                e,
                "sandbox_user_namespaces"@,
                Severity::Error,
                false,
                "unprivileged user namespaces disabled (kernel.unprivileged_userns_clone=0)"@,
            )
        } else {
            e
        }
    }
}

/// Checks the sandbox.
pub fn check_sandbox(report: &mut CheckReport, c: &Config, f: &SandboxFacts)
    requires
        f.user_memory_ok@.len() == c.users@.len(),
    ensures
        final(report)@ == sandbox_checks(old(report)@, *c, *f),
{
    if !c.sandbox.enabled {
        return;
    }
    check_probe(report, &f.probe, c);
    check_sandbox_limits(report, &c.sandbox, f.memory_ok);
    check_owners(report, &c.users);
    check_overrides(report, &c.users, &f.user_memory_ok);
    if f.namespaces_disabled {
        report.note(
            "sandbox_user_namespaces",
            Severity::Error,
            false,
            "unprivileged user namespaces disabled (kernel.unprivileged_userns_clone=0)".to_owned(),
        );
    }
}

pub open spec fn user_names(users: Seq<UserConfig>) -> Seq<Seq<char>> {
    users.map(|i: int, u: UserConfig| u.name@)
}

fn collect_user_names(users: &Vec<UserConfig>) -> (r: Vec<String>)
    ensures
        views(r@) == user_names(users@),
{
    let mut out: Vec<String> = Vec::new();
    for i in 0..users.len()
        invariant
            out@.len() == i,
            forall|j: int| 0 <= j < i ==> (#[trigger] out@[j])@ == users@[j].name@,
    {
        out.push(users[i].name.clone());
    }
    assert(views(out@) =~= user_names(users@));
    out
}

/// What is reported of one user's model and time zone.
pub open spec fn user_check(
    checks: Seq<CheckView>,
    user: UserConfig,
    answer: ModelAnswer,
    default: Option<Seq<char>>,
) -> Seq<CheckView> {
    let a = match user.model {
        Some(model) => noted(
            checks,
            "users_models"@,
            Severity::Error,
            answer.found is Some,
            model_line("user '"@ + user.name@ + "' model"@, model@, answer),
        ),
        None => checks,
    };
    match user_zone(user, default) {
        Ok(zone) => noted(
            a,
            "users_timezones"@,
            Severity::Info,
            true,
            "user '"@ + user.name@ + "': timezone "@ + zone,
        ),
        Err(error) => noted(
            a,
            "users_timezones"@,
            Severity::Warning,
            false,
            "user '"@ + user.name@ + "': "@ + error,
        ),
    }
}

fn check_user(
    report: &mut CheckReport,
    user: &UserConfig,
    answer: &ModelAnswer,
    default: Option<&str>,
)
    ensures
        final(report)@ == user_check(old(report)@, *user, *answer, opt_str_view(default)),
{
    if let Some(model) = &user.model {
        let subject = cat3("user '", user.name.as_str(), "' model");
        let line = describe_model(subject.as_str(), model.as_str(), answer);
        report.note("users_models", Severity::Error, answer.found.is_some(), line);
    }
    match resolve_user_timezone_with_default(user, default) {
        Ok(zone) => {
            report.note(
                "users_timezones",
                Severity::Info,
                true,
                cat4("user '", user.name.as_str(), "': timezone ", zone.as_str()),
            );
        },
        Err(error) => {
            report.note(
                "users_timezones",
                Severity::Warning,
                false,
                cat4("user '", user.name.as_str(), "': ", error.as_str()),
            );
        },
    }
}

/// What is reported of the first `n` users.
pub open spec fn each_user_checks(
    checks: Seq<CheckView>,
    users: Seq<UserConfig>,
    answers: Seq<ModelAnswer>,
    default: Option<Seq<char>>,
    n: int,
) -> Seq<CheckView>
    decreases n,
{
    if n <= 0 {
        checks
    } else {
        user_check(
            each_user_checks(checks, users, answers, default, n - 1),
            users[n - 1],
            answers[n - 1],
            default,
        )
    }
}

/// What is reported of the users.
pub open spec fn user_checks(checks: Seq<CheckView>, c: Config, f: Facts) -> Seq<CheckView> {
    let names = user_names(c.users@);
    let twice = repeats(names, names, true, names.len() as int);
    if names.len() == 0 {
        noted(checks, "users"@, Severity::Info, true, "no users configured"@)
    } else {
        let a = noted(
            checks,
            "users"@,
            Severity::Info,
            true,
            decimal(names.len() as nat) + " user(s): "@ + joined(names, ", "@),
        );
        let b = if twice.len() > 0 {
            noted(
                a,
                "users_duplicates"@,
                Severity::Warning,
                false,
                "duplicate user names: "@ + joined(twice, ", "@),
            )
        } else {
            a
        };
        each_user_checks(
            b,
            c.users@,
            f.user_models@,
            opt_view(f.system_timezone),
            names.len() as int,
        )
    }
}

/// Checks the users.
pub fn check_users(report: &mut CheckReport, c: &Config, f: &Facts)
    requires
        f.fits(*c),
    ensures
        final(report)@ == user_checks(old(report)@, *c, *f),
{
    if c.users.len() == 0 {
        report.note("users", Severity::Info, true, "no users configured".to_owned());
        return;
    }
    let names = collect_user_names(&c.users);
    assert(views(names@).len() == names@.len());
    let list = join_texts(&names, ", ");
    report.note("users", Severity::Info, true, cat3(
        decimal_text(names.len() as u64).as_str(),
        " user(s): ",
        list.as_str(),
    ));
    let twice = find_repeats(&names, &names, true);
    assert(views(twice@).len() == twice@.len());
    if twice.len() > 0 {
        let list = join_texts(&twice, ", ");
        report.note(
            "users_duplicates",
            Severity::Warning,
            false,
            cat2("duplicate user names: ", list.as_str()),
        );
    }
    let default = borrow_text(&f.system_timezone);
    let ghost start = report@;
    for i in 0..c.users.len()
        invariant
            f.user_models@.len() == c.users@.len(),
            report@ == each_user_checks(
                start,
                c.users@,
                f.user_models@,
                opt_str_view(default),
                i as int,
            ),
    {
        check_user(report, &c.users[i], &f.user_models[i], default);
    }
}

pub open spec fn group_path(i: int) -> Seq<char> {
    "groups["@ + decimal(i as nat) + "]"@
}

/// What is reported of the first `n` patterns of a group, those of the groups
/// before it known.
pub open spec fn pattern_checks(
    checks: Seq<CheckView>,
    path: Seq<char>,
    before: Seq<Seq<char>>,
    patterns: Seq<Seq<char>>,
    n: int,
) -> Seq<CheckView>
    decreases n,
{
    if n <= 0 {
        checks
    } else {
        let rest = pattern_checks(checks, path, before, patterns, n - 1);
        let pattern = patterns[n - 1];
        let a = if pattern != "*"@ && !"signal:group:"@.is_prefix_of(pattern) {
            noted(
                rest,
                "groups"@,
                Severity::Warning,
                false,
                path + ": match pattern '"@ + pattern
                    + "' does not look like a group id (expected 'signal:group:<hex>' or '*')"@,
            )
        } else {
            rest
        };
        if (before + patterns.take(n - 1)).contains(pattern) {
            noted(
                a,
                "groups"@,
                Severity::Warning,
                false,
                path + ": duplicate match pattern '"@ + pattern + "'"@,
            )
        } else {
            a
        }
    }
}

fn check_patterns(
    report: &mut CheckReport,
    path: &str,
    seen: &mut Vec<String>,
    patterns: &Vec<String>,
)
    ensures
        final(report)@ == pattern_checks(
            old(report)@,
            path@,
            views(old(seen)@),
            views(patterns@),
            patterns@.len() as int,
        ),
        views(final(seen)@) == views(old(seen)@) + views(patterns@),
{
    let ghost before = views(seen@);
    assert(before =~= before + views(patterns@).take(0));
    for i in 0..patterns.len()
        invariant
            report@ == pattern_checks(
                old(report)@,
                path@,
                before,
                views(patterns@),
                i as int,
            ),
            views(seen@) == before + views(patterns@).take(i as int),
    {
        let pattern = patterns[i].as_str();
        assert(views(patterns@)[i as int] == pattern@);
        if !same_text(pattern, "*") && !starts_with(pattern, "signal:group:") {
            report.note(
                "groups",
                Severity::Warning,
                false,
                cat4(
                    path,
                    ": match pattern '",
                    pattern,
                    "' does not look like a group id (expected 'signal:group:<hex>' or '*')",
                ),
            );
        }
        if holds_text(seen, pattern) {
            report.note(
                "groups",
                Severity::Warning,
                false,
                cat4(path, ": duplicate match pattern '", pattern, "'"),
            );
        }
        let ghost was = seen@;
        seen.push(patterns[i].clone());
        assert(views(seen@) =~= views(was).push(pattern@));
        assert(views(seen@) =~= before + views(patterns@).take(i + 1));
    }
    assert(views(patterns@).take(patterns@.len() as int) =~= views(patterns@));
}

/// What is reported of when a group is answered.
pub open spec fn trigger_checks(
    checks: Seq<CheckView>,
    path: Seq<char>,
    g: GroupConfig,
) -> Seq<CheckView> {
    let a = if g.trigger == GroupTrigger::Mention && g.mention_names@.len() == 0 {
        noted(
            checks,
            "groups"@,
            Severity::Error,
            false,
            path + ": trigger='mention' requires non-empty mention_names"@,
        )
    } else {
        checks
    };
    if g.trigger == GroupTrigger::Regex {
        match g.trigger_regex {
            None => noted(
                a,
                "groups"@,
                Severity::Error,
                false,
                path + ": trigger='regex' requires trigger_regex"@,
            ),
            Some(pattern) => if regex_accepted(pattern@) {
                a
            } else {
                noted(
                    a,
                    "groups"@,
                    Severity::Error,
                    false,
                    path + ": trigger_regex '"@ + pattern@ + "' is not a valid regex"@,
                )
            },
        }
    } else {
        a
    }
}

fn check_trigger(report: &mut CheckReport, path: &str, g: &GroupConfig)
    ensures
        final(report)@ == trigger_checks(old(report)@, path@, *g),
{
    if g.trigger == GroupTrigger::Mention && g.mention_names.len() == 0 {
        report.note(
            "groups",
            Severity::Error,
            false,
            cat2(path, ": trigger='mention' requires non-empty mention_names"),
        );
    }
    if g.trigger == GroupTrigger::Regex {
        match &g.trigger_regex {
            None => {
                report.note(
                    "groups",
                    Severity::Error,
                    false,
                    cat2(path, ": trigger='regex' requires trigger_regex"),
                );
            },
            Some(pattern) => {
                if !is_regex(pattern.as_str()) {
                    report.note(
                        "groups",
                        Severity::Error,
                        false,
                        cat4(path, ": trigger_regex '", pattern.as_str(), "' is not a valid regex"),
                    );
                }
            },
        }
    }
}

/// What is reported of a group's model and of whom it trusts.
pub open spec fn group_trust_checks(
    checks: Seq<CheckView>,
    path: Seq<char>,
    g: GroupConfig,
    model: Seq<char>,
    answer: ModelAnswer,
) -> Seq<CheckView> {
    let a = if g.trigger == GroupTrigger::Llm || g.trigger_model is Some {
        noted(
            checks,
            "groups_trigger_models"@,
            Severity::Error,
            answer.found is Some,
            model_line(path + " trigger model"@, model, answer),
        )
    } else {
        checks
    };
    let b = if g.default_trust == TrustLevel::Owner {
        noted(
            a,
            "groups"@,
            Severity::Warning,
            false,
            path + ": default_trust='owner' grants owner trust to unknown senders"@,
        )
    } else {
        a
    };
    if g.trust_ceiling == TrustCeiling::MinMember {
        noted(
            b,
            "groups"@,
            Severity::Error,
            false,
            path + ": trust_ceiling='min_member' is not supported yet"@,
        )
    } else {
        b
    }
}

fn check_group_trust(
    report: &mut CheckReport,
    path: &str,
    g: &GroupConfig,
    model: &str,
    answer: &ModelAnswer,
)
    ensures
        final(report)@ == group_trust_checks(old(report)@, path@, *g, model@, *answer),
{
    if g.trigger == GroupTrigger::Llm || g.trigger_model.is_some() {
        let subject = cat2(path, " trigger model");
        let line = describe_model(subject.as_str(), model, answer);
        report.note("groups_trigger_models", Severity::Error, answer.found.is_some(), line);
    }
    if g.default_trust == TrustLevel::Owner {
        report.note(
            "groups",
            Severity::Warning,
            false,
            cat2(path, ": default_trust='owner' grants owner trust to unknown senders"),
        );
    }
    if let TrustCeiling::MinMember = g.trust_ceiling {
        report.note(
            "groups",
            Severity::Error,
            false,
            cat2(path, ": trust_ceiling='min_member' is not supported yet"),
        );
    }
}

/// The patterns of the first `n` groups.
pub open spec fn patterns_before(groups: Seq<GroupConfig>, n: int) -> Seq<Seq<char>>
    decreases n,
{
    if n <= 0 {
        Seq::empty()
    } else {
        patterns_before(groups, n - 1) + views(groups[n - 1].match_patterns@)
    }
}

/// What is reported of the first `n` groups.
pub open spec fn each_group_checks(
    checks: Seq<CheckView>,
    groups: Seq<GroupConfig>,
    models: Seq<Seq<char>>,
    answers: Seq<ModelAnswer>,
    n: int,
) -> Seq<CheckView>
    decreases n,
{
    if n <= 0 {
        checks
    } else {
        let before = each_group_checks(checks, groups, models, answers, n - 1);
        let g = groups[n - 1];
        let path = group_path(n - 1);
        let a = if g.match_patterns@.len() == 0 {
            noted(
                before,
                "groups"@,
                Severity::Error,
                false,
                path + ": match list is empty"@,
            )
        } else {
            before
        };
        let b = pattern_checks(
            a,
            path,
            patterns_before(groups, n - 1),
            views(g.match_patterns@),
            g.match_patterns@.len() as int,
        );
        let c = trigger_checks(b, path, g);
        group_trust_checks(c, path, g, models[n - 1], answers[n - 1])
    }
}

fn check_each_group(
    report: &mut CheckReport,
    groups: &Vec<GroupConfig>,
    models: &Vec<String>,
    answers: &Vec<ModelAnswer>,
)
    requires
        models@.len() == groups@.len(),
        answers@.len() == groups@.len(),
    ensures
        final(report)@ == each_group_checks(
            old(report)@,
            groups@,
            views(models@),
            answers@,
            groups@.len() as int,
        ),
{
    let mut seen: Vec<String> = Vec::new();
    assert(views(seen@) =~= Seq::<Seq<char>>::empty());
    for i in 0..groups.len()
        invariant
            models@.len() == groups@.len(),
            answers@.len() == groups@.len(),
            views(seen@) == patterns_before(groups@, i as int),
            report@ == each_group_checks(
                old(report)@,
                groups@,
                views(models@),
                answers@,
                i as int,
            ),
    {
        let g = &groups[i];
        let path = cat3("groups[", decimal_text(i as u64).as_str(), "]");
        if g.match_patterns.len() == 0 {
            report.note("groups", Severity::Error, false, cat2(
                path.as_str(),
                ": match list is empty",
            ));
        }
        check_patterns(report, path.as_str(), &mut seen, &g.match_patterns);
        check_trigger(report, path.as_str(), g);
        assert(views(models@)[i as int] == models@[i as int]@);
        check_group_trust(report, path.as_str(), g, models[i].as_str(), &answers[i]);
    }
}

/// Whether a check of groups failed.
pub open spec fn group_fault(c: CheckView) -> bool {
    (c.name == "groups"@ || c.name == "groups_trigger_models"@) && !c.passed
}

pub open spec fn some_group_fault(checks: Seq<CheckView>) -> bool {
    exists|i: int| 0 <= i < checks.len() && group_fault(#[trigger] checks[i])
}

fn has_group_fault(report: &CheckReport) -> (r: bool)
    ensures
        r == some_group_fault(report@),
{
    for i in 0..report.results.len()
        invariant
            forall|j: int| 0 <= j < i ==> !group_fault(#[trigger] report@[j]),
    {
        let c = &report.results[i];
        assert(report@[i as int] == c@);
        if (same_text(c.name, "groups") || same_text(c.name, "groups_trigger_models"))
            && !c.passed {
            return true;
        }
    }
    false
}

/// What is reported of the groups.
pub open spec fn group_checks(checks: Seq<CheckView>, c: Config, f: Facts) -> Seq<CheckView> {
    if c.groups@.len() == 0 {
        checks
    } else {
        let a = each_group_checks(
            checks,
            c.groups@,
            views(f.trigger_model_names@),
            f.trigger_models@,
            c.groups@.len() as int,
        );
        let b = if c.channels.signal is None {
            noted(
                a,
                "groups"@,
                Severity::Warning,
                false,
                "groups configured but no signal channel is set up"@,
            )
        } else {
            a
        };
        if some_group_fault(b) {
            b
        } else {
            noted(
                b,
                "groups"@,
                Severity::Info,
                true,
                decimal(c.groups@.len() as nat) + " group(s) configured"@,
            )
        }
    }
}

/// Checks the groups.
pub fn check_groups(report: &mut CheckReport, c: &Config, f: &Facts)
    requires
        f.fits(*c),
    ensures
        final(report)@ == group_checks(old(report)@, *c, *f),
{
    if c.groups.len() == 0 {
        return;
    }
    check_each_group(report, &c.groups, &f.trigger_model_names, &f.trigger_models);
    if c.channels.signal.is_none() {
        report.note(
            "groups",
            Severity::Warning,
            false,
            "groups configured but no signal channel is set up".to_owned(),
        );
    }
    if !has_group_fault(report) {
        report.note("groups", Severity::Info, true, cat2(
            decimal_text(c.groups.len() as u64).as_str(),
            " group(s) configured",
        ));
    }
}

} // verus!
