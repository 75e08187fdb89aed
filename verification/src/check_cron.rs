//! Checks of the scheduled tasks and the web tools.
use vstd::prelude::*;

use crate::check_parts::{find_repeats, repeats, Facts, PathFacts};
use crate::check_people::borrow_text;
use crate::check_report::{noted, CheckReport, CheckView, Severity};
use crate::config::{Config, CronConfig, UserConfig, WebConfig};
use crate::cron_timezone::{
    cron_zone, find_user, parse_cron_fault, resolve_cron_timezone_with_default, schedule_fault,
    schedule_of, user_named,
};
use crate::text::{
    after_colon, before_colon, cat2, cat3, cat4, cat5, contains_text, has_text, is_blank,
    join_texts, joined, opt_str_view, opt_view, same_text, split_at_colon, trimmed, views,
};

verus! {

pub open spec fn cron_names(tasks: Seq<CronConfig>) -> Seq<Seq<char>> {
    tasks.map(|i: int, t: CronConfig| t.name@)
}

fn collect_cron_names(tasks: &Vec<CronConfig>) -> (r: Vec<String>)
    ensures
        views(r@) == cron_names(tasks@),
{
    let mut out: Vec<String> = Vec::new();
    for i in 0..tasks.len()
        invariant
            out@.len() == i,
            forall|j: int| 0 <= j < i ==> (#[trigger] out@[j])@ == tasks@[j].name@,
    {
        out.push(tasks[i].name.clone());
    }
    assert(views(out@) =~= cron_names(tasks@));
    out
}

pub open spec fn cron_names_check(checks: Seq<CheckView>, tasks: Seq<CronConfig>) -> Seq<
    CheckView,
> {
    let names = cron_names(tasks);
    let twice = repeats(names, names, true, names.len() as int);
    if twice.len() > 0 {
        noted(
            checks,
            "cron_names"@,
            Severity::Error,
            false,
            "duplicate cron names: "@ + joined(twice, ", "@),
        )
    } else {
        checks
    }
}

fn check_cron_names(report: &mut CheckReport, tasks: &Vec<CronConfig>)
    ensures
        final(report)@ == cron_names_check(old(report)@, tasks@),
{
    let names = collect_cron_names(tasks);
    assert(views(names@).len() == names@.len());
    let twice = find_repeats(&names, &names, true);
    assert(views(twice@).len() == twice@.len());
    if twice.len() > 0 {
        let list = join_texts(&twice, ", ");
        report.note("cron_names", Severity::Error, false, cat2(
            "duplicate cron names: ",
            list.as_str(),
        ));
    }
}

/// One more outcome: whether a task's expression is a schedule, with what is
/// said of one that is not.
pub open spec fn schedule_noted(
    checks: Seq<CheckView>,
    name: Seq<char>,
    fault: Option<Seq<char>>,
) -> Seq<CheckView> {
    noted(
        checks,
        "cron_expressions"@,
        Severity::Warning,
        fault is None,
        match fault {
            None => "cron '"@ + name + "': valid"@,
            Some(error) => "cron '"@ + name + "': "@ + error,
        },
    )
}

/// Notes whether the expression of a task is a schedule.
pub fn note_schedule(report: &mut CheckReport, name: &str, fault: Option<&str>)
    ensures
        final(report)@ == schedule_noted(old(report)@, name@, opt_str_view(fault)),
{
    match fault {
        None => report.note(
            "cron_expressions",
            Severity::Warning,
            true,
            cat3("cron '", name, "': valid"),
        ),
        Some(error) => report.note(
            "cron_expressions",
            Severity::Warning,
            false,
            cat4("cron '", name, "': ", error),
        ),
    }
}

pub open spec fn schedule_checks(
    checks: Seq<CheckView>,
    tasks: Seq<CronConfig>,
    n: int,
) -> Seq<CheckView>
    decreases n,
{
    if n <= 0 {
        checks
    } else {
        let t = tasks[n - 1];
        schedule_noted(
            schedule_checks(checks, tasks, n - 1),
            t.name@,
            schedule_fault(schedule_of(t.cron@)),
        )
    }
}

fn check_schedules(report: &mut CheckReport, tasks: &Vec<CronConfig>)
    ensures
        final(report)@ == schedule_checks(old(report)@, tasks@, tasks@.len() as int),
{
    for i in 0..tasks.len()
        invariant
            report@ == schedule_checks(old(report)@, tasks@, i as int),
    {
        let t = &tasks[i];
        let fault = parse_cron_fault(t.cron.as_str());
        note_schedule(report, t.name.as_str(), borrow_text(&fault));
    }
}

pub open spec fn cron_user_checks(
    checks: Seq<CheckView>,
    tasks: Seq<CronConfig>,
    users: Seq<UserConfig>,
    n: int,
) -> Seq<CheckView>
    decreases n,
{
    if n <= 0 {
        checks
    } else {
        let before = cron_user_checks(checks, tasks, users, n - 1);
        let t = tasks[n - 1];
        match t.user {
            Some(user) => if user_named(users, user@) is Some {
                before
            } else {
                noted(
                    before,
                    "cron_users"@,
                    Severity::Warning,
                    false,
                    "cron '"@ + t.name@ + "' references unknown user '"@ + user@ + "'"@,
                )
            },
            None => before,
        }
    }
}

fn check_cron_users(report: &mut CheckReport, tasks: &Vec<CronConfig>, users: &Vec<UserConfig>)
    ensures
        final(report)@ == cron_user_checks(old(report)@, tasks@, users@, tasks@.len() as int),
{
    for i in 0..tasks.len()
        invariant
            report@ == cron_user_checks(old(report)@, tasks@, users@, i as int),
    {
        let t = &tasks[i];
        if let Some(user) = &t.user {
            if find_user(users, user.as_str()).is_none() {
                report.note(
                    "cron_users",
                    Severity::Warning,
                    false,
                    cat5(
                        "cron '",
                        t.name.as_str(),
                        "' references unknown user '",
                        user.as_str(),
                        "'",
                    ),
                );
            }
        }
    }
}

pub open spec fn cron_zone_checks(
    checks: Seq<CheckView>,
    tasks: Seq<CronConfig>,
    users: Seq<UserConfig>,
    default: Option<Seq<char>>,
    n: int,
) -> Seq<CheckView>
    decreases n,
{
    if n <= 0 {
        checks
    } else {
        let before = cron_zone_checks(checks, tasks, users, default, n - 1);
        let t = tasks[n - 1];
        match cron_zone(t, users, default) {
            Ok(zone) => noted(
                before,
                "cron_timezones"@,
                Severity::Info,
                true,
                "cron '"@ + t.name@ + "': timezone "@ + zone,
            ),
            Err(error) => noted(
                before,
                "cron_timezones"@,
                Severity::Warning,
                false,
                "cron '"@ + t.name@ + "': "@ + error,
            ),
        }
    }
}

fn check_cron_zones(
    report: &mut CheckReport,
    tasks: &Vec<CronConfig>,
    users: &Vec<UserConfig>,
    default: Option<&str>,
)
    ensures
        final(report)@ == cron_zone_checks(
            old(report)@,
            tasks@,
            users@,
            opt_str_view(default),
            tasks@.len() as int,
        ),
{
    for i in 0..tasks.len()
        invariant
            report@ == cron_zone_checks(
                old(report)@,
                tasks@,
                users@,
                opt_str_view(default),
                i as int,
            ),
    {
        let t = &tasks[i];
        match resolve_cron_timezone_with_default(t, users, default) {
            Ok(zone) => {
                report.note(
                    "cron_timezones",
                    Severity::Info,
                    true,
                    cat4("cron '", t.name.as_str(), "': timezone ", zone.as_str()),
                );
            },
            Err(error) => {
                report.note(
                    "cron_timezones",
                    Severity::Warning,
                    false,
                    cat4("cron '", t.name.as_str(), "': ", error.as_str()),
                );
            },
        }
    }
}

pub open spec fn cron_channel_checks(
    checks: Seq<CheckView>,
    tasks: Seq<CronConfig>,
    n: int,
) -> Seq<CheckView>
    decreases n,
{
    if n <= 0 {
        checks
    } else {
        let before = cron_channel_checks(checks, tasks, n - 1);
        let t = tasks[n - 1];
        match t.deliver {
            Some(deliver) => if deliver.channel@ == "signal"@ {
                before
            } else {
                noted(
                    before,
                    "cron_delivery"@,
                    Severity::Warning,
                    false,
                    "cron '"@ + t.name@ + "' delivery channel '"@ + deliver.channel@
                        + "' not supported (only 'signal')"@,
                )
            },
            None => before,
        }
    }
}

fn check_cron_channels(report: &mut CheckReport, tasks: &Vec<CronConfig>)
    ensures
        final(report)@ == cron_channel_checks(old(report)@, tasks@, tasks@.len() as int),
{
    for i in 0..tasks.len()
        invariant
            report@ == cron_channel_checks(old(report)@, tasks@, i as int),
    {
        let t = &tasks[i];
        if let Some(deliver) = &t.deliver {
            if !same_text(deliver.channel.as_str(), "signal") {
                report.note(
                    "cron_delivery",
                    Severity::Warning,
                    false,
                    cat5(
                        "cron '",
                        t.name.as_str(),
                        "' delivery channel '",
                        deliver.channel.as_str(),
                        "' not supported (only 'signal')",
                    ),
                );
            }
        }
    }
}

/// Whether a pattern names a channel that messages can be sent on.
pub open spec fn deliverable(pattern: Seq<char>) -> bool {
    after_colon(pattern) is Some && before_colon(pattern) != "terminal"@
}

pub open spec fn some_deliverable(patterns: Seq<Seq<char>>) -> bool {
    exists|i: int| 0 <= i < patterns.len() && deliverable(#[trigger] patterns[i])
}

fn has_deliverable(patterns: &Vec<String>) -> (r: bool)
    ensures
        r == some_deliverable(views(patterns@)),
{
    for i in 0..patterns.len()
        invariant
            forall|j: int| 0 <= j < i ==> !deliverable(#[trigger] views(patterns@)[j]),
    {
        assert(views(patterns@)[i as int] == patterns@[i as int]@);
        let (channel, rest) = split_at_colon(patterns[i].as_str());
        if rest.is_some() && !same_text(channel.as_str(), "terminal") {
            return true;
        }
    }
    false
}

pub open spec fn cron_target_checks(
    checks: Seq<CheckView>,
    tasks: Seq<CronConfig>,
    users: Seq<UserConfig>,
    n: int,
) -> Seq<CheckView>
    decreases n,
{
    if n <= 0 {
        checks
    } else {
        let before = cron_target_checks(checks, tasks, users, n - 1);
        let t = tasks[n - 1];
        let user = match t.user {
            Some(name) => user_named(users, name@),
            None => None,
        };
        match (t.deliver, user) {
            (None, Some(u)) => if some_deliverable(views(u.match_patterns@)) {
                before
            } else {
                noted(
                    before,
                    "cron_user_no_deliverable_channels"@,
                    Severity::Warning,
                    false,
                    "cron '"@ + t.name@ + "' has user '"@ + t.user->0@
                        + "' but no deliver override, and user has no non-terminal match patterns — cron will have no delivery targets"@,
                )
            },
            _ => before,
        }
    }
}

fn check_cron_targets(report: &mut CheckReport, tasks: &Vec<CronConfig>, users: &Vec<UserConfig>)
    ensures
        final(report)@ == cron_target_checks(old(report)@, tasks@, users@, tasks@.len() as int),
{
    for i in 0..tasks.len()
        invariant
            report@ == cron_target_checks(old(report)@, tasks@, users@, i as int),
    {
        let t = &tasks[i];
        if t.deliver.is_none() {
            if let Some(name) = &t.user {
                if let Some(user) = find_user(users, name.as_str()) {
                    if !has_deliverable(&user.match_patterns) {
                        report.note(
                            "cron_user_no_deliverable_channels",
                            Severity::Warning,
                            false,
                            cat5(
                                "cron '",
                                t.name.as_str(),
                                "' has user '",
                                name.as_str(),
                                "' but no deliver override, and user has no non-terminal match patterns — cron will have no delivery targets",
                            ),
                        );
                    }
                }
            }
        }
    }
}

pub open spec fn cron_mode_checks(checks: Seq<CheckView>, tasks: Seq<CronConfig>, n: int) -> Seq<
    CheckView,
>
    decreases n,
{
    if n <= 0 {
        checks
    } else {
        let before = cron_mode_checks(checks, tasks, n - 1);
        let t = tasks[n - 1];
        if t.delivery is None && has_text(t.message@, "HEARTBEAT.md"@) {
            noted(
                before,
                "cron_delivery_mode"@,
                Severity::Warning,
                false,
                "cron '"@ + t.name@
                    + "' relies on the legacy HEARTBEAT.md heuristic for delivery mode; set delivery = \"as_needed\" explicitly"@,
            )
        } else {
            before
        }
    }
}

fn check_cron_modes(report: &mut CheckReport, tasks: &Vec<CronConfig>)
    ensures
        final(report)@ == cron_mode_checks(old(report)@, tasks@, tasks@.len() as int),
{
    for i in 0..tasks.len()
        invariant
            report@ == cron_mode_checks(old(report)@, tasks@, i as int),
    {
        let t = &tasks[i];
        if t.uses_legacy_delivery_mode() && contains_text(t.message.as_str(), "HEARTBEAT.md") {
            report.note(
                "cron_delivery_mode",
                Severity::Warning,
                false,
                cat3(
                    "cron '",
                    t.name.as_str(),
                    "' relies on the legacy HEARTBEAT.md heuristic for delivery mode; set delivery = \"as_needed\" explicitly",
                ),
            );
        }
    }
}

pub open spec fn cron_token_checks(checks: Seq<CheckView>, tasks: Seq<CronConfig>, n: int) -> Seq<
    CheckView,
>
    decreases n,
{
    if n <= 0 {
        checks
    } else {
        let before = cron_token_checks(checks, tasks, n - 1);
        let t = tasks[n - 1];
        if has_text(t.message@, "HEARTBEAT_OK"@) || has_text(t.message@, "NO_ACTION_NEEDED"@) {
            noted(
                before,
                "cron_message_tokens"@,
                Severity::Warning,
                false,
                "cron '"@ + t.name@
                    + "' message embeds an internal delivery token; move that behavior to cron.delivery instead"@,
            )
        } else {
            before
        }
    }
}

fn check_cron_tokens(report: &mut CheckReport, tasks: &Vec<CronConfig>)
    ensures
        final(report)@ == cron_token_checks(old(report)@, tasks@, tasks@.len() as int),
{
    for i in 0..tasks.len()
        invariant
            report@ == cron_token_checks(old(report)@, tasks@, i as int),
    {
        let t = &tasks[i];
        if contains_text(t.message.as_str(), "HEARTBEAT_OK") || contains_text(
            t.message.as_str(),
            "NO_ACTION_NEEDED",
        ) {
            report.note(
                "cron_message_tokens",
                Severity::Warning,
                false,
                cat3(
                    "cron '",
                    t.name.as_str(),
                    "' message embeds an internal delivery token; move that behavior to cron.delivery instead",
                ),
            );
        }
    }
}

pub open spec fn review_prompt_checks(
    checks: Seq<CheckView>,
    tasks: Seq<CronConfig>,
    n: int,
) -> Seq<CheckView>
    decreases n,
{
    if n <= 0 {
        checks
    } else {
        let before = review_prompt_checks(checks, tasks, n - 1);
        let t = tasks[n - 1];
        match t.review_prompt {
            Some(prompt) => if trimmed(prompt@).len() == 0 {
                noted(
                    before,
                    "cron_review_prompt"@,
                    Severity::Error,
                    false,
                    "cron '"@ + t.name@ + "' review_prompt must be non-empty if set"@,
                )
            } else {
                before
            },
            None => before,
        }
    }
}

fn check_review_prompts(report: &mut CheckReport, tasks: &Vec<CronConfig>)
    ensures
        final(report)@ == review_prompt_checks(old(report)@, tasks@, tasks@.len() as int),
{
    for i in 0..tasks.len()
        invariant
            report@ == review_prompt_checks(old(report)@, tasks@, i as int),
    {
        let t = &tasks[i];
        if let Some(prompt) = &t.review_prompt {
            if is_blank(prompt.as_str()) {
                report.note(
                    "cron_review_prompt",
                    Severity::Error,
                    false,
                    cat3("cron '", t.name.as_str(), "' review_prompt must be non-empty if set"),
                );
            }
        }
    }
}

/// What is reported of the scheduled tasks.
pub open spec fn cron_checks(checks: Seq<CheckView>, c: Config, f: Facts) -> Seq<CheckView> {
    let tasks = c.cron@;
    let n = tasks.len() as int;
    let a = cron_names_check(checks, tasks);
    let b = schedule_checks(a, tasks, n);
    let d = cron_user_checks(b, tasks, c.users@, n);
    let e = cron_zone_checks(d, tasks, c.users@, opt_view(f.system_timezone), n);
    let g = cron_channel_checks(e, tasks, n);
    let h = cron_target_checks(g, tasks, c.users@, n);
    let i = cron_mode_checks(h, tasks, n);
    let j = cron_token_checks(i, tasks, n);
    review_prompt_checks(j, tasks, n)
}

/// Checks the scheduled tasks.
pub fn check_cron(report: &mut CheckReport, c: &Config, f: &Facts)
    requires
        f.fits(*c),
    ensures
        final(report)@ == cron_checks(old(report)@, *c, *f),
{
    check_cron_names(report, &c.cron);
    check_schedules(report, &c.cron);
    check_cron_users(report, &c.cron, &c.users);
    check_cron_zones(report, &c.cron, &c.users, borrow_text(&f.system_timezone));
    check_cron_channels(report, &c.cron);
    check_cron_targets(report, &c.cron, &c.users);
    check_cron_modes(report, &c.cron);
    check_cron_tokens(report, &c.cron);
    check_review_prompts(report, &c.cron);
}

pub open spec fn search_provider(name: Seq<char>) -> bool {
    name == "brave"@ || name == "perplexity"@ || name == "grok"@
}

/// One more error where something is wrong.
pub open spec fn error_if(
    checks: Seq<CheckView>,
    bad: bool,
    name: Seq<char>,
    message: Seq<char>,
) -> Seq<CheckView> {
    if bad {
        noted(checks, name, Severity::Error, false, message)
    } else {
        checks
    }
}

fn note_error_if(report: &mut CheckReport, bad: bool, name: &'static str, message: &str)
    ensures
        final(report)@ == error_if(old(report)@, bad, name@, message@),
{
    if bad {
        report.note(name, Severity::Error, false, message.to_owned());
    }
}

/// What is reported of the web tools.
pub open spec fn web_checks(checks: Seq<CheckView>, web: WebConfig) -> Seq<CheckView> {
    let a = match web.search.provider {
        Some(provider) => noted(
            checks,
            "web_search_provider"@,
            Severity::Error,
            search_provider(provider@),
            if search_provider(provider@) {
                "tools.web.search.provider: "@ + provider@
            } else {
                "tools.web.search.provider '"@ + provider@
                    + "' is invalid (must be brave, perplexity, or grok)"@
            },
        ),
        None => checks,
    };
    let b = error_if(
        a,
        web.search.timeout_seconds == Some(0u64),
        "web_search_timeout"@,
        "tools.web.search.timeout_seconds must be positive"@,
    );
    let c = error_if(
        b,
        web.search.max_results matches Some(n) && !(1 <= n <= 10),
        "web_search_max_results"@,
        "tools.web.search.max_results must be 1-10"@,
    );
    let d = error_if(
        c,
        web.fetch.max_chars matches Some(n) && n < 100,
        "web_fetch_max_chars"@,
        "tools.web.fetch.max_chars must be >= 100"@,
    );
    error_if(
        d,
        web.fetch.timeout_seconds == Some(0u64),
        "web_fetch_timeout"@,
        "tools.web.fetch.timeout_seconds must be positive"@,
    )
}

/// Checks the web tools.
pub fn check_web_tools(report: &mut CheckReport, web: &WebConfig)
    ensures
        final(report)@ == web_checks(old(report)@, *web),
{
    if let Some(provider) = &web.search.provider {
        let valid = same_text(provider.as_str(), "brave") || same_text(
            provider.as_str(),
            "perplexity",
        ) || same_text(provider.as_str(), "grok");
        let message = if valid {
            cat2("tools.web.search.provider: ", provider.as_str())
        } else {
            cat3(
                "tools.web.search.provider '",
                provider.as_str(),
                "' is invalid (must be brave, perplexity, or grok)",
            )
        };
        report.note("web_search_provider", Severity::Error, valid, message);
    }
    let no_time = match web.search.timeout_seconds {
        Some(n) => n == 0,
        None => false,
    };
    note_error_if(
        report,
        no_time,
        "web_search_timeout",
        "tools.web.search.timeout_seconds must be positive",
    );
    let bad_count = match web.search.max_results {
        Some(n) => n < 1 || n > 10,
        None => false,
    };
    note_error_if(
        report,
        bad_count,
        "web_search_max_results",
        "tools.web.search.max_results must be 1-10",
    );
    let too_short = match web.fetch.max_chars {
        Some(n) => n < 100,
        None => false,
    };
    note_error_if(
        report,
        too_short,
        "web_fetch_max_chars",
        "tools.web.fetch.max_chars must be >= 100",
    );
    let no_fetch_time = match web.fetch.timeout_seconds {
        Some(n) => n == 0,
        None => false,
    };
    note_error_if(
        report,
        no_fetch_time,
        "web_fetch_timeout",
        "tools.web.fetch.timeout_seconds must be positive",
    );
}

/// Whether a path lies in a directory that builds go to.
pub open spec fn in_build_dir(path: Seq<char>) -> bool {
    has_text(path, "target/debug"@) || has_text(path, "target/release"@)
}

/// What is reported of the running program.
pub open spec fn program_check(checks: Seq<CheckView>, program: Result<PathFacts, String>) -> Seq<
    CheckView,
> {
    match program {
        Ok(p) => noted(
            checks,
            "binary_exists"@,
            Severity::Warning,
            p.exists && !in_build_dir(p.path@),
            if !p.exists {
                "current executable does not exist: "@ + p.path@
            } else if in_build_dir(p.path@) {
                "binary is in a build directory: "@ + p.path@
                    + " (service may break if binary moves)"@
            } else {
                "binary: "@ + p.path@
            },
        ),
        Err(error) => noted(
            checks,
            "binary_exists"@,
            Severity::Warning,
            false,
            "failed to resolve current executable: "@ + error@,
        ),
    }
}

/// Checks the running program.
pub fn check_binary_exists(report: &mut CheckReport, program: &Result<PathFacts, String>)
    ensures
        final(report)@ == program_check(old(report)@, *program),
{
    match program {
        Ok(p) => {
            let built_here = contains_text(p.path.as_str(), "target/debug") || contains_text(
                p.path.as_str(),
                "target/release",
            );
            let message = if !p.exists {
                cat2("current executable does not exist: ", p.path.as_str())
            } else if built_here {
                cat3(
                    "binary is in a build directory: ",
                    p.path.as_str(),
                    " (service may break if binary moves)",
                )
            } else {
                cat2("binary: ", p.path.as_str())
            };
            report.note("binary_exists", Severity::Warning, p.exists && !built_here, message);
        },
        Err(error) => {
            report.note(
                "binary_exists",
                Severity::Warning,
                false,
                cat2("failed to resolve current executable: ", error.as_str()),
            );
        },
    }
}

} // verus!
