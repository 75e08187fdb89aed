//! The tool by which the agent runs a scheduled task at once.
use vstd::prelude::*;

use crate::config::{Config, UserConfig};
use crate::config_tool::{failure, success, OutputView, ToolDef, ToolOutput};
use crate::cron_runner::{
    find_only_task, only_task, CronTriggerResult, CronTriggerStatus, ResultView,
};
use crate::cron_timezone::{find_user, user_named};
use crate::session::{KindView, SessionKind, TrustLevel};
use crate::text::{cat2, cat3, cat4, cat5, decimal, decimal_text, opt_str_view, opt_view, same_text};

verus! {

pub const TRIGGER_DESCRIPTION: &'static str = "Rerun a configured cron job immediately. Use this only when the user explicitly asks to rerun or test a cron. By default it returns the cron's result in the current conversation without sending scheduled delivery messages. Set deliver=true only when the user wants to test the real delivery path.";

pub const TRIGGER_SCHEMA: &'static str = "{\"type\":\"object\",\"properties\":{\"name\":{\"type\":\"string\",\"description\":\"Configured cron name to rerun exactly as defined in coop.toml\"},\"deliver\":{\"type\":\"boolean\",\"description\":\"When true, also use the cron's configured delivery targets (for example Signal). Default: false. Only do this when the user explicitly wants to test or force delivery.\"}},\"required\":[\"name\"]}";

/// The tool, as the model is told of it.
pub fn cron_trigger_definition() -> (r: ToolDef)
    ensures
        r.name@ == "cron_trigger"@,
        r.description@ == TRIGGER_DESCRIPTION@,
        r.parameters@ == TRIGGER_SCHEMA@,
{
    ToolDef {
        name: "cron_trigger",
        description: TRIGGER_DESCRIPTION,
        parameters: TRIGGER_SCHEMA,
    }
}

/// The trust that a task for a user runs with: theirs, or full trust where it
/// is for no one that is known.
pub open spec fn cron_trust(users: Seq<UserConfig>, user: Option<Seq<char>>) -> TrustLevel {
    match user {
        Some(name) => match user_named(users, name) {
            Some(u) => u.trust,
            None => TrustLevel::Full,
        },
        None => TrustLevel::Full,
    }
}

pub fn cron_effective_trust(config: &Config, user_name: Option<&str>) -> (r: TrustLevel)
    ensures
        r == cron_trust(config.users@, opt_str_view(user_name)),
{
    match user_name {
        Some(name) => match find_user(&config.users, name) {
            Some(user) => user.trust,
            None => TrustLevel::Full,
        },
        None => TrustLevel::Full,
    }
}

pub fn trust_label(trust: TrustLevel) -> (r: &'static str)
    ensures
        r@ == trust.name(),
{
    trust.name_text()
}

/// The answer to a request that is not carried out.
pub open spec fn trigger_refusal(
    config: Config,
    name: Seq<char>,
    trust: TrustLevel,
    kind: KindView,
) -> Option<OutputView> {
    if trust.rank() > TrustLevel::Inner.rank() {
        Some(failure("cron_trigger requires Full or Inner trust level"@))
    } else if kind is Cron {
        Some(failure("cron_trigger cannot be used from a cron session"@))
    } else {
        match only_task(config.cron@, name) {
            Err(e) => Some(failure(e)),
            Ok(i) => {
                let owed = cron_trust(config.users@, opt_view(config.cron@[i].user));
                if trust.rank() > owed.rank() {
                    Some(
                        failure(
                            "cron_trigger cannot run cron '"@ + name
                                + "' because it executes with "@ + owed.name()
                                + " trust, but this session only has "@ + trust.name() + " trust"@,
                        ),
                    )
                } else {
                    None
                }
            },
        }
    }
}

/// Decides whether a task is run for a caller.
pub fn check_cron_trigger(config: &Config, name: &str, trust: TrustLevel, kind: &SessionKind) -> (r:
    Option<ToolOutput>)
    ensures
        match r {
            Some(o) => trigger_refusal(*config, name@, trust, kind@) == Some(o@),
            None => trigger_refusal(*config, name@, trust, kind@) is None,
        },
{
    if trust.level() > TrustLevel::Inner.level() {
        return Some(
            ToolOutput::error("cron_trigger requires Full or Inner trust level".to_owned()),
        );
    }
    if let SessionKind::Cron(_) = kind {
        return Some(
            ToolOutput::error("cron_trigger cannot be used from a cron session".to_owned()),
        );
    }
    let place = match find_only_task(&config.cron, name) {
        Ok(place) => place,
        Err(error) => return Some(ToolOutput::error(error)),
    };
    let user = crate::check_people::borrow_text(&config.cron[place].user);
    let owed = cron_effective_trust(config, user);
    if trust.level() > owed.level() {
        return Some(
            ToolOutput::error(
                cat3(
                    cat5(
                        "cron_trigger cannot run cron '",
                        name,
                        "' because it executes with ",
                        trust_label(owed),
                        " trust, but this session only has ",
                    ).as_str(),
                    trust_label(trust),
                    " trust",
                ),
            ),
        );
    }
    None
}

pub open spec fn response_of(r: ResultView) -> Seq<char> {
    match r.response {
        Some(s) => s,
        None => Seq::empty(),
    }
}

/// What the caller is told of a run.
pub open spec fn trigger_answer(r: ResultView, deliver_requested: bool) -> OutputView {
    match r.status {
        CronTriggerStatus::Completed => success(
            if !deliver_requested {
                "Cron '"@ + r.cron_name + "' completed.\n\n"@ + response_of(r)
            } else if r.delivered_to > 0 {
                "Cron '"@ + r.cron_name + "' completed and delivered to "@
                    + decimal(r.delivered_to as nat) + " target(s).\n\n"@ + response_of(r)
            } else if r.attempted_to > 0 {
                "Cron '"@ + r.cron_name + "' completed, but delivery failed for all "@
                    + decimal(r.attempted_to as nat) + " target(s).\n\n"@ + response_of(r)
            } else {
                "Cron '"@ + r.cron_name + "' completed, but no delivery targets were resolved.\n\n"@
                    + response_of(r)
            },
        ),
        CronTriggerStatus::CompletedEmpty => success(
            "Cron '"@ + r.cron_name + "' completed, but it returned an empty response."@,
        ),
        CronTriggerStatus::Suppressed => success(
            "Cron '"@ + r.cron_name
                + "' ran, but delivery was suppressed because no action was needed."@,
        ),
        CronTriggerStatus::SkippedHeartbeat => success(
            "Cron '"@ + r.cron_name + "' was skipped because HEARTBEAT.md is empty."@,
        ),
        CronTriggerStatus::Busy => failure("Cron '"@ + r.cron_name + "' is already running."@),
    }
}

/// Tells the caller of a run.
pub fn format_result(r: &CronTriggerResult, deliver_requested: bool) -> (o: ToolOutput)
    ensures
        o@ == trigger_answer(r@, deliver_requested),
{
    let response = match &r.response {
        Some(s) => s.clone(),
        None => String::new(),
    };
    assert(response@ =~= response_of(r@));
    match r.status {
        CronTriggerStatus::Completed => {
            let text = if !deliver_requested {
                cat4("Cron '", r.cron_name.as_str(), "' completed.\n\n", response.as_str())
            } else if r.delivered_to > 0 {
                cat2(
                    cat5(
                        "Cron '",
                        r.cron_name.as_str(),
                        "' completed and delivered to ",
                        decimal_text(r.delivered_to as u64).as_str(),
                        " target(s).\n\n",
                    ).as_str(),
                    response.as_str(),
                )
            } else if r.attempted_to > 0 {
                cat2(
                    cat5(
                        "Cron '",
                        r.cron_name.as_str(),
                        "' completed, but delivery failed for all ",
                        decimal_text(r.attempted_to as u64).as_str(),
                        " target(s).\n\n",
                    ).as_str(),
                    response.as_str(),
                )
            } else {
                cat4(
                    "Cron '",
                    r.cron_name.as_str(),
                    "' completed, but no delivery targets were resolved.\n\n",
                    response.as_str(),
                )
            };
            ToolOutput::success(text)
        },
        CronTriggerStatus::CompletedEmpty => ToolOutput::success(
            cat3("Cron '", r.cron_name.as_str(), "' completed, but it returned an empty response."),
        ),
        CronTriggerStatus::Suppressed => ToolOutput::success(
            cat3(
                "Cron '",
                r.cron_name.as_str(),
                "' ran, but delivery was suppressed because no action was needed.",
            ),
        ),
        CronTriggerStatus::SkippedHeartbeat => ToolOutput::success(
            cat3("Cron '", r.cron_name.as_str(), "' was skipped because HEARTBEAT.md is empty."),
        ),
        CronTriggerStatus::Busy => ToolOutput::error(
            cat3("Cron '", r.cron_name.as_str(), "' is already running."),
        ),
    }
}

/// The answer to a call of a tool of another name.
pub fn unknown_cron_tool(name: &str) -> (r: Option<ToolOutput>)
    ensures
        match r {
            Some(o) => name@ != "cron_trigger"@ && o@ == failure("unknown tool: "@ + name@),
            None => name@ == "cron_trigger"@,
        },
{
    if same_text(name, "cron_trigger") {
        None
    } else {
        Some(ToolOutput::error(cat2("unknown tool: ", name)))
    }
}

/// No caller sets off a task that runs with more trust than they have.
pub proof fn triggers_do_not_raise_trust(
    config: Config,
    name: Seq<char>,
    trust: TrustLevel,
    kind: KindView,
)
    requires
        trigger_refusal(config, name, trust, kind) is None,
    ensures
        only_task(config.cron@, name) matches Ok(i) && trust.rank() <= cron_trust(
            config.users@,
            opt_view(config.cron@[i].user),
        ).rank(),
        trust.rank() <= TrustLevel::Inner.rank(),
        !(kind is Cron),
{
}

} // verus!
