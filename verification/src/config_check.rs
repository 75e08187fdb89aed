//! The check of a whole configuration.
use vstd::prelude::*;

use crate::check_cron::{
    check_binary_exists, check_cron, check_web_tools, cron_checks, program_check, web_checks,
};
use crate::check_memory::{
    check_memory, check_prompt, check_subagents, check_workspace_files, memory_checks,
    prompt_checks, subagent_checks, workspace_checks,
};
use crate::check_models::{
    alias_checks, check_model_aliases, check_provider_config, provider_config_checks,
};
use crate::check_parts::Facts;
use crate::check_people::{
    check_groups, check_sandbox, check_users, group_checks, sandbox_checks, user_checks,
};
use crate::check_report::{any_failed, noted, CheckReport, CheckView, Severity};
use crate::config::Config;
use crate::text::{cat2, cat5, decimal, decimal_text};

verus! {

/// What is reported where the configuration cannot be read.
pub open spec fn unread_report(error: Seq<char>) -> Seq<CheckView> {
    noted(Seq::empty(), "toml_parse"@, Severity::Error, false, error)
}

/// What is reported of the agent's own settings.
pub open spec fn agent_checks(checks: Seq<CheckView>, c: Config) -> Seq<CheckView> {
    let named = c.agent.id@.len() > 0 && c.agent.model@.len() > 0;
    let limited = c.agent.context_limit != Some(0usize);
    let a = noted(
        checks,
        "required_fields"@,
        Severity::Error,
        named,
        if named {
            "agent.id='"@ + c.agent.id@ + "', agent.model='"@ + c.agent.model@ + "'"@
        } else {
            "agent.id and agent.model must be non-empty"@
        },
    );
    noted(
        a,
        "agent_context_limit"@,
        Severity::Error,
        limited,
        if limited {
            match c.agent.context_limit {
                None => "agent.context_limit: auto-detect"@,
                Some(limit) => "agent.context_limit: "@ + decimal(limit as nat),
            }
        } else {
            "agent.context_limit must be > 0 when set"@
        },
    )
}

fn check_agent(report: &mut CheckReport, c: &Config)
    ensures
        final(report)@ == agent_checks(old(report)@, *c),
{
    let named = !c.agent.id.as_str().is_empty() && !c.agent.model.as_str().is_empty();
    let message = if named {
        cat5("agent.id='", c.agent.id.as_str(), "', agent.model='", c.agent.model.as_str(), "'")
    } else {
        "agent.id and agent.model must be non-empty".to_owned()
    };
    report.note("required_fields", Severity::Error, named, message);
    match c.agent.context_limit {
        None => {
            report.note(
                "agent_context_limit",
                Severity::Error,
                true,
                "agent.context_limit: auto-detect".to_owned(),
            );
        },
        Some(limit) => if limit > 0 {
            report.note(
                "agent_context_limit",
                Severity::Error,
                true,
                cat2("agent.context_limit: ", decimal_text(limit as u64).as_str()),
            );
        } else {
            report.note(
                "agent_context_limit",
                Severity::Error,
                false,
                "agent.context_limit must be > 0 when set".to_owned(),
            );
        },
    }
}

pub open spec fn workspace_check(checks: Seq<CheckView>, f: Facts) -> Seq<CheckView> {
    match f.workspace {
        Ok(path) => noted(
            checks,
            "workspace_exists"@,
            Severity::Error,
            true,
            "workspace: "@ + path@,
        ),
        Err(error) => noted(checks, "workspace_exists"@, Severity::Error, false, error@),
    }
}

fn check_workspace(report: &mut CheckReport, f: &Facts)
    ensures
        final(report)@ == workspace_check(old(report)@, *f),
{
    match &f.workspace {
        Ok(path) => {
            report.note("workspace_exists", Severity::Error, true, cat2(
                "workspace: ",
                path.as_str(),
            ));
        },
        Err(error) => {
            report.note("workspace_exists", Severity::Error, false, error.clone());
        },
    }
}

/// What is reported of what lies in the workspace.
pub open spec fn contents_checks(checks: Seq<CheckView>, f: Facts) -> Seq<CheckView> {
    if f.workspace is Err {
        checks
    } else {
        let a = workspace_checks(checks, f.scan);
        if f.bootstrap_pending {
            noted(
                a,
                "bootstrap_pending"@,
                Severity::Info,
                false,
                "Bootstrap conversation pending — run `coop chat` to personalize your agent."@,
            )
        } else {
            a
        }
    }
}

fn check_contents(report: &mut CheckReport, f: &Facts)
    ensures
        final(report)@ == contents_checks(old(report)@, *f),
{
    if f.workspace.is_err() {
        return;
    }
    check_workspace_files(report, &f.scan);
    if f.bootstrap_pending {
        report.note(
            "bootstrap_pending",
            Severity::Info,
            false,
            "Bootstrap conversation pending — run `coop chat` to personalize your agent.".to_owned(),
        );
    }
}

/// What is reported of the Signal channel.
pub open spec fn signal_check(checks: Seq<CheckView>, c: Config, f: Facts) -> Seq<CheckView> {
    if c.channels.signal is None {
        checks
    } else {
        noted(
            checks,
            "signal_channel"@,
            Severity::Warning,
            f.signal_db.exists,
            if f.signal_db.exists {
                "signal db: "@ + f.signal_db.path@
            } else {
                "signal db not found: "@ + f.signal_db.path@
            },
        )
    }
}

fn check_signal(report: &mut CheckReport, c: &Config, f: &Facts)
    ensures
        final(report)@ == signal_check(old(report)@, *c, *f),
{
    if c.channels.signal.is_some() {
        let message = if f.signal_db.exists {
            cat2("signal db: ", f.signal_db.path.as_str())
        } else {
            cat2("signal db not found: ", f.signal_db.path.as_str())
        };
        report.note("signal_channel", Severity::Warning, f.signal_db.exists, message);
    }
}

/// The report on a configuration that can be read.
pub open spec fn full_report(c: Config, f: Facts) -> Seq<CheckView> {
    let parsed = noted(
        Seq::empty(),
        "toml_parse"@,
        Severity::Error,
        true,
        "config syntax valid"@,
    );
    let a = workspace_check(agent_checks(parsed, c), f);
    let b = provider_config_checks(alias_checks(a, c, f), c, f);
    let d = subagent_checks(prompt_checks(memory_checks(b, c, f), c.prompt), c, f);
    let e = user_checks(sandbox_checks(contents_checks(d, f), c, f.sandbox), c, f);
    let g = group_checks(signal_check(e, c, f), c, f);
    program_check(web_checks(cron_checks(g, c, f), c.web), f.program)
}

/// Checks a configuration against the facts about it, or says why it could not
/// be read.
pub fn validate_config(config: Result<(&Config, &Facts), &str>) -> (report: CheckReport)
    requires
        config matches Ok(read) ==> read.1.fits(*read.0),
    ensures
        match config {
            Ok(read) => report@ == full_report(*read.0, *read.1),
            Err(error) => report@ == unread_report(error@),
        },
{
    let mut report = CheckReport::new();
    let (c, facts) = match config {
        Ok(read) => read,
        Err(error) => {
            report.note("toml_parse", Severity::Error, false, error.to_owned());
            return report;
        },
    };
    report.note("toml_parse", Severity::Error, true, "config syntax valid".to_owned());
    check_agent(&mut report, c);
    check_workspace(&mut report, facts);
    check_model_aliases(&mut report, c, facts);
    check_provider_config(&mut report, c, facts);
    check_memory(&mut report, c, facts);
    check_prompt(&mut report, &c.prompt);
    check_subagents(&mut report, c, facts);
    check_contents(&mut report, facts);
    check_sandbox(&mut report, c, &facts.sandbox);
    check_users(&mut report, c, facts);
    check_signal(&mut report, c, facts);
    check_groups(&mut report, c, facts);
    check_cron(&mut report, c, facts);
    check_web_tools(&mut report, &c.web);
    check_binary_exists(&mut report, &facts.program);
    report
}

/// A configuration that cannot be read is an error.
pub proof fn unread_config_is_an_error(error: Seq<char>)
    ensures
        any_failed(unread_report(error), Severity::Error),
{
    assert(crate::check_report::failed(unread_report(error)[0], Severity::Error));
}

} // verus!
