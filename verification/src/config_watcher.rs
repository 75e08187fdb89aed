//! When a changed configuration file takes effect.
use vstd::prelude::*;

use crate::check_report::{failed, CheckReport, CheckResult, CheckView, Severity};
use crate::config::{
    eq_channels_config, eq_config, eq_cron_config_list, eq_memory_prompt_index_config,
    eq_memory_retention_config, eq_opt_memory_embedding_config, eq_prompt_config,
    eq_user_config_list, same_channels_config, same_config, same_cron_config_list,
    same_memory_prompt_index_config, same_memory_retention_config, same_opt_memory_embedding_config,
    same_prompt_config, same_user_config_list, Config, CronConfig,
};
use crate::text::{cat3, same_text, views};

verus! {

/// The milliseconds between two looks at the file.
pub const POLL_INTERVAL_MS: u64 = 2000;

/// The milliseconds for which a changed file is left alone, as editors often
/// write a file several times in quick succession.
pub const DEBOUNCE_MS: u64 = 200;

/// A list of fields, with one more where it differs.
pub open spec fn with_field(list: Seq<Seq<char>>, differs: bool, field: Seq<char>) -> Seq<
    Seq<char>,
> {
    if differs {
        list.push(field)
    } else {
        list
    }
}

pub open spec fn str_views(v: Seq<&'static str>) -> Seq<Seq<char>> {
    v.map(|i: int, s: &'static str| s@)
}

fn add_field(list: &mut Vec<&'static str>, differs: bool, field: &'static str)
    ensures
        str_views(final(list)@) == with_field(str_views(old(list)@), differs, field@),
{
    if differs {
        list.push(field);
        assert(str_views(list@) =~= str_views(old(list)@).push(field@));
    }
}

/// The fields that differ and are read only at the start.
pub open spec fn restart_fields(current: Config, new: Config) -> Seq<Seq<char>> {
    let a = with_field(Seq::empty(), new.agent.id@ != current.agent.id@, "agent.id"@);
    let b = with_field(
        a,
        new.agent.workspace@ != current.agent.workspace@,
        "agent.workspace"@,
    );
    let c = with_field(b, new.provider.name@ != current.provider.name@, "provider.name"@);
    let d = with_field(c, !eq_channels_config(new.channels, current.channels), "channels"@);
    let e = with_field(d, new.memory.db_path@ != current.memory.db_path@, "memory.db_path"@);
    with_field(
        e,
        !eq_opt_memory_embedding_config(new.memory.embedding, current.memory.embedding),
        "memory.embedding"@,
    )
}

/// The fields that differ and take effect only at the next start, where there
/// are any.
pub fn check_restart_only_fields(current: &Config, new: &Config) -> (r: Option<Vec<&'static str>>)
    ensures
        match r {
            Some(v) => v@.len() > 0 && str_views(v@) == restart_fields(*current, *new),
            None => restart_fields(*current, *new).len() == 0,
        },
{
    let mut reasons: Vec<&'static str> = Vec::new();
    assert(str_views(reasons@) =~= Seq::<Seq<char>>::empty());
    add_field(
        &mut reasons,
        !same_text(new.agent.id.as_str(), current.agent.id.as_str()),
        "agent.id",
    );
    add_field(
        &mut reasons,
        !same_text(new.agent.workspace.as_str(), current.agent.workspace.as_str()),
        "agent.workspace",
    );
    add_field(
        &mut reasons,
        !same_text(new.provider.name.as_str(), current.provider.name.as_str()),
        "provider.name",
    );
    add_field(&mut reasons, !same_channels_config(&new.channels, &current.channels), "channels");
    add_field(
        &mut reasons,
        !same_text(new.memory.db_path.as_str(), current.memory.db_path.as_str()),
        "memory.db_path",
    );
    add_field(
        &mut reasons,
        !same_opt_memory_embedding_config(&new.memory.embedding, &current.memory.embedding),
        "memory.embedding",
    );
    assert(str_views(reasons@).len() == reasons@.len());
    if reasons.len() == 0 {
        None
    } else {
        Some(reasons)
    }
}

/// The sections that differ.
pub open spec fn changed_sections(current: Config, new: Config) -> Seq<Seq<char>> {
    let a = with_field(
        Seq::empty(),
        !eq_user_config_list(new.users@, current.users@),
        "users"@,
    );
    let b = with_field(a, new.agent.model@ != current.agent.model@, "agent.model"@);
    let c = with_field(
        b,
        !eq_memory_prompt_index_config(new.memory.prompt_index, current.memory.prompt_index),
        "memory.prompt_index"@,
    );
    let d = with_field(
        c,
        !eq_memory_retention_config(new.memory.retention, current.memory.retention),
        "memory.retention"@,
    );
    let e = with_field(d, !eq_prompt_config(new.prompt, current.prompt), "prompt"@);
    with_field(e, !eq_cron_config_list(new.cron@, current.cron@), "cron"@)
}

/// Which sections differ.
pub fn diff_sections(current: &Config, new: &Config) -> (r: Vec<&'static str>)
    ensures
        str_views(r@) == changed_sections(*current, *new),
{
    let mut changed: Vec<&'static str> = Vec::new();
    assert(str_views(changed@) =~= Seq::<Seq<char>>::empty());
    add_field(&mut changed, !same_user_config_list(&new.users, &current.users), "users");
    add_field(
        &mut changed,
        !same_text(new.agent.model.as_str(), current.agent.model.as_str()),
        "agent.model",
    );
    add_field(
        &mut changed,
        !same_memory_prompt_index_config(&new.memory.prompt_index, &current.memory.prompt_index),
        "memory.prompt_index",
    );
    add_field(
        &mut changed,
        !same_memory_retention_config(&new.memory.retention, &current.memory.retention),
        "memory.retention",
    );
    add_field(&mut changed, !same_prompt_config(&new.prompt, &current.prompt), "prompt");
    add_field(&mut changed, !same_cron_config_list(&new.cron, &current.cron), "cron");
    changed
}

/// Whether a failed check bars a reload. The environment was checked at the
/// start, and a changed file cannot change it.
pub open spec fn bars_reload(c: CheckView) -> bool {
    failed(c, Severity::Error) && c.name != "api_key_present"@ && c.name
        != "memory_embedding_api_key"@
}

fn is_barring(c: &CheckResult) -> (r: bool)
    ensures
        r == bars_reload(c@),
{
    !c.passed && c.severity == Severity::Error && !same_text(c.name, "api_key_present")
        && !same_text(c.name, "memory_embedding_api_key")
}

/// The errors, among the first `n` outcomes, that bar a reload.
pub open spec fn reload_errors(checks: Seq<CheckView>, n: int) -> Seq<Seq<char>>
    decreases n,
{
    if n <= 0 {
        Seq::empty()
    } else {
        let before = reload_errors(checks, n - 1);
        let c = checks[n - 1];
        if bars_reload(c) {
            before.push(c.name + ": "@ + c.message)
        } else {
            before
        }
    }
}

fn find_reload_errors(report: &CheckReport) -> (r: Vec<String>)
    ensures
        views(r@) == reload_errors(report@, report@.len() as int),
{
    let mut out: Vec<String> = Vec::new();
    assert(views(out@) =~= Seq::<Seq<char>>::empty());
    for i in 0..report.results.len()
        invariant
            views(out@) == reload_errors(report@, i as int),
    {
        let c = &report.results[i];
        assert(report@[i as int] == c@);
        if is_barring(c) {
            let line = cat3(c.name, ": ", c.message.as_str());
            let ghost was = out@;
            out.push(line);
            assert(views(out@) =~= views(was).push(line@));
        }
    }
    out
}

/// What becomes of a changed file.
#[derive(Clone, Debug, PartialEq, Eq)]
pub enum Reload {
    /// It cannot be read.
    Unreadable,
    /// It has errors.
    Invalid { errors: Vec<String> },
    /// It changes what is read only at the start.
    NeedsRestart { fields: Vec<&'static str> },
    /// It says what is in force already.
    Unchanged,
    /// It takes effect.
    Apply { changed: Vec<&'static str> },
}

/// Decides what becomes of a changed file: it takes effect where it can be
/// read, has no errors but such as the environment makes, changes nothing that
/// is read only at the start, and says something new.
pub fn try_reload(current: &Config, new: Option<&Config>, report: &CheckReport) -> (r: Reload)
    ensures
        match new {
            None => r is Unreadable,
            Some(n) => {
                let errors = reload_errors(report@, report@.len() as int);
                let fields = restart_fields(*current, *n);
                if errors.len() > 0 {
                    r matches Reload::Invalid { errors: e } && views(e@) == errors
                } else if fields.len() > 0 {
                    r matches Reload::NeedsRestart { fields: f } && str_views(f@) == fields
                } else if eq_config(*current, *n) {
                    r is Unchanged
                } else {
                    r matches Reload::Apply { changed } && str_views(changed@) == changed_sections(
                        *current,
                        *n,
                    )
                }
            },
        },
{
    let n = match new {
        Some(n) => n,
        None => return Reload::Unreadable,
    };
    let errors = find_reload_errors(report);
    assert(views(errors@).len() == errors@.len());
    if errors.len() > 0 {
        return Reload::Invalid { errors };
    }
    if let Some(fields) = check_restart_only_fields(current, n) {
        assert(str_views(fields@).len() == fields@.len());
        return Reload::NeedsRestart { fields };
    }
    if same_config(current, n) {
        return Reload::Unchanged;
    }
    Reload::Apply { changed: diff_sections(current, n) }
}

/// Whether the scheduler is woken after a look at the file: exactly where the
/// scheduled tasks changed.
pub fn wakes_scheduler(before: &Vec<CronConfig>, now: &Config) -> (r: bool)
    ensures
        r == !eq_cron_config_list(now.cron@, before@),
{
    !same_cron_config_list(&now.cron, before)
}

/// Remembers what the file held when it was last looked at, by a hash of it.
#[derive(Clone, Copy, Debug, PartialEq, Eq)]
pub struct ConfigWatch {
    pub last_hash: u64,
}

impl ConfigWatch {
    pub fn new(hash: u64) -> (r: ConfigWatch)
        ensures
            r.last_hash == hash,
    {
        ConfigWatch { last_hash: hash }
    }

    /// Whether the file changed since it was last looked at.
    pub fn changed(&self, hash: u64) -> (r: bool)
        ensures
            r == (hash != self.last_hash),
    {
        hash != self.last_hash
    }

    /// Notes what the file holds once it has been left alone for a while.
    pub fn settle(&mut self, hash: u64)
        ensures
            final(self).last_hash == hash,
    {
        self.last_hash = hash;
    }
}

/// A reload leaves the fields alone that are read only at the start.
pub proof fn reload_keeps_restart_fields(current: Config, new: Config)
    requires
        restart_fields(current, new).len() == 0,
    ensures
        new.agent.id@ == current.agent.id@,
        new.agent.workspace@ == current.agent.workspace@,
        new.provider.name@ == current.provider.name@,
        eq_channels_config(new.channels, current.channels),
        new.memory.db_path@ == current.memory.db_path@,
        eq_opt_memory_embedding_config(new.memory.embedding, current.memory.embedding),
{
}

/// Where no sections differ, neither do users, tasks, prompt files, the model
/// or the memory's index and retention.
pub proof fn no_sections_no_change(current: Config, new: Config)
    requires
        changed_sections(current, new).len() == 0,
    ensures
        eq_user_config_list(new.users@, current.users@),
        eq_cron_config_list(new.cron@, current.cron@),
        eq_prompt_config(new.prompt, current.prompt),
        new.agent.model@ == current.agent.model@,
        eq_memory_prompt_index_config(new.memory.prompt_index, current.memory.prompt_index),
        eq_memory_retention_config(new.memory.retention, current.memory.retention),
{
}

/// A report whose only errors come from missing keys bars no reload.
pub proof fn missing_keys_bar_no_reload(checks: Seq<CheckView>, n: int)
    requires
        0 <= n <= checks.len(),
        forall|i: int|
            0 <= i < checks.len() && failed(#[trigger] checks[i], Severity::Error) ==> checks[i].name
                == "api_key_present"@ || checks[i].name == "memory_embedding_api_key"@,
    ensures
        reload_errors(checks, n).len() == 0,
    decreases n,
{
    if n > 0 {
        missing_keys_bar_no_reload(checks, n - 1);
        assert(failed(checks[n - 1], Severity::Error) ==> !bars_reload(checks[n - 1]));
    }
}

} // verus!
