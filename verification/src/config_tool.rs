//! The tools by which the agent reads and writes its own configuration, and
//! who may change what.
use vstd::prelude::*;

use crate::check_parts::{bool_text, bool_word};
use crate::check_report::{any_failed, summary, CheckReport, Severity};
use crate::config::{
    eq_opt_sandbox_overrides, eq_prompt_config, eq_sandbox_config, same_opt_sandbox_overrides,
    same_prompt_config, Config, CronConfig, SandboxConfig, SandboxOverrides, UserConfig,
};
use crate::cron_timezone::user_named;
use crate::json::{json_string, string_member};
use crate::session::TrustLevel;
use crate::text::{cat2, cat3, cat4, cat5, opt_str_view, same_text, same_texts, views};

verus! {

/// What a tool answers.
#[derive(Clone, Debug, PartialEq, Eq)]
pub struct ToolOutput {
    pub content: String,
    pub is_error: bool,
}

#[verifier::ext_equal]
pub struct OutputView {
    pub content: Seq<char>,
    pub is_error: bool,
}

impl View for ToolOutput {
    type V = OutputView;

    open spec fn view(&self) -> OutputView {
        OutputView { content: self.content@, is_error: self.is_error }
    }
}

pub open spec fn success(content: Seq<char>) -> OutputView {
    OutputView { content, is_error: false }
}

pub open spec fn failure(content: Seq<char>) -> OutputView {
    OutputView { content, is_error: true }
}

impl ToolOutput {
    pub fn success(content: String) -> (r: ToolOutput)
        ensures
            r@ == success(content@),
    {
        ToolOutput { content, is_error: false }
    }

    pub fn error(content: String) -> (r: ToolOutput)
        ensures
            r@ == failure(content@),
    {
        ToolOutput { content, is_error: true }
    }
}

/// A tool as the model is told of it, its parameters as a JSON schema.
#[derive(Clone, Copy, Debug, PartialEq, Eq)]
pub struct ToolDef {
    pub name: &'static str,
    pub description: &'static str,
    pub parameters: &'static str,
}

pub const READ_SCHEMA: &'static str = "{\"type\":\"object\",\"properties\":{}}";

pub const WRITE_SCHEMA: &'static str = "{\"type\":\"object\",\"properties\":{\"content\":{\"type\":\"string\",\"description\":\"Complete TOML content for coop.toml. Must be the full file — not a patch or partial update. The content is validated before writing. If validation fails, the file is not modified.\"}},\"required\":[\"content\"]}";

/// The entries of a name among the users, in their order.
pub open spec fn entries_of(users: Seq<UserConfig>, name: Seq<char>) -> Seq<UserConfig>
    decreases users.len(),
{
    if users.len() == 0 {
        Seq::empty()
    } else if users[0].name@ == name {
        seq![users[0]] + entries_of(users.skip(1), name)
    } else {
        entries_of(users.skip(1), name)
    }
}

/// A name with an entry is the name of a user in the list.
proof fn entry_stands(users: Seq<UserConfig>, name: Seq<char>)
    requires
        entries_of(users, name).len() > 0,
    ensures
        exists|i: int| 0 <= i < users.len() && (#[trigger] users[i]).name@ == name,
    decreases users.len(),
{
    if users[0].name@ != name {
        let rest = users.skip(1);
        entry_stands(rest, name);
        let i = choose|i: int| 0 <= i < rest.len() && (#[trigger] rest[i]).name@ == name;
        assert(users[i + 1] == rest[i]);
    }
}

/// The first entry of a name is the user that the name stands for.
proof fn first_entry_is_named(users: Seq<UserConfig>, name: Seq<char>)
    ensures
        user_named(users, name) == (if entries_of(users, name).len() > 0 {
            Some(entries_of(users, name)[0])
        } else {
            None
        }),
    decreases users.len(),
{
    if users.len() > 0 && users[0].name@ != name {
        first_entry_is_named(users.skip(1), name);
    }
}

fn find_entries<'a>(users: &'a Vec<UserConfig>, name: &str) -> (r: Vec<&'a UserConfig>)
    ensures
        r@.len() == entries_of(users@, name@).len(),
        forall|k: int| 0 <= k < r@.len() ==> *(#[trigger] r@[k]) == entries_of(users@, name@)[k],
{
    let mut out: Vec<&'a UserConfig> = Vec::new();
    let ghost mut found = Seq::<UserConfig>::empty();
    assert(users@.skip(0) =~= users@);
    for i in 0..users.len()
        invariant
            found + entries_of(users@.skip(i as int), name@) == entries_of(users@, name@),
            out@.len() == found.len(),
            forall|k: int| 0 <= k < out@.len() ==> *(#[trigger] out@[k]) == found[k],
    {
        let ghost rest = users@.skip(i as int);
        let ghost later = entries_of(users@.skip(i + 1), name@);
        assert(rest.skip(1) =~= users@.skip(i + 1));
        assert(rest[0] == users@[i as int]);
        if same_text(users[i].name.as_str(), name) {
            out.push(&users[i]);
            proof {
                assert(found + (seq![rest[0]] + later) =~= found.push(rest[0]) + later);
                found = found.push(rest[0]);
            }
        }
    }
    assert(entries_of(users@.skip(users@.len() as int), name@) =~= Seq::empty());
    out
}

/// Whether a name has more entries in the second list than in the first.
pub open spec fn appears(before: Seq<UserConfig>, after: Seq<UserConfig>, name: Seq<char>) -> bool {
    entries_of(before, name).len() < entries_of(after, name).len()
}

pub open spec fn some_appears(before: Seq<UserConfig>, after: Seq<UserConfig>) -> bool {
    exists|name: Seq<char>| appears(before, after, name)
}

/// Finds a user of whose name the second list has more entries.
fn find_appearing<'a>(before: &Vec<UserConfig>, after: &'a Vec<UserConfig>) -> (r: Option<
    &'a UserConfig,
>)
    ensures
        match r {
            Some(u) => appears(before@, after@, u.name@),
            None => !some_appears(before@, after@),
        },
{
    for i in 0..after.len()
        invariant
            forall|j: int| 0 <= j < i ==> !appears(before@, after@, (#[trigger] after@[j]).name@),
    {
        let name = after[i].name.as_str();
        if find_entries(before, name).len() < find_entries(after, name).len() {
            return Some(&after[i]);
        }
    }
    proof {
        assert forall|name: Seq<char>| !appears(before@, after@, name) by {
            if entries_of(after@, name).len() > 0 {
                entry_stands(after@, name);
            }
        }
    }
    None
}

/// Why a user who is not the owner may not change a user's entry.
pub open spec fn user_change(name: Seq<char>, c: UserConfig, p: UserConfig) -> Option<Seq<char>> {
    if p.trust != c.trust {
        Some(
            "cannot change trust for user '"@ + name + "' from "@ + c.trust.name() + " to "@
                + p.trust.name() + " — only Owner can modify trust levels"@,
        )
    } else if views(p.match_patterns@) != views(c.match_patterns@) {
        Some(
            "cannot change match rules for user '"@ + name
                + "' — only Owner can modify user identity matching"@,
        )
    } else if !eq_opt_sandbox_overrides(p.sandbox, c.sandbox) {
        Some(
            "cannot change sandbox overrides for user '"@ + name
                + "' — only Owner can modify sandbox settings"@,
        )
    } else {
        None
    }
}

fn find_user_change(name: &str, c: &UserConfig, p: &UserConfig) -> (r: Option<String>)
    ensures
        crate::text::opt_view(r) == user_change(name@, *c, *p),
{
    if p.trust != c.trust {
        Some(
            cat3(
                cat5(
                    "cannot change trust for user '",
                    name,
                    "' from ",
                    c.trust.name_text(),
                    " to ",
                ).as_str(),
                p.trust.name_text(),
                " — only Owner can modify trust levels",
            ),
        )
    } else if !same_texts(&p.match_patterns, &c.match_patterns) {
        Some(
            cat3(
                "cannot change match rules for user '",
                name,
                "' — only Owner can modify user identity matching",
            ),
        )
    } else if !same_opt_sandbox_overrides(&p.sandbox, &c.sandbox) {
        Some(
            cat3(
                "cannot change sandbox overrides for user '",
                name,
                "' — only Owner can modify sandbox settings",
            ),
        )
    } else {
        None
    }
}

/// What changes first among the entries of a name, from the `k`-th on.
pub open spec fn entry_change(
    name: Seq<char>,
    before: Seq<UserConfig>,
    after: Seq<UserConfig>,
    k: int,
) -> Option<Seq<char>>
    decreases after.len() - k,
{
    if k < 0 || k >= before.len() || k >= after.len() {
        None
    } else {
        match user_change(name, before[k], after[k]) {
            Some(reason) => Some(reason),
            None => entry_change(name, before, after, k + 1),
        }
    }
}

/// What changes of the entries of a name that both lists have.
pub open spec fn change_of(before: Seq<UserConfig>, after: Seq<UserConfig>, name: Seq<char>) -> Option<
    Seq<char>,
> {
    entry_change(name, entries_of(before, name), entries_of(after, name), 0)
}

fn find_change_of(before: &Vec<UserConfig>, after: &Vec<UserConfig>, name: &str) -> (r: Option<
    String,
>)
    ensures
        crate::text::opt_view(r) == change_of(before@, after@, name@),
{
    let old_entries = find_entries(before, name);
    let new_entries = find_entries(after, name);
    let ghost b = entries_of(before@, name@);
    let ghost a = entries_of(after@, name@);
    let mut k: usize = 0;
    while k < old_entries.len() && k < new_entries.len()
        invariant
            k <= old_entries@.len(),
            k <= new_entries@.len(),
            b == entries_of(before@, name@),
            a == entries_of(after@, name@),
            b.len() == old_entries@.len(),
            a.len() == new_entries@.len(),
            forall|i: int| 0 <= i < b.len() ==> *(#[trigger] old_entries@[i]) == b[i],
            forall|i: int| 0 <= i < a.len() ==> *(#[trigger] new_entries@[i]) == a[i],
            entry_change(name@, b, a, 0) == entry_change(name@, b, a, k as int),
        decreases new_entries.len() - k,
    {
        if let Some(reason) = find_user_change(name, old_entries[k], new_entries[k]) {
            return Some(reason);
        }
        k += 1;
    }
    None
}

pub open spec fn some_change(before: Seq<UserConfig>, after: Seq<UserConfig>) -> bool {
    exists|name: Seq<char>| #[trigger] change_of(before, after, name) is Some
}

/// Whether a text says why a change of the users is refused. Where several
/// users are added, removed or changed it may speak of any of them; that some
/// are added is said before that some are removed, and that before changes.
/// A name may have several entries: one more of them adds a user, and one less
/// removes one.
pub open spec fn user_reason(
    before: Seq<UserConfig>,
    after: Seq<UserConfig>,
    reason: Seq<char>,
) -> bool {
    if some_appears(before, after) {
        exists|name: Seq<char>| #[trigger]
            appears(before, after, name) && reason
                == "cannot add user '"@ + name + "' — only Owner can add users"@
    } else if some_appears(after, before) {
        exists|name: Seq<char>| #[trigger]
            appears(after, before, name) && reason
                == "cannot remove user '"@ + name + "' — only Owner can remove users"@
    } else {
        exists|name: Seq<char>| #[trigger] change_of(before, after, name) == Some(reason)
    }
}

pub open spec fn users_differ(before: Seq<UserConfig>, after: Seq<UserConfig>) -> bool {
    some_appears(before, after) || some_appears(after, before) || some_change(before, after)
}

/// Why the users may not be changed so, where they are changed.
pub fn check_user_changes(current: &Config, proposed: &Config) -> (r: Option<String>)
    ensures
        match r {
            Some(reason) => users_differ(current.users@, proposed.users@) && user_reason(
                current.users@,
                proposed.users@,
                reason@,
            ),
            None => !users_differ(current.users@, proposed.users@),
        },
{
    let before = &current.users;
    let after = &proposed.users;
    if let Some(u) = find_appearing(before, after) {
        assert(appears(before@, after@, u.name@));
        return Some(cat3("cannot add user '", u.name.as_str(), "' — only Owner can add users"));
    }
    if let Some(u) = find_appearing(after, before) {
        assert(appears(after@, before@, u.name@));
        return Some(cat3(
            "cannot remove user '",
            u.name.as_str(),
            "' — only Owner can remove users",
        ));
    }
    for i in 0..after.len()
        invariant
            *before == current.users,
            *after == proposed.users,
            !some_appears(before@, after@),
            !some_appears(after@, before@),
            forall|j: int|
                0 <= j < i ==> change_of(before@, after@, (#[trigger] after@[j]).name@) is None,
    {
        let name = after[i].name.as_str();
        if let Some(reason) = find_change_of(before, after, name) {
            assert(change_of(before@, after@, name@) == Some(reason@));
            return Some(reason);
        }
    }
    proof {
        assert forall|name: Seq<char>| #[trigger]
            change_of(before@, after@, name) is None by {
            if entries_of(after@, name).len() > 0 {
                entry_stands(after@, name);
            }
        }
    }
    None
}

/// Why the sandbox may not be changed so, where it is changed.
pub open spec fn sandbox_change(c: SandboxConfig, s: SandboxConfig) -> Option<Seq<char>> {
    if s.enabled != c.enabled {
        Some(
            "cannot change sandbox.enabled from "@ + bool_text(c.enabled) + " to "@
                + bool_text(s.enabled) + " — only Owner can modify sandbox settings"@,
        )
    } else if s.allow_network != c.allow_network {
        Some("cannot change sandbox.allow_network — only Owner can modify sandbox settings"@)
    } else if s.memory@ != c.memory@ {
        Some("cannot change sandbox.memory — only Owner can modify sandbox settings"@)
    } else if s.pids_limit != c.pids_limit {
        Some("cannot change sandbox.pids_limit — only Owner can modify sandbox settings"@)
    } else {
        None
    }
}

fn find_sandbox_change(c: &SandboxConfig, s: &SandboxConfig) -> (r: Option<String>)
    ensures
        crate::text::opt_view(r) == sandbox_change(*c, *s),
{
    if s.enabled != c.enabled {
        Some(
            cat5(
                "cannot change sandbox.enabled from ",
                bool_word(c.enabled),
                " to ",
                bool_word(s.enabled),
                " — only Owner can modify sandbox settings",
            ),
        )
    } else if s.allow_network != c.allow_network {
        Some(
            "cannot change sandbox.allow_network — only Owner can modify sandbox settings".to_owned(),
        )
    } else if !same_text(s.memory.as_str(), c.memory.as_str()) {
        Some("cannot change sandbox.memory — only Owner can modify sandbox settings".to_owned())
    } else if s.pids_limit != c.pids_limit {
        Some("cannot change sandbox.pids_limit — only Owner can modify sandbox settings".to_owned())
    } else {
        None
    }
}

/// The sandbox settings of the last task of a name.
pub open spec fn cron_sandbox(tasks: Seq<CronConfig>, name: Seq<char>) -> Option<SandboxOverrides>
    decreases tasks.len(),
{
    if tasks.len() == 0 {
        None
    } else if tasks.last().name@ == name {
        tasks.last().sandbox
    } else {
        cron_sandbox(tasks.drop_last(), name)
    }
}

/// Whether a task is to run with the sandbox settings that its name has now.
fn keeps_cron_sandbox(tasks: &Vec<CronConfig>, cron: &CronConfig) -> (r: bool)
    ensures
        r == eq_opt_sandbox_overrides(cron.sandbox, cron_sandbox(tasks@, cron.name@)),
{
    let mut k: usize = tasks.len();
    assert(tasks@.take(tasks@.len() as int) =~= tasks@);
    while k > 0
        invariant
            k <= tasks@.len(),
            cron_sandbox(tasks@, cron.name@) == cron_sandbox(tasks@.take(k as int), cron.name@),
        decreases k,
    {
        assert(tasks@.take(k as int).last() == tasks@[k - 1]);
        assert(tasks@.take(k as int).drop_last() =~= tasks@.take(k - 1));
        if same_text(tasks[k - 1].name.as_str(), cron.name.as_str()) {
            return same_opt_sandbox_overrides(&cron.sandbox, &tasks[k - 1].sandbox);
        }
        k -= 1;
    }
    cron.sandbox.is_none()
}

/// Why the tasks' sandbox settings may not be changed so: the first of those
/// from the `i`-th on that would change.
pub open spec fn cron_change(current: Seq<CronConfig>, proposed: Seq<CronConfig>, i: int) -> Option<
    Seq<char>,
>
    decreases proposed.len() - i,
{
    if i < 0 || i >= proposed.len() {
        None
    } else if !eq_opt_sandbox_overrides(
        proposed[i].sandbox,
        cron_sandbox(current, proposed[i].name@),
    ) {
        Some(
            "cannot change sandbox overrides for cron '"@ + proposed[i].name@
                + "' — only Owner can modify sandbox settings"@,
        )
    } else {
        cron_change(current, proposed, i + 1)
    }
}

/// Why the sandbox settings may not be changed so, where they are changed.
pub open spec fn sandbox_reason(current: Config, proposed: Config) -> Option<Seq<char>> {
    match sandbox_change(current.sandbox, proposed.sandbox) {
        Some(reason) => Some(reason),
        None => cron_change(current.cron@, proposed.cron@, 0),
    }
}

pub fn check_sandbox_changes(current: &Config, proposed: &Config) -> (r: Option<String>)
    ensures
        crate::text::opt_view(r) == sandbox_reason(*current, *proposed),
{
    if let Some(reason) = find_sandbox_change(&current.sandbox, &proposed.sandbox) {
        return Some(reason);
    }
    for i in 0..proposed.cron.len()
        invariant
            sandbox_change(current.sandbox, proposed.sandbox) is None,
            cron_change(current.cron@, proposed.cron@, 0) == cron_change(
                current.cron@,
                proposed.cron@,
                i as int,
            ),
    {
        let cron = &proposed.cron[i];
        if !keeps_cron_sandbox(&current.cron, cron) {
            return Some(
                cat3(
                    "cannot change sandbox overrides for cron '",
                    cron.name.as_str(),
                    "' — only Owner can modify sandbox settings",
                ),
            );
        }
    }
    None
}

pub const PROMPT_REASON: &'static str = "cannot change prompt file configuration — only Owner can modify which files are included in the system prompt";

/// Whether a change keeps all that only the owner may change.
pub open spec fn keeps_security(current: Config, proposed: Config) -> bool {
    &&& !users_differ(current.users@, proposed.users@)
    &&& sandbox_reason(current, proposed) is None
    &&& eq_prompt_config(proposed.prompt, current.prompt)
}

/// Whether a text says why a change is refused: of the users, else of the
/// sandbox, else of the prompt.
pub open spec fn escalation_reason(current: Config, proposed: Config, reason: Seq<char>) -> bool {
    if users_differ(current.users@, proposed.users@) {
        user_reason(current.users@, proposed.users@, reason)
    } else {
        match sandbox_reason(current, proposed) {
            Some(s) => reason == s,
            None => reason == PROMPT_REASON@,
        }
    }
}

/// Whether a change of the configuration is refused to a caller, and why. The
/// owner may change anything; anyone else nothing of who is trusted, of the
/// sandbox or of the prompt.
pub fn check_trust_escalation(caller: TrustLevel, current: &Config, proposed: &Config) -> (r: Option<
    String,
>)
    ensures
        match r {
            Some(reason) => caller != TrustLevel::Owner && !keeps_security(*current, *proposed)
                && escalation_reason(*current, *proposed, reason@),
            None => caller == TrustLevel::Owner || keeps_security(*current, *proposed),
        },
{
    if caller == TrustLevel::Owner {
        return None;
    }
    if let Some(reason) = check_user_changes(current, proposed) {
        return Some(reason);
    }
    if let Some(reason) = check_sandbox_changes(current, proposed) {
        return Some(reason);
    }
    if !same_prompt_config(&proposed.prompt, &current.prompt) {
        return Some(PROMPT_REASON.to_owned());
    }
    None
}

/// Whether a caller may use the configuration tools.
pub open spec fn may_configure(trust: TrustLevel) -> bool {
    trust.rank() <= TrustLevel::Full.rank()
}

/// Reads the configuration file.
#[derive(Debug)]
pub struct ConfigReadTool {
    pub config_path: String,
}

impl ConfigReadTool {
    pub fn new(config_path: String) -> (r: ConfigReadTool)
        ensures
            r.config_path == config_path,
    {
        ConfigReadTool { config_path }
    }

    pub fn definition(&self) -> (r: ToolDef)
        ensures
            r.name@ == "config_read"@,
            r.description@ == "Read the current coop.toml configuration file."@,
            r.parameters@ == READ_SCHEMA@,
    {
        ToolDef {
            name: "config_read",
            description: "Read the current coop.toml configuration file.",
            parameters: READ_SCHEMA,
        }
    }

    /// The answer to a caller who may not read the file.
    pub fn refusal(&self, trust: TrustLevel) -> (r: Option<ToolOutput>)
        ensures
            match r {
                Some(o) => !may_configure(trust) && o@ == failure(
                    "config_read requires Full trust level"@,
                ),
                None => may_configure(trust),
            },
    {
        if trust.level() > TrustLevel::Full.level() {
            Some(ToolOutput::error("config_read requires Full trust level".to_owned()))
        } else {
            None
        }
    }

    /// The answer, given the file's content or why it could not be read.
    pub fn answer(&self, file: Result<String, &str>) -> (r: ToolOutput)
        ensures
            match file {
                Ok(content) => r@ == success(content@),
                Err(error) => r@ == failure("failed to read "@ + self.config_path@ + ": "@ + error@),
            },
    {
        match file {
            Ok(content) => ToolOutput::success(content),
            Err(error) => ToolOutput::error(cat4(
                "failed to read ",
                self.config_path.as_str(),
                ": ",
                error,
            )),
        }
    }
}

/// How a request to write the configuration file begins.
#[derive(Debug, PartialEq, Eq)]
pub enum WriteRequest {
    /// It is answered at once.
    Refused { output: ToolOutput },
    /// It is not a request.
    Malformed { error: &'static str },
    /// This is to be written.
    Write { content: String },
}

/// Checks and writes the configuration file.
#[derive(Debug)]
pub struct ConfigWriteTool {
    pub config_path: String,
}

/// Whether a request is what the content and the caller make it.
pub open spec fn is_write_request(
    r: WriteRequest,
    content: Option<Seq<char>>,
    trust: TrustLevel,
) -> bool {
    if !may_configure(trust) {
        r matches WriteRequest::Refused { output } && output@ == failure(
            "config_write requires Full trust level"@,
        )
    } else {
        match content {
            Some(text) => r matches WriteRequest::Write { content: c } && c@ == text,
            None => r matches WriteRequest::Malformed { error } && error@
                == "missing 'content' parameter"@,
        }
    }
}

pub open spec fn not_written(detail: Seq<char>) -> OutputView {
    failure("Config validation failed. File was NOT modified.\n\n"@ + detail)
}

pub open spec fn rejected(reason: Seq<char>) -> OutputView {
    failure(
        "Config write rejected: "@ + reason
            + "\n\nOnly users with Owner trust can modify trust levels, sandbox settings, or security-sensitive configuration."@,
    )
}

pub open spec fn backup_note(backup: Option<Seq<char>>) -> Seq<char> {
    match backup {
        Some(path) => "Backup: "@ + path,
        None => "No backup (new file)"@,
    }
}

impl ConfigWriteTool {
    pub fn new(config_path: String) -> (r: ConfigWriteTool)
        ensures
            r.config_path == config_path,
    {
        ConfigWriteTool { config_path }
    }

    pub fn definition(&self) -> (r: ToolDef)
        ensures
            r.name@ == "config_write"@,
            r.description@
                == "Validate and write coop.toml. Backs up the current config before writing. Returns validation results. If any errors are found, the file is NOT modified."@,
            r.parameters@ == WRITE_SCHEMA@,
    {
        ToolDef {
            name: "config_write",
            description: "Validate and write coop.toml. Backs up the current config before writing. Returns validation results. If any errors are found, the file is NOT modified.",
            parameters: WRITE_SCHEMA,
        }
    }

    /// What a caller asks to be written, given the content they named.
    pub fn request_of(&self, content: Option<String>, trust: TrustLevel) -> (r: WriteRequest)
        ensures
            is_write_request(r, crate::text::opt_view(content), trust),
    {
        if trust.level() > TrustLevel::Full.level() {
            return WriteRequest::Refused {
                output: ToolOutput::error("config_write requires Full trust level".to_owned()),
            };
        }
        match content {
            Some(content) => WriteRequest::Write { content },
            None => WriteRequest::Malformed { error: "missing 'content' parameter" },
        }
    }

    /// What a caller asks to be written.
    pub fn request(&self, arguments: &str, trust: TrustLevel) -> (r: WriteRequest)
        ensures
            is_write_request(r, json_string(arguments@, "content"@), trust),
    {
        self.request_of(string_member(arguments, "content"), trust)
    }

    /// The answer to a request that is not carried out: what is to be written
    /// is not a configuration, or changes the one in force as the caller may
    /// not.
    pub fn review(
        &self,
        trust: TrustLevel,
        current: Option<&Config>,
        proposed: Result<&Config, &str>,
    ) -> (r: Option<ToolOutput>)
        ensures
            match (proposed, current) {
                (Err(error), _) => r matches Some(o) && o@ == not_written(
                    "Invalid TOML: "@ + error@,
                ),
                (Ok(p), Some(c)) => match r {
                    Some(o) => trust != TrustLevel::Owner && !keeps_security(*c, *p)
                        && exists|reason: Seq<char>| #[trigger]
                        escalation_reason(*c, *p, reason) && o@ == rejected(reason),
                    None => trust == TrustLevel::Owner || keeps_security(*c, *p),
                },
                (Ok(_), None) => r is None,
            },
    {
        match proposed {
            Err(error) => {
                let detail = cat2("Invalid TOML: ", error);
                Some(
                    ToolOutput::error(
                        cat2(
                            "Config validation failed. File was NOT modified.\n\n",
                            detail.as_str(),
                        ),
                    ),
                )
            },
            Ok(p) => match current {
                Some(c) => match check_trust_escalation(trust, c, p) {
                    Some(reason) => {
                        assert(escalation_reason(*c, *p, reason@));
                        Some(
                            ToolOutput::error(
                                cat3(
                                    "Config write rejected: ",
                                    reason.as_str(),
                                    "\n\nOnly users with Owner trust can modify trust levels, sandbox settings, or security-sensitive configuration.",
                                ),
                            ),
                        )
                    },
                    None => None,
                },
                None => None,
            },
        }
    }

    /// The answer to a request that was carried out as far as the report let it.
    pub fn answer(&self, report: &CheckReport, backup: Option<&str>) -> (r: ToolOutput)
        ensures
            r@ == (if any_failed(report@, Severity::Error) {
                not_written(summary(report@))
            } else {
                success(
                    "Config written successfully. "@ + backup_note(opt_str_view(backup)) + "\n\n"@
                        + summary(report@),
                )
            }),
    {
        let summary = report.to_summary_string();
        if report.has_errors() {
            ToolOutput::error(cat2(
                "Config validation failed. File was NOT modified.\n\n",
                summary.as_str(),
            ))
        } else {
            let note = match backup {
                Some(path) => cat2("Backup: ", path),
                None => "No backup (new file)".to_owned(),
            };
            ToolOutput::success(cat4(
                "Config written successfully. ",
                note.as_str(),
                "\n\n",
                summary.as_str(),
            ))
        }
    }
}

/// Which of the tools a call is for.
#[derive(Debug, PartialEq, Eq)]
pub enum ConfigCall {
    Read,
    Write,
    Unknown { output: ToolOutput },
}

/// The configuration tools.
#[derive(Debug)]
pub struct ConfigToolExecutor {
    pub read_tool: ConfigReadTool,
    pub write_tool: ConfigWriteTool,
}

impl ConfigToolExecutor {
    pub fn new(config_path: String) -> (r: ConfigToolExecutor)
        ensures
            r.read_tool.config_path@ == config_path@,
            r.write_tool.config_path@ == config_path@,
    {
        ConfigToolExecutor {
            read_tool: ConfigReadTool::new(config_path.clone()),
            write_tool: ConfigWriteTool::new(config_path),
        }
    }

    /// Which tool a name stands for.
    pub fn call(&self, name: &str) -> (r: ConfigCall)
        ensures
            if name@ == "config_read"@ {
                r is Read
            } else if name@ == "config_write"@ {
                r is Write
            } else {
                r matches ConfigCall::Unknown { output } && output@ == failure(
                    "unknown tool: "@ + name@,
                )
            },
    {
        if same_text(name, "config_read") {
            ConfigCall::Read
        } else if same_text(name, "config_write") {
            ConfigCall::Write
        } else {
            ConfigCall::Unknown { output: ToolOutput::error(cat2("unknown tool: ", name)) }
        }
    }

    /// The tools, as the model is told of them.
    pub fn tools(&self) -> (r: Vec<ToolDef>)
        ensures
            r@.len() == 2,
            r@[0].name@ == "config_read"@,
            r@[0].parameters@ == READ_SCHEMA@,
            r@[1].name@ == "config_write"@,
            r@[1].parameters@ == WRITE_SCHEMA@,
    {
        vec![self.read_tool.definition(), self.write_tool.definition()]
    }
}

/// Whether an entry of a user keeps the user's trust, the rules by which they
/// are recognised and their sandbox settings.
pub open spec fn keeps_entry(c: UserConfig, p: UserConfig) -> bool {
    &&& p.trust == c.trust
    &&& views(p.match_patterns@) == views(c.match_patterns@)
    &&& eq_opt_sandbox_overrides(p.sandbox, c.sandbox)
}

/// A change that keeps what only the owner may change adds and removes no
/// entry of any name, and keeps in every entry the user's trust, the rules by
/// which they are recognised and their sandbox settings. So whoever a name
/// stands for keeps these too, and so do the sandbox and the prompt files.
pub proof fn kept_security_keeps_everyone(current: Config, proposed: Config, name: Seq<char>)
    requires
        keeps_security(current, proposed),
    ensures
        entries_of(proposed.users@, name).len() == entries_of(current.users@, name).len(),
        forall|k: int|
            #![trigger entries_of(proposed.users@, name)[k]]
            0 <= k < entries_of(proposed.users@, name).len() ==> keeps_entry(
                entries_of(current.users@, name)[k],
                entries_of(proposed.users@, name)[k],
            ),
        match (user_named(current.users@, name), user_named(proposed.users@, name)) {
            (Some(c), Some(p)) => keeps_entry(c, p),
            (None, None) => true,
            _ => false,
        },
        eq_sandbox_config(proposed.sandbox, current.sandbox),
        eq_prompt_config(proposed.prompt, current.prompt),
        forall|i: int|
            0 <= i < proposed.cron@.len() ==> eq_opt_sandbox_overrides(
                (#[trigger] proposed.cron@[i]).sandbox,
                cron_sandbox(current.cron@, proposed.cron@[i].name@),
            ),
{
    assert(!appears(current.users@, proposed.users@, name));
    assert(!appears(proposed.users@, current.users@, name));
    assert(change_of(current.users@, proposed.users@, name) is None);
    let c = entries_of(current.users@, name);
    let p = entries_of(proposed.users@, name);
    assert forall|k: int| #![trigger p[k]] 0 <= k < p.len() implies keeps_entry(c[k], p[k]) by {
        kept_entry(name, c, p, 0, k);
    }
    first_entry_is_named(current.users@, name);
    first_entry_is_named(proposed.users@, name);
    assert forall|i: int| 0 <= i < proposed.cron@.len() implies eq_opt_sandbox_overrides(
        (#[trigger] proposed.cron@[i]).sandbox,
        cron_sandbox(current.cron@, proposed.cron@[i].name@),
    ) by {
        kept_cron(current.cron@, proposed.cron@, 0, i);
    }
}

proof fn kept_entry(name: Seq<char>, c: Seq<UserConfig>, p: Seq<UserConfig>, from: int, k: int)
    requires
        entry_change(name, c, p, from) is None,
        0 <= from <= k < p.len(),
        p.len() == c.len(),
    ensures
        keeps_entry(c[k], p[k]),
    decreases k - from,
{
    if from < k {
        kept_entry(name, c, p, from + 1, k);
    }
}

proof fn same_entries_keep(name: Seq<char>, c: Seq<UserConfig>, k: int)
    ensures
        entry_change(name, c, c, k) is None,
    decreases c.len() - k,
{
    if 0 <= k < c.len() {
        same_entries_keep(name, c, k + 1);
    }
}

/// Where no two scheduled tasks share a name, writing the configuration in
/// force back is never refused, even where users share one.
pub proof fn unchanged_config_is_kept(c: Config)
    requires
        forall|i: int, j: int|
            0 <= i < j < c.cron@.len() ==> (#[trigger] c.cron@[i]).name@ != (#[trigger] c.cron@[j]).name@,
    ensures
        keeps_security(c, c),
{
    assert forall|i: int| 0 <= i < c.cron@.len() implies cron_sandbox(
        c.cron@,
        (#[trigger] c.cron@[i]).name@,
    ) == c.cron@[i].sandbox by {
        sole_cron(c.cron@, i);
    }
    unchanged_crons(c.cron@, 0);
    assert forall|name: Seq<char>| #[trigger] change_of(c.users@, c.users@, name) is None by {
        same_entries_keep(name, entries_of(c.users@, name), 0);
    }
}

proof fn sole_cron(tasks: Seq<CronConfig>, i: int)
    requires
        0 <= i < tasks.len(),
        forall|j: int| i < j < tasks.len() ==> tasks[i].name@ != (#[trigger] tasks[j]).name@,
    ensures
        cron_sandbox(tasks, tasks[i].name@) == tasks[i].sandbox,
    decreases tasks.len(),
{
    if i < tasks.len() - 1 {
        assert(tasks[tasks.len() - 1] == tasks.last());
        sole_cron(tasks.drop_last(), i);
    }
}

proof fn unchanged_crons(tasks: Seq<CronConfig>, i: int)
    requires
        0 <= i <= tasks.len(),
        forall|j: int|
            0 <= j < tasks.len() ==> cron_sandbox(tasks, (#[trigger] tasks[j]).name@)
                == tasks[j].sandbox,
    ensures
        cron_change(tasks, tasks, i) is None,
    decreases tasks.len() - i,
{
    if i < tasks.len() {
        assert(cron_sandbox(tasks, tasks[i].name@) == tasks[i].sandbox);
        unchanged_crons(tasks, i + 1);
    }
}

proof fn kept_cron(current: Seq<CronConfig>, proposed: Seq<CronConfig>, from: int, i: int)
    requires
        cron_change(current, proposed, from) is None,
        0 <= from <= i < proposed.len(),
    ensures
        eq_opt_sandbox_overrides(proposed[i].sandbox, cron_sandbox(current, proposed[i].name@)),
    decreases i - from,
{
    if from < i {
        kept_cron(current, proposed, from + 1, i);
    }
}

} // verus!
