//! How a new configuration is written without losing the old one.
use vstd::prelude::*;

use crate::check_report::{any_failed, noted, CheckReport, CheckView, Severity};
use crate::text::{cat2, opt_view};

verus! {

/// The extension of the file that keeps the old configuration.
pub const BACKUP_EXTENSION: &'static str = "toml.bak";

/// The extension of the file that is renamed to the configuration.
pub const TEMPORARY_EXTENSION: &'static str = "yaml.tmp";

/// The extension of the file that is checked before anything is written.
pub const STAGING_EXTENSION: &'static str = "yaml.staging";

/// A file that a write works on: the configuration, or a file with the path of
/// the configuration and another extension.
#[derive(Clone, Copy, Debug, PartialEq, Eq, Structural)]
pub enum Place {
    Config,
    Staging,
    Backup,
    Temporary,
}

impl Place {
    pub open spec fn spelled(self) -> Option<Seq<char>> {
        match self {
            Place::Config => None,
            Place::Staging => Some(STAGING_EXTENSION@),
            Place::Backup => Some(BACKUP_EXTENSION@),
            Place::Temporary => Some(TEMPORARY_EXTENSION@),
        }
    }

    /// The extension that stands in the place of the configuration's own, none
    /// for the configuration itself.
    pub fn extension(self) -> (r: Option<&'static str>)
        ensures
            crate::text::opt_str_view(r) == self.spelled(),
    {
        match self {
            Place::Config => None,
            Place::Staging => Some(STAGING_EXTENSION),
            Place::Backup => Some(BACKUP_EXTENSION),
            Place::Temporary => Some(TEMPORARY_EXTENSION),
        }
    }
}

/// What is to be done next.
#[derive(Clone, Debug, PartialEq, Eq)]
pub enum WriteAction {
    /// Write the content to a file.
    Stage { to: Place, content: String },
    /// Check the configuration in a file, and remove the file.
    Validate { at: Place },
    /// Copy one file to another.
    Backup { from: Place, to: Place },
    /// Write the content to one file, and rename that to another.
    Replace { through: Place, to: Place, content: String },
    /// Nothing: report.
    Done,
}

/// What a [`WriteAction`] stands for.
pub enum WriteActionView {
    Stage { to: Place, content: Seq<char> },
    Validate { at: Place },
    Backup { from: Place, to: Place },
    Replace { through: Place, to: Place, content: Seq<char> },
    Done,
}

impl View for WriteAction {
    type V = WriteActionView;

    open spec fn view(&self) -> WriteActionView {
        match *self {
            WriteAction::Stage { to, content } => WriteActionView::Stage { to, content: content@ },
            WriteAction::Validate { at } => WriteActionView::Validate { at },
            WriteAction::Backup { from, to } => WriteActionView::Backup { from, to },
            WriteAction::Replace { through, to, content } => WriteActionView::Replace {
                through,
                to,
                content: content@,
            },
            WriteAction::Done => WriteActionView::Done,
        }
    }
}

/// How far a write has come.
#[derive(Clone, Copy, Debug, PartialEq, Eq, Structural)]
pub enum WritePhase {
    Staging,
    Validating,
    BackingUp,
    Replacing,
    Done,
}

/// A configuration on its way into the file.
#[derive(Debug, PartialEq, Eq)]
pub struct ConfigWrite {
    /// The new configuration.
    pub content: String,
    /// What was found so far.
    pub report: CheckReport,
    /// Where the old configuration is.
    pub backup: Option<String>,
    pub phase: WritePhase,
}

/// Where a write stands.
#[verifier::ext_equal]
pub struct WriteView {
    pub content: Seq<char>,
    pub report: Seq<CheckView>,
    pub backup: Option<Seq<char>>,
    pub phase: WritePhase,
}

impl View for ConfigWrite {
    type V = WriteView;

    open spec fn view(&self) -> WriteView {
        WriteView {
            content: self.content@,
            report: self.report@,
            backup: opt_view(self.backup),
            phase: self.phase,
        }
    }
}

pub open spec fn begun(content: Seq<char>) -> WriteView {
    WriteView { content, report: Seq::empty(), backup: None, phase: WritePhase::Staging }
}

/// What a write needs done next.
pub open spec fn action_of(w: WriteView) -> WriteActionView {
    match w.phase {
        WritePhase::Staging => WriteActionView::Stage { to: Place::Staging, content: w.content },
        WritePhase::Validating => WriteActionView::Validate { at: Place::Staging },
        WritePhase::BackingUp => WriteActionView::Backup { from: Place::Config, to: Place::Backup },
        WritePhase::Replacing => WriteActionView::Replace {
            through: Place::Temporary,
            to: Place::Config,
            content: w.content,
        },
        WritePhase::Done => WriteActionView::Done,
    }
}

/// A write that ends with an error.
pub open spec fn stopped(w: WriteView, name: Seq<char>, message: Seq<char>) -> WriteView {
    WriteView {
        report: noted(w.report, name, Severity::Error, false, message),
        phase: WritePhase::Done,
        ..w
    }
}

/// After the staging file was written, or was not.
pub open spec fn after_staging(w: WriteView, error: Option<Seq<char>>) -> WriteView {
    match error {
        Some(e) => stopped(w, "write_staging"@, "failed to write staging file: "@ + e),
        None => WriteView { phase: WritePhase::Validating, ..w },
    }
}

/// After the staging file was checked. A configuration with errors is not
/// written; an old one is kept before it is replaced.
pub open spec fn after_validation(w: WriteView, report: Seq<CheckView>, exists: bool) -> WriteView {
    WriteView {
        report,
        phase: if any_failed(report, Severity::Error) {
            WritePhase::Done
        } else if exists {
            WritePhase::BackingUp
        } else {
            WritePhase::Replacing
        },
        ..w
    }
}

/// After the old configuration was kept, or was not.
pub open spec fn after_backup(w: WriteView, outcome: Result<Seq<char>, Seq<char>>) -> WriteView {
    match outcome {
        Ok(path) => WriteView { backup: Some(path), phase: WritePhase::Replacing, ..w },
        Err(e) => stopped(w, "backup"@, "failed to backup config: "@ + e),
    }
}

/// After the configuration was replaced, or was not.
pub open spec fn after_replacement(w: WriteView, error: Option<Seq<char>>) -> WriteView {
    match error {
        Some(e) => stopped(w, "atomic_write"@, "failed to write config: "@ + e),
        None => WriteView { phase: WritePhase::Done, ..w },
    }
}

impl ConfigWrite {
    pub fn begin(content: String) -> (r: ConfigWrite)
        ensures
            r@ == begun(content@),
    {
        ConfigWrite {
            content,
            report: CheckReport::new(),
            backup: None,
            phase: WritePhase::Staging,
        }
    }

    /// What is to be done next.
    pub fn action(&self) -> (r: WriteAction)
        ensures
            r@ == action_of(self@),
    {
        match self.phase {
            WritePhase::Staging => WriteAction::Stage {
                to: Place::Staging,
                content: self.content.clone(),
            },
            WritePhase::Validating => WriteAction::Validate { at: Place::Staging },
            WritePhase::BackingUp => WriteAction::Backup { from: Place::Config, to: Place::Backup },
            WritePhase::Replacing => WriteAction::Replace {
                through: Place::Temporary,
                to: Place::Config,
                content: self.content.clone(),
            },
            WritePhase::Done => WriteAction::Done,
        }
    }

    fn stop(&mut self, name: &'static str, message: String)
        ensures
            final(self)@ == stopped(old(self)@, name@, message@),
    {
        self.report.note(name, Severity::Error, false, message);
        self.phase = WritePhase::Done;
    }

    /// The staging file was written, or there was an error.
    pub fn staged(&mut self, error: Option<&str>)
        requires
            old(self)@.phase == WritePhase::Staging,
        ensures
            final(self)@ == after_staging(old(self)@, crate::text::opt_str_view(error)),
    {
        match error {
            Some(e) => self.stop("write_staging", cat2("failed to write staging file: ", e)),
            None => self.phase = WritePhase::Validating,
        }
    }

    /// The staging file was checked, with this report; there is a configuration
    /// to be replaced, or none.
    pub fn validated(&mut self, report: CheckReport, exists: bool)
        requires
            old(self)@.phase == WritePhase::Validating,
        ensures
            final(self)@ == after_validation(old(self)@, report@, exists),
    {
        self.phase = if report.has_errors() {
            WritePhase::Done
        } else if exists {
            WritePhase::BackingUp
        } else {
            WritePhase::Replacing
        };
        self.report = report;
    }

    /// The old configuration was kept at a path, or there was an error.
    pub fn backed_up(&mut self, outcome: Result<String, &str>)
        requires
            old(self)@.phase == WritePhase::BackingUp,
        ensures
            final(self)@ == after_backup(
                old(self)@,
                match outcome {
                    Ok(path) => Ok(path@),
                    Err(e) => Err(e@),
                },
            ),
    {
        match outcome {
            Ok(path) => {
                self.backup = Some(path);
                self.phase = WritePhase::Replacing;
            },
            Err(e) => self.stop("backup", cat2("failed to backup config: ", e)),
        }
    }

    /// The configuration was replaced, or there was an error.
    pub fn replaced(&mut self, error: Option<&str>)
        requires
            old(self)@.phase == WritePhase::Replacing,
        ensures
            final(self)@ == after_replacement(old(self)@, crate::text::opt_str_view(error)),
    {
        match error {
            Some(e) => self.stop("atomic_write", cat2("failed to write config: ", e)),
            None => self.phase = WritePhase::Done,
        }
    }
}

/// How a write goes, given what each step brings.
pub open spec fn written(
    content: Seq<char>,
    staging: Option<Seq<char>>,
    report: Seq<CheckView>,
    exists: bool,
    backup: Result<Seq<char>, Seq<char>>,
    replacement: Option<Seq<char>>,
) -> Seq<WriteView> {
    let a = after_staging(begun(content), staging);
    let b = after_validation(a, report, exists);
    let c = if exists {
        after_backup(b, backup)
    } else {
        b
    };
    if a.phase == WritePhase::Done {
        seq![a]
    } else if b.phase == WritePhase::Done {
        seq![a, b]
    } else if c.phase == WritePhase::Done {
        seq![a, b, c]
    } else {
        seq![a, b, c, after_replacement(c, replacement)]
    }
}

/// A configuration with errors never replaces the one in force, and one that
/// is there is replaced only once it has been kept.
pub proof fn replaced_only_when_sound_and_kept(
    content: Seq<char>,
    staging: Option<Seq<char>>,
    report: Seq<CheckView>,
    exists: bool,
    backup: Result<Seq<char>, Seq<char>>,
    replacement: Option<Seq<char>>,
    i: int,
)
    requires
        0 <= i < written(content, staging, report, exists, backup, replacement).len(),
        written(content, staging, report, exists, backup, replacement)[i].phase == WritePhase::Replacing,
    ensures
        !any_failed(report, Severity::Error),
        staging is None,
        exists ==> backup is Ok && written(content, staging, report, exists, backup, replacement)[i].backup
            == Some(backup->Ok_0),
{
}

/// A write that ends well leaves a report without errors.
pub proof fn written_without_errors(
    content: Seq<char>,
    report: Seq<CheckView>,
    exists: bool,
    path: Seq<char>,
)
    requires
        !any_failed(report, Severity::Error),
    ensures
        ({
            let steps = written(content, None, report, exists, Ok(path), None);
            let end = steps.last();
            &&& end.phase == WritePhase::Done
            &&& end.report == report
            &&& end.backup == if exists {
                Some(path)
            } else {
                None
            }
            &&& exists|i: int| 0 <= i < steps.len() && (#[trigger] steps[i]).phase == WritePhase::Replacing
        }),
{
    let steps = written(content, None, report, exists, Ok(path), None);
    assert(steps[2].phase == WritePhase::Replacing);
}

/// What is written to the configuration is what was staged and checked, and
/// nothing but the replacement writes to the configuration.
pub proof fn checked_content_is_written(
    content: Seq<char>,
    staging: Option<Seq<char>>,
    report: Seq<CheckView>,
    exists: bool,
    backup: Result<Seq<char>, Seq<char>>,
    replacement: Option<Seq<char>>,
    i: int,
)
    requires
        0 <= i < written(content, staging, report, exists, backup, replacement).len(),
    ensures
        action_of(begun(content)) == (WriteActionView::Stage { to: Place::Staging, content }),
        match action_of(written(content, staging, report, exists, backup, replacement)[i]) {
            WriteActionView::Stage { .. } => false,
            WriteActionView::Validate { at } => at == Place::Staging,
            WriteActionView::Backup { from, to } => from == Place::Config && to != Place::Config,
            WriteActionView::Replace { through, to, content: c } => through != Place::Config && to
                == Place::Config && c == content,
            WriteActionView::Done => true,
        },
{
}

} // verus!
