use std::collections::HashMap;

use coop_gateway::check_report::{CheckReport, Severity};
use coop_gateway::config_write::{
    BACKUP_EXTENSION, ConfigWrite, Place, STAGING_EXTENSION, TEMPORARY_EXTENSION, WriteAction,
    WritePhase,
};

fn report(severity: Severity, passed: bool) -> CheckReport {
    let mut report = CheckReport::new();
    report.note("test", severity, passed, "message".to_owned());
    report
}

/// Files in memory, by their place.
struct Disk {
    files: HashMap<&'static str, String>,
}

fn name_of(place: Place) -> &'static str {
    place.extension().unwrap_or("toml")
}

impl Disk {
    fn with_config(content: &str) -> Disk {
        Disk { files: HashMap::from([(name_of(Place::Config), content.to_owned())]) }
    }

    fn read(&self, place: Place) -> Option<&str> {
        self.files.get(name_of(place)).map(String::as_str)
    }

    /// Writes a configuration, which is sound unless it holds `bad`.
    fn safe_write(&mut self, content: &str, bad: &str) -> (CheckReport, Option<String>) {
        let mut write = ConfigWrite::begin(content.to_owned());
        loop {
            match write.action() {
                WriteAction::Stage { to, content } => {
                    self.files.insert(name_of(to), content);
                    write.staged(None);
                }
                WriteAction::Validate { at } => {
                    let staged = self.files.remove(name_of(at)).unwrap();
                    let found = report(Severity::Error, !staged.contains(bad));
                    write.validated(found, self.read(Place::Config).is_some());
                }
                WriteAction::Backup { from, to } => {
                    let old = self.files[name_of(from)].clone();
                    self.files.insert(name_of(to), old);
                    write.backed_up(Ok(name_of(to).to_owned()));
                }
                WriteAction::Replace { through, to, content } => {
                    self.files.insert(name_of(through), content);
                    let new = self.files.remove(name_of(through)).unwrap();
                    self.files.insert(name_of(to), new);
                    write.replaced(None);
                }
                WriteAction::Done => return (write.report, write.backup),
            }
        }
    }
}

fn failed(write: &ConfigWrite) -> &str {
    write.report.results.iter().find(|r| !r.passed).unwrap().name
}

#[test]
fn test_safe_write_valid_config() {
    let mut disk = Disk::with_config("id = \"test\"");
    let (report, backup) = disk.safe_write("id = \"updated\"", "nothing bad");
    assert!(!report.has_errors());
    assert!(backup.is_some());
    assert!(disk.read(Place::Config).unwrap().contains("updated"));
}

#[test]
fn test_safe_write_invalid_config() {
    let mut disk = Disk::with_config("original");
    let (report, backup) = disk.safe_write("{{not valid", "{{");
    assert!(report.has_errors());
    assert_eq!(backup, None);
    assert_eq!(disk.read(Place::Config), Some("original"));
}

#[test]
fn unsound_content_leaves_no_trace() {
    let mut disk = Disk::with_config("original");
    let (report, _) = disk.safe_write("name = \"openai\"", "openai");
    assert!(report.has_errors());
    assert_eq!(disk.read(Place::Config), Some("original"));
    assert_eq!(disk.files.len(), 1);
}

#[test]
fn test_backup_config() {
    let mut disk = Disk::with_config("original content");
    let (_, backup) = disk.safe_write("new content", "bad");
    assert_eq!(backup.as_deref(), Some(BACKUP_EXTENSION));
    assert_eq!(disk.read(Place::Backup), Some("original content"));
}

#[test]
fn test_atomic_write() {
    let mut disk = Disk::with_config("old");
    disk.safe_write("new content", "bad");
    assert_eq!(disk.read(Place::Config), Some("new content"));
    assert_eq!(disk.read(Place::Temporary), None);
    assert_eq!(disk.read(Place::Staging), None);
}

#[test]
fn writes_advance_step_by_step() {
    let mut write = ConfigWrite::begin("new".to_owned());
    let content = || "new".to_owned();
    assert_eq!(write.action(), WriteAction::Stage { to: Place::Staging, content: content() });
    write.staged(None);
    assert_eq!(write.action(), WriteAction::Validate { at: Place::Staging });
    write.validated(report(Severity::Warning, false), true);
    assert_eq!(write.action(), WriteAction::Backup { from: Place::Config, to: Place::Backup });
    write.backed_up(Ok("/etc/coop.toml.bak".to_owned()));
    assert_eq!(
        write.action(),
        WriteAction::Replace { through: Place::Temporary, to: Place::Config, content: content() }
    );
    write.replaced(None);
    assert_eq!(write.action(), WriteAction::Done);
    assert_eq!(write.backup, Some("/etc/coop.toml.bak".to_owned()));
    assert!(!write.report.has_errors());
}

#[test]
fn places_are_told_apart_by_extension() {
    let at = |extension| std::path::Path::new("/etc/coop.toml").with_extension(extension);
    assert_eq!(at(BACKUP_EXTENSION), std::path::Path::new("/etc/coop.toml.bak"));
    assert_eq!(Place::Temporary.extension(), Some(TEMPORARY_EXTENSION));
    assert_eq!(TEMPORARY_EXTENSION, "yaml.tmp");
    assert_eq!(Place::Staging.extension(), Some(STAGING_EXTENSION));
    assert_eq!(STAGING_EXTENSION, "yaml.staging");
    assert_eq!(Place::Config.extension(), None);
}

#[test]
fn new_files_have_no_backup() {
    let mut write = ConfigWrite::begin("new".to_owned());
    write.staged(None);
    write.validated(report(Severity::Info, true), false);
    assert_eq!(write.phase, WritePhase::Replacing);
    assert_eq!(write.backup, None);
}

#[test]
fn failed_steps_end_a_write() {
    let mut write = ConfigWrite::begin("new".to_owned());
    write.staged(Some("disk full"));
    assert_eq!((write.phase, failed(&write)), (WritePhase::Done, "write_staging"));

    let mut write = ConfigWrite::begin("new".to_owned());
    write.staged(None);
    write.validated(report(Severity::Info, true), true);
    write.backed_up(Err("disk full"));
    assert_eq!((write.phase, failed(&write)), (WritePhase::Done, "backup"));

    let mut write = ConfigWrite::begin("new".to_owned());
    write.staged(None);
    write.validated(report(Severity::Info, true), false);
    write.replaced(Some("disk full"));
    assert_eq!((write.phase, failed(&write)), (WritePhase::Done, "atomic_write"));
    assert!(write.report.has_errors());
}
