//! What a check of the configuration found.
use vstd::prelude::*;

use crate::text::{cat2, cat5, decimal, decimal_text, join_texts, joined, views};

verus! {

/// How bad a failed check is.
#[derive(Clone, Copy, Debug, PartialEq, Eq, Structural)]
pub enum Severity {
    Error,
    Warning,
    Info,
}

impl Severity {
    pub open spec fn name(self) -> Seq<char> {
        match self {
            Severity::Error => "error"@,
            Severity::Warning => "warning"@,
            Severity::Info => "info"@,
        }
    }

    /// The severity's name.
    pub fn as_str(self) -> (r: &'static str)
        ensures
            r@ == self.name(),
    {
        match self {
            Severity::Error => "error",
            Severity::Warning => "warning",
            Severity::Info => "info",
        }
    }
}

/// The outcome of one check.
#[derive(Clone, Debug, PartialEq, Eq)]
pub struct CheckResult {
    pub name: &'static str,
    pub severity: Severity,
    pub passed: bool,
    pub message: String,
}

#[verifier::ext_equal]
pub struct CheckView {
    pub name: Seq<char>,
    pub severity: Severity,
    pub passed: bool,
    pub message: Seq<char>,
}

impl View for CheckResult {
    type V = CheckView;

    open spec fn view(&self) -> CheckView {
        CheckView {
            name: self.name@,
            severity: self.severity,
            passed: self.passed,
            message: self.message@,
        }
    }
}

pub open spec fn check_views(v: Seq<CheckResult>) -> Seq<CheckView> {
    v.map(|i: int, r: CheckResult| r@)
}

/// The outcomes of all checks, in the order in which they were made.
#[derive(Clone, Debug, PartialEq, Eq)]
pub struct CheckReport {
    pub results: Vec<CheckResult>,
}

impl View for CheckReport {
    type V = Seq<CheckView>;

    open spec fn view(&self) -> Seq<CheckView> {
        check_views(self.results@)
    }
}

/// The outcomes with one more behind them.
pub open spec fn noted(
    checks: Seq<CheckView>,
    name: Seq<char>,
    severity: Severity,
    passed: bool,
    message: Seq<char>,
) -> Seq<CheckView> {
    checks.push(CheckView { name, severity, passed, message })
}

/// Whether a check of a given severity failed.
pub open spec fn failed(c: CheckView, severity: Severity) -> bool {
    c.severity == severity && !c.passed
}

/// How many checks of a given severity failed.
pub open spec fn failures(checks: Seq<CheckView>, severity: Severity) -> nat
    decreases checks.len(),
{
    if checks.len() == 0 {
        0
    } else {
        failures(checks.drop_last(), severity) + if failed(checks.last(), severity) {
            1nat
        } else {
            0nat
        }
    }
}

pub open spec fn any_failed(checks: Seq<CheckView>, severity: Severity) -> bool {
    exists|i: int| 0 <= i < checks.len() && failed(#[trigger] checks[i], severity)
}

/// The mark that stands before an outcome.
pub open spec fn icon(c: CheckView) -> Seq<char> {
    if c.severity == Severity::Info {
        "·"@
    } else if c.passed {
        "✓"@
    } else if c.severity == Severity::Warning {
        "⚠"@
    } else {
        "✗"@
    }
}

pub open spec fn result_line(c: CheckView) -> Seq<char> {
    icon(c) + " "@ + c.message
}

/// The last line of the summary.
pub open spec fn verdict(errors: nat, warnings: nat) -> Seq<char> {
    if errors == 0 && warnings == 0 {
        "\nall checks passed"@
    } else {
        "\n"@ + decimal(errors) + " error(s), "@ + decimal(warnings) + " warning(s)"@
    }
}

pub open spec fn summary_lines(checks: Seq<CheckView>) -> Seq<Seq<char>> {
    checks.map(|i: int, c: CheckView| result_line(c)).push(
        verdict(failures(checks, Severity::Error), failures(checks, Severity::Warning)),
    )
}

pub open spec fn summary(checks: Seq<CheckView>) -> Seq<char> {
    joined(summary_lines(checks), "\n"@)
}

impl CheckReport {
    pub fn new() -> (r: CheckReport)
        ensures
            r@ == Seq::<CheckView>::empty(),
    {
        let r = CheckReport { results: Vec::new() };
        assert(r@ =~= Seq::<CheckView>::empty());
        r
    }

    /// Adds an outcome.
    pub fn push(&mut self, result: CheckResult)
        ensures
            final(self)@ == old(self)@.push(result@),
    {
        self.results.push(result);
        assert(self@ =~= old(self)@.push(result@));
    }

    /// Adds an outcome, given by its parts.
    pub fn note(&mut self, name: &'static str, severity: Severity, passed: bool, message: String)
        ensures
            final(self)@ == noted(old(self)@, name@, severity, passed, message@),
    {
        self.push(CheckResult { name, severity, passed, message });
    }

    fn count(&self, severity: Severity) -> (r: usize)
        ensures
            r == failures(self@, severity),
            r <= self@.len(),
    {
        let mut n: usize = 0;
        for i in 0..self.results.len()
            invariant
                n == failures(self@.take(i as int), severity),
                n <= i,
        {
            let c = &self.results[i];
            proof {
                assert(self@.take(i + 1).drop_last() =~= self@.take(i as int));
                assert(self@.take(i + 1).last() == c@);
            }
            if c.severity == severity && !c.passed {
                n += 1;
            }
        }
        assert(self@.take(self@.len() as int) =~= self@);
        n
    }

    fn any(&self, severity: Severity) -> (r: bool)
        ensures
            r == any_failed(self@, severity),
    {
        for i in 0..self.results.len()
            invariant
                forall|j: int| 0 <= j < i ==> !failed(#[trigger] self@[j], severity),
        {
            let c = &self.results[i];
            assert(self@[i as int] == c@);
            if c.severity == severity && !c.passed {
                return true;
            }
        }
        false
    }

    /// Whether an error was found.
    pub fn has_errors(&self) -> (r: bool)
        ensures
            r == any_failed(self@, Severity::Error),
    {
        self.any(Severity::Error)
    }

    /// Whether a warning was found.
    pub fn has_warnings(&self) -> (r: bool)
        ensures
            r == any_failed(self@, Severity::Warning),
    {
        self.any(Severity::Warning)
    }

    /// How many errors were found.
    pub fn error_count(&self) -> (r: usize)
        ensures
            r == failures(self@, Severity::Error),
    {
        self.count(Severity::Error)
    }

    /// How many warnings were found.
    pub fn warning_count(&self) -> (r: usize)
        ensures
            r == failures(self@, Severity::Warning),
    {
        self.count(Severity::Warning)
    }

    /// One outcome as a line.
    pub fn format_result(r: &CheckResult) -> (line: String)
        ensures
            line@ == result_line(r@),
    {
        let mark: &str = if r.severity == Severity::Info {
            "·"
        } else if r.passed {
            "✓"
        } else {
            match r.severity {
                Severity::Warning => "⚠",
                _ => "✗",
            }
        };
        let head = cat2(mark, " ");
        cat2(head.as_str(), r.message.as_str())
    }

    /// All outcomes as lines, and a last line that counts what failed.
    pub fn to_summary_string(&self) -> (r: String)
        ensures
            r@ == summary(self@),
    {
        let mut lines: Vec<String> = Vec::new();
        for i in 0..self.results.len()
            invariant
                lines.len() == i,
                forall|j: int| 0 <= j < i ==> (#[trigger] lines@[j])@ == result_line(self@[j]),
        {
            lines.push(CheckReport::format_result(&self.results[i]));
        }
        let errors: usize = self.error_count();
        let warnings: usize = self.warning_count();
        if errors == 0 && warnings == 0 {
            lines.push("\nall checks passed".to_owned());
        } else {
            lines.push(cat5(
                "\n",
                decimal_text(errors as u64).as_str(),
                " error(s), ",
                decimal_text(warnings as u64).as_str(),
                " warning(s)",
            ));
        }
        assert(views(lines@) =~= summary_lines(self@));
        join_texts(&lines, "\n")
    }
}

/// One outcome, with the name of its severity.
#[derive(Clone, Debug, PartialEq, Eq)]
pub struct CheckEntry {
    pub name: &'static str,
    pub severity: &'static str,
    pub passed: bool,
    pub message: String,
}

/// A report as it is written for other programs.
#[derive(Clone, Debug, PartialEq, Eq)]
pub struct ReportValue {
    pub passed: bool,
    pub errors: usize,
    pub warnings: usize,
    pub checks: Vec<CheckEntry>,
}

/// Whether an entry says what an outcome says.
pub open spec fn is_entry(e: CheckEntry, c: CheckView) -> bool {
    e.name@ == c.name && e.severity@ == c.severity.name() && e.passed == c.passed && e.message@
        == c.message
}

impl CheckReport {
    /// The report for other programs.
    pub fn to_json_value(&self) -> (r: ReportValue)
        ensures
            r.passed == !any_failed(self@, Severity::Error),
            r.errors == failures(self@, Severity::Error),
            r.warnings == failures(self@, Severity::Warning),
            r.checks@.len() == self@.len(),
            forall|i: int| 0 <= i < self@.len() ==> is_entry(#[trigger] r.checks@[i], self@[i]),
    {
        let mut checks: Vec<CheckEntry> = Vec::new();
        for i in 0..self.results.len()
            invariant
                checks@.len() == i,
                forall|j: int| 0 <= j < i ==> is_entry(#[trigger] checks@[j], self@[j]),
        {
            let c = &self.results[i];
            checks.push(
                CheckEntry {
                    name: c.name,
                    severity: c.severity.as_str(),
                    passed: c.passed,
                    message: c.message.clone(),
                },
            );
        }
        ReportValue {
            passed: !self.has_errors(),
            errors: self.error_count(),
            warnings: self.warning_count(),
            checks,
        }
    }
}

/// There is an error exactly where the count of errors is not zero, and so for
/// every severity.
pub proof fn counted_where_found(checks: Seq<CheckView>, severity: Severity)
    ensures
        any_failed(checks, severity) <==> failures(checks, severity) > 0,
    decreases checks.len(),
{
    if checks.len() > 0 {
        let rest = checks.drop_last();
        counted_where_found(rest, severity);
        if any_failed(rest, severity) {
            let i = choose|i: int| 0 <= i < rest.len() && failed(#[trigger] rest[i], severity);
            assert(failed(checks[i], severity));
        }
        if failed(checks.last(), severity) {
            assert(failed(checks[checks.len() - 1], severity));
        }
        if any_failed(checks, severity) && !failed(checks.last(), severity) {
            let i = choose|i: int| 0 <= i < checks.len() && failed(#[trigger] checks[i], severity);
            assert(failed(rest[i], severity));
        }
    }
}

/// Adding an outcome never takes an error away.
pub proof fn errors_stay(checks: Seq<CheckView>, c: CheckView, severity: Severity)
    requires
        any_failed(checks, severity),
    ensures
        any_failed(checks.push(c), severity),
{
    let i = choose|i: int| 0 <= i < checks.len() && failed(#[trigger] checks[i], severity);
    assert(failed(checks.push(c)[i], severity));
}

} // verus!
