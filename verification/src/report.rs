//! Validation diagnostics: severities, findings tied to spec rules, and reports.
use vstd::prelude::*;

verus! {

/// Severity level for a validation diagnostic.
#[derive(Debug, Clone, Copy, PartialEq, Eq, Structural)]
pub enum Severity {
    /// Violation of a MUST rule.
    Error,
    /// Violation of a SHOULD rule.
    Warning,
}

/// A single validation finding, tied to a rule.
#[derive(Debug, Clone)]
pub struct Diagnostic {
    pub severity: Severity,
    /// Rule ID (e.g., `"format.crate.keyword"`).
    pub rule: &'static str,
    pub message: String,
}

/// The mathematical content of a diagnostic.
pub struct DiagnosticView {
    pub severity: Severity,
    pub rule: Seq<char>,
    pub message: Seq<char>,
}

impl DeepView for Diagnostic {
    type V = DiagnosticView;

    open spec fn deep_view(&self) -> DiagnosticView {
        DiagnosticView { severity: self.severity, rule: self.rule@, message: self.message@ }
    }
}

/// A diagnostic of the given severity.
pub open spec fn diag(severity: Severity, rule: Seq<char>, message: Seq<char>) -> DiagnosticView {
    DiagnosticView { severity, rule, message }
}

/// Collected validation results.
#[derive(Debug)]
pub struct ValidationReport {
    pub diagnostics: Vec<Diagnostic>,
}

impl ValidationReport {
    /// The findings, in the order they were recorded.
    pub open spec fn view_seq(&self) -> Seq<DiagnosticView> {
        self.diagnostics.deep_view()
    }

    /// A report with no findings.
    pub fn new() -> (r: Self)
        ensures
            r.view_seq() == Seq::<DiagnosticView>::empty(),
    {
        let r = ValidationReport { diagnostics: Vec::new() };
        assert(r.view_seq() =~= Seq::<DiagnosticView>::empty());
        r
    }

    /// True if any diagnostic is an error.
    pub fn has_errors(&self) -> (b: bool)
        ensures
            b == exists|i: int|
                0 <= i < self.view_seq().len() && #[trigger] self.view_seq()[i].severity
                    == Severity::Error,
    {
        let mut i: usize = 0;
        while i < self.diagnostics.len()
            invariant
                i <= self.diagnostics@.len(),
                forall|j: int| 0 <= j < i ==> #[trigger] self.view_seq()[j].severity != Severity::Error,
            decreases self.diagnostics.len() - i,
        {
            if self.diagnostics[i].severity == Severity::Error {
                assert(self.view_seq()[i as int].severity == Severity::Error);
                return true;
            }
            i += 1;
        }
        false
    }

    /// True if there are no diagnostics at all.
    pub fn is_clean(&self) -> (b: bool)
        ensures
            b == (self.view_seq().len() == 0),
    {
        self.diagnostics.len() == 0
    }

    /// Merge another report into this one: its findings follow ours.
    pub fn merge(&mut self, other: ValidationReport)
        ensures
            final(self).view_seq() == old(self).view_seq() + other.view_seq(),
    {
        let ghost before = self.view_seq();
        let mut other = other;
        let ghost ov = other.view_seq();
        self.diagnostics.append(&mut other.diagnostics);
        assert(self.view_seq() =~= before + ov);
    }

    /// Record an error for a rule.
    pub fn error(&mut self, rule: &'static str, message: String)
        ensures
            final(self).view_seq() == old(self).view_seq().push(
                diag(Severity::Error, rule@, message@),
            ),
    {
        let ghost before = self.view_seq();
        let d = Diagnostic { severity: Severity::Error, rule, message };
        self.diagnostics.push(d);
        assert(self.view_seq() =~= before.push(diag(Severity::Error, rule@, d.message@)));
    }

    /// Record a warning for a rule.
    pub fn warning(&mut self, rule: &'static str, message: String)
        ensures
            final(self).view_seq() == old(self).view_seq().push(
                diag(Severity::Warning, rule@, message@),
            ),
    {
        let ghost before = self.view_seq();
        let d = Diagnostic { severity: Severity::Warning, rule, message };
        self.diagnostics.push(d);
        assert(self.view_seq() =~= before.push(diag(Severity::Warning, rule@, d.message@)));
    }
}

} // verus!
