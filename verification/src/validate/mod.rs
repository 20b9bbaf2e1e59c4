//! Validation reports: the issues found in a replay.
use vstd::prelude::*;

use crate::options::ValidationProfile;

pub mod rules;

verus! {

/// Whether an issue makes a replay invalid.
#[derive(Debug, Clone, Copy, PartialEq, Eq)]
pub enum ValidationSeverity {
    Error,
    Warning,
}

/// One finding: a code, its severity, where it was found, and a message.
#[derive(Debug, Clone, PartialEq, Eq)]
pub struct ValidationIssue {
    pub code: String,
    pub severity: ValidationSeverity,
    pub path: String,
    pub message: String,
}

/// The mathematical value of a [`ValidationIssue`].
pub struct IssueView {
    pub code: Seq<char>,
    pub severity: ValidationSeverity,
    pub path: Seq<char>,
    pub message: Seq<char>,
}

impl View for ValidationIssue {
    type V = IssueView;

    open spec fn view(&self) -> IssueView {
        IssueView { code: self.code@, severity: self.severity, path: self.path@, message: self.message@ }
    }
}

/// The issues found under one profile, in the order they were found.
#[derive(Debug, Clone, PartialEq, Eq)]
pub struct ValidationReport {
    pub profile: ValidationProfile,
    pub issues: Vec<ValidationIssue>,
}

/// The mathematical value of a [`ValidationReport`].
pub struct ReportView {
    pub profile: ValidationProfile,
    pub issues: Seq<IssueView>,
}

impl View for ValidationReport {
    type V = ReportView;

    open spec fn view(&self) -> ReportView {
        ReportView { profile: self.profile, issues: self.issues@.map_values(|i: ValidationIssue| i@) }
    }
}

/// The number of issues of severity `Error` among the first `n` of `issues`.
pub open spec fn errors_in(issues: Seq<IssueView>, n: int) -> nat
    decreases n,
{
    if n <= 0 {
        0
    } else {
        errors_in(issues, n - 1) + if issues[n - 1].severity == ValidationSeverity::Error { 1nat } else { 0nat }
    }
}

/// The number of issues of severity `Error`.
pub open spec fn error_total(issues: Seq<IssueView>) -> nat {
    errors_in(issues, issues.len() as int)
}

/// No issue is an error.
pub open spec fn no_errors(issues: Seq<IssueView>) -> bool {
    forall|i: int| 0 <= i < issues.len() ==> #[trigger] issues[i].severity != ValidationSeverity::Error
}

impl ValidationReport {
    /// An empty report for `profile`.
    pub fn new(profile: ValidationProfile) -> (r: Self)
        ensures
            r@.profile == profile,
            r@.issues == Seq::<IssueView>::empty(),
    {
        let r = ValidationReport { profile, issues: Vec::new() };
        assert(r@.issues =~= Seq::<IssueView>::empty());
        r
    }

    /// Adds an issue at the end.
    pub fn push(&mut self, issue: ValidationIssue)
        ensures
            final(self)@.profile == old(self)@.profile,
            final(self)@.issues == old(self)@.issues.push(issue@),
    {
        self.issues.push(issue);
        assert(final(self)@.issues =~= old(self)@.issues.push(issue@));
    }

    /// True when no issue is an error.
    pub fn is_valid(&self) -> (b: bool)
        ensures
            b == no_errors(self@.issues),
    {
        let mut i: usize = 0;
        while i < self.issues.len()
            invariant
                i <= self.issues.len(),
                forall|j: int| 0 <= j < i ==> #[trigger] self@.issues[j].severity != ValidationSeverity::Error,
            decreases self.issues.len() - i,
        {
            if matches!(self.issues[i].severity, ValidationSeverity::Error) {
                assert(self@.issues[i as int].severity == ValidationSeverity::Error);
                return false;
            }
            i = i + 1;
        }
        true
    }

    /// The number of issues that are errors.
    pub fn error_count(&self) -> (n: usize)
        ensures
            n == error_total(self@.issues),
    {
        let mut count: usize = 0;
        let mut i: usize = 0;
        while i < self.issues.len()
            invariant
                i <= self.issues.len(),
                count == errors_in(self@.issues, i as int),
                count <= i,
            decreases self.issues.len() - i,
        {
            if matches!(self.issues[i].severity, ValidationSeverity::Error) {
                count = count + 1;
            }
            i = i + 1;
        }
        count
    }
}

} // verus!
