//! The package check report: issues with a severity, their counts, and the
//! Markdown text that `pkg check` prints.

use vstd::prelude::*;
use crate::text::{decimal, opt_view, usize_to_decimal};

verus! {

/// How serious a check issue is.
#[derive(Clone, Copy, Debug, PartialEq, Eq, Structural)]
pub enum CheckSeverity {
    Warning,
    Error,
}

/// The word a severity is printed as.
pub open spec fn severity_label(severity: CheckSeverity) -> Seq<char> {
    match severity {
        CheckSeverity::Warning => "warning"@,
        CheckSeverity::Error => "error"@,
    }
}

impl CheckSeverity {
    /// The word this severity is printed as.
    pub fn label(self) -> (s: &'static str)
        ensures
            s@ == severity_label(self),
    {
        match self {
            CheckSeverity::Warning => "warning",
            CheckSeverity::Error => "error",
        }
    }
}

/// One finding of a package check.
#[derive(Clone, Debug)]
pub struct CheckIssue {
    pub severity: CheckSeverity,
    pub code: String,
    pub message: String,
    pub path: Option<String>,
    pub kind: Option<String>,
    pub transient: Option<bool>,
    pub retry_after: Option<String>,
    pub location: Option<String>,
}

/// The outcome of checking one problem package.
#[derive(Clone, Debug)]
pub struct CheckReport {
    pub work_dir: String,
    pub issues: Vec<CheckIssue>,
}

/// Options of a package check.
#[derive(Clone, Debug)]
pub struct CheckOptions {
    /// How long to wait for a data generation in progress, in seconds.
    pub generation_lock_timeout_secs: Option<u64>,
}

/// The number of issues of the given severity.
pub open spec fn severity_count(issues: Seq<CheckIssue>, severity: CheckSeverity) -> nat
    decreases issues.len(),
{
    if issues.len() == 0 {
        0
    } else {
        severity_count(issues.drop_last(), severity) + if issues.last().severity == severity {
            1nat
        } else {
            0nat
        }
    }
}

/// Some issue has the given severity.
pub open spec fn has_severity(issues: Seq<CheckIssue>, severity: CheckSeverity) -> bool {
    exists|i: int| 0 <= i < issues.len() && issues[i].severity == severity
}

/// An issue with the given parts and no extra annotations.
pub open spec fn plain_issue(
    severity: CheckSeverity,
    code: Seq<char>,
    message: Seq<char>,
    path: Option<Seq<char>>,
    location: Option<Seq<char>>,
    issue: CheckIssue,
) -> bool {
    &&& issue.severity == severity
    &&& issue.code@ == code
    &&& issue.message@ == message
    &&& opt_view(issue.path) == path
    &&& issue.kind is None
    &&& issue.transient is None
    &&& issue.retry_after is None
    &&& opt_view(issue.location) == location
}

/// The line an issue is listed with.
pub open spec fn issue_line(issue: CheckIssue) -> Seq<char> {
    "- ["@ + issue.code@ + "] "@ + issue.message@ + match issue.path {
        Some(p) => " (`"@ + p@ + "`)"@,
        None => Seq::empty(),
    } + "\n"@
}

/// The listing lines of the issues of one severity, in order.
pub open spec fn issue_lines(issues: Seq<CheckIssue>, severity: CheckSeverity) -> Seq<char>
    decreases issues.len(),
{
    if issues.len() == 0 {
        Seq::empty()
    } else {
        issue_lines(issues.drop_last(), severity) + if issues.last().severity == severity {
            issue_line(issues.last())
        } else {
            Seq::empty()
        }
    }
}

/// The section of the report that lists the issues of one severity.
pub open spec fn group_text(issues: Seq<CheckIssue>, severity: CheckSeverity) -> Seq<char> {
    "\n## "@ + severity_label(severity) + "s\n"@ + if severity_count(issues, severity) == 0 {
        "- none\n"@
    } else {
        issue_lines(issues, severity)
    }
}

/// The whole text of a check report.
pub open spec fn report_text(work_dir: Seq<char>, issues: Seq<CheckIssue>) -> Seq<char> {
    "# cptool check report\n\n- work_dir: `"@ + work_dir + "`\n- status: `"@ + if has_severity(
        issues,
        CheckSeverity::Error,
    ) {
        "FAIL"@
    } else {
        "PASS"@
    } + "`\n- errors: "@ + decimal(severity_count(issues, CheckSeverity::Error)) + "\n- warnings: "@
        + decimal(severity_count(issues, CheckSeverity::Warning)) + "\n"@ + group_text(
        issues,
        CheckSeverity::Error,
    ) + group_text(issues, CheckSeverity::Warning)
}

/// A severity occurs among the issues exactly when it is counted.
pub proof fn lemma_count_positive(issues: Seq<CheckIssue>, severity: CheckSeverity)
    ensures
        (severity_count(issues, severity) > 0) == has_severity(issues, severity),
        severity_count(issues, severity) <= issues.len(),
    decreases issues.len(),
{
    if issues.len() > 0 {
        lemma_count_positive(issues.drop_last(), severity);
        if has_severity(issues.drop_last(), severity) {
            let i = choose|i: int|
                0 <= i < issues.drop_last().len() && issues.drop_last()[i].severity == severity;
            assert(issues[i].severity == severity);
        }
        if has_severity(issues, severity) && issues.last().severity != severity {
            let i = choose|i: int| 0 <= i < issues.len() && issues[i].severity == severity;
            assert(issues.drop_last()[i].severity == severity);
        }
    }
}

/// Every issue is either an error or a warning, so the two counts add up to
/// the number of issues.
pub proof fn lemma_counts_partition(issues: Seq<CheckIssue>)
    ensures
        severity_count(issues, CheckSeverity::Error) + severity_count(
            issues,
            CheckSeverity::Warning,
        ) == issues.len(),
    decreases issues.len(),
{
    if issues.len() > 0 {
        lemma_counts_partition(issues.drop_last());
    }
}

impl CheckReport {
    /// An empty report for a package directory.
    pub fn new(work_dir: String) -> (r: Self)
        ensures
            r.work_dir@ == work_dir@,
            r.issues@.len() == 0,
    {
        CheckReport { work_dir, issues: Vec::new() }
    }

    /// Whether any issue is an error.
    pub fn has_errors(&self) -> (b: bool)
        ensures
            b == has_severity(self.issues@, CheckSeverity::Error),
    {
        let mut i: usize = 0;
        while i < self.issues.len()
            invariant
                i <= self.issues@.len(),
                forall|j: int| 0 <= j < i ==> self.issues@[j].severity != CheckSeverity::Error,
            decreases self.issues@.len() - i,
        {
            if self.issues[i].severity == CheckSeverity::Error {
                return true;
            }
            i = i + 1;
        }
        false
    }

    fn count_of(&self, severity: CheckSeverity) -> (n: usize)
        ensures
            n == severity_count(self.issues@, severity),
    {
        let mut n: usize = 0;
        let mut i: usize = 0;
        while i < self.issues.len()
            invariant
                i <= self.issues@.len(),
                n == severity_count(self.issues@.subrange(0, i as int), severity),
                n <= i,
            decreases self.issues@.len() - i,
        {
            assert(self.issues@.subrange(0, i + 1).drop_last() == self.issues@.subrange(
                0,
                i as int,
            ));
            if self.issues[i].severity == severity {
                n = n + 1;
            }
            i = i + 1;
        }
        assert(self.issues@.subrange(0, self.issues@.len() as int) == self.issues@);
        n
    }

    /// The number of errors.
    pub fn error_count(&self) -> (n: usize)
        ensures
            n == severity_count(self.issues@, CheckSeverity::Error),
    {
        self.count_of(CheckSeverity::Error)
    }

    /// The number of warnings.
    pub fn warning_count(&self) -> (n: usize)
        ensures
            n == severity_count(self.issues@, CheckSeverity::Warning),
    {
        self.count_of(CheckSeverity::Warning)
    }

    /// Appends the listing of the issues of one severity.
    pub fn render_group(&self, out: &mut String, severity: CheckSeverity)
        ensures
            final(out)@ == old(out)@ + group_text(self.issues@, severity),
    {
        out.append("\n## ");
        out.append(severity.label());
        out.append("s\n");
        if self.count_of(severity) == 0 {
            out.append("- none\n");
            return;
        }
        let ghost start = out@;
        let mut i: usize = 0;
        while i < self.issues.len()
            invariant
                i <= self.issues@.len(),
                out@ == start + issue_lines(self.issues@.subrange(0, i as int), severity),
            decreases self.issues@.len() - i,
        {
            assert(self.issues@.subrange(0, i + 1).drop_last() == self.issues@.subrange(
                0,
                i as int,
            ));
            let issue = &self.issues[i];
            if issue.severity == severity {
                out.append("- [");
                out.append(issue.code.as_str());
                out.append("] ");
                out.append(issue.message.as_str());
                match &issue.path {
                    Some(p) => {
                        out.append(" (`");
                        out.append(p.as_str());
                        out.append("`)");
                    },
                    None => {},
                }
                out.append("\n");
            }
            i = i + 1;
        }
        assert(self.issues@.subrange(0, self.issues@.len() as int) == self.issues@);
    }

    /// The Markdown text of the report: status, counts, then the errors and
    /// the warnings.
    pub fn render_text(&self) -> (s: String)
        ensures
            s@ == report_text(self.work_dir@, self.issues@),
    {
        let mut out = String::new();
        out.append("# cptool check report\n\n- work_dir: `");
        out.append(self.work_dir.as_str());
        out.append("`\n- status: `");
        if self.has_errors() {
            out.append("FAIL");
        } else {
            out.append("PASS");
        }
        out.append("`\n- errors: ");
        let errors = usize_to_decimal(self.error_count());
        out.append(errors.as_str());
        out.append("\n- warnings: ");
        let warnings = usize_to_decimal(self.warning_count());
        out.append(warnings.as_str());
        out.append("\n");
        self.render_group(&mut out, CheckSeverity::Error);
        self.render_group(&mut out, CheckSeverity::Warning);
        out
    }

    /// Records an issue without a location.
    pub fn push(&mut self, severity: CheckSeverity, code: String, message: String, path: Option<String>)
        ensures
            final(self).work_dir == old(self).work_dir,
            final(self).issues@.len() == old(self).issues@.len() + 1,
            final(self).issues@.drop_last() == old(self).issues@,
            plain_issue(
                severity,
                code@,
                message@,
                opt_view(path),
                None,
                final(self).issues@.last(),
            ),
    {
        self.issues.push(CheckIssue {
            severity,
            code,
            message,
            path,
            kind: None,
            transient: None,
            retry_after: None,
            location: None,
        });
    }

    /// Records an issue at a location inside a file.
    pub fn push_at(
        &mut self,
        severity: CheckSeverity,
        code: String,
        message: String,
        path: Option<String>,
        location: String,
    )
        ensures
            final(self).work_dir == old(self).work_dir,
            final(self).issues@.len() == old(self).issues@.len() + 1,
            final(self).issues@.drop_last() == old(self).issues@,
            plain_issue(
                severity,
                code@,
                message@,
                opt_view(path),
                Some(location@),
                final(self).issues@.last(),
            ),
    {
        self.issues.push(CheckIssue {
            severity,
            code,
            message,
            path,
            kind: None,
            transient: None,
            retry_after: None,
            location: Some(location),
        });
    }

    /// Records an error caused by a data generation in progress: it is
    /// transient, and the advice is to wait for the generation, then retry.
    pub fn lock_error(&mut self, code: String, message: String, path: Option<String>)
        ensures
            final(self).work_dir == old(self).work_dir,
            final(self).issues@.len() == old(self).issues@.len() + 1,
            final(self).issues@.drop_last() == old(self).issues@,
            final(self).issues@.last().severity == CheckSeverity::Error,
            final(self).issues@.last().code@ == code@,
            final(self).issues@.last().message@ == message@,
            opt_view(final(self).issues@.last().path) == opt_view(path),
            opt_view(final(self).issues@.last().kind) == Some("lock"@),
            final(self).issues@.last().transient == Some(true),
            opt_view(final(self).issues@.last().retry_after) == Some(
                "wait_for_generation_then_retry"@,
            ),
            final(self).issues@.last().location is None,
    {
        self.issues.push(CheckIssue {
            severity: CheckSeverity::Error,
            code,
            message,
            path,
            kind: Some(String::from_str("lock")),
            transient: Some(true),
            retry_after: Some(String::from_str("wait_for_generation_then_retry")),
            location: None,
        });
    }

    /// Records an error.
    pub fn error(&mut self, code: String, message: String, path: Option<String>)
        ensures
            final(self).work_dir == old(self).work_dir,
            final(self).issues@.len() == old(self).issues@.len() + 1,
            final(self).issues@.drop_last() == old(self).issues@,
            plain_issue(
                CheckSeverity::Error,
                code@,
                message@,
                opt_view(path),
                None,
                final(self).issues@.last(),
            ),
    {
        self.push(CheckSeverity::Error, code, message, path);
    }

    /// Records a warning.
    pub fn warning(&mut self, code: String, message: String, path: Option<String>)
        ensures
            final(self).work_dir == old(self).work_dir,
            final(self).issues@.len() == old(self).issues@.len() + 1,
            final(self).issues@.drop_last() == old(self).issues@,
            plain_issue(
                CheckSeverity::Warning,
                code@,
                message@,
                opt_view(path),
                None,
                final(self).issues@.last(),
            ),
    {
        self.push(CheckSeverity::Warning, code, message, path);
    }

    /// Records an error at a location inside a file.
    pub fn error_at(&mut self, code: String, message: String, path: Option<String>, location: String)
        ensures
            final(self).work_dir == old(self).work_dir,
            final(self).issues@.len() == old(self).issues@.len() + 1,
            final(self).issues@.drop_last() == old(self).issues@,
            plain_issue(
                CheckSeverity::Error,
                code@,
                message@,
                opt_view(path),
                Some(location@),
                final(self).issues@.last(),
            ),
    {
        self.push_at(CheckSeverity::Error, code, message, path, location);
    }

    /// Records a warning at a location inside a file.
    pub fn warning_at(&mut self, code: String, message: String, path: Option<String>, location: String)
        ensures
            final(self).work_dir == old(self).work_dir,
            final(self).issues@.len() == old(self).issues@.len() + 1,
            final(self).issues@.drop_last() == old(self).issues@,
            plain_issue(
                CheckSeverity::Warning,
                code@,
                message@,
                opt_view(path),
                Some(location@),
                final(self).issues@.last(),
            ),
    {
        self.push_at(CheckSeverity::Warning, code, message, path, location);
    }
}

} // verus!
