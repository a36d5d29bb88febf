//! Evidence of a package's quality: the outcomes of a check, a data
//! generation and the expect tasks, each recorded, failed or skipped, and
//! the summary lines printed for them.

use vstd::prelude::*;
use crate::data::{generate_summary_text, kind_text, GenerateReport, GenerateWarning};
use crate::report::{severity_count, CheckIssue, CheckReport, CheckSeverity};
use crate::schema::DEFAULT_OUTPUT_LIMIT_BYTES;
use crate::stress::{join_strings, StressSummary};
use crate::text::{decimal, join, string_views, usize_to_decimal};
use crate::time::Duration;

verus! {

/// Options of collecting evidence.
#[derive(Clone, Debug)]
pub struct EvidenceOptions {
    pub work_dir: String,
    pub output_limit_bytes: usize,
    pub skip_gen: bool,
    pub skip_task: bool,
    pub reuse_existing_task: Option<String>,
    pub generation_lock_timeout: Option<Duration>,
}

impl EvidenceOptions {
    /// Collect everything, with the default output cap.
    pub fn new(work_dir: String) -> (o: EvidenceOptions)
        ensures
            o.work_dir == work_dir,
            o.output_limit_bytes == DEFAULT_OUTPUT_LIMIT_BYTES,
            !o.skip_gen,
            !o.skip_task,
            o.reuse_existing_task is None,
            o.generation_lock_timeout is None,
    {
        EvidenceOptions {
            work_dir,
            output_limit_bytes: DEFAULT_OUTPUT_LIMIT_BYTES,
            skip_gen: false,
            skip_task: false,
            reuse_existing_task: None,
            generation_lock_timeout: None,
        }
    }
}

/// Whether a section was recorded, failed, or was skipped.
#[derive(Clone, Copy, Debug, PartialEq, Eq, Structural)]
pub enum EvidenceStatus {
    Recorded,
    Error,
    Skipped,
}

/// The word a status is printed as when a section is inconsistent.
pub open spec fn status_word(s: EvidenceStatus) -> Seq<char> {
    match s {
        EvidenceStatus::Recorded => "Ok"@,
        EvidenceStatus::Error => "Error"@,
        EvidenceStatus::Skipped => "Skipped"@,
    }
}

fn status_text(s: EvidenceStatus) -> (r: String)
    ensures
        r@ == status_word(s),
{
    proof {
        reveal_strlit("Ok");
        reveal_strlit("Error");
        reveal_strlit("Skipped");
    }
    match s {
        EvidenceStatus::Recorded => String::from_str("Ok"),
        EvidenceStatus::Error => String::from_str("Error"),
        EvidenceStatus::Skipped => String::from_str("Skipped"),
    }
}

/// A check report as evidence: its verdict and counts.
#[derive(Clone, Debug)]
pub struct EvidenceCheckReport {
    pub work_dir: String,
    pub status: String,
    pub errors: usize,
    pub warnings: usize,
    pub issues: Vec<CheckIssue>,
}

impl EvidenceCheckReport {
    /// The evidence of a check: `fail` when it found errors, else `pass`.
    pub fn from_check_report(report: CheckReport) -> (e: EvidenceCheckReport)
        ensures
            e.work_dir == report.work_dir,
            e.errors == severity_count(report.issues@, CheckSeverity::Error),
            e.warnings == severity_count(report.issues@, CheckSeverity::Warning),
            e.status@ == if e.errors > 0 {
                "fail"@
            } else {
                "pass"@
            },
            e.issues == report.issues,
    {
        let errors = report.error_count();
        let warnings = report.warning_count();
        let has_errors = report.has_errors();
        proof {
            reveal_strlit("fail");
            reveal_strlit("pass");
            crate::report::lemma_count_positive(report.issues@, CheckSeverity::Error);
        }
        let status = if has_errors {
            String::from_str("fail")
        } else {
            String::from_str("pass")
        };
        EvidenceCheckReport { work_dir: report.work_dir, status, errors, warnings, issues: report.issues }
    }

    /// Whether the check found errors.
    pub fn has_errors(&self) -> (b: bool)
        ensures
            b == (self.errors > 0),
    {
        self.errors > 0
    }
}

/// One section of the evidence: a report, or the error or the reason it
/// was skipped.
#[derive(Clone, Debug)]
pub struct EvidenceSection<T> {
    pub status: EvidenceStatus,
    pub report: Option<T>,
    pub error: Option<String>,
}

impl<T> EvidenceSection<T> {
    /// A recorded report.
    pub fn ok(report: T) -> (s: Self)
        ensures
            s.status == EvidenceStatus::Recorded,
            s.report == Some(report),
            s.error is None,
    {
        EvidenceSection { status: EvidenceStatus::Recorded, report: Some(report), error: None }
    }

    /// A section that failed with an error.
    pub fn error(error: String) -> (s: Self)
        ensures
            s.status == EvidenceStatus::Error,
            s.report is None,
            s.error == Some(error),
    {
        EvidenceSection { status: EvidenceStatus::Error, report: None, error: Some(error) }
    }

    /// A section that was skipped, with the reason.
    pub fn skipped(reason: String) -> (s: Self)
        ensures
            s.status == EvidenceStatus::Skipped,
            s.report is None,
            s.error == Some(reason),
    {
        EvidenceSection { status: EvidenceStatus::Skipped, report: None, error: Some(reason) }
    }

    /// Whether the section failed.
    pub fn is_error(&self) -> (b: bool)
        ensures
            b == (self.status == EvidenceStatus::Error),
    {
        self.status == EvidenceStatus::Error
    }
}

/// The summary of a section that is not recorded: its error or reason,
/// else its status.
pub open spec fn other_summary(status: EvidenceStatus, error: Option<String>) -> Seq<char> {
    match (status, error) {
        (EvidenceStatus::Error, Some(e)) => "error "@ + e@,
        (EvidenceStatus::Skipped, Some(r)) => "skipped "@ + r@,
        _ => status_word(status),
    }
}

fn other_summary_text(status: EvidenceStatus, error: &Option<String>) -> (s: String)
    ensures
        s@ == other_summary(status, *error),
{
    proof {
        reveal_strlit("error ");
        reveal_strlit("skipped ");
    }
    match (status, error) {
        (EvidenceStatus::Error, Some(e)) => {
            let mut s = String::from_str("error ");
            s.append(e.as_str());
            s
        },
        (EvidenceStatus::Skipped, Some(r)) => {
            let mut s = String::from_str("skipped ");
            s.append(r.as_str());
            s
        },
        _ => status_text(status),
    }
}

/// The summary of the check section.
pub open spec fn check_section_text(s: EvidenceSection<EvidenceCheckReport>) -> Seq<char> {
    match (s.status, s.report) {
        (EvidenceStatus::Recorded, Some(r)) => "ok status="@ + r.status@ + " errors="@ + decimal(r.errors as nat)
            + " warnings="@ + decimal(r.warnings as nat),
        _ => other_summary(s.status, s.error),
    }
}

impl EvidenceSection<EvidenceCheckReport> {
    /// The line summarizing the check section.
    pub fn check_summary(&self) -> (s: String)
        ensures
            s@ == check_section_text(*self),
    {
        proof {
            reveal_strlit("ok status=");
            reveal_strlit(" errors=");
            reveal_strlit(" warnings=");
        }
        match (self.status, &self.report) {
            (EvidenceStatus::Recorded, Some(r)) => {
                let mut s = String::from_str("ok status=");
                s.append(r.status.as_str());
                s.append(" errors=");
                s.append(usize_to_decimal(r.errors).as_str());
                s.append(" warnings=");
                s.append(usize_to_decimal(r.warnings).as_str());
                s
            },
            _ => other_summary_text(self.status, &self.error),
        }
    }
}

/// The summary of the generation section.
pub open spec fn gen_section_text(s: EvidenceSection<GenerateReport>) -> Seq<char> {
    match (s.status, s.report) {
        (EvidenceStatus::Recorded, Some(r)) => generate_summary_text(r),
        _ => other_summary(s.status, s.error),
    }
}

impl EvidenceSection<GenerateReport> {
    /// The line summarizing the generation section.
    pub fn gen_summary(&self) -> (s: String)
        ensures
            s@ == gen_section_text(*self),
    {
        match (self.status, &self.report) {
            (EvidenceStatus::Recorded, Some(r)) => r.summary_line(),
            _ => other_summary_text(self.status, &self.error),
        }
    }
}

/// The cases of all task checks.
pub open spec fn total_cases(v: Seq<StressSummary>) -> nat
    decreases v.len(),
{
    if v.len() == 0 {
        0
    } else {
        total_cases(v.drop_last()) + v.last().cases as nat
    }
}

/// The summary of the task section.
pub open spec fn task_section_text(s: EvidenceSection<Vec<StressSummary>>) -> Seq<char> {
    match (s.status, s.report) {
        (EvidenceStatus::Recorded, Some(r)) => "ok checks="@ + decimal(r@.len()) + " cases="@ + decimal(
            total_cases(r@),
        ),
        _ => other_summary(s.status, s.error),
    }
}

impl EvidenceSection<Vec<StressSummary>> {
    /// The line summarizing the task section.
    pub fn task_summary(&self) -> (s: String)
        requires
            self.report is Some ==> total_cases(self.report->0@) <= usize::MAX,
        ensures
            s@ == task_section_text(*self),
    {
        proof {
            reveal_strlit("ok checks=");
            reveal_strlit(" cases=");
        }
        match (self.status, &self.report) {
            (EvidenceStatus::Recorded, Some(r)) => {
                let mut cases: usize = 0;
                let mut i: usize = 0;
                while i < r.len()
                    invariant
                        i <= r@.len(),
                        total_cases(r@) <= usize::MAX,
                        cases == total_cases(r@.take(i as int)),
                    decreases r@.len() - i,
                {
                    assert(r@.take(i + 1).drop_last() == r@.take(i as int));
                    proof {
                        lemma_total_cases_prefix(r@, i + 1);
                    }
                    cases = cases + r[i].cases;
                    i = i + 1;
                }
                assert(r@.take(i as int) == r@);
                let mut s = String::from_str("ok checks=");
                s.append(usize_to_decimal(r.len()).as_str());
                s.append(" cases=");
                s.append(usize_to_decimal(cases).as_str());
                s
            },
            _ => other_summary_text(self.status, &self.error),
        }
    }
}

proof fn lemma_total_cases_prefix(v: Seq<StressSummary>, i: int)
    requires
        0 <= i <= v.len(),
    ensures
        total_cases(v.take(i)) <= total_cases(v),
    decreases v.len() - i,
{
    if i < v.len() {
        lemma_total_cases_prefix(v, i + 1);
        assert(v.take(i + 1).drop_last() == v.take(i));
    } else {
        assert(v.take(i) == v);
    }
}

/// The kinds of the generation warnings, in order, joined by commas, or
/// `0` when there are none.
pub open spec fn warning_kinds_text(ws: Seq<GenerateWarning>) -> Seq<char> {
    if ws.len() == 0 {
        "0"@
    } else {
        join(ws.map_values(|w: GenerateWarning| kind_text(w.kind)), ","@)
    }
}

/// The kinds of the generation warnings as evidence lists them.
pub fn generate_warning_summary(warnings: &Vec<GenerateWarning>) -> (s: String)
    ensures
        s@ == warning_kinds_text(warnings@),
{
    if warnings.len() == 0 {
        proof {
            reveal_strlit("0");
        }
        return String::from_str("0");
    }
    let mut kinds: Vec<String> = Vec::new();
    let mut i: usize = 0;
    while i < warnings.len()
        invariant
            i <= warnings@.len(),
            string_views(kinds@) == warnings@.take(i as int).map_values(|w: GenerateWarning| kind_text(w.kind)),
        decreases warnings@.len() - i,
    {
        let ghost before = string_views(kinds@);
        let k = warnings[i].kind.as_str().to_string();
        kinds.push(k);
        assert(string_views(kinds@) =~= before.push(kind_text(warnings@[i as int].kind)));
        assert(warnings@.take(i + 1).map_values(|w: GenerateWarning| kind_text(w.kind)) =~= warnings@.take(
            i as int,
        ).map_values(|w: GenerateWarning| kind_text(w.kind)).push(kind_text(warnings@[i as int].kind)));
        i = i + 1;
    }
    assert(warnings@.take(i as int) =~= warnings@);
    join_strings(&kinds, ",")
}

} // verus!

verus! {

/// What `report evidence` gathered: the tool's version, the package, and
/// the check, generation and task sections.
#[derive(Clone, Debug)]
pub struct EvidenceReport {
    pub cptool_version: String,
    pub work_dir: String,
    pub check: EvidenceSection<EvidenceCheckReport>,
    pub generation: EvidenceSection<GenerateReport>,
    pub task: EvidenceSection<Vec<StressSummary>>,
}

/// The evidence shows a problem: a section failed, or the check found
/// errors.
pub open spec fn evidence_has_errors(r: EvidenceReport) -> bool {
    ||| r.check.status == EvidenceStatus::Error
    ||| (r.check.report matches Some(c) && c.errors > 0)
    ||| r.generation.status == EvidenceStatus::Error
    ||| r.task.status == EvidenceStatus::Error
}

/// The text `report evidence` prints.
pub open spec fn evidence_text(r: EvidenceReport) -> Seq<char> {
    "# cptool report evidence\n\n"@ + "- cptool_version: `"@ + r.cptool_version@ + "`\n"@ + "- work_dir: `"@
        + r.work_dir@ + "`\n"@ + "- check: "@ + check_section_text(r.check) + "\n"@ + "- gen: "@ + gen_section_text(
        r.generation,
    ) + "\n"@ + "- task: "@ + task_section_text(r.task) + "\n"@
}

/// What an expect-fail check observed, as printed: its failed and passed
/// cases, its failure ratio to three decimals, and its report's path.
#[derive(Clone, Debug)]
pub struct ObservedFailure {
    pub failed_cases: usize,
    pub passed_cases: usize,
    pub failure_ratio: String,
    pub report_path: String,
}

/// The check section in the quality notes.
pub open spec fn check_markdown(s: EvidenceSection<EvidenceCheckReport>) -> Seq<char> {
    match (s.status, s.report, s.error) {
        (EvidenceStatus::Recorded, Some(r), _) => "- status: `"@ + r.status@ + "`\n"@ + "- errors: "@ + decimal(
            r.errors as nat,
        ) + "\n"@ + "- warnings: "@ + decimal(r.warnings as nat) + "\n"@,
        (EvidenceStatus::Skipped, _, Some(reason)) => "- not recorded: "@ + reason@ + "\n"@,
        (EvidenceStatus::Error, _, Some(e)) => "- error: "@ + e@ + "\n"@,
        _ => "- not recorded\n"@,
    }
}

/// The generation section in the quality notes.
pub open spec fn gen_markdown(s: EvidenceSection<GenerateReport>) -> Seq<char> {
    match (s.status, s.report, s.error) {
        (EvidenceStatus::Recorded, Some(r), _) => "- cases: "@ + decimal(r.cases as nat) + "\n"@ + "- bundles: "@
            + join(string_views(r.bundles@), ", "@) + "\n"@ + "- validator_configured: "@ + crate::schema::bool_text(
            r.validator_configured,
        ) + "\n"@ + "- validator_calls: "@ + decimal(r.validator_calls as nat) + "\n"@ + "- warnings: "@
            + warning_kinds_text(r.warnings@) + "\n"@,
        (EvidenceStatus::Skipped, _, Some(reason)) => "- not recorded: "@ + reason@ + "\n"@,
        (EvidenceStatus::Error, _, Some(e)) => "- error: "@ + e@ + "\n"@,
        _ => "- not recorded\n"@,
    }
}

/// The line of one task check in the quality notes; a negative one also
/// shows what its failure observed.
pub open spec fn task_check_line(s: StressSummary, failure: Option<ObservedFailure>, negative: bool) -> Seq<char> {
    "- `"@ + (match s.check_name {
        Some(n) => n@,
        None => "<unnamed>"@,
    }) + "`: cases="@ + decimal(s.cases as nat) + " unique_input_hashes="@ + decimal(s.unique_input_hashes as nat)
        + " warnings="@ + crate::stress::warning_summary_text(s) + (match (s.checker, s.answer_program) {
        (Some(c), Some(a)) => " checker="@ + c@ + " answer_program="@ + a@,
        _ => Seq::empty(),
    }) + (match failure {
        Some(f) => if negative {
            " failed_cases="@ + decimal(f.failed_cases as nat) + " passed_cases="@ + decimal(f.passed_cases as nat)
                + " failure_ratio="@ + f.failure_ratio@ + " report="@ + f.report_path@
        } else {
            Seq::empty()
        },
        None => Seq::empty(),
    }) + "\n"@
}

/// The lines of the task checks that observed a failure (`negative`) or
/// did not.
pub open spec fn task_check_lines(
    checks: Seq<StressSummary>,
    failures: Seq<Option<ObservedFailure>>,
    negative: bool,
) -> Seq<char>
    decreases checks.len(),
{
    if checks.len() == 0 {
        Seq::empty()
    } else {
        let k = checks.len() - 1;
        task_check_lines(checks.drop_last(), failures, negative) + if (failures[k] is Some) == negative {
            task_check_line(checks[k], failures[k], negative)
        } else {
            Seq::empty()
        }
    }
}

/// How many of the first `n` task checks are of the kind asked for.
pub open spec fn task_check_count(failures: Seq<Option<ObservedFailure>>, n: int, negative: bool) -> nat
    decreases n,
{
    if n <= 0 {
        0
    } else {
        task_check_count(failures, n - 1, negative) + if (failures[n - 1] is Some) == negative {
            1nat
        } else {
            0nat
        }
    }
}

/// A task-check section of the quality notes.
pub open spec fn task_checks_markdown(
    checks: Seq<StressSummary>,
    failures: Seq<Option<ObservedFailure>>,
    negative: bool,
) -> Seq<char> {
    if task_check_count(failures, checks.len() as int, negative) == 0 {
        "- not recorded\n"@
    } else {
        task_check_lines(checks, failures, negative)
    }
}

/// The task checks the quality notes list: those recorded, else none.
pub open spec fn recorded_checks(s: EvidenceSection<Vec<StressSummary>>) -> Seq<StressSummary> {
    match (s.status, s.report) {
        (EvidenceStatus::Recorded, Some(r)) => r@,
        _ => Seq::empty(),
    }
}

/// The quality notes: the tool's version and package, the check and
/// generation sections, then the task checks that passed and those that
/// observed the failure they expected.
pub open spec fn quality_markdown(r: EvidenceReport, failures: Seq<Option<ObservedFailure>>) -> Seq<char> {
    "## Tool Evidence\n\n"@ + "- cptool_version: `"@ + r.cptool_version@ + "`\n"@ + "- work_dir: `"@ + r.work_dir@
        + "`\n\n"@ + "### Check\n"@ + check_markdown(r.check) + "\n### Generation\n"@ + gen_markdown(r.generation)
        + "\n### Positive Task Checks\n"@ + task_checks_markdown(recorded_checks(r.task), failures, false)
        + "\n### Negative Task Checks\n"@ + task_checks_markdown(recorded_checks(r.task), failures, true)
}

fn section_other_markdown(status: EvidenceStatus, error: &Option<String>) -> (s: String)
    ensures
        s@ == match (status, *error) {
            (EvidenceStatus::Skipped, Some(reason)) => "- not recorded: "@ + reason@ + "\n"@,
            (EvidenceStatus::Error, Some(e)) => "- error: "@ + e@ + "\n"@,
            _ => "- not recorded\n"@,
        },
{
    match (status, error) {
        (EvidenceStatus::Skipped, Some(reason)) => {
            let mut s = String::from_str("- not recorded: ");
            s.append(reason.as_str());
            s.append("\n");
            s
        },
        (EvidenceStatus::Error, Some(e)) => {
            let mut s = String::from_str("- error: ");
            s.append(e.as_str());
            s.append("\n");
            s
        },
        _ => String::from_str("- not recorded\n"),
    }
}

fn check_markdown_string(s: &EvidenceSection<EvidenceCheckReport>) -> (r: String)
    ensures
        r@ == check_markdown(*s),
{
    match (s.status, &s.report) {
        (EvidenceStatus::Recorded, Some(c)) => {
            let mut r = String::from_str("- status: `");
            r.append(c.status.as_str());
            r.append("`\n");
            r.append("- errors: ");
            r.append(usize_to_decimal(c.errors).as_str());
            r.append("\n");
            r.append("- warnings: ");
            r.append(usize_to_decimal(c.warnings).as_str());
            r.append("\n");
            r
        },
        _ => section_other_markdown(s.status, &s.error),
    }
}

fn gen_markdown_string(s: &EvidenceSection<GenerateReport>) -> (r: String)
    ensures
        r@ == gen_markdown(*s),
{
    match (s.status, &s.report) {
        (EvidenceStatus::Recorded, Some(g)) => {
            let mut r = String::from_str("- cases: ");
            r.append(usize_to_decimal(g.cases).as_str());
            r.append("\n");
            r.append("- bundles: ");
            r.append(join_strings(&g.bundles, ", ").as_str());
            r.append("\n");
            r.append("- validator_configured: ");
            r.append(crate::schema::bool_string(g.validator_configured).as_str());
            r.append("\n");
            r.append("- validator_calls: ");
            r.append(usize_to_decimal(g.validator_calls).as_str());
            r.append("\n");
            r.append("- warnings: ");
            let ghost head = r@;
            let w = generate_warning_summary(&g.warnings);
            r.append(w.as_str());
            r.append("\n");
            r
        },
        _ => section_other_markdown(s.status, &s.error),
    }
}

fn task_check_line_string(s: &StressSummary, failure: &Option<ObservedFailure>, negative: bool) -> (r: String)
    ensures
        r@ == task_check_line(*s, *failure, negative),
{
    let mut r = String::from_str("- `");
    match &s.check_name {
        Some(n) => r.append(n.as_str()),
        None => r.append("<unnamed>"),
    }
    r.append("`: cases=");
    r.append(usize_to_decimal(s.cases).as_str());
    r.append(" unique_input_hashes=");
    r.append(usize_to_decimal(s.unique_input_hashes).as_str());
    r.append(" warnings=");
    let w = s.warning_summary();
    r.append(w.as_str());
    let ghost mid = r@;
    match (&s.checker, &s.answer_program) {
        (Some(c), Some(a)) => {
            r.append(" checker=");
            r.append(c.as_str());
            r.append(" answer_program=");
            r.append(a.as_str());
        },
        _ => {},
    }
    match failure {
        Some(f) => {
            if negative {
                let mut tail = String::from_str(" failed_cases=");
                tail.append(usize_to_decimal(f.failed_cases).as_str());
                tail.append(" passed_cases=");
                tail.append(usize_to_decimal(f.passed_cases).as_str());
                tail.append(" failure_ratio=");
                tail.append(f.failure_ratio.as_str());
                tail.append(" report=");
                tail.append(f.report_path.as_str());
                r.append(tail.as_str());
            }
        },
        None => {},
    }
    r.append("\n");
    r
}

fn append_task_checks(out: &mut String, checks: &Vec<StressSummary>, failures: &Vec<Option<ObservedFailure>>, negative: bool)
    requires
        failures@.len() == checks@.len(),
    ensures
        final(out)@ == old(out)@ + task_checks_markdown(checks@, failures@, negative),
{
    let ghost start = out@;
    let mut body = String::new();
    let mut count: usize = 0;
    let mut i: usize = 0;
    while i < checks.len()
        invariant
            i <= checks@.len(),
            failures@.len() == checks@.len(),
            count == task_check_count(failures@, i as int, negative),
            count <= i,
            body@ == task_check_lines(checks@.take(i as int), failures@, negative),
        decreases checks@.len() - i,
    {
        assert(checks@.take(i + 1).drop_last() =~= checks@.take(i as int));
        assert(checks@.take(i + 1)[i as int] == checks@[i as int]);
        if failures[i].is_some() == negative {
            let line = task_check_line_string(&checks[i], &failures[i], negative);
            body.append(line.as_str());
            count = count + 1;
        }
        i = i + 1;
    }
    assert(checks@.take(i as int) =~= checks@);
    if count == 0 {
        out.append("- not recorded\n");
    } else {
        out.append(body.as_str());
    }
}

impl EvidenceReport {
    /// Whether the evidence shows a problem.
    pub fn has_errors(&self) -> (b: bool)
        ensures
            b == evidence_has_errors(*self),
    {
        self.check.is_error() || match &self.check.report {
            Some(c) => c.has_errors(),
            None => false,
        } || self.generation.is_error() || self.task.is_error()
    }

    /// The text `report evidence` prints.
    pub fn render_text(&self) -> (s: String)
        requires
            self.task.report is Some ==> total_cases(self.task.report->0@) <= usize::MAX,
        ensures
            s@ == evidence_text(*self),
    {
        let mut out = String::from_str("# cptool report evidence\n\n");
        out.append("- cptool_version: `");
        out.append(self.cptool_version.as_str());
        out.append("`\n");
        out.append("- work_dir: `");
        out.append(self.work_dir.as_str());
        out.append("`\n");
        out.append("- check: ");
        let ghost a = out@;
        out.append(self.check.check_summary().as_str());
        out.append("\n");
        out.append("- gen: ");
        let ghost b = out@;
        out.append(self.generation.gen_summary().as_str());
        out.append("\n");
        out.append("- task: ");
        let ghost c = out@;
        out.append(self.task.task_summary().as_str());
        out.append("\n");
        out
    }

    /// The quality notes for the package's review; `failures[i]` is what
    /// task check `i` observed, when it expected a failure.
    pub fn render_quality_markdown(&self, failures: &Vec<Option<ObservedFailure>>) -> (s: String)
        requires
            failures@.len() == recorded_checks(self.task).len(),
        ensures
            s@ == quality_markdown(*self, failures@),
    {
        let mut out = String::from_str("## Tool Evidence\n\n");
        out.append("- cptool_version: `");
        out.append(self.cptool_version.as_str());
        out.append("`\n");
        out.append("- work_dir: `");
        out.append(self.work_dir.as_str());
        out.append("`\n\n");
        out.append("### Check\n");
        let ghost a = out@;
        out.append(check_markdown_string(&self.check).as_str());
        out.append("\n### Generation\n");
        let ghost b = out@;
        out.append(gen_markdown_string(&self.generation).as_str());
        out.append("\n### Positive Task Checks\n");
        let empty: Vec<StressSummary> = Vec::new();
        let checks = match (self.task.status, &self.task.report) {
            (EvidenceStatus::Recorded, Some(r)) => r,
            _ => &empty,
        };
        assert(checks@ == recorded_checks(self.task));
        append_task_checks(&mut out, checks, failures, false);
        out.append("\n### Negative Task Checks\n");
        append_task_checks(&mut out, checks, failures, true);
        out
    }
}

} // verus!
