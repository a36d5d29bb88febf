//! Stress checking: comparing the outputs of two programs case after case,
//! classifying what went wrong, and the summaries and reports a check
//! leaves behind.

use vstd::prelude::*;
use crate::schema::{exit_code_text, exit_text, status_text, RunResult};
use crate::text::{
    chars_of, decimal, join, join_chars, lines, opt_view, split_lines, string_from_chars,
    string_views, trim, trim_end_each, trimmed, trimmed_end_each, u128_to_decimal,
    usize_to_decimal, is_ws, trim_end, trim_start,
};
use crate::text_facts::{
    clean_pieces, lacks, lemma_join_ends, lemma_lines_first, lemma_lines_lack_newline, lemma_lines_last,
    lemma_lines_of_joined, lemma_trim_end_first, lemma_trim_end_keeps, lemma_trim_end_lacks,
    lemma_trim_end_last, lemma_trim_ends,
};

verus! {

/// An output as it is compared: surrounding whitespace dropped, trailing
/// whitespace removed from every line, and one final newline unless the
/// output is blank.
pub open spec fn normalized_output(text: Seq<char>) -> Seq<char> {
    let t = trim(text);
    if t.len() == 0 {
        Seq::empty()
    } else {
        join(trim_end_each(lines(t)), seq!['\n']) + seq!['\n']
    }
}

/// Normalizes a program output for comparison.
pub fn normalize_output(text: &str) -> (r: String)
    ensures
        r@ == normalized_output(text@),
{
    let chars = chars_of(text);
    let t = trimmed(chars.as_slice());
    if t.len() == 0 {
        return String::new();
    }
    let ls = split_lines(t.as_slice());
    let trimmed_lines = trimmed_end_each(&ls);
    let newline = vec!['\n'];
    assert(newline@ == seq!['\n']);
    let mut joined = join_chars(&trimmed_lines, newline.as_slice());
    let ghost body = joined@;
    joined.push('\n');
    assert(joined@ == body + seq!['\n']);
    string_from_chars(joined.as_slice())
}

/// Normalizing an output a second time changes nothing. The result is
/// empty exactly when the output is blank; otherwise it ends in one newline
/// and not in two, and none of its lines ends in whitespace.
pub proof fn lemma_normalize_output_laws(text: Seq<char>)
    ensures
        normalized_output(normalized_output(text)) == normalized_output(text),
        (normalized_output(text).len() == 0) == (trim(text).len() == 0),
        normalized_output(text).len() > 0 ==> normalized_output(text).len() >= 2
            && normalized_output(text).last() == '\n' && normalized_output(text)[normalized_output(
            text,
        ).len() - 2] != '\n',
        forall|i: int|
            0 <= i < lines(normalized_output(text)).len() && #[trigger] lines(
                normalized_output(text),
            )[i].len() > 0 ==> !is_ws(lines(normalized_output(text))[i].last()),
{
    let nl = seq!['\n'];
    let t = trim(text);
    let r = normalized_output(text);
    if t.len() == 0 {
        let e = Seq::<char>::empty();
        assert(trim_start(e) == e);
        assert(trim_end(e) == e);
        assert(lines(e) == Seq::<Seq<char>>::empty());
    } else {
        lemma_trim_ends(text);
        let ls = lines(t);
        lemma_lines_last(t);
        lemma_lines_first(t);
        lemma_lines_lack_newline(t);
        let ps = trim_end_each(ls);
        assert forall|i: int| 0 <= i < ps.len() implies lacks(#[trigger] ps[i], '\n') && (ps[i].len() > 0
            ==> !is_ws(ps[i].last())) by {
            lemma_trim_end_lacks(ls[i], '\n');
            lemma_trim_end_last(ls[i]);
        }
        assert(clean_pieces(ps));
        lemma_trim_end_keeps(ls.last());
        assert(ps.last() == ls.last());
        lemma_trim_end_first(ls[0]);
        let j = join(ps, nl);
        lemma_join_ends(ps, nl);
        assert(r == j + nl);
        assert(r[0] == j[0]);
        assert(trim_start(r) == r);
        assert(r.drop_last() == j);
        lemma_trim_end_keeps(j);
        assert(trim(r) == j);
        lemma_lines_of_joined(ps);
        assert forall|i: int| 0 <= i < ps.len() implies trim_end(#[trigger] ps[i]) == ps[i] by {
            lemma_trim_end_keeps(ps[i]);
        }
        assert(trim_end_each(ps) == ps);
        assert(r[r.len() - 2] == j.last());
    }
}

/// The index of the first run that did not succeed.
pub open spec fn first_failed(results: Seq<RunResult>) -> Option<int> {
    if exists|i: int| 0 <= i < results.len() && !results[i].ok {
        Some(
            choose|i: int|
                0 <= i < results.len() && !results[i].ok && forall|j: int|
                    0 <= j < i ==> results[j].ok,
        )
    } else {
        None
    }
}

/// The first run that did not succeed, as a failure reason.
pub open spec fn program_failure_text(results: Seq<RunResult>) -> Option<Seq<char>> {
    match first_failed(results) {
        Some(i) => Some("program_failed: "@ + status_text(results[i])),
        None => None,
    }
}

proof fn lemma_first_failed_unique(results: Seq<RunResult>, i: int)
    requires
        0 <= i < results.len(),
        !results[i].ok,
        forall|j: int| 0 <= j < i ==> results[j].ok,
    ensures
        first_failed(results) == Some(i),
{
    let c = choose|k: int|
        0 <= k < results.len() && !results[k].ok && forall|j: int| 0 <= j < k ==> results[j].ok;
    assert(0 <= c < results.len() && !results[c].ok && forall|j: int| 0 <= j < c ==> results[j].ok);
    if c < i {
        assert(results[c].ok);
    } else if i < c {
        assert(results[i].ok);
    }
}

/// Why a case failed because one of its programs did not run successfully.
pub fn classify_program_failure(results: &[RunResult]) -> (r: Option<String>)
    ensures
        opt_view(r) == program_failure_text(results@),
{
    let mut i: usize = 0;
    while i < results.len()
        invariant
            i <= results@.len(),
            forall|j: int| 0 <= j < i ==> results@[j].ok,
        decreases results@.len() - i,
    {
        if !results[i].is_success() {
            proof {
                lemma_first_failed_unique(results@, i as int);
            }
            let mut text = String::from_str("program_failed: ");
            proof {
                reveal_strlit("program_failed: ");
            }
            let line = results[i].status_line();
            text.append(line.as_str());
            return Some(text);
        }
        i = i + 1;
    }
    None
}

/// The output of program `j` matches the first program's once normalized.
pub open spec fn same_output(results: Seq<RunResult>, j: int) -> bool {
    normalized_output(results[j].stdout@) == normalized_output(results[0].stdout@)
}

/// The first program, after the first, whose normalized output differs
/// from the first program's.
pub open spec fn first_mismatch(results: Seq<RunResult>) -> Option<int> {
    if exists|i: int| 1 <= i < results.len() && !#[trigger] same_output(results, i) {
        Some(
            choose|i: int|
                1 <= i < results.len() && !#[trigger] same_output(results, i) && forall|j: int|
                    1 <= j < i ==> #[trigger] same_output(results, j),
        )
    } else {
        None
    }
}

/// Why a case failed when no checker judges it: a program that failed, or
/// else the first output that differs from the first program's.
pub open spec fn stress_failure_text(results: Seq<RunResult>) -> Option<Seq<char>> {
    if program_failure_text(results) is Some {
        program_failure_text(results)
    } else if results.len() == 0 {
        None
    } else {
        match first_mismatch(results) {
            Some(i) => Some(
                "wrong_answer: output mismatch between `"@ + results[0].label@ + "` and `"@
                    + results[i].label@ + "`"@,
            ),
            None => None,
        }
    }
}

/// Classifies a case without a checker: program failure first, then the
/// first output that differs from the first program's.
pub fn classify_stress_failure(results: &[RunResult]) -> (r: Option<String>)
    ensures
        opt_view(r) == stress_failure_text(results@),
{
    let failed = classify_program_failure(results);
    if failed.is_some() {
        return failed;
    }
    if results.len() == 0 {
        return None;
    }
    let baseline = normalize_output(results[0].stdout.as_str());
    let mut i: usize = 1;
    while i < results.len()
        invariant
            1 <= i <= results@.len(),
            program_failure_text(results@) is None,
            baseline@ == normalized_output(results@[0].stdout@),
            forall|j: int| 1 <= j < i ==> #[trigger] same_output(results@, j),
        decreases results@.len() - i,
    {
        let other = normalize_output(results[i].stdout.as_str());
        if other != baseline {
            proof {
                let rs = results@;
                assert(!same_output(rs, i as int));
                let c = choose|k: int|
                    1 <= k < rs.len() && !#[trigger] same_output(rs, k) && forall|j: int|
                        1 <= j < k ==> #[trigger] same_output(rs, j);
                if c < i {
                    assert(same_output(rs, c));
                } else if i < c {
                    assert(same_output(rs, i as int));
                }
                assert(c == i);
                assert(first_mismatch(rs) == Some(i as int));
            }
            let mut text = String::from_str("wrong_answer: output mismatch between `");
            text.append(results[0].label.as_str());
            text.append("` and `");
            text.append(results[i].label.as_str());
            text.append("`");
            proof {
                reveal_strlit("wrong_answer: output mismatch between `");
                reveal_strlit("` and `");
                reveal_strlit("`");
            }
            assert(text@ == "wrong_answer: output mismatch between `"@ + results@[0].label@ + "` and `"@
                + results@[i as int].label@ + "`"@);
            assert(program_failure_text(results@) is None);
            assert(stress_failure_text(results@) == Some(text@));
            return Some(text);
        }
        i = i + 1;
    }
    proof {
        assert(!exists|k: int| 1 <= k < results@.len() && !#[trigger] same_output(results@, k));
    }
    None
}

/// A checker's run counts as a rejection of the output: it exited with 1
/// or 2 and neither of its streams was cut short.
pub open spec fn is_rejection(r: RunResult) -> bool {
    (r.exit_code == Some(1i32) || r.exit_code == Some(2i32)) && !r.truncated_stdout
        && !r.truncated_stderr
}

/// Whether a checker's failed run is a rejection of the checked output.
pub fn checker_run_is_rejection(result: &RunResult) -> (b: bool)
    ensures
        b == is_rejection(*result),
{
    let code_rejects = match result.exit_code {
        Some(c) => c == 1 || c == 2,
        None => false,
    };
    code_rejects && !result.truncated_stdout && !result.truncated_stderr
}

/// A checker that did not accept an output of a stress case.
#[derive(Clone, Debug)]
pub struct StressCheckerFailure {
    pub checker: String,
    pub participant: String,
    pub verdict: String,
    pub reason_code: String,
    pub exit_code: Option<i32>,
    pub truncated_stdout: bool,
    pub truncated_stderr: bool,
}

/// The checker failure is the rejection an expected failure asks for.
pub open spec fn satisfies_expect_fail(f: StressCheckerFailure) -> bool {
    f.verdict@ == "WA"@ && f.reason_code@ == "checker_rejected"@ && (f.exit_code == Some(1i32)
        || f.exit_code == Some(2i32)) && !f.truncated_stdout && !f.truncated_stderr
}

/// Whether a checker failure counts as the failure an expect-fail check
/// looks for.
pub fn checker_failure_satisfies_expect_fail(failure: &StressCheckerFailure) -> (b: bool)
    ensures
        b == satisfies_expect_fail(*failure),
{
    let wa = String::from_str("WA");
    let rejected = String::from_str("checker_rejected");
    proof {
        reveal_strlit("WA");
        reveal_strlit("checker_rejected");
    }
    let code_rejects = match failure.exit_code {
        Some(c) => c == 1 || c == 2,
        None => false,
    };
    failure.verdict == wa && failure.reason_code == rejected && code_rejects
        && !failure.truncated_stdout && !failure.truncated_stderr
}

/// The reason recorded for a checker failure.
pub open spec fn checker_failure_text(f: StressCheckerFailure) -> Seq<char> {
    (if satisfies_expect_fail(f) {
        "wrong_answer: checker `"@ + f.checker@ + "` rejected output from `"@
    } else {
        "checker_failed: checker `"@ + f.checker@ + "` failed while checking `"@
    }) + f.participant@ + "`: verdict="@ + f.verdict@ + " reason="@ + f.reason_code@ + " exit="@
        + exit_text(f.exit_code)
}

/// The reason recorded for a checker failure: a wrong answer when the
/// checker rejected the output, otherwise a checker failure.
pub fn failure_reason(failure: &StressCheckerFailure) -> (s: String)
    ensures
        s@ == checker_failure_text(*failure),
{
    let mut s = if checker_failure_satisfies_expect_fail(failure) {
        let mut s = String::from_str("wrong_answer: checker `");
        s.append(failure.checker.as_str());
        s.append("` rejected output from `");
        s
    } else {
        let mut s = String::from_str("checker_failed: checker `");
        s.append(failure.checker.as_str());
        s.append("` failed while checking `");
        s
    };
    s.append(failure.participant.as_str());
    s.append("`: verdict=");
    s.append(failure.verdict.as_str());
    s.append(" reason=");
    s.append(failure.reason_code.as_str());
    s.append(" exit=");
    let code = exit_code_text(failure.exit_code);
    s.append(code.as_str());
    proof {
        reveal_strlit("wrong_answer: checker `");
        reveal_strlit("` rejected output from `");
        reveal_strlit("checker_failed: checker `");
        reveal_strlit("` failed while checking `");
        reveal_strlit("`: verdict=");
        reveal_strlit(" reason=");
        reveal_strlit(" exit=");
    }
    s
}

/// The saved outputs of one program of a failed case.
#[derive(Clone, Debug)]
pub struct StressOutputArtifact {
    pub label: String,
    pub result_line: String,
    pub stdout_path: String,
    pub stderr_path: String,
}

/// The saved outputs of the checker of a failed case.
#[derive(Clone, Debug)]
pub struct StressCheckerArtifact {
    pub checker: String,
    pub participant: String,
    pub result_line: String,
    pub stdout_path: String,
    pub stderr_path: String,
    pub report_path: Option<String>,
}

/// One program's block of a failure report.
pub open spec fn artifact_text(a: StressOutputArtifact) -> Seq<char> {
    "["@ + a.label@ + "] "@ + a.result_line@ + "\nstdout: "@ + a.stdout_path@ + "\nstderr: "@
        + a.stderr_path@ + "\n\n"@
}

/// The program blocks of a failure report, in order.
pub open spec fn artifacts_text(artifacts: Seq<StressOutputArtifact>) -> Seq<char>
    decreases artifacts.len(),
{
    if artifacts.len() == 0 {
        Seq::empty()
    } else {
        artifacts_text(artifacts.drop_last()) + artifact_text(artifacts.last())
    }
}

/// The checker block of a failure report.
pub open spec fn checker_artifact_text(c: StressCheckerArtifact) -> Seq<char> {
    "[checker:"@ + c.checker@ + " on "@ + c.participant@ + "] "@ + c.result_line@ + "\nstdout: "@
        + c.stdout_path@ + "\nstderr: "@ + c.stderr_path@ + "\n"@ + match c.report_path {
        Some(p) => "report: "@ + p@ + "\n"@,
        None => Seq::empty(),
    }
}

/// The report written next to the inputs and outputs of a failed case.
pub open spec fn stress_failure_report(
    check_name: Option<Seq<char>>,
    case_index: nat,
    reason: Seq<char>,
    artifacts: Seq<StressOutputArtifact>,
    checker: Option<StressCheckerArtifact>,
) -> Seq<char> {
    (match check_name {
        Some(n) => "expect check `"@ + n + "` failed on case "@ + decimal(case_index) + "\n\n"@,
        None => "batch check failed on case "@ + decimal(case_index) + "\n\n"@,
    }) + "reason: "@ + reason + "\n\n"@ + artifacts_text(artifacts) + match checker {
        Some(c) => checker_artifact_text(c),
        None => Seq::empty(),
    }
}

/// The head of a failure report: which check failed on which case, and why.
fn failure_header(check_name: Option<&str>, case_index: usize, reason: &str) -> (s: String)
    ensures
        s@ == (match check_name {
            Some(n) => "expect check `"@ + n@ + "` failed on case "@ + decimal(case_index as nat)
                + "\n\n"@,
            None => "batch check failed on case "@ + decimal(case_index as nat) + "\n\n"@,
        }) + "reason: "@ + reason@ + "\n\n"@,
{
    proof {
        reveal_strlit("expect check `");
        reveal_strlit("` failed on case ");
        reveal_strlit("\n\n");
        reveal_strlit("batch check failed on case ");
        reveal_strlit("reason: ");
    }
    let index = usize_to_decimal(case_index);
    let mut report = match check_name {
        Some(n) => {
            let mut r = String::from_str("expect check `");
            r.append(n);
            r.append("` failed on case ");
            r.append(index.as_str());
            r.append("\n\n");
            r
        },
        None => {
            let mut r = String::from_str("batch check failed on case ");
            r.append(index.as_str());
            r.append("\n\n");
            r
        },
    };
    report.append("reason: ");
    report.append(reason);
    report.append("\n\n");
    report
}

/// Appends one program's block of a failure report.
fn append_artifact(report: &mut String, a: &StressOutputArtifact)
    ensures
        final(report)@ == old(report)@ + artifact_text(*a),
{
    proof {
        reveal_strlit("[");
        reveal_strlit("] ");
        reveal_strlit("\nstdout: ");
        reveal_strlit("\nstderr: ");
        reveal_strlit("\n\n");
    }
    report.append("[");
    report.append(a.label.as_str());
    report.append("] ");
    report.append(a.result_line.as_str());
    report.append("\nstdout: ");
    report.append(a.stdout_path.as_str());
    report.append("\nstderr: ");
    report.append(a.stderr_path.as_str());
    report.append("\n\n");
}

/// Appends the checker block of a failure report.
fn append_checker(report: &mut String, c: &StressCheckerArtifact)
    ensures
        final(report)@ == old(report)@ + checker_artifact_text(*c),
{
    proof {
        reveal_strlit("[checker:");
        reveal_strlit(" on ");
        reveal_strlit("] ");
        reveal_strlit("\nstdout: ");
        reveal_strlit("\nstderr: ");
        reveal_strlit("\n");
        reveal_strlit("report: ");
    }
    report.append("[checker:");
    report.append(c.checker.as_str());
    report.append(" on ");
    report.append(c.participant.as_str());
    report.append("] ");
    report.append(c.result_line.as_str());
    report.append("\nstdout: ");
    report.append(c.stdout_path.as_str());
    report.append("\nstderr: ");
    report.append(c.stderr_path.as_str());
    report.append("\n");
    match &c.report_path {
        Some(p) => {
            report.append("report: ");
            report.append(p.as_str());
            report.append("\n");
        },
        None => {},
    }
}

/// Renders the report of a failed stress case.
pub fn render_stress_failure(
    check_name: Option<&str>,
    case_index: usize,
    reason: &str,
    artifacts: &[StressOutputArtifact],
    checker: Option<&StressCheckerArtifact>,
) -> (s: String)
    ensures
        s@ == stress_failure_report(
            match check_name {
                Some(n) => Some(n@),
                None => None,
            },
            case_index as nat,
            reason@,
            artifacts@,
            match checker {
                Some(c) => Some(*c),
                None => None,
            },
        ),
{
    let mut report = failure_header(check_name, case_index, reason);
    let ghost head = report@;
    let mut i: usize = 0;
    while i < artifacts.len()
        invariant
            i <= artifacts@.len(),
            report@ == head + artifacts_text(artifacts@.take(i as int)),
        decreases artifacts@.len() - i,
    {
        append_artifact(&mut report, &artifacts[i]);
        assert(artifacts@.take(i + 1).drop_last() == artifacts@.take(i as int));
        i = i + 1;
    }
    assert(artifacts@.take(i as int) == artifacts@);
    match checker {
        Some(c) => append_checker(&mut report, c),
        None => {},
    }
    report
}

} // verus!

verus! {

/// A warning about the inputs or outputs of a stress check.
#[derive(Clone, Debug)]
pub struct StressWarning {
    pub code: String,
    pub count: usize,
    pub random_coverage: Option<bool>,
}

/// What a stress check that passed reports: the programs compared, how
/// many cases ran and how varied their inputs and outputs were.
#[derive(Clone, Debug)]
pub struct StressSummary {
    pub check_name: Option<String>,
    pub checker: Option<String>,
    pub answer_program: Option<String>,
    pub cases: usize,
    pub elapsed_ms: u128,
    pub against: Vec<String>,
    pub empty_stdout_cases: usize,
    pub all_empty_stdout_cases: usize,
    pub unique_input_hashes: usize,
}

/// More than one case ran and every case had the same input.
pub open spec fn repeated_input(s: StressSummary) -> bool {
    s.cases > 1 && s.unique_input_hashes == 1
}

/// The warnings of a summary as (code, count, random coverage): every case
/// whose programs all printed nothing, then identical inputs.
pub open spec fn warning_list(s: StressSummary) -> Seq<(Seq<char>, nat, Option<bool>)> {
    (if s.all_empty_stdout_cases > 0 {
        seq![("all_empty_output"@, s.all_empty_stdout_cases as nat, None::<bool>)]
    } else {
        Seq::empty()
    }) + (if repeated_input(s) {
        seq![("repeated_input"@, 1nat, Some(false))]
    } else {
        Seq::empty()
    })
}

/// The warnings of a summary as printed: `code:count` joined by commas, or
/// `0` when there are none.
pub open spec fn warning_summary_text(s: StressSummary) -> Seq<char> {
    let w = warning_list(s);
    if w.len() == 0 {
        "0"@
    } else {
        join(w.map_values(|x: (Seq<char>, nat, Option<bool>)| x.0 + ":"@ + decimal(x.1)), ","@)
    }
}

/// The checker part of a summary line, present when both the checker and
/// the program whose output is the answer are known.
pub open spec fn checker_summary_text(
    checker: Option<Seq<char>>,
    answer_program: Option<Seq<char>>,
) -> Seq<char> {
    match (checker, answer_program) {
        (Some(c), Some(a)) => " checker="@ + c + " answer_program="@ + a,
        _ => Seq::empty(),
    }
}

/// The line printed for a stress check that passed.
pub open spec fn summary_line_text(s: StressSummary) -> Seq<char> {
    (match s.check_name {
        Some(n) => n@,
        None => "expect"@,
    }) + ": ok cases="@ + decimal(s.cases as nat) + " unique_input_hashes="@ + decimal(
        s.unique_input_hashes as nat,
    ) + " against="@ + join(string_views(s.against@), ","@) + " elapsed="@ + decimal(
        s.elapsed_ms as nat,
    ) + "ms empty_stdout_cases="@ + decimal(s.empty_stdout_cases as nat)
        + " all_empty_stdout_cases="@ + decimal(s.all_empty_stdout_cases as nat) + " warnings="@
        + warning_summary_text(s) + checker_summary_text(opt_view(s.checker), opt_view(s.answer_program))
}

/// Joins strings with a separator.
pub fn join_strings(pieces: &Vec<String>, sep: &str) -> (s: String)
    ensures
        s@ == join(string_views(pieces@), sep@),
{
    let mut s = String::new();
    let mut i: usize = 0;
    let ghost ps = string_views(pieces@);
    while i < pieces.len()
        invariant
            ps == string_views(pieces@),
            i <= pieces@.len(),
            s@ == join(ps.take(i as int), sep@),
        decreases pieces@.len() - i,
    {
        assert(ps.take(i + 1).drop_last() == ps.take(i as int));
        assert(ps.take(i + 1).last() == pieces@[i as int]@);
        if i > 0 {
            s.append(sep);
        } else {
            assert(ps.take(1) == seq![ps[0]]);
        }
        s.append(pieces[i].as_str());
        i = i + 1;
    }
    assert(ps.take(pieces@.len() as int) == ps);
    s
}

/// The checker part of a summary line.
pub fn checker_summary(checker: &Option<String>, answer_program: &Option<String>) -> (s: String)
    ensures
        s@ == checker_summary_text(opt_view(*checker), opt_view(*answer_program)),
{
    match (checker, answer_program) {
        (Some(c), Some(a)) => {
            let mut s = String::from_str(" checker=");
            s.append(c.as_str());
            s.append(" answer_program=");
            s.append(a.as_str());
            proof {
                reveal_strlit(" checker=");
                reveal_strlit(" answer_program=");
            }
            s
        },
        _ => String::new(),
    }
}

impl StressSummary {
    /// Whether more than one case ran and all had the same input.
    pub fn has_repeated_input_warning(&self) -> (b: bool)
        ensures
            b == repeated_input(*self),
    {
        self.cases > 1 && self.unique_input_hashes == 1
    }

    /// The warnings of this summary.
    pub fn warnings(&self) -> (w: Vec<StressWarning>)
        ensures
            w@.len() == warning_list(*self).len(),
            forall|i: int|
                0 <= i < w@.len() ==> (#[trigger] w@[i]).code@ == warning_list(*self)[i].0
                    && w@[i].count == warning_list(*self)[i].1 && w@[i].random_coverage
                    == warning_list(*self)[i].2,
    {
        let mut w: Vec<StressWarning> = Vec::new();
        proof {
            reveal_strlit("all_empty_output");
            reveal_strlit("repeated_input");
        }
        if self.all_empty_stdout_cases > 0 {
            w.push(
                StressWarning {
                    code: String::from_str("all_empty_output"),
                    count: self.all_empty_stdout_cases,
                    random_coverage: None,
                },
            );
        }
        if self.has_repeated_input_warning() {
            w.push(
                StressWarning {
                    code: String::from_str("repeated_input"),
                    count: 1,
                    random_coverage: Some(false),
                },
            );
        }
        w
    }

    /// The warnings as printed in a summary line.
    pub fn warning_summary(&self) -> (s: String)
        ensures
            s@ == warning_summary_text(*self),
    {
        let warnings = self.warnings();
        let ghost wl = warning_list(*self);
        let mut parts: Vec<String> = Vec::new();
        let mut i: usize = 0;
        while i < warnings.len()
            invariant
                wl == warning_list(*self),
                warnings@.len() == wl.len(),
                forall|k: int|
                    0 <= k < warnings@.len() ==> (#[trigger] warnings@[k]).code@ == wl[k].0
                        && warnings@[k].count == wl[k].1,
                i <= warnings@.len(),
                string_views(parts@) == wl.take(i as int).map_values(
                    |x: (Seq<char>, nat, Option<bool>)| x.0 + ":"@ + decimal(x.1),
                ),
            decreases warnings@.len() - i,
        {
            let mut p = warnings[i].code.clone();
            p.append(":");
            let n = usize_to_decimal(warnings[i].count);
            p.append(n.as_str());
            let ghost before = string_views(parts@);
            parts.push(p);
            assert(string_views(parts@) =~= before.push(p@));
            assert(wl.take(i + 1).map_values(|x: (Seq<char>, nat, Option<bool>)| x.0 + ":"@ + decimal(x.1))
                =~= wl.take(i as int).map_values(
                |x: (Seq<char>, nat, Option<bool>)| x.0 + ":"@ + decimal(x.1),
            ).push(p@));
            i = i + 1;
        }
        assert(wl.take(i as int) == wl);
        if parts.len() == 0 {
            proof {
                reveal_strlit("0");
            }
            String::from_str("0")
        } else {
            join_strings(&parts, ",")
        }
    }

    /// The line printed for a stress check that passed.
    pub fn summary_line(&self) -> (s: String)
        ensures
            s@ == summary_line_text(*self),
    {
        proof {
            reveal_strlit("expect");
            reveal_strlit(": ok cases=");
            reveal_strlit(" unique_input_hashes=");
            reveal_strlit(" against=");
            reveal_strlit(" elapsed=");
            reveal_strlit("ms empty_stdout_cases=");
            reveal_strlit(" all_empty_stdout_cases=");
            reveal_strlit(" warnings=");
        }
        let mut s = match &self.check_name {
            Some(n) => n.clone(),
            None => String::from_str("expect"),
        };
        s.append(": ok cases=");
        s.append(usize_to_decimal(self.cases).as_str());
        s.append(" unique_input_hashes=");
        s.append(usize_to_decimal(self.unique_input_hashes).as_str());
        s.append(" against=");
        s.append(join_strings(&self.against, ",").as_str());
        s.append(" elapsed=");
        s.append(u128_to_decimal(self.elapsed_ms).as_str());
        s.append("ms empty_stdout_cases=");
        s.append(usize_to_decimal(self.empty_stdout_cases).as_str());
        s.append(" all_empty_stdout_cases=");
        s.append(usize_to_decimal(self.all_empty_stdout_cases).as_str());
        s.append(" warnings=");
        s.append(self.warning_summary().as_str());
        s.append(checker_summary(&self.checker, &self.answer_program).as_str());
        s
    }
}

} // verus!

verus! {

/// Options of a batch check: the generator and its arguments per case,
/// the program whose output is the answer, and the programs that must
/// pass or fail against it.
#[derive(Clone, Debug)]
pub struct StressExpectOptions {
    pub work_dir: String,
    pub generator: String,
    pub answer: String,
    pub pass_programs: Vec<String>,
    pub fail_programs: Vec<String>,
    pub args_by_case: Vec<Vec<String>>,
    pub failure_dir: Option<String>,
    pub output_limit_bytes: usize,
    pub print_progress: bool,
    pub print_warnings: bool,
}

/// The saved outputs of one program of an expected failure.
#[derive(Clone, Debug)]
pub struct ExpectedStressOutput {
    pub label: String,
    pub verdict: String,
    pub reason_code: String,
    pub result_line: String,
    pub stdout_path: String,
    pub stderr_path: String,
}

/// The saved outputs of the checker of an expected failure.
#[derive(Clone, Debug)]
pub struct ExpectedCheckerOutput {
    pub checker: String,
    pub participant: String,
    pub verdict: String,
    pub reason_code: String,
    pub result_line: String,
    pub stdout_path: String,
    pub stderr_path: String,
    pub report_path: Option<String>,
}

/// One comparison a batch check runs: the answer program against one
/// program, under a check name, expecting a pass or a failure.
#[derive(Clone, Debug)]
pub struct ExpectRun {
    pub against: Vec<String>,
    pub check_name: String,
    pub expect_failure: bool,
}

/// The name of one comparison of a batch check.
pub open spec fn batch_check_name(fail: bool, program: Seq<char>) -> Seq<char> {
    (if fail {
        "batch:fail:"@
    } else {
        "batch:pass:"@
    }) + program
}

/// The comparisons of a batch check: each pass program, then each fail
/// program, against the answer (the solution when no answer is given).
pub open spec fn expect_runs_spec(
    answer: Seq<char>,
    pass: Seq<Seq<char>>,
    fail: Seq<Seq<char>>,
) -> Seq<(Seq<Seq<char>>, Seq<char>, bool)> {
    pass.map_values(|p: Seq<char>| (seq![answer, p], batch_check_name(false, p), false)) + fail.map_values(
        |p: Seq<char>| (seq![answer, p], batch_check_name(true, p), true),
    )
}

/// The contents of a list of comparisons.
pub open spec fn expect_runs_view(v: Seq<ExpectRun>) -> Seq<(Seq<Seq<char>>, Seq<char>, bool)> {
    v.map_values(|r: ExpectRun| (string_views(r.against@), r.check_name@, r.expect_failure))
}

/// Plans the comparisons of a batch check; a check with neither pass nor
/// fail programs is refused.
pub fn plan_expect_runs(options: &StressExpectOptions, solution_name: &String) -> (r: Result<
    Vec<ExpectRun>,
    String,
>)
    ensures
        match r {
            Ok(runs) => (options.pass_programs@.len() > 0 || options.fail_programs@.len() > 0)
                && expect_runs_view(runs@) == expect_runs_spec(
                if options.answer@.len() == 0 {
                    solution_name@
                } else {
                    options.answer@
                },
                string_views(options.pass_programs@),
                string_views(options.fail_programs@),
            ),
            Err(e) => options.pass_programs@.len() == 0 && options.fail_programs@.len() == 0
                && e@ == "test batch requires at least one --pass or --fail program"@,
        },
{
    proof {
        reveal_strlit("test batch requires at least one --pass or --fail program");
        reveal_strlit("batch:pass:");
        reveal_strlit("batch:fail:");
    }
    if options.pass_programs.len() == 0 && options.fail_programs.len() == 0 {
        return Err(String::from_str("test batch requires at least one --pass or --fail program"));
    }
    let answer = if options.answer.as_str().is_empty() {
        solution_name.clone()
    } else {
        options.answer.clone()
    };
    let ghost a = answer@;
    let ghost pass = string_views(options.pass_programs@);
    let ghost fail = string_views(options.fail_programs@);
    let mut runs: Vec<ExpectRun> = Vec::new();
    let mut i: usize = 0;
    while i < options.pass_programs.len()
        invariant
            a == answer@,
            pass == string_views(options.pass_programs@),
            i <= options.pass_programs@.len(),
            expect_runs_view(runs@) == pass.take(i as int).map_values(
                |p: Seq<char>| (seq![a, p], batch_check_name(false, p), false),
            ),
        decreases options.pass_programs@.len() - i,
    {
        let program = &options.pass_programs[i];
        let against = vec![answer.clone(), program.clone()];
        let mut name = String::from_str("batch:pass:");
        name.append(program.as_str());
        let ghost before = expect_runs_view(runs@);
        runs.push(ExpectRun { against, check_name: name, expect_failure: false });
        assert(string_views(against@) =~= seq![a, program@]);
        assert(expect_runs_view(runs@) =~= before.push(
            (seq![a, program@], batch_check_name(false, program@), false),
        ));
        assert(pass.take(i + 1).map_values(|p: Seq<char>| (seq![a, p], batch_check_name(false, p), false))
            =~= pass.take(i as int).map_values(
            |p: Seq<char>| (seq![a, p], batch_check_name(false, p), false),
        ).push((seq![a, program@], batch_check_name(false, program@), false)));
        i = i + 1;
    }
    assert(pass.take(i as int) =~= pass);
    let ghost head = expect_runs_view(runs@);
    let mut j: usize = 0;
    while j < options.fail_programs.len()
        invariant
            a == answer@,
            fail == string_views(options.fail_programs@),
            j <= options.fail_programs@.len(),
            expect_runs_view(runs@) == head + fail.take(j as int).map_values(
                |p: Seq<char>| (seq![a, p], batch_check_name(true, p), true),
            ),
        decreases options.fail_programs@.len() - j,
    {
        let program = &options.fail_programs[j];
        let against = vec![answer.clone(), program.clone()];
        let mut name = String::from_str("batch:fail:");
        name.append(program.as_str());
        let ghost before = expect_runs_view(runs@);
        runs.push(ExpectRun { against, check_name: name, expect_failure: true });
        assert(string_views(against@) =~= seq![a, program@]);
        assert(expect_runs_view(runs@) =~= before.push(
            (seq![a, program@], batch_check_name(true, program@), true),
        ));
        assert(fail.take(j + 1).map_values(|p: Seq<char>| (seq![a, p], batch_check_name(true, p), true))
            =~= fail.take(j as int).map_values(
            |p: Seq<char>| (seq![a, p], batch_check_name(true, p), true),
        ).push((seq![a, program@], batch_check_name(true, program@), true)));
        j = j + 1;
    }
    assert(fail.take(j as int) =~= fail);
    Ok(runs)
}

} // verus!
