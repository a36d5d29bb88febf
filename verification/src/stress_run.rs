//! The decisions of a stress check. The command runs the generator, the
//! two programs and the checker; after each run it hands the result here
//! and learns whether to go on, record an expected failure, or stop.

use vstd::prelude::*;
use crate::digest::{sha256, sha256_digest};
use crate::schema::{RunResult, failure_text};
use crate::stress::{
    StressCheckerFailure,
    StressSummary,
    checker_failure_satisfies_expect_fail,
    checker_failure_text,
    classify_program_failure,
    classify_stress_failure,
    failure_reason,
    first_failed,
    is_rejection,
    program_failure_text,
    satisfies_expect_fail,
    stress_failure_text,
};
use crate::text::{chars_of, decimal, opt_view, string_views, usize_to_decimal, join};
use crate::stress::join_strings;

verus! {

/// Where the inputs of a stress check come from.
#[derive(Clone, Copy, Debug, PartialEq, Eq, Structural)]
pub enum StressGeneratorKind {
    /// The files named by each case's arguments.
    File,
    /// A program run with each case's arguments.
    Program,
}

/// How a generator named on the command line is taken: the file
/// generator, an unknown built-in (a name that starts with `:`), or a
/// program.
pub open spec fn generator_kind_spec(g: Seq<char>) -> Result<StressGeneratorKind, Seq<char>> {
    if g == ":file"@ {
        Ok(StressGeneratorKind::File)
    } else if g.len() > 0 && g[0] == ':' {
        Err("generator `"@ + g + "` is an unknown built-in generator"@)
    } else {
        Ok(StressGeneratorKind::Program)
    }
}

/// Decides where the inputs of a stress check come from.
pub fn stress_generator_kind(generator: &str) -> (r: Result<StressGeneratorKind, String>)
    ensures
        match (r, generator_kind_spec(generator@)) {
            (Ok(a), Ok(b)) => a == b,
            (Err(e), Err(m)) => e@ == m,
            _ => false,
        },
{
    proof {
        reveal_strlit(":file");
    }
    let file = crate::problem::file_generator_name();
    let g = chars_of(generator);
    let f = chars_of(file);
    if crate::text::chars_eq(g.as_slice(), f.as_slice()) {
        return Ok(StressGeneratorKind::File);
    }
    if g.len() > 0 && g[0] == ':' {
        let mut message = String::from_str("generator `");
        message.append(generator);
        message.append("` is an unknown built-in generator");
        return Err(message);
    }
    Ok(StressGeneratorKind::Program)
}

/// A stress check compares exactly two programs.
pub fn check_stress_against(against: &Vec<String>) -> (r: Result<(), String>)
    ensures
        r is Ok <==> against@.len() == 2,
        r matches Err(e) ==> e@ == "expect check requires exactly two programs or sources"@,
{
    if against.len() != 2 {
        return Err(String::from_str("expect check requires exactly two programs or sources"));
    }
    Ok(())
}

/// What the generator's run must satisfy on case `index`: it succeeded,
/// and its output was not cut at the limit.
pub open spec fn generator_run_error(r: RunResult, index: nat, limit: nat) -> Option<Seq<char>> {
    if !r.ok {
        Some(failure_text(r, "generator failed on expect case "@ + decimal(index)))
    } else if r.truncated_stdout {
        Some(
            "generator output on expect case "@ + decimal(index) + " exceeded --output-limit-bytes ("@
                + decimal(limit) + ")"@,
        )
    } else {
        None
    }
}

/// Checks the generator's run on case `index`.
pub fn check_generator_run(result: &RunResult, index: usize, output_limit_bytes: usize) -> (r: Result<
    (),
    String,
>)
    ensures
        match r {
            Ok(()) => generator_run_error(*result, index as nat, output_limit_bytes as nat) is None,
            Err(e) => generator_run_error(*result, index as nat, output_limit_bytes as nat) == Some(e@),
        },
{
    let number = usize_to_decimal(index);
    if !result.is_success() {
        let mut context = String::from_str("generator failed on expect case ");
        context.append(number.as_str());
        return Err(result.failure_report(context.as_str()));
    }
    if result.truncated_stdout {
        let mut message = String::from_str("generator output on expect case ");
        message.append(number.as_str());
        message.append(" exceeded --output-limit-bytes (");
        let limit = usize_to_decimal(output_limit_bytes);
        message.append(limit.as_str());
        message.append(")");
        return Err(message);
    }
    Ok(())
}

/// What a compared program's run on case `index` must satisfy: its output
/// was not cut at the limit.
pub open spec fn target_run_error(r: RunResult, index: nat, limit: nat) -> Option<Seq<char>> {
    if r.truncated_stdout {
        Some(
            "program `"@ + r.label@ + "` output on expect case "@ + decimal(index)
                + " exceeded --output-limit-bytes ("@ + decimal(limit) + ")"@,
        )
    } else {
        None
    }
}

/// Checks a compared program's run on case `index`.
pub fn check_target_run(result: &RunResult, index: usize, output_limit_bytes: usize) -> (r: Result<
    (),
    String,
>)
    ensures
        match r {
            Ok(()) => target_run_error(*result, index as nat, output_limit_bytes as nat) is None,
            Err(e) => target_run_error(*result, index as nat, output_limit_bytes as nat) == Some(e@),
        },
{
    if result.truncated_stdout {
        let mut message = String::from_str("program `");
        message.append(result.label.as_str());
        message.append("` output on expect case ");
        let number = usize_to_decimal(index);
        message.append(number.as_str());
        message.append(" exceeded --output-limit-bytes (");
        let limit = usize_to_decimal(output_limit_bytes);
        message.append(limit.as_str());
        message.append(")");
        return Err(message);
    }
    Ok(())
}

/// The failure a checker's run on a participant's output amounts to: none
/// when the run succeeded; else a rejection (`WA`, `checker_rejected`)
/// or, for any other failure, the run's own kind as verdict and reason.
pub open spec fn checker_failure_spec(checker: Seq<char>, participant: Seq<char>, r: RunResult) -> Option<
    (Seq<char>, Seq<char>, Seq<char>, Seq<char>),
> {
    if r.ok {
        None
    } else if is_rejection(r) {
        Some((checker, participant, "WA"@, "checker_rejected"@))
    } else {
        Some((checker, participant, r.kind@, r.kind@))
    }
}

/// Law: a failed checker run rejects the checked output exactly when the
/// checker exited with code 1 (wrong answer) or 2 (presentation error) and
/// neither of its streams was cut short. Such a failure is a `WA` with
/// reason `checker_rejected`; any other failure carries the run's kind.
pub proof fn lemma_checker_rejection_codes(checker: Seq<char>, participant: Seq<char>, r: RunResult)
    requires
        !r.ok,
    ensures
        is_rejection(r) <==> ((r.exit_code == Some(1i32) || r.exit_code == Some(2i32))
            && !r.truncated_stdout && !r.truncated_stderr),
        ((r.exit_code == Some(1i32) || r.exit_code == Some(2i32)) && !r.truncated_stdout
            && !r.truncated_stderr) ==> checker_failure_spec(checker, participant, r) == Some(
            (checker, participant, "WA"@, "checker_rejected"@),
        ),
        !((r.exit_code == Some(1i32) || r.exit_code == Some(2i32)) && !r.truncated_stdout
            && !r.truncated_stderr) ==> checker_failure_spec(checker, participant, r) == Some(
            (checker, participant, r.kind@, r.kind@),
        ),
{
}

/// The participant the checker judges next in a stress case, if any: a
/// checker is configured, every program ran successfully, and no earlier
/// participant was rejected; then the run at `next`, while there is one.
/// The first run is the reference, so the judging starts at 1.
pub fn next_checker_participant(
    has_checker: bool,
    results: &Vec<RunResult>,
    next: usize,
    rejected: bool,
) -> (r: Option<usize>)
    ensures
        r == (if has_checker && first_failed(results@) is None && !rejected && 1 <= next
            < results@.len() {
            Some(next)
        } else {
            None::<usize>
        }),
{
    if !has_checker || rejected || next < 1 || next >= results.len() {
        return None;
    }
    match classify_program_failure(results.as_slice()) {
        Some(_) => None,
        None => Some(next),
    }
}

/// Turns a checker's run on a participant's output into the failure it
/// amounts to, if any.
pub fn checker_failure_from(checker: &String, participant: &String, result: &RunResult) -> (r: Option<
    StressCheckerFailure,
>)
    ensures
        match (r, checker_failure_spec(checker@, participant@, *result)) {
            (None, None) => true,
            (Some(f), Some(t)) => {
                &&& (f.checker@, f.participant@, f.verdict@, f.reason_code@) == t
                &&& f.exit_code == result.exit_code
                &&& f.truncated_stdout == result.truncated_stdout
                &&& f.truncated_stderr == result.truncated_stderr
            },
            _ => false,
        },
{
    if result.is_success() {
        return None;
    }
    let (verdict, reason_code) = if crate::stress::checker_run_is_rejection(result) {
        (String::from_str("WA"), String::from_str("checker_rejected"))
    } else {
        (result.kind.clone(), result.kind.clone())
    };
    Some(
        StressCheckerFailure {
            checker: checker.clone(),
            participant: participant.clone(),
            verdict,
            reason_code,
            exit_code: result.exit_code,
            truncated_stdout: result.truncated_stdout,
            truncated_stderr: result.truncated_stderr,
        },
    )
}

/// A failed stress case: its number, why, and whether an expect-fail
/// check may count it.
#[derive(Clone, Debug)]
pub struct StressCaseFailure {
    pub case_index: usize,
    pub reason: String,
    pub satisfies_expect_fail: bool,
}

/// How one stress case ended.
#[derive(Clone, Debug)]
pub struct StressCaseOutcome {
    pub failure: Option<StressCaseFailure>,
    pub empty_stdout: bool,
    pub all_empty_stdout: bool,
}

/// A program succeeded and printed nothing.
pub open spec fn silent_success(r: RunResult) -> bool {
    r.ok && r.stdout_bytes@.len() == 0
}

/// The failure of a case as (reason, counts for expect-fail): a program
/// that failed; else the checker's failure; else, without a checker, the
/// first output that differs.
pub open spec fn case_failure_spec(
    results: Seq<RunResult>,
    checker_failure: Option<StressCheckerFailure>,
    has_checker: bool,
) -> Option<(Seq<char>, bool)> {
    match program_failure_text(results) {
        Some(t) => Some((t, true)),
        None => match checker_failure {
            Some(f) => Some((checker_failure_text(f), satisfies_expect_fail(f))),
            None => if !has_checker {
                match stress_failure_text(results) {
                    Some(t) => Some((t, true)),
                    None => None,
                }
            } else {
                None
            },
        },
    }
}

/// Classifies a stress case once its runs are done: `results` are the
/// compared programs' runs, `checker_failure` what the checker found
/// (asked only when no program failed and a checker is declared), and
/// `input_len` the input's size. A case that passed notes whether some,
/// or all, programs printed nothing for a non-empty input.
pub fn classify_stress_case(
    index: usize,
    results: &Vec<RunResult>,
    checker_failure: Option<StressCheckerFailure>,
    has_checker: bool,
    input_len: usize,
) -> (o: StressCaseOutcome)
    ensures
        match (o.failure, case_failure_spec(results@, checker_failure, has_checker)) {
            (None, None) => {
                &&& o.empty_stdout == (input_len > 0 && exists|i: int|
                    0 <= i < results@.len() && #[trigger] silent_success(results@[i]))
                &&& o.all_empty_stdout == (input_len > 0 && forall|i: int|
                    0 <= i < results@.len() ==> #[trigger] silent_success(results@[i]))
            },
            (Some(f), Some((reason, counts))) => {
                &&& f.case_index == index
                &&& f.reason@ == reason
                &&& f.satisfies_expect_fail == counts
                &&& !o.empty_stdout
                &&& !o.all_empty_stdout
            },
            _ => false,
        },
{
    match classify_program_failure(results.as_slice()) {
        Some(reason) => {
            return StressCaseOutcome {
                failure: Some(StressCaseFailure { case_index: index, reason, satisfies_expect_fail: true }),
                empty_stdout: false,
                all_empty_stdout: false,
            };
        },
        None => {},
    }
    match &checker_failure {
        Some(f) => {
            let reason = failure_reason(f);
            let counts = checker_failure_satisfies_expect_fail(f);
            return StressCaseOutcome {
                failure: Some(StressCaseFailure { case_index: index, reason, satisfies_expect_fail: counts }),
                empty_stdout: false,
                all_empty_stdout: false,
            };
        },
        None => {},
    }
    if !has_checker {
        match classify_stress_failure(results.as_slice()) {
            Some(reason) => {
                return StressCaseOutcome {
                    failure: Some(
                        StressCaseFailure { case_index: index, reason, satisfies_expect_fail: true },
                    ),
                    empty_stdout: false,
                    all_empty_stdout: false,
                };
            },
            None => {},
        }
    }
    let mut any = false;
    let mut all = true;
    let mut i: usize = 0;
    while i < results.len()
        invariant
            i <= results@.len(),
            any == exists|j: int| 0 <= j < i && #[trigger] silent_success(results@[j]),
            all == forall|j: int| 0 <= j < i ==> #[trigger] silent_success(results@[j]),
        decreases results@.len() - i,
    {
        let silent = results[i].is_success() && results[i].stdout_bytes.len() == 0;
        proof {
            assert(silent == silent_success(results@[i as int]));
        }
        any = any || silent;
        all = all && silent;
        i = i + 1;
    }
    StressCaseOutcome { failure: None, empty_stdout: input_len > 0 && any, all_empty_stdout: input_len > 0 && all }
}


/// Whether two byte strings are equal.
fn bytes_equal(a: &Vec<u8>, b: &Vec<u8>) -> (r: bool)
    ensures
        r == (a@ == b@),
{
    if a.len() != b.len() {
        return false;
    }
    let mut i: usize = 0;
    while i < a.len()
        invariant
            i <= a@.len(),
            a@.len() == b@.len(),
            forall|j: int| 0 <= j < i ==> a@[j] == b@[j],
        decreases a@.len() - i,
    {
        if a[i] != b[i] {
            return false;
        }
        i = i + 1;
    }
    assert(a@ =~= b@);
    true
}

/// What a stress check has counted so far.
#[derive(Clone, Debug)]
pub struct StressTally {
    /// Cases recorded.
    pub cases_seen: usize,
    /// Passed cases where some program printed nothing.
    pub empty_stdout_cases: usize,
    /// Passed cases where every program printed nothing.
    pub all_empty_stdout_cases: usize,
    /// Failures an expect-fail check counted.
    pub failed_cases: usize,
    /// The first counted failure: its case number and reason.
    pub first_failure: Option<(usize, String)>,
    /// The SHA-256 of each distinct input, in the order first seen.
    pub input_hashes: Vec<Vec<u8>>,
}

/// The distinct input digests seen.
pub open spec fn hash_views(t: StressTally) -> Seq<Seq<u8>> {
    t.input_hashes@.map_values(|h: Vec<u8>| h@)
}

/// The tally is consistent: every count is within the cases recorded,
/// and no digest is kept twice.
pub open spec fn tally_wf(t: StressTally) -> bool {
    &&& t.empty_stdout_cases <= t.cases_seen
    &&& t.failed_cases + t.all_empty_stdout_cases <= t.cases_seen
    &&& t.failed_cases + t.empty_stdout_cases <= t.cases_seen
    &&& hash_views(t).no_duplicates()
    &&& hash_views(t).len() <= t.cases_seen
    &&& (t.first_failure is None <==> t.failed_cases == 0)
}

/// What the command does after a case.
#[derive(Clone, Copy, Debug, PartialEq, Eq, Structural)]
pub enum StressStep {
    /// Go on with the next case.
    Continue,
    /// Save the artifacts of this case, the first expected failure, then
    /// go on.
    SaveExpectedFailure,
    /// Save the failure and stop with it.
    StopWithFailure,
}

impl StressTally {
    /// Nothing counted.
    pub fn new() -> (t: StressTally)
        ensures
            tally_wf(t),
            t.cases_seen == 0,
            t.failed_cases == 0,
            t.first_failure is None,
            hash_views(t).len() == 0,
    {
        let t = StressTally {
            cases_seen: 0,
            empty_stdout_cases: 0,
            all_empty_stdout_cases: 0,
            failed_cases: 0,
            first_failure: None,
            input_hashes: Vec::new(),
        };
        assert(hash_views(t) =~= Seq::<Seq<u8>>::empty());
        t
    }

    /// Notes an input's digest once.
    fn note_input(&mut self, digest: Vec<u8>)
        requires
            hash_views(*old(self)).no_duplicates(),
            hash_views(*old(self)).len() <= old(self).cases_seen + 1,
        ensures
            final(self).cases_seen == old(self).cases_seen,
            final(self).empty_stdout_cases == old(self).empty_stdout_cases,
            final(self).all_empty_stdout_cases == old(self).all_empty_stdout_cases,
            final(self).failed_cases == old(self).failed_cases,
            final(self).first_failure == old(self).first_failure,
            hash_views(*final(self)).no_duplicates(),
            hash_views(*final(self)).to_set() == hash_views(*old(self)).to_set().insert(digest@),
            hash_views(*final(self)).len() <= hash_views(*old(self)).len() + 1,
            hash_views(*old(self)).contains(digest@) ==> hash_views(*final(self)) == hash_views(*old(self)),
    {
        let ghost before = hash_views(*self);
        let mut i: usize = 0;
        while i < self.input_hashes.len()
            invariant
                i <= self.input_hashes@.len(),
                hash_views(*self) == before,
                before.no_duplicates(),
                forall|j: int| 0 <= j < i ==> before[j] != digest@,
            decreases self.input_hashes@.len() - i,
        {
            if bytes_equal(&self.input_hashes[i], &digest) {
                assert(before[i as int] == digest@);
                assert(before.to_set().insert(digest@) =~= before.to_set());
                return;
            }
            i = i + 1;
        }
        assert(!before.contains(digest@));
        self.input_hashes.push(digest);
        proof {
            let after = hash_views(*self);
            assert(after =~= before.push(digest@));
            assert(after.to_set() =~= before.to_set().insert(digest@)) by {
                assert forall|x: Seq<u8>| after.to_set().contains(x) <==> before.to_set().insert(
                    digest@,
                ).contains(x) by {
                    if after.contains(x) {
                        let k = choose|k: int| 0 <= k < after.len() && after[k] == x;
                        if k < before.len() {
                            assert(before[k] == x);
                        }
                    }
                    if before.contains(x) {
                        let k = choose|k: int| 0 <= k < before.len() && before[k] == x;
                        assert(after[k] == x);
                    }
                    if x == digest@ {
                        assert(after[before.len() as int] == x);
                    }
                }
            }
        }
    }

    /// Records the outcome of a case whose input was `input`, and says
    /// what to do next. A failure stops the check, unless the check
    /// expects failures and this one counts: then it is counted, and the
    /// first is saved. A passing case counts its empty outputs.
    pub fn record_case(&mut self, outcome: &StressCaseOutcome, input: &[u8], expect_failure: bool) -> (step:
        StressStep)
        requires
            tally_wf(*old(self)),
            old(self).cases_seen < usize::MAX,
        ensures
            tally_wf(*final(self)),
            final(self).cases_seen == old(self).cases_seen + 1,
            hash_views(*final(self)).to_set() == hash_views(*old(self)).to_set().insert(sha256(input@)),
            match outcome.failure {
                Some(f) => if expect_failure && f.satisfies_expect_fail {
                    &&& final(self).failed_cases == old(self).failed_cases + 1
                    &&& final(self).empty_stdout_cases == old(self).empty_stdout_cases
                    &&& final(self).all_empty_stdout_cases == old(self).all_empty_stdout_cases
                    &&& if old(self).first_failure is None {
                        &&& step == StressStep::SaveExpectedFailure
                        &&& final(self).first_failure matches Some((k, r)) && k == f.case_index && r@
                            == f.reason@
                    } else {
                        &&& step == StressStep::Continue
                        &&& final(self).first_failure == old(self).first_failure
                    }
                } else {
                    &&& step == StressStep::StopWithFailure
                    &&& final(self).failed_cases == old(self).failed_cases
                    &&& final(self).first_failure == old(self).first_failure
                },
                None => {
                    &&& step == StressStep::Continue
                    &&& final(self).failed_cases == old(self).failed_cases
                    &&& final(self).first_failure == old(self).first_failure
                    &&& final(self).empty_stdout_cases == old(self).empty_stdout_cases + (if outcome.empty_stdout {
                        1int
                    } else {
                        0int
                    })
                    &&& final(self).all_empty_stdout_cases == old(self).all_empty_stdout_cases + (
                    if outcome.all_empty_stdout {
                        1int
                    } else {
                        0int
                    })
                },
            },
    {
        let digest = sha256_digest(input);
        self.note_input(digest);
        self.cases_seen = self.cases_seen + 1;
        match &outcome.failure {
            Some(f) => {
                if expect_failure && f.satisfies_expect_fail {
                    self.failed_cases = self.failed_cases + 1;
                    if self.first_failure.is_none() {
                        self.first_failure = Some((f.case_index, f.reason.clone()));
                        StressStep::SaveExpectedFailure
                    } else {
                        StressStep::Continue
                    }
                } else {
                    StressStep::StopWithFailure
                }
            },
            None => {
                if outcome.empty_stdout {
                    self.empty_stdout_cases = self.empty_stdout_cases + 1;
                }
                if outcome.all_empty_stdout {
                    self.all_empty_stdout_cases = self.all_empty_stdout_cases + 1;
                }
                StressStep::Continue
            },
        }
    }
}

/// How a stress check ended once every case ran: it passed, or the
/// failure it expected was observed, with the first failure and the
/// counts of failed and passed cases.
#[derive(Clone, Debug)]
pub enum StressVerdict {
    Passed,
    ExpectedFailure { case_index: usize, reason: String, failed_cases: usize, passed_cases: usize },
}

/// ` `name``, or nothing.
pub open spec fn check_name_suffix(check_name: Option<Seq<char>>) -> Seq<char> {
    match check_name {
        Some(n) => " `"@ + n + "`"@,
        None => Seq::empty(),
    }
}

/// The error of an expect-fail check in which every case passed.
pub open spec fn all_passed_text(check_name: Option<Seq<char>>, cases: nat) -> Seq<char> {
    "expect check"@ + check_name_suffix(check_name) + " expected failure but all "@ + decimal(cases)
        + " cases passed"@
}

/// The error of a check stopped by an unexpected failure, naming where
/// its artifacts were saved.
pub open spec fn failure_saved_text(check_name: Option<Seq<char>>, case_index: nat, reason: Seq<char>, stem: Seq<char>) -> Seq<
    char,
> {
    "expect check"@ + check_name_suffix(check_name) + " failed on case "@ + decimal(case_index) + "; "@ + reason
        + "; saved "@ + stem + ".in, "@ + stem + ".txt, and per-program .out/.err files"@
}

/// The error of a check stopped by an unexpected failure on a case, whose
/// artifacts were saved under `stem`.
pub fn failure_saved_message(check_name: &Option<String>, case_index: usize, reason: &str, stem: &str) -> (s: String)
    ensures
        s@ == failure_saved_text(opt_view(*check_name), case_index as nat, reason@, stem@),
{
    proof {
        reveal_strlit("expect check");
        reveal_strlit(" `");
        reveal_strlit("`");
        reveal_strlit(" failed on case ");
        reveal_strlit("; ");
        reveal_strlit("; saved ");
        reveal_strlit(".in, ");
        reveal_strlit(".txt, and per-program .out/.err files");
    }
    let mut message = String::from_str("expect check");
    match check_name {
        Some(name) => {
            message.append(" `");
            message.append(name.as_str());
            message.append("`");
        },
        None => {},
    }
    message.append(" failed on case ");
    message.append(usize_to_decimal(case_index).as_str());
    message.append("; ");
    message.append(reason);
    message.append("; saved ");
    message.append(stem);
    message.append(".in, ");
    message.append(stem);
    message.append(".txt, and per-program .out/.err files");
    assert(message@ =~= failure_saved_text(opt_view(*check_name), case_index as nat, reason@, stem@));
    message
}

/// Ends a stress check of `cases` cases: a check that expects failures
/// reports the first one with the counts, or fails when none came (unless
/// their absence is allowed).
pub fn finish_stress(
    tally: &StressTally,
    cases: usize,
    expect_failure: bool,
    allow_expected_failure_absent: bool,
    check_name: &Option<String>,
) -> (r: Result<StressVerdict, String>)
    ensures
        !expect_failure ==> r matches Ok(StressVerdict::Passed),
        expect_failure ==> match tally.first_failure {
            None => if allow_expected_failure_absent {
                r matches Ok(StressVerdict::Passed)
            } else {
                r matches Err(e) && e@ == all_passed_text(opt_view(*check_name), cases as nat)
            },
            Some((k, reason)) => r matches Ok(
                StressVerdict::ExpectedFailure { case_index, reason: rr, failed_cases, passed_cases },
            ) && case_index == k && rr@ == reason@ && failed_cases == tally.failed_cases && passed_cases == (
            if cases >= tally.failed_cases {
                cases - tally.failed_cases
            } else {
                0int
            }),
        },
{
    if !expect_failure {
        return Ok(StressVerdict::Passed);
    }
    match &tally.first_failure {
        None => {
            if allow_expected_failure_absent {
                return Ok(StressVerdict::Passed);
            }
            let mut message = String::from_str("expect check");
            match check_name {
                Some(name) => {
                    message.append(" `");
                    message.append(name.as_str());
                    message.append("`");
                },
                None => {},
            }
            message.append(" expected failure but all ");
            let count = usize_to_decimal(cases);
            message.append(count.as_str());
            message.append(" cases passed");
            Err(message)
        },
        Some((k, reason)) => {
            let passed = if cases >= tally.failed_cases {
                cases - tally.failed_cases
            } else {
                0
            };
            Ok(
                StressVerdict::ExpectedFailure {
                    case_index: *k,
                    reason: reason.clone(),
                    failed_cases: tally.failed_cases,
                    passed_cases: passed,
                },
            )
        },
    }
}

/// The summary of a stress check from its tally: the answer program is
/// the first compared one when a checker judges the outputs.
pub fn stress_summary(
    check_name: Option<String>,
    checker: Option<String>,
    cases: usize,
    elapsed_ms: u128,
    against: &Vec<String>,
    tally: &StressTally,
) -> (s: StressSummary)
    requires
        against@.len() >= 1,
    ensures
        s.check_name == check_name,
        s.checker == checker,
        opt_view(s.answer_program) == (if checker is Some {
            Some(against@[0]@)
        } else {
            None
        }),
        s.cases == cases,
        s.elapsed_ms == elapsed_ms,
        string_views(s.against@) == string_views(against@),
        s.empty_stdout_cases == tally.empty_stdout_cases,
        s.all_empty_stdout_cases == tally.all_empty_stdout_cases,
        s.unique_input_hashes == hash_views(*tally).len(),
{
    let answer_program = match &checker {
        Some(_) => Some(against[0].clone()),
        None => None,
    };
    let copied = crate::text::clone_strings(against);
    StressSummary {
        check_name,
        checker,
        answer_program,
        cases,
        elapsed_ms,
        against: copied,
        empty_stdout_cases: tally.empty_stdout_cases,
        all_empty_stdout_cases: tally.all_empty_stdout_cases,
        unique_input_hashes: tally.input_hashes.len(),
    }
}

/// The progress line printed after a case: `label `name` case i ok`, or
/// `… expected failure observed`; without a check name, `case i …`.
pub open spec fn progress_text(label: Seq<char>, check_name: Option<Seq<char>>, index: nat, expected: bool) -> Seq<
    char,
> {
    (match check_name {
        Some(n) => label + " `"@ + n + "` case "@,
        None => "case "@,
    }) + decimal(index) + if expected {
        " expected failure observed"@
    } else {
        " ok"@
    }
}

/// Renders the progress line after a case.
pub fn progress_line(label: &str, check_name: &Option<String>, index: usize, expected: bool) -> (s: String)
    ensures
        s@ == progress_text(label@, opt_view(*check_name), index as nat, expected),
{
    let mut s = match check_name {
        Some(name) => {
            let mut s = String::from_str(label);
            s.append(" `");
            s.append(name.as_str());
            s.append("` case ");
            s
        },
        None => String::from_str("case "),
    };
    let number = usize_to_decimal(index);
    s.append(number.as_str());
    if expected {
        s.append(" expected failure observed");
    } else {
        s.append(" ok");
    }
    s
}

/// The warning printed for a case in which every program printed nothing.
pub open spec fn all_empty_warning_text(index: nat, against: Seq<Seq<char>>, input_bytes: nat) -> Seq<char> {
    "warning: all_empty_output case="@ + decimal(index) + " against="@ + join(against, ","@)
        + " input_bytes="@ + decimal(input_bytes)
}

/// Renders the warning for a case in which every program printed nothing.
pub fn all_empty_warning(index: usize, against: &Vec<String>, input_bytes: usize) -> (s: String)
    ensures
        s@ == all_empty_warning_text(index as nat, string_views(against@), input_bytes as nat),
{
    let mut s = String::from_str("warning: all_empty_output case=");
    let number = usize_to_decimal(index);
    s.append(number.as_str());
    s.append(" against=");
    let joined = join_strings(against, ",");
    s.append(joined.as_str());
    s.append(" input_bytes=");
    let size = usize_to_decimal(input_bytes);
    s.append(size.as_str());
    s
}

/// The warning printed when every case of a check had the same input.
pub open spec fn repeated_input_warning_text(cases: nat) -> Seq<char> {
    "warning: repeated_input cases="@ + decimal(cases)
        + " unique_input_hashes=1 random_coverage=false hint=generator_args_produced_identical_inputs"@
}

/// Renders the warning for a check whose cases all had the same input.
pub fn repeated_input_warning(cases: usize) -> (s: String)
    ensures
        s@ == repeated_input_warning_text(cases as nat),
{
    let mut s = String::from_str("warning: repeated_input cases=");
    let number = usize_to_decimal(cases);
    s.append(number.as_str());
    s.append(" unique_input_hashes=1 random_coverage=false hint=generator_args_produced_identical_inputs");
    s
}

} // verus!
