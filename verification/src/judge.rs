//! Judging one input with the validator, or one output with the checker,
//! against an expectation; and the line-ending repair of validator inputs.

use vstd::prelude::*;
use crate::schema::{bool_string, bool_text, status_text, RunResult, DEFAULT_OUTPUT_LIMIT_BYTES};
use crate::text::{decimal, usize_to_decimal};

verus! {

/// What a judgement is expected to observe.
#[derive(Clone, Copy, Debug, PartialEq, Eq, Structural)]
pub enum JudgeExpectation {
    Pass,
    Fail,
}

/// What a judgement observed.
#[derive(Clone, Copy, Debug, PartialEq, Eq, Structural)]
pub enum JudgeObserved {
    Pass,
    Fail,
}

/// Which program judged.
#[derive(Clone, Copy, Debug, PartialEq, Eq, Structural)]
pub enum JudgeKind {
    Validator,
    Checker,
}

/// The word an expectation is printed as.
pub open spec fn expectation_word(e: JudgeExpectation) -> Seq<char> {
    match e {
        JudgeExpectation::Pass => "pass"@,
        JudgeExpectation::Fail => "fail"@,
    }
}

/// The word an observation is printed as.
pub open spec fn observed_word(o: JudgeObserved) -> Seq<char> {
    match o {
        JudgeObserved::Pass => "pass"@,
        JudgeObserved::Fail => "fail"@,
    }
}

/// The word a judging program's role is printed as.
pub open spec fn kind_word(k: JudgeKind) -> Seq<char> {
    match k {
        JudgeKind::Validator => "validator"@,
        JudgeKind::Checker => "checker"@,
    }
}

/// The expectation is met by the observation.
pub open spec fn expectation_met(e: JudgeExpectation, o: JudgeObserved) -> bool {
    (e == JudgeExpectation::Pass && o == JudgeObserved::Pass) || (e == JudgeExpectation::Fail && o
        == JudgeObserved::Fail)
}

impl JudgeExpectation {
    /// Whether the observation is the expected one.
    pub fn matches(self, observed: JudgeObserved) -> (b: bool)
        ensures
            b == expectation_met(self, observed),
    {
        match (self, observed) {
            (JudgeExpectation::Pass, JudgeObserved::Pass) => true,
            (JudgeExpectation::Fail, JudgeObserved::Fail) => true,
            _ => false,
        }
    }

    /// The word this expectation is printed as.
    pub fn as_str(self) -> (s: &'static str)
        ensures
            s@ == expectation_word(self),
    {
        match self {
            JudgeExpectation::Pass => "pass",
            JudgeExpectation::Fail => "fail",
        }
    }
}

impl JudgeObserved {
    /// The word this observation is printed as.
    pub fn as_str(self) -> (s: &'static str)
        ensures
            s@ == observed_word(self),
    {
        match self {
            JudgeObserved::Pass => "pass",
            JudgeObserved::Fail => "fail",
        }
    }
}

impl JudgeKind {
    /// The word this role is printed as.
    pub fn as_str(self) -> (s: &'static str)
        ensures
            s@ == kind_word(self),
    {
        match self {
            JudgeKind::Validator => "validator",
            JudgeKind::Checker => "checker",
        }
    }
}

/// Law: an expectation is met exactly when it and the observation are
/// printed as the same word.
pub proof fn lemma_matches_iff_same_word(e: JudgeExpectation, o: JudgeObserved)
    ensures
        expectation_met(e, o) <==> expectation_word(e) == observed_word(o),
{
    reveal_strlit("pass");
    reveal_strlit("fail");
    assert("pass"@ != "fail"@) by {
        assert("pass"@[0] != "fail"@[0]);
    }
}

/// Options of judging one input with the validator.
#[derive(Clone, Debug)]
pub struct JudgeValidatorOptions {
    pub work_dir: String,
    pub validator: Option<String>,
    pub input_path: String,
    pub expect: JudgeExpectation,
    pub output_limit_bytes: usize,
    pub fix_line_endings: bool,
    pub line_ending_hints: bool,
}

/// Options of judging one output with the checker.
#[derive(Clone, Debug)]
pub struct JudgeCheckerOptions {
    pub work_dir: String,
    pub checker: Option<String>,
    pub input_path: String,
    pub output_path: String,
    pub answer_path: String,
    pub expect: JudgeExpectation,
    pub output_limit_bytes: usize,
}

/// A note attached to a judgement.
#[derive(Clone, Debug)]
pub struct JudgeWarning {
    pub code: String,
    pub message: String,
}

/// The outcome of a judgement.
#[derive(Clone, Debug)]
pub struct JudgeReport {
    pub ok: bool,
    pub expect: JudgeExpectation,
    pub observed: JudgeObserved,
    pub kind: JudgeKind,
    pub program: String,
    pub run: RunResult,
    pub report_path: Option<String>,
    pub report: Option<String>,
    pub warnings: Vec<JudgeWarning>,
}

/// The line printed for a judgement.
pub open spec fn judge_summary_text(r: JudgeReport) -> Seq<char> {
    "judge "@ + kind_word(r.kind) + ": "@ + (if r.ok {
        "ok"@
    } else {
        "mismatch"@
    }) + " program="@ + r.program@ + " expect="@ + expectation_word(r.expect) + " observed="@
        + observed_word(r.observed) + " "@ + status_text(r.run)
}

impl JudgeReport {
    /// The line printed for this judgement.
    pub fn summary_line(&self) -> (s: String)
        ensures
            s@ == judge_summary_text(*self),
    {
        proof {
            reveal_strlit("judge ");
            reveal_strlit(": ");
            reveal_strlit("ok");
            reveal_strlit("mismatch");
            reveal_strlit(" program=");
            reveal_strlit(" expect=");
            reveal_strlit(" observed=");
            reveal_strlit(" ");
        }
        let mut s = String::from_str("judge ");
        s.append(self.kind.as_str());
        s.append(": ");
        s.append(if self.ok { "ok" } else { "mismatch" });
        s.append(" program=");
        s.append(self.program.as_str());
        s.append(" expect=");
        s.append(self.expect.as_str());
        s.append(" observed=");
        s.append(self.observed.as_str());
        s.append(" ");
        s.append(self.run.status_line().as_str());
        s
    }
}

/// A judgement of a finished run: the run passed when the program
/// succeeded, and the report is ok when that was the expectation.
pub fn report_from_result(
    kind: JudgeKind,
    program: String,
    expect: JudgeExpectation,
    run: RunResult,
    report_path: Option<String>,
    report: Option<String>,
    warnings: Vec<JudgeWarning>,
) -> (r: JudgeReport)
    ensures
        r.observed == (if run.ok {
            JudgeObserved::Pass
        } else {
            JudgeObserved::Fail
        }),
        r.ok == expectation_met(expect, r.observed),
        r.kind == kind,
        r.program == program,
        r.expect == expect,
        r.run == run,
        r.report_path == report_path,
        r.report == report,
        r.warnings == warnings,
{
    let observed = if run.ok {
        JudgeObserved::Pass
    } else {
        JudgeObserved::Fail
    };
    JudgeReport {
        ok: expect.matches(observed),
        expect,
        observed,
        kind,
        program,
        run,
        report_path,
        report,
        warnings,
    }
}

/// The program that judges: the one given, else the one configured, else
/// the error that says how to configure one.
pub fn judging_program(
    kind: JudgeKind,
    given: Option<String>,
    configured: Option<String>,
) -> (r: Result<String, String>)
    ensures
        match given {
            Some(g) => r == Ok::<String, String>(g),
            None => match configured {
                Some(c) => r == Ok::<String, String>(c),
                None => r is Err && r->Err_0@ == (match kind {
                    JudgeKind::Validator => "validator is not configured; pass --validator or set problem.yaml validator"@,
                    JudgeKind::Checker => "checker is not configured; pass --checker or set problem.yaml checker"@,
                }),
            },
        },
{
    match given {
        Some(g) => Ok(g),
        None => match configured {
            Some(c) => Ok(c),
            None => {
                proof {
                    reveal_strlit(
                        "validator is not configured; pass --validator or set problem.yaml validator",
                    );
                    reveal_strlit(
                        "checker is not configured; pass --checker or set problem.yaml checker",
                    );
                }
                match kind {
                    JudgeKind::Validator => Err(
                        String::from_str(
                            "validator is not configured; pass --validator or set problem.yaml validator",
                        ),
                    ),
                    JudgeKind::Checker => Err(
                        String::from_str(
                            "checker is not configured; pass --checker or set problem.yaml checker",
                        ),
                    ),
                }
            },
        },
    }
}

/// Judges one output with the checker: the checker given in the options,
/// else the one configured, judged by its run and the report it wrote, if
/// any; an error when no checker is given or configured. The checker runs
/// only once `judging_program` has chosen it, so that error comes before
/// any run.
pub fn judge_checker(
    options: &JudgeCheckerOptions,
    configured: Option<String>,
    run: RunResult,
    report_path: Option<String>,
    report: Option<String>,
) -> (r: Result<JudgeReport, String>)
    ensures
        (options.checker is None && configured is None) <==> r is Err,
        r is Err ==> r->Err_0@
            == "checker is not configured; pass --checker or set problem.yaml checker"@,
        r matches Ok(j) ==> {
            &&& j.kind == JudgeKind::Checker
            &&& j.program == (match options.checker {
                Some(g) => g,
                None => configured->0,
            })
            &&& j.expect == options.expect
            &&& j.observed == (if run.ok {
                JudgeObserved::Pass
            } else {
                JudgeObserved::Fail
            })
            &&& j.ok == expectation_met(options.expect, j.observed)
            &&& j.run == run
            &&& j.report_path == report_path
            &&& j.report == report
            &&& j.warnings@.len() == 0
        },
{
    let checker_name = match judging_program(JudgeKind::Checker, options.checker.clone(), configured) {
        Ok(name) => name,
        Err(e) => return Err(e),
    };
    Ok(
        report_from_result(
            JudgeKind::Checker,
            checker_name,
            options.expect,
            run,
            report_path,
            report,
            Vec::new(),
        ),
    )
}

/// The output cap of a judgement: the default when none (0) is given.
pub fn normalized_output_limit(output_limit_bytes: usize) -> (n: usize)
    ensures
        n == (if output_limit_bytes == 0 {
            DEFAULT_OUTPUT_LIMIT_BYTES
        } else {
            output_limit_bytes
        }),
{
    if output_limit_bytes == 0 {
        DEFAULT_OUTPUT_LIMIT_BYTES
    } else {
        output_limit_bytes
    }
}

} // verus!

verus! {

/// How one line of an input ends.
#[derive(Clone, Copy, Debug, PartialEq, Eq, Structural)]
pub enum LineEndingKind {
    Crlf,
    LoneLf,
    LoneCr,
}

/// The line endings of an input, in order.
pub open spec fn line_endings(input: Seq<u8>) -> Seq<LineEndingKind>
    decreases input.len(),
{
    if input.len() == 0 {
        Seq::empty()
    } else if input[0] == 13u8 && input.len() >= 2 && input[1] == 10u8 {
        seq![LineEndingKind::Crlf] + line_endings(input.skip(2))
    } else if input[0] == 13u8 {
        seq![LineEndingKind::LoneCr] + line_endings(input.skip(1))
    } else if input[0] == 10u8 {
        seq![LineEndingKind::LoneLf] + line_endings(input.skip(1))
    } else {
        line_endings(input.skip(1))
    }
}

/// The endings that are sampled: the first `lines` and the last `lines`.
pub open spec fn sampled_endings(e: Seq<LineEndingKind>, lines: nat) -> Seq<LineEndingKind> {
    if e.len() <= 2 * lines {
        e
    } else {
        e.take(lines as int) + e.skip(e.len() - lines)
    }
}

/// How many endings are of the given kind.
pub open spec fn kind_count(e: Seq<LineEndingKind>, k: LineEndingKind) -> nat
    decreases e.len(),
{
    if e.len() == 0 {
        0
    } else {
        kind_count(e.drop_last(), k) + if e.last() == k {
            1nat
        } else {
            0nat
        }
    }
}

/// What the head and tail of an input show about its line endings.
#[derive(Clone, Copy, Debug)]
pub struct LineEndingSample {
    pub crlf: usize,
    pub lone_lf: usize,
    pub lone_cr: usize,
    pub missing_final_eol: bool,
}

/// The input is non-empty and its last byte ends no line.
pub open spec fn missing_final_eol(input: Seq<u8>) -> bool {
    input.len() > 0 && input.last() != 10u8 && input.last() != 13u8
}

/// The sample of an input's line endings.
pub open spec fn sample_of(input: Seq<u8>, lines: nat, s: LineEndingSample) -> bool {
    let e = sampled_endings(line_endings(input), lines);
    &&& s.crlf == kind_count(e, LineEndingKind::Crlf)
    &&& s.lone_lf == kind_count(e, LineEndingKind::LoneLf)
    &&& s.lone_cr == kind_count(e, LineEndingKind::LoneCr)
    &&& s.missing_final_eol == missing_final_eol(input)
}

/// The sample shows endings foreign to the platform, or a missing final
/// line ending.
pub open spec fn sample_needs_normalization(s: LineEndingSample, windows: bool) -> bool {
    (if windows {
        s.lone_lf + s.lone_cr
    } else {
        s.crlf + s.lone_cr
    }) > 0 || s.missing_final_eol
}

impl LineEndingSample {
    /// Whether the input should be rewritten with the platform's newline.
    pub fn needs_normalization(&self, windows: bool) -> (b: bool)
        ensures
            b == sample_needs_normalization(*self, windows),
    {
        if windows {
            self.lone_lf > 0 || self.lone_cr > 0 || self.missing_final_eol
        } else {
            self.crlf > 0 || self.lone_cr > 0 || self.missing_final_eol
        }
    }
}

/// The line endings of an input.
fn collect_line_endings(input: &[u8]) -> (e: Vec<LineEndingKind>)
    ensures
        e@ == line_endings(input@),
{
    let mut e: Vec<LineEndingKind> = Vec::new();
    let mut i: usize = 0;
    assert(input@.skip(0) == input@);
    while i < input.len()
        invariant
            i <= input@.len(),
            e@ + line_endings(input@.skip(i as int)) == line_endings(input@),
        decreases input@.len() - i,
    {
        let ghost rest = input@.skip(i as int);
        if input[i] == 13u8 && i + 1 < input.len() && input[i + 1] == 10u8 {
            assert(rest.skip(2) == input@.skip(i + 2));
            let ghost before = e@;
            e.push(LineEndingKind::Crlf);
            assert(e@ + line_endings(input@.skip(i + 2)) == before + (seq![LineEndingKind::Crlf]
                + line_endings(rest.skip(2))));
            i = i + 2;
        } else {
            assert(rest.skip(1) == input@.skip(i + 1));
            let ghost before = e@;
            if input[i] == 13u8 {
                e.push(LineEndingKind::LoneCr);
                assert(e@ + line_endings(input@.skip(i + 1)) == before + (seq![
                    LineEndingKind::LoneCr,
                ] + line_endings(rest.skip(1))));
            } else if input[i] == 10u8 {
                e.push(LineEndingKind::LoneLf);
                assert(e@ + line_endings(input@.skip(i + 1)) == before + (seq![
                    LineEndingKind::LoneLf,
                ] + line_endings(rest.skip(1))));
            }
            i = i + 1;
        }
    }
    assert(input@.skip(i as int).len() == 0);
    assert(e@ + Seq::<LineEndingKind>::empty() == e@);
    e
}

proof fn lemma_kind_count_concat(a: Seq<LineEndingKind>, b: Seq<LineEndingKind>, k: LineEndingKind)
    ensures
        kind_count(a + b, k) == kind_count(a, k) + kind_count(b, k),
    decreases b.len(),
{
    if b.len() == 0 {
        assert(a + b == a);
    } else {
        lemma_kind_count_concat(a, b.drop_last(), k);
        assert((a + b).drop_last() == a + b.drop_last());
    }
}

/// Counts the endings of each kind in `e`.
fn count_kinds(e: &Vec<LineEndingKind>, from: usize, to: usize) -> (r: (usize, usize, usize))
    requires
        from <= to <= e@.len(),
    ensures
        r.0 == kind_count(e@.subrange(from as int, to as int), LineEndingKind::Crlf),
        r.1 == kind_count(e@.subrange(from as int, to as int), LineEndingKind::LoneLf),
        r.2 == kind_count(e@.subrange(from as int, to as int), LineEndingKind::LoneCr),
        r.0 + r.1 + r.2 == to - from,
{
    let mut crlf: usize = 0;
    let mut lf: usize = 0;
    let mut cr: usize = 0;
    let mut i: usize = from;
    while i < to
        invariant
            from <= i <= to <= e@.len(),
            crlf == kind_count(e@.subrange(from as int, i as int), LineEndingKind::Crlf),
            lf == kind_count(e@.subrange(from as int, i as int), LineEndingKind::LoneLf),
            cr == kind_count(e@.subrange(from as int, i as int), LineEndingKind::LoneCr),
            crlf + lf + cr == i - from,
        decreases to - i,
    {
        assert(e@.subrange(from as int, i + 1).drop_last() == e@.subrange(from as int, i as int));
        assert(e@.subrange(from as int, i + 1).last() == e@[i as int]);
        match e[i] {
            LineEndingKind::Crlf => crlf = crlf + 1,
            LineEndingKind::LoneLf => lf = lf + 1,
            LineEndingKind::LoneCr => cr = cr + 1,
        }
        i = i + 1;
    }
    (crlf, lf, cr)
}

/// Samples the line endings of the first and last `lines` lines.
pub fn line_ending_sample(input: &[u8], lines: usize) -> (s: LineEndingSample)
    ensures
        sample_of(input@, lines as nat, s),
{
    let e = collect_line_endings(input);
    let n = e.len();
    let missing = input.len() > 0 && input[input.len() - 1] != 10u8 && input[input.len() - 1]
        != 13u8;
    if n / 2 + n % 2 <= lines {
        let (crlf, lf, cr) = count_kinds(&e, 0, n);
        assert(e@.subrange(0, n as int) == e@);
        proof {
            assert(e@.len() <= 2 * lines);
        }
        LineEndingSample { crlf, lone_lf: lf, lone_cr: cr, missing_final_eol: missing }
    } else {
        let (c1, l1, r1) = count_kinds(&e, 0, lines);
        let (c2, l2, r2) = count_kinds(&e, n - lines, n);
        proof {
            let ee = e@;
            assert(ee.len() > 2 * lines);
            assert(ee.subrange(0, lines as int) == ee.take(lines as int));
            assert(ee.subrange(n - lines, n as int) == ee.skip(n - lines));
            lemma_kind_count_concat(ee.take(lines as int), ee.skip(n - lines), LineEndingKind::Crlf);
            lemma_kind_count_concat(ee.take(lines as int), ee.skip(n - lines), LineEndingKind::LoneLf);
            lemma_kind_count_concat(ee.take(lines as int), ee.skip(n - lines), LineEndingKind::LoneCr);
        }
        LineEndingSample {
            crlf: c1 + c2,
            lone_lf: l1 + l2,
            lone_cr: r1 + r2,
            missing_final_eol: missing,
        }
    }
}

/// The platform's newline bytes.
pub open spec fn newline_bytes(windows: bool) -> Seq<u8> {
    if windows {
        seq![13u8, 10u8]
    } else {
        seq![10u8]
    }
}

/// The platform's newline bytes.
pub fn native_newline(windows: bool) -> (v: Vec<u8>)
    ensures
        v@ == newline_bytes(windows),
{
    if windows {
        let v = vec![13u8, 10u8];
        assert(v@ == seq![13u8, 10u8]);
        v
    } else {
        let v = vec![10u8];
        assert(v@ == seq![10u8]);
        v
    }
}

/// `input` with every `\r\n`, lone `\r` and lone `\n` replaced by `nl`.
pub open spec fn with_newlines(input: Seq<u8>, nl: Seq<u8>) -> Seq<u8>
    decreases input.len(),
{
    if input.len() == 0 {
        Seq::empty()
    } else if input[0] == 13u8 && input.len() >= 2 && input[1] == 10u8 {
        nl + with_newlines(input.skip(2), nl)
    } else if input[0] == 13u8 || input[0] == 10u8 {
        nl + with_newlines(input.skip(1), nl)
    } else {
        seq![input[0]] + with_newlines(input.skip(1), nl)
    }
}

/// What a repaired input holds: every line ending made the platform's,
/// and a final one added when the input did not end its last line.
pub open spec fn repaired_input(input: Seq<u8>, windows: bool) -> Seq<u8> {
    let body = with_newlines(input, newline_bytes(windows));
    if missing_final_eol(input) && body.len() > 0 {
        body + newline_bytes(windows)
    } else {
        body
    }
}

/// The warning recorded when an input was repaired.
pub open spec fn repair_message(s: LineEndingSample) -> Seq<char> {
    "normalized validator input line endings before running; sampled head/tail lines found crlf="@
        + decimal(s.crlf as nat) + ", lone_lf="@ + decimal(s.lone_lf as nat) + ", lone_cr="@
        + decimal(s.lone_cr as nat) + ", missing_final_eol="@ + bool_text(s.missing_final_eol)
}

fn append_bytes(v: &mut Vec<u8>, s: &Vec<u8>)
    ensures
        final(v)@ == old(v)@ + s@,
{
    let mut i: usize = 0;
    while i < s.len()
        invariant
            i <= s@.len(),
            v@ == old(v)@ + s@.take(i as int),
        decreases s@.len() - i,
    {
        v.push(s[i]);
        assert(s@.take(i + 1) == s@.take(i as int).push(s@[i as int]));
        i = i + 1;
    }
    assert(s@.take(i as int) == s@);
}

/// Rewrites a validator input with the platform's line endings when its
/// sampled head and tail lines show foreign endings or a missing final
/// one, and says so in a warning; otherwise leaves it as it is.
pub fn fix_validator_input_line_endings(input: &mut Vec<u8>, windows: bool) -> (w: Vec<
    JudgeWarning,
>)
    ensures
        exists|s: LineEndingSample|
            #[trigger] sample_of(old(input)@, 8, s) && if sample_needs_normalization(s, windows) {
                final(input)@ == repaired_input(old(input)@, windows) && w@.len() == 1
                    && w@[0].code@ == "input_line_endings_normalized"@ && w@[0].message@
                    == repair_message(s)
            } else {
                final(input)@ == old(input)@ && w@.len() == 0
            },
{
    let sample = line_ending_sample(input.as_slice(), 8);
    assert(sample_of(old(input)@, 8, sample));
    if !sample.needs_normalization(windows) {
        let w: Vec<JudgeWarning> = Vec::new();
        assert(w@.len() == 0);
        return w;
    }
    let nl = native_newline(windows);
    let mut normalized: Vec<u8> = Vec::new();
    let mut i: usize = 0;
    let ghost src = input@;
    assert(src.skip(0) == src);
    while i < input.len()
        invariant
            src == input@,
            nl@ == newline_bytes(windows),
            i <= src.len(),
            normalized@ + with_newlines(src.skip(i as int), nl@) == with_newlines(src, nl@),
        decreases src.len() - i,
    {
        let ghost rest = src.skip(i as int);
        let ghost before = normalized@;
        if input[i] == 13u8 && i + 1 < input.len() && input[i + 1] == 10u8 {
            assert(rest.skip(2) == src.skip(i + 2));
            append_bytes(&mut normalized, &nl);
            assert(normalized@ + with_newlines(src.skip(i + 2), nl@) == before + (nl@
                + with_newlines(rest.skip(2), nl@)));
            i = i + 2;
        } else if input[i] == 13u8 || input[i] == 10u8 {
            assert(rest.skip(1) == src.skip(i + 1));
            append_bytes(&mut normalized, &nl);
            assert(normalized@ + with_newlines(src.skip(i + 1), nl@) == before + (nl@
                + with_newlines(rest.skip(1), nl@)));
            i = i + 1;
        } else {
            assert(rest.skip(1) == src.skip(i + 1));
            normalized.push(input[i]);
            assert(normalized@ + with_newlines(src.skip(i + 1), nl@) == before + (seq![rest[0]]
                + with_newlines(rest.skip(1), nl@)));
            i = i + 1;
        }
    }
    assert(src.skip(i as int).len() == 0);
    assert(normalized@ + Seq::<u8>::empty() == normalized@);
    if sample.missing_final_eol && normalized.len() > 0 {
        append_bytes(&mut normalized, &nl);
    }
    *input = normalized;
    proof {
        reveal_strlit("input_line_endings_normalized");
        reveal_strlit(
            "normalized validator input line endings before running; sampled head/tail lines found crlf=",
        );
        reveal_strlit(", lone_lf=");
        reveal_strlit(", lone_cr=");
        reveal_strlit(", missing_final_eol=");
    }
    let mut message = String::from_str(
        "normalized validator input line endings before running; sampled head/tail lines found crlf=",
    );
    message.append(usize_to_decimal(sample.crlf).as_str());
    message.append(", lone_lf=");
    message.append(usize_to_decimal(sample.lone_lf).as_str());
    message.append(", lone_cr=");
    message.append(usize_to_decimal(sample.lone_cr).as_str());
    message.append(", missing_final_eol=");
    message.append(bool_string(sample.missing_final_eol).as_str());
    let w = vec![
        JudgeWarning { code: String::from_str("input_line_endings_normalized"), message },
    ];
    assert(input@ == repaired_input(src, windows));
    assert(w@[0].message@ == repair_message(sample));
    w
}

/// The kind of line ending the platform writes.
pub open spec fn native_ending(windows: bool) -> LineEndingKind {
    if windows {
        LineEndingKind::Crlf
    } else {
        LineEndingKind::LoneLf
    }
}

/// Every ending is of kind `k`.
pub open spec fn all_endings(e: Seq<LineEndingKind>, k: LineEndingKind) -> bool {
    forall|i: int| 0 <= i < e.len() ==> e[i] == k
}

/// The input a repair leaves: repaired when its sample asked for it, else
/// the input as it was.
pub open spec fn input_after_repair(input: Seq<u8>, s: LineEndingSample, windows: bool) -> Seq<
    u8,
> {
    if sample_needs_normalization(s, windows) {
        repaired_input(input, windows)
    } else {
        input
    }
}

proof fn lemma_kind_count_absent(e: Seq<LineEndingKind>, k: LineEndingKind)
    requires
        forall|i: int| 0 <= i < e.len() ==> e[i] != k,
    ensures
        kind_count(e, k) == 0,
    decreases e.len(),
{
    if e.len() > 0 {
        lemma_kind_count_absent(e.drop_last(), k);
    }
}

/// Behind the platform's newline the endings go on as they did.
proof fn lemma_endings_after_newline(rest: Seq<u8>, windows: bool)
    ensures
        line_endings(newline_bytes(windows) + rest) == seq![native_ending(windows)]
            + line_endings(rest),
{
    let x = newline_bytes(windows) + rest;
    if windows {
        assert(x.skip(2) == rest);
    } else {
        assert(x.skip(1) == rest);
    }
}

/// Rewritten with the platform's newline, and followed by a text whose
/// endings are all native, a text has native endings only.
proof fn lemma_rewritten_endings(input: Seq<u8>, windows: bool, tail: Seq<u8>)
    requires
        all_endings(line_endings(tail), native_ending(windows)),
    ensures
        all_endings(
            line_endings(with_newlines(input, newline_bytes(windows)) + tail),
            native_ending(windows),
        ),
    decreases input.len(),
{
    let nl = newline_bytes(windows);
    let k = native_ending(windows);
    if input.len() == 0 {
        assert(with_newlines(input, nl) + tail == tail);
    } else {
        let step: int = if input[0] == 13u8 && input.len() >= 2 && input[1] == 10u8 {
            2
        } else {
            1
        };
        let rest = input.skip(step);
        lemma_rewritten_endings(rest, windows, tail);
        let inner = with_newlines(rest, nl) + tail;
        if input[0] == 13u8 || input[0] == 10u8 {
            assert(with_newlines(input, nl) + tail == nl + inner);
            lemma_endings_after_newline(inner, windows);
            assert forall|i: int| 0 <= i < (seq![k] + line_endings(inner)).len() implies (seq![k]
                + line_endings(inner))[i] == k by {
                if i > 0 {
                    assert((seq![k] + line_endings(inner))[i] == line_endings(inner)[i - 1]);
                }
            }
        } else {
            let x = seq![input[0]] + inner;
            assert(with_newlines(input, nl) + tail == x);
            assert(x.skip(1) == inner);
        }
    }
}

/// Rewritten with the platform's newline, a text whose last byte ends a
/// line ends with a newline byte.
proof fn lemma_rewritten_last(input: Seq<u8>, windows: bool)
    requires
        input.len() > 0,
        input.last() == 10u8 || input.last() == 13u8,
    ensures
        with_newlines(input, newline_bytes(windows)).len() > 0,
        with_newlines(input, newline_bytes(windows)).last() == 10u8,
    decreases input.len(),
{
    let nl = newline_bytes(windows);
    let step: int = if input[0] == 13u8 && input.len() >= 2 && input[1] == 10u8 {
        2
    } else {
        1
    };
    let rest = input.skip(step);
    if rest.len() > 0 {
        assert(rest.last() == input.last());
        lemma_rewritten_last(rest, windows);
    } else {
        assert(with_newlines(rest, nl).len() == 0);
    }
    if input[0] == 13u8 || input[0] == 10u8 {
        assert(with_newlines(input, nl) == nl + with_newlines(rest, nl));
    } else {
        assert(with_newlines(input, nl) == seq![input[0]] + with_newlines(rest, nl));
    }
}

/// Sampled endings are endings of the input.
proof fn lemma_sampled_all(e: Seq<LineEndingKind>, lines: nat, k: LineEndingKind)
    requires
        all_endings(e, k),
    ensures
        all_endings(sampled_endings(e, lines), k),
{
    if e.len() > 2 * lines {
        let a = e.take(lines as int);
        let b = e.skip(e.len() - lines);
        assert forall|i: int| 0 <= i < (a + b).len() implies (a + b)[i] == k by {
            if i < a.len() {
                assert((a + b)[i] == e[i]);
            } else {
                assert((a + b)[i] == e[i - a.len() + e.len() - lines]);
            }
        }
    }
}

/// Repairing the line endings of an input settles them: whatever the
/// sample of the first repair found, every sample of the input it leaves
/// asks for no repair, so a second repair leaves that input as it is and
/// warns of nothing.
pub proof fn lemma_line_ending_repair_settles(
    input: Seq<u8>,
    windows: bool,
    s: LineEndingSample,
    again: LineEndingSample,
)
    requires
        sample_of(input, 8, s),
        sample_of(input_after_repair(input, s, windows), 8, again),
    ensures
        !sample_needs_normalization(again, windows),
{
    if sample_needs_normalization(s, windows) {
        let nl = newline_bytes(windows);
        let k = native_ending(windows);
        let body = with_newlines(input, nl);
        let r = repaired_input(input, windows);
        let tail = if missing_final_eol(input) && body.len() > 0 {
            nl
        } else {
            Seq::<u8>::empty()
        };
        assert(line_endings(Seq::<u8>::empty()) == Seq::<LineEndingKind>::empty());
        lemma_endings_after_newline(Seq::<u8>::empty(), windows);
        assert(nl + Seq::<u8>::empty() == nl);
        assert(all_endings(line_endings(tail), k));
        lemma_rewritten_endings(input, windows, tail);
        assert(r == body + tail);
        let e = line_endings(r);
        lemma_sampled_all(e, 8, k);
        let se = sampled_endings(e, 8);
        lemma_kind_count_absent(se, LineEndingKind::LoneCr);
        if windows {
            lemma_kind_count_absent(se, LineEndingKind::LoneLf);
        } else {
            lemma_kind_count_absent(se, LineEndingKind::Crlf);
        }
        if missing_final_eol(input) && body.len() > 0 {
            assert(r.last() == nl.last());
        } else if input.len() > 0 {
            lemma_rewritten_last(input, windows);
        } else {
            assert(body.len() == 0);
        }
    }
}

} // verus!
