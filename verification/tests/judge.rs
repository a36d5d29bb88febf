use cptool::judge::{
    fix_validator_input_line_endings, judge_checker, judging_program, line_ending_sample,
    normalized_output_limit, report_from_result, JudgeCheckerOptions, JudgeExpectation, JudgeKind,
    JudgeObserved,
};
use cptool::schema::{RunResult, DEFAULT_OUTPUT_LIMIT_BYTES};

fn run(ok: bool) -> RunResult {
    RunResult {
        label: "chk".to_string(),
        ok,
        kind: if ok { "ok" } else { "runtime_error" }.to_string(),
        exit_code: Some(if ok { 0 } else { 1 }),
        diagnostic: None,
        elapsed_ms: 3,
        stdout_bytes: Vec::new(),
        stderr_bytes: Vec::new(),
        stdout: String::new(),
        stderr: String::new(),
        truncated_stdout: false,
        truncated_stderr: false,
    }
}

#[test]
fn expectation_matches_only_the_same_observation() {
    assert!(JudgeExpectation::Pass.matches(JudgeObserved::Pass));
    assert!(!JudgeExpectation::Pass.matches(JudgeObserved::Fail));
    assert!(JudgeExpectation::Fail.matches(JudgeObserved::Fail));
    assert!(!JudgeExpectation::Fail.matches(JudgeObserved::Pass));
    assert_eq!(JudgeExpectation::Fail.as_str(), "fail");
    assert_eq!(JudgeObserved::Pass.as_str(), "pass");
    assert_eq!(JudgeKind::Validator.as_str(), "validator");
}

#[test]
fn judge_report_summary_line() {
    let report = report_from_result(
        JudgeKind::Checker,
        "chk".to_string(),
        JudgeExpectation::Fail,
        run(false),
        None,
        None,
        Vec::new(),
    );
    assert!(report.ok);
    assert_eq!(
        report.summary_line(),
        "judge checker: ok program=chk expect=fail observed=fail chk: runtime_error exit=1 elapsed=3ms"
    );
    let options = JudgeCheckerOptions {
        work_dir: ".".to_string(),
        checker: None,
        input_path: "in".to_string(),
        output_path: "out".to_string(),
        answer_path: "ans".to_string(),
        expect: JudgeExpectation::Fail,
        output_limit_bytes: 0,
    };
    let report = judge_checker(&options, Some("chk".to_string()), run(true), None, None).unwrap();
    assert_eq!(report.program, "chk");
    assert!(!report.ok);
    assert!(report.summary_line().starts_with("judge checker: mismatch"));
}

#[test]
fn judging_program_prefers_given_then_configured() {
    assert_eq!(
        judging_program(JudgeKind::Checker, Some("a".to_string()), Some("b".to_string())),
        Ok("a".to_string())
    );
    assert_eq!(
        judging_program(JudgeKind::Checker, None, Some("b".to_string())),
        Ok("b".to_string())
    );
    assert_eq!(
        judging_program(JudgeKind::Validator, None, None).unwrap_err(),
        "validator is not configured; pass --validator or set problem.yaml validator"
    );
    assert_eq!(normalized_output_limit(0), DEFAULT_OUTPUT_LIMIT_BYTES);
    assert_eq!(normalized_output_limit(5), 5);
}

#[test]
fn line_ending_sample_counts_head_and_tail() {
    let sample = line_ending_sample(b"a\r\nb\rc\nd", 8);
    assert_eq!((sample.crlf, sample.lone_cr, sample.lone_lf), (1, 1, 1));
    assert!(sample.missing_final_eol);
    let many = b"\r\n".repeat(20);
    let sample = line_ending_sample(&many, 8);
    assert_eq!(sample.crlf, 16);
}

#[test]
fn validator_input_line_endings_are_repaired_for_the_platform() {
    let mut input = b"1 2\r\n3\r4".to_vec();
    let warnings = fix_validator_input_line_endings(&mut input, false);
    assert_eq!(input, b"1 2\n3\n4\n");
    assert_eq!(warnings.len(), 1);
    assert_eq!(warnings[0].code, "input_line_endings_normalized");
    assert_eq!(
        warnings[0].message,
        "normalized validator input line endings before running; sampled head/tail lines found crlf=1, lone_lf=0, lone_cr=1, missing_final_eol=true"
    );

    let mut clean = b"1 2\n".to_vec();
    assert!(fix_validator_input_line_endings(&mut clean, false).is_empty());
    assert_eq!(clean, b"1 2\n");

    let mut windows = b"1\n".to_vec();
    fix_validator_input_line_endings(&mut windows, true);
    assert_eq!(windows, b"1\r\n");
}

#[test]
fn validator_input_line_ending_repair_settles() {
    for windows in [false, true] {
        for raw in [&b"1 2\r\n3\r4"[..], b"a\n\rb\r\n", b"\r", b"x", b"", b"q\r\n"] {
            let mut input = raw.to_vec();
            fix_validator_input_line_endings(&mut input, windows);
            let once = input.clone();
            assert!(fix_validator_input_line_endings(&mut input, windows).is_empty());
            assert_eq!(input, once);
        }
    }
}

#[test]
fn judge_checker_fails_when_no_checker_is_configured() {
    let mut options = JudgeCheckerOptions {
        work_dir: ".".to_string(),
        checker: None,
        input_path: "in".to_string(),
        output_path: "out".to_string(),
        answer_path: "ans".to_string(),
        expect: JudgeExpectation::Pass,
        output_limit_bytes: 0,
    };
    let err = judge_checker(&options, None, run(true), None, None).unwrap_err();
    assert!(err.contains("checker is not configured"));
    options.checker = Some("given".to_string());
    let report = judge_checker(&options, Some("configured".to_string()), run(true), None, None).unwrap();
    assert_eq!(report.program, "given");
    assert!(report.ok);
}
