use cptool::schema::RunResult;
use cptool::stress_run::{
    all_empty_warning, check_generator_run, check_stress_against, check_target_run,
    checker_failure_from, classify_stress_case, next_checker_participant, failure_saved_message, finish_stress, progress_line,
    repeated_input_warning, stress_generator_kind, stress_summary, StressCaseFailure,
    StressCaseOutcome, StressGeneratorKind, StressStep, StressTally, StressVerdict,
};

fn run(label: &str, ok: bool, stdout: &str) -> RunResult {
    RunResult {
        label: label.to_string(),
        ok,
        kind: if ok { "ok" } else { "runtime_error" }.to_string(),
        exit_code: Some(if ok { 0 } else { 3 }),
        diagnostic: None,
        elapsed_ms: 5,
        stdout_bytes: stdout.as_bytes().to_vec(),
        stderr_bytes: Vec::new(),
        stdout: stdout.to_string(),
        stderr: String::new(),
        truncated_stdout: false,
        truncated_stderr: false,
    }
}

#[test]
fn stress_generator_kind_knows_file_and_rejects_other_builtins() {
    assert_eq!(stress_generator_kind(":file").unwrap(), StressGeneratorKind::File);
    assert_eq!(stress_generator_kind("gen").unwrap(), StressGeneratorKind::Program);
    assert_eq!(
        stress_generator_kind(":rand").unwrap_err(),
        "generator `:rand` is an unknown built-in generator"
    );
    assert!(check_stress_against(&vec!["a".to_string(), "b".to_string()]).is_ok());
    assert_eq!(
        check_stress_against(&vec!["a".to_string()]).unwrap_err(),
        "expect check requires exactly two programs or sources"
    );
}

#[test]
fn generator_and_target_runs_are_checked_per_case() {
    let ok = run("gen", true, "1\n");
    assert!(check_generator_run(&ok, 3, 10).is_ok());
    let failed = run("gen", false, "");
    assert!(check_generator_run(&failed, 3, 10)
        .unwrap_err()
        .starts_with("generator failed on expect case 3: gen: runtime_error exit=3"));
    let mut cut = run("gen", true, "1\n");
    cut.truncated_stdout = true;
    assert_eq!(
        check_generator_run(&cut, 3, 10).unwrap_err(),
        "generator output on expect case 3 exceeded --output-limit-bytes (10)"
    );
    let mut big = run("brute", true, "1\n");
    big.truncated_stdout = true;
    assert_eq!(
        check_target_run(&big, 2, 64).unwrap_err(),
        "program `brute` output on expect case 2 exceeded --output-limit-bytes (64)"
    );
    assert!(check_target_run(&ok, 2, 64).is_ok());
}

#[test]
fn checker_runs_become_failures_only_when_they_fail() {
    let checker = "chk".to_string();
    let who = "brute".to_string();
    assert!(checker_failure_from(&checker, &who, &run("chk", true, "")).is_none());
    let mut rejected = run("chk", false, "");
    rejected.exit_code = Some(1);
    let f = checker_failure_from(&checker, &who, &rejected).unwrap();
    assert_eq!(f.verdict, "WA");
    assert_eq!(f.reason_code, "checker_rejected");
    let crashed = run("chk", false, "");
    let g = checker_failure_from(&checker, &who, &crashed).unwrap();
    assert_eq!(g.verdict, "runtime_error");
    assert_eq!(g.exit_code, Some(3));
}

#[test]
fn stress_case_classification_orders_program_checker_then_comparison() {
    let results = vec![run("std", true, "1\n"), run("brute", false, "")];
    let o = classify_stress_case(4, &results, None, false, 2);
    let f = o.failure.unwrap();
    assert_eq!(f.case_index, 4);
    assert!(f.reason.starts_with("program_failed: brute"));
    assert!(f.satisfies_expect_fail);

    let differ = vec![run("std", true, "1\n"), run("brute", true, "2\n")];
    let o = classify_stress_case(1, &differ, None, false, 2);
    assert_eq!(
        o.failure.unwrap().reason,
        "wrong_answer: output mismatch between `std` and `brute`"
    );
    let o = classify_stress_case(1, &differ, None, true, 2);
    assert!(o.failure.is_none());

    let mut rejected = run("chk", false, "");
    rejected.exit_code = Some(1);
    let cf = checker_failure_from(&"chk".to_string(), &"brute".to_string(), &rejected);
    let o = classify_stress_case(1, &differ, cf, true, 2);
    let f = o.failure.unwrap();
    assert!(f.reason.starts_with("wrong_answer: checker `chk` rejected output from `brute`"));
    assert!(f.satisfies_expect_fail);

    let silent = vec![run("std", true, ""), run("brute", true, "")];
    let o = classify_stress_case(1, &silent, None, false, 3);
    assert!(o.failure.is_none());
    assert!(o.empty_stdout && o.all_empty_stdout);
    let o = classify_stress_case(1, &silent, None, false, 0);
    assert!(!o.empty_stdout && !o.all_empty_stdout);
}

fn failure(index: usize, counts: bool) -> StressCaseOutcome {
    StressCaseOutcome {
        failure: Some(StressCaseFailure {
            case_index: index,
            reason: format!("reason {index}"),
            satisfies_expect_fail: counts,
        }),
        empty_stdout: false,
        all_empty_stdout: false,
    }
}

#[test]
fn stress_tally_counts_cases_inputs_and_expected_failures() {
    let mut tally = StressTally::new();
    let pass = StressCaseOutcome {
        failure: None,
        empty_stdout: true,
        all_empty_stdout: false,
    };
    assert_eq!(tally.record_case(&pass, b"1 2", true), StressStep::Continue);
    assert_eq!(tally.record_case(&failure(2, true), b"1 2", true), StressStep::SaveExpectedFailure);
    assert_eq!(tally.record_case(&failure(3, true), b"5 6", true), StressStep::Continue);
    assert_eq!(tally.cases_seen, 3);
    assert_eq!(tally.empty_stdout_cases, 1);
    assert_eq!(tally.failed_cases, 2);
    assert_eq!(tally.input_hashes.len(), 2);
    assert_eq!(tally.first_failure, Some((2, "reason 2".to_string())));

    match finish_stress(&tally, 3, true, false, &Some("t".to_string())).unwrap() {
        StressVerdict::ExpectedFailure {
            case_index,
            reason,
            failed_cases,
            passed_cases,
        } => {
            assert_eq!((case_index, failed_cases, passed_cases), (2, 2, 1));
            assert_eq!(reason, "reason 2");
        }
        StressVerdict::Passed => panic!("a failure was observed"),
    }
    assert_eq!(tally.record_case(&failure(4, false), b"x", true), StressStep::StopWithFailure);
    let mut plain = StressTally::new();
    assert_eq!(plain.record_case(&failure(1, true), b"x", false), StressStep::StopWithFailure);
}

#[test]
fn finishing_an_expect_fail_check_without_failures_is_an_error() {
    let mut tally = StressTally::new();
    let pass = StressCaseOutcome {
        failure: None,
        empty_stdout: false,
        all_empty_stdout: false,
    };
    tally.record_case(&pass, b"a", true);
    tally.record_case(&pass, b"a", true);
    assert_eq!(
        finish_stress(&tally, 2, true, false, &Some("task:fail:brute".to_string())).unwrap_err(),
        "expect check `task:fail:brute` expected failure but all 2 cases passed"
    );
    assert_eq!(
        finish_stress(&tally, 2, true, false, &None).unwrap_err(),
        "expect check expected failure but all 2 cases passed"
    );
    assert!(matches!(
        finish_stress(&tally, 2, true, true, &None).unwrap(),
        StressVerdict::Passed
    ));
    let against = vec!["std".to_string(), "brute".to_string()];
    let s = stress_summary(Some("x".to_string()), Some("chk".to_string()), 2, 7, &against, &tally);
    assert_eq!(s.unique_input_hashes, 1);
    assert_eq!(s.answer_program.as_deref(), Some("std"));
    assert!(s.has_repeated_input_warning());
    let t = stress_summary(None, None, 2, 7, &against, &tally);
    assert!(t.answer_program.is_none());
}

#[test]
fn stress_progress_and_warning_lines() {
    assert_eq!(
        progress_line("task", &Some("t:pass:a".to_string()), 3, false),
        "task `t:pass:a` case 3 ok"
    );
    assert_eq!(
        progress_line("check", &None, 2, true),
        "case 2 expected failure observed"
    );
    assert_eq!(
        all_empty_warning(4, &vec!["std".to_string(), "b".to_string()], 9),
        "warning: all_empty_output case=4 against=std,b input_bytes=9"
    );
    assert_eq!(
        repeated_input_warning(5),
        "warning: repeated_input cases=5 unique_input_hashes=1 random_coverage=false hint=generator_args_produced_identical_inputs"
    );
}

#[test]
fn failure_saved_message_names_check_case_and_artifacts() {
    assert_eq!(
        failure_saved_message(&Some("random".to_string()), 3, "wrong_answer: output mismatch", "/tmp/f/expect-001"),
        "expect check `random` failed on case 3; wrong_answer: output mismatch; saved /tmp/f/expect-001.in, /tmp/f/expect-001.txt, and per-program .out/.err files"
    );
    assert_eq!(
        failure_saved_message(&None, 1, "runtime_error", "e"),
        "expect check failed on case 1; runtime_error; saved e.in, e.txt, and per-program .out/.err files"
    );
}

#[test]
fn empty_output_counts_follow_each_flag_alone() {
    let mut tally = StressTally::new();
    let all_only = StressCaseOutcome { failure: None, empty_stdout: false, all_empty_stdout: true };
    let both = StressCaseOutcome { failure: None, empty_stdout: true, all_empty_stdout: true };
    assert_eq!(tally.record_case(&all_only, b"1", false), StressStep::Continue);
    assert_eq!(tally.record_case(&both, b"2", false), StressStep::Continue);
    assert_eq!(tally.empty_stdout_cases, 1);
    assert_eq!(tally.all_empty_stdout_cases, 2);
}

#[test]
fn checker_judges_each_participant_after_the_reference_until_a_rejection() {
    let ok = vec![run("std", true, "1\n"), run("a", true, "1\n"), run("b", true, "2\n")];
    assert_eq!(next_checker_participant(true, &ok, 1, false), Some(1));
    assert_eq!(next_checker_participant(true, &ok, 2, false), Some(2));
    assert_eq!(next_checker_participant(true, &ok, 3, false), None);
    assert_eq!(next_checker_participant(true, &ok, 2, true), None);
    assert_eq!(next_checker_participant(false, &ok, 1, false), None);
    let failed = vec![run("std", true, "1\n"), run("a", false, "")];
    assert_eq!(next_checker_participant(true, &failed, 1, false), None);
    assert_eq!(next_checker_participant(true, &Vec::new(), 1, false), None);
}
