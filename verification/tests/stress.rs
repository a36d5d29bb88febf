use cptool::schema::{RunResult, StressPlan, StressPlanExpectation};
use cptool::stress::{
    classify_program_failure, classify_stress_failure, normalize_output, render_stress_failure,
    StressCheckerArtifact, StressOutputArtifact, StressSummary,
};
use cptool::stress_args::{direct_stress_args_by_case, plan_args_by_case};
use cptool::stress_plan::{select_plans, stress_plan_filter, StressPlanFilter};

fn test_run_result(label: &str, ok: bool, kind: &str, stdout: &str) -> RunResult {
    RunResult {
        label: label.to_string(),
        ok,
        kind: kind.to_string(),
        exit_code: None,
        diagnostic: None,
        elapsed_ms: 1,
        stdout_bytes: stdout.as_bytes().to_vec(),
        stderr_bytes: Vec::new(),
        stdout: stdout.to_string(),
        stderr: String::new(),
        truncated_stdout: false,
        truncated_stderr: false,
    }
}

fn plan(name: &str) -> StressPlan {
    StressPlan {
        name: name.to_string(),
        generator: "gen".to_string(),
        args: Vec::new(),
        against: vec!["std".to_string(), "brute".to_string()],
        cases: 1,
        seed_base: None,
        expect: StressPlanExpectation::Pass,
    }
}

#[test]
fn direct_stress_args_repeat_literal_args() {
    let args = direct_stress_args_by_case(
        &["--seed=literal".to_string(), "--mode=fixed".to_string()],
        3,
    );

    assert_eq!(args.len(), 3);
    assert_eq!(args[0][0], "--seed=literal");
    assert_eq!(args[0][1], "--mode=fixed");
    assert_eq!(args[1][0], "--seed=literal");
    assert_eq!(args[1][1], "--mode=fixed");
}

#[test]
fn fixed_direct_stress_args_remain_literal_for_each_case() {
    let args = vec!["10".to_string(), "case".to_string()];

    assert_eq!(
        direct_stress_args_by_case(&args, 2),
        vec![args.clone(), args]
    );
}

#[test]
fn plan_args_repeat_literal_args() {
    let plan = StressPlan {
        name: "small".to_string(),
        generator: "gen".to_string(),
        args: vec!["--seed=literal".to_string(), "--mode=fixed".to_string()],
        against: vec!["std".to_string(), "brute".to_string()],
        cases: 3,
        seed_base: None,
        expect: StressPlanExpectation::Pass,
    };

    let args = plan_args_by_case(&plan);

    assert_eq!(args.len(), 3);
    assert_eq!(args[0][0], "--seed=literal");
    assert_eq!(args[0][1], "--mode=fixed");
    assert_eq!(args[1][0], "--seed=literal");
    assert_eq!(args[1][1], "--mode=fixed");
}

#[test]
fn selects_all_or_named_plan() {
    let plans = vec![plan("small"), plan("large")];

    assert_eq!(
        select_plans(&plans, None, StressPlanFilter::All)
            .unwrap()
            .len(),
        2
    );
    assert_eq!(
        select_plans(&plans, Some("large"), StressPlanFilter::All).unwrap()[0].name,
        "large"
    );
    assert!(select_plans(&plans, Some("missing"), StressPlanFilter::All).is_err());
}

#[test]
fn filters_positive_and_negative_plans() {
    let mut negative = plan("negative");
    negative.expect = StressPlanExpectation::Fail;
    let plans = vec![plan("positive"), negative];

    assert_eq!(
        select_plans(&plans, None, StressPlanFilter::PositiveOnly)
            .unwrap()
            .iter()
            .map(|plan| plan.name.as_str())
            .collect::<Vec<_>>(),
        vec!["positive"]
    );
    assert_eq!(
        select_plans(&plans, None, StressPlanFilter::NegativeOnly)
            .unwrap()
            .iter()
            .map(|plan| plan.name.as_str())
            .collect::<Vec<_>>(),
        vec!["negative"]
    );
}

#[test]
fn select_plans_reports_each_error() {
    let empty: Vec<StressPlan> = Vec::new();
    assert_eq!(
        select_plans(&empty, None, StressPlanFilter::All).unwrap_err().message(),
        "problem.yaml has no stress.plans"
    );
    let plans = vec![plan("small")];
    assert_eq!(
        select_plans(&plans, Some("missing"), StressPlanFilter::All)
            .unwrap_err()
            .message(),
        "stress plan `missing` not found"
    );
    assert_eq!(
        select_plans(&plans, Some("small"), StressPlanFilter::NegativeOnly)
            .unwrap_err()
            .message(),
        "stress plan `small` does not match selected expectation filter"
    );
    assert_eq!(
        select_plans(&plans, None, StressPlanFilter::NegativeOnly)
            .unwrap_err()
            .message(),
        "no stress.plans matched selected expectation filter"
    );
}

#[test]
fn stress_plan_filter_prefers_positive_when_both_are_set() {
    assert_eq!(stress_plan_filter(false, false), StressPlanFilter::All);
    assert_eq!(stress_plan_filter(true, false), StressPlanFilter::PositiveOnly);
    assert_eq!(stress_plan_filter(false, true), StressPlanFilter::NegativeOnly);
    assert_eq!(stress_plan_filter(true, true), StressPlanFilter::PositiveOnly);
}

#[test]
fn normalize_output_trims_trailing_space_and_final_blankness() {
    assert_eq!(normalize_output("1  \r\n2\n\n"), "1\n2\n");
    assert_eq!(normalize_output("  \n"), "");
}

#[test]
fn stress_failure_classification_names_wa_and_program_failure() {
    let ok_a = test_run_result("std", true, "ok", "1\n");
    let ok_b = test_run_result("brute", true, "ok", "2\n");

    assert_eq!(
        classify_stress_failure(&[ok_a.clone(), ok_b]).unwrap(),
        "wrong_answer: output mismatch between `std` and `brute`"
    );
}

#[test]
fn stress_failure_classification_reports_failed_program_first() {
    let ok_a = test_run_result("std", true, "ok", "1\n");
    let timeout = test_run_result("slow", false, "timeout", "");
    assert_eq!(
        classify_stress_failure(&[ok_a.clone(), timeout.clone()]).unwrap(),
        "program_failed: slow: timeout exit=none elapsed=1ms"
    );
    assert_eq!(
        classify_program_failure(&[ok_a.clone(), timeout]).unwrap(),
        "program_failed: slow: timeout exit=none elapsed=1ms"
    );
    let same = test_run_result("brute", true, "ok", "1  \n\n");
    assert_eq!(classify_stress_failure(&[ok_a, same]), None);
    assert_eq!(classify_stress_failure(&[]), None);
}

#[test]
fn failure_report_mentions_check_name() {
    let report = render_stress_failure(
        Some("random"),
        2,
        "wrong_answer: output mismatch",
        &[],
        None,
    );

    assert!(report.starts_with("expect check `random` failed on case 2"));
    assert!(report.contains("reason: wrong_answer: output mismatch"));
}

#[test]
fn failure_report_lists_outputs_and_checker() {
    let artifact = StressOutputArtifact {
        label: "std".to_string(),
        result_line: "std: ok exit=0 elapsed=1ms".to_string(),
        stdout_path: "f/expect-001-1.out".to_string(),
        stderr_path: "f/expect-001-1.err".to_string(),
    };
    let checker = StressCheckerArtifact {
        checker: "chk".to_string(),
        participant: "brute".to_string(),
        result_line: "chk: rejected".to_string(),
        stdout_path: "f/c.out".to_string(),
        stderr_path: "f/c.err".to_string(),
        report_path: Some("f/c.report".to_string()),
    };
    let report = render_stress_failure(None, 1, "r", &[artifact], Some(&checker));
    assert_eq!(
        report,
        "batch check failed on case 1\n\nreason: r\n\n[std] std: ok exit=0 elapsed=1ms\nstdout: f/expect-001-1.out\nstderr: f/expect-001-1.err\n\n[checker:chk on brute] chk: rejected\nstdout: f/c.out\nstderr: f/c.err\nreport: f/c.report\n"
    );
}

#[test]
fn stress_summary_line_includes_plan_cases_against_and_elapsed() {
    let summary = StressSummary {
        check_name: Some("small".to_string()),
        checker: None,
        answer_program: None,
        cases: 300,
        elapsed_ms: 1240,
        against: vec!["std".to_string(), "brute".to_string()],
        empty_stdout_cases: 0,
        all_empty_stdout_cases: 0,
        unique_input_hashes: 300,
    };

    assert_eq!(
        summary.summary_line(),
        "small: ok cases=300 unique_input_hashes=300 against=std,brute elapsed=1240ms empty_stdout_cases=0 all_empty_stdout_cases=0 warnings=0"
    );
}

#[test]
fn stress_summary_line_reports_all_empty_output_warning_count() {
    let summary = StressSummary {
        check_name: Some("small".to_string()),
        checker: None,
        answer_program: None,
        cases: 3,
        elapsed_ms: 7,
        against: vec!["std".to_string(), "brute".to_string()],
        empty_stdout_cases: 3,
        all_empty_stdout_cases: 3,
        unique_input_hashes: 1,
    };

    assert_eq!(
        summary.summary_line(),
        "small: ok cases=3 unique_input_hashes=1 against=std,brute elapsed=7ms empty_stdout_cases=3 all_empty_stdout_cases=3 warnings=all_empty_output:3,repeated_input:1"
    );
}

#[test]
fn stress_summary_line_reports_repeated_input_warning() {
    let summary = StressSummary {
        check_name: Some("small".to_string()),
        checker: None,
        answer_program: None,
        cases: 2,
        elapsed_ms: 7,
        against: vec!["std".to_string(), "brute".to_string()],
        empty_stdout_cases: 0,
        all_empty_stdout_cases: 0,
        unique_input_hashes: 1,
    };

    assert_eq!(
        summary.summary_line(),
        "small: ok cases=2 unique_input_hashes=1 against=std,brute elapsed=7ms empty_stdout_cases=0 all_empty_stdout_cases=0 warnings=repeated_input:1"
    );
}

#[test]
fn stress_summary_line_does_not_report_repeated_input_for_single_case() {
    let summary = StressSummary {
        check_name: Some("small".to_string()),
        checker: Some("chk".to_string()),
        answer_program: Some("std".to_string()),
        cases: 1,
        elapsed_ms: 7,
        against: vec!["std".to_string(), "brute".to_string()],
        empty_stdout_cases: 0,
        all_empty_stdout_cases: 0,
        unique_input_hashes: 1,
    };

    assert_eq!(
        summary.summary_line(),
        "small: ok cases=1 unique_input_hashes=1 against=std,brute elapsed=7ms empty_stdout_cases=0 all_empty_stdout_cases=0 warnings=0 checker=chk answer_program=std"
    );
}

#[test]
fn normalize_output_twice_changes_nothing() {
    for text in ["  a \t\r\n\r\n b  \r\n\n\n", "x", "\u{a0}y\u{3000}\nz\r", "", " \n\t "] {
        let once = normalize_output(text);
        assert_eq!(normalize_output(&once), once);
        assert_eq!(once.is_empty(), text.trim().is_empty());
        if !once.is_empty() {
            assert!(once.ends_with('\n') && !once.ends_with("\n\n"));
        }
        assert!(once.lines().all(|l| l == l.trim_end()));
    }
    assert_eq!(normalize_output("  a \t\r\n\r\n b  \r\n\n\n"), "a\n\n b\n");
}
