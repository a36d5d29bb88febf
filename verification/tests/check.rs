use cptool::markdown::{markdown_sample_output_blocks, normalize_output_block};
use cptool::report::{CheckReport, CheckSeverity};

#[test]
fn report_render_separates_errors_and_warnings() {
    let mut report = CheckReport::new("pkg".to_string());
    report.error(
        "bad".to_string(),
        "broken".to_string(),
        Some("problem.yaml".to_string()),
    );
    report.warning("soft".to_string(), "suspicious".to_string(), None);

    let rendered = report.render_text();

    assert!(rendered.contains("status: `FAIL`"));
    assert!(rendered.contains("## errors"));
    assert!(rendered.contains("[bad] broken"));
    assert!(rendered.contains("## warnings"));
    assert!(rendered.contains("[soft] suspicious"));
}

#[test]
fn markdown_parser_finds_sample_output_block() {
    let blocks = markdown_sample_output_blocks(
        "# Sample Input\n```text\n1 2\n```\n# Sample Output\n```text\n3\n```\n",
    );

    assert_eq!(blocks, vec!["3\n"]);
}

#[test]
fn sample_output_normalization_ignores_crlf_and_trailing_space() {
    assert_eq!(
        normalize_output_block("3  \r\n4\t\r\n\r\n"),
        normalize_output_block("3\n4\n")
    );
}

#[test]
fn report_render_lists_paths_and_empty_groups() {
    let mut report = CheckReport::new("pkg".to_string());
    report.warning(
        "validator_missing".to_string(),
        "`validator` is not declared".to_string(),
        Some("pkg/problem.yaml".to_string()),
    );
    assert_eq!(
        report.render_text(),
        "# cptool check report\n\n- work_dir: `pkg`\n- status: `PASS`\n- errors: 0\n- warnings: 1\n\n## errors\n- none\n\n## warnings\n- [validator_missing] `validator` is not declared (`pkg/problem.yaml`)\n"
    );
    assert!(!report.has_errors());
    assert_eq!(report.error_count(), 0);
    assert_eq!(report.warning_count(), 1);
    assert_eq!(CheckSeverity::Warning.label(), "warning");
}

#[test]
fn lock_error_is_transient_with_retry_advice() {
    let mut report = CheckReport::new("pkg".to_string());
    report.lock_error(
        "data_generation_in_progress".to_string(),
        "data generation is in progress".to_string(),
        Some("data/.cptool-gen.lock".to_string()),
    );
    let issue = &report.issues[0];
    assert_eq!(issue.severity, CheckSeverity::Error);
    assert_eq!(issue.kind.as_deref(), Some("lock"));
    assert_eq!(issue.transient, Some(true));
    assert_eq!(
        issue.retry_after.as_deref(),
        Some("wait_for_generation_then_retry")
    );
    assert!(report.has_errors());
}

#[test]
fn sample_blocks_ignore_unannounced_fences_and_track_markers() {
    let blocks = markdown_sample_output_blocks(
        "Intro\n```\nignored\n```\n## 样例输出\n~~~\na\n```\nb\n~~~\n",
    );
    assert_eq!(blocks, vec!["a\n```\nb\n"]);
    assert_eq!(normalize_output_block("\n\n x \r\r y\t\n"), " x\n\n y");
}

#[test]
fn generation_in_progress_skips_data_checks_with_a_lock_error() {
    let mut report = CheckReport::new("pkg".to_string());
    assert!(!cptool::check_package::check_generation_in_progress(&mut report, None));
    assert!(report.issues.is_empty());
    assert!(cptool::check_package::check_generation_in_progress(
        &mut report,
        Some("pkg/data/.cptool-generating".to_string())
    ));
    assert_eq!(report.issues.len(), 1);
    let issue = &report.issues[0];
    assert_eq!(issue.severity, CheckSeverity::Error);
    assert_eq!(issue.code, "data_generation_in_progress");
    assert_eq!(
        issue.message,
        "data generation is in progress; skipped data consistency checks to avoid reading partial output"
    );
    assert_eq!(issue.path.as_deref(), Some("pkg/data/.cptool-generating"));
    assert_eq!(issue.kind.as_deref(), Some("lock"));
    assert_eq!(issue.transient, Some(true));
    assert_eq!(issue.retry_after.as_deref(), Some("wait_for_generation_then_retry"));
}
