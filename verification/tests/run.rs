use cptool::schema::RunResult;

fn result(label: &str, ok: bool, kind: &str, stdout: &str, stderr: &str) -> RunResult {
    RunResult {
        label: label.to_string(),
        ok,
        kind: kind.to_string(),
        exit_code: Some(0),
        diagnostic: None,
        elapsed_ms: 1,
        stdout_bytes: stdout.as_bytes().to_vec(),
        stderr_bytes: stderr.as_bytes().to_vec(),
        stdout: stdout.to_string(),
        stderr: stderr.to_string(),
        truncated_stdout: false,
        truncated_stderr: false,
    }
}

#[test]
fn run_summary_reports_sizes_lines_and_hash() {
    let result = RunResult {
        label: "std".to_string(),
        ok: true,
        kind: "ok".to_string(),
        exit_code: Some(0),
        diagnostic: None,
        elapsed_ms: 12,
        stdout_bytes: b"a\nb".to_vec(),
        stderr_bytes: b"warn".to_vec(),
        stdout: "a\nb".to_string(),
        stderr: "warn".to_string(),
        truncated_stdout: false,
        truncated_stderr: false,
    };

    assert_eq!(
        result.summary_line(),
        "std: ok exit=0 elapsed=12ms stdout_bytes=3 stdout_lines=2 stdout_sha256=7e18f737311b2dc3b2f269dd78396b0351f14fb66efa879f768cb23181883c78 stderr_bytes=4 stderr_nonempty=true"
    );
}

#[test]
fn run_summary_counts_empty_output_as_zero_lines() {
    let result = RunResult {
        label: "std".to_string(),
        ok: true,
        kind: "ok".to_string(),
        exit_code: Some(0),
        diagnostic: None,
        elapsed_ms: 1,
        stdout_bytes: Vec::new(),
        stderr_bytes: Vec::new(),
        stdout: String::new(),
        stderr: String::new(),
        truncated_stdout: false,
        truncated_stderr: false,
    };

    assert!(result.summary_line().contains("stdout_lines=0"));
    assert!(result.summary_line().contains("stderr_nonempty=false"));
}

#[test]
fn failure_report_includes_optional_diagnostic_only_on_failure_path() {
    let result = RunResult {
        label: "std".to_string(),
        ok: false,
        kind: "runtime_error".to_string(),
        exit_code: Some(-1073741819),
        diagnostic: Some("hint: access violation".to_string()),
        elapsed_ms: 1,
        stdout_bytes: Vec::new(),
        stderr_bytes: Vec::new(),
        stdout: String::new(),
        stderr: String::new(),
        truncated_stdout: false,
        truncated_stderr: false,
    };

    assert_eq!(
        result.status_line(),
        "std: runtime_error exit=-1073741819 elapsed=1ms"
    );
    assert_eq!(
        result.failure_report("solution failed"),
        "solution failed: std: runtime_error exit=-1073741819 elapsed=1ms\ndiagnostic:\nhint: access violation"
    );
}

#[test]
fn status_line_names_truncated_streams_and_missing_exit_code() {
    let mut r = result("slow", false, "timeout", "", "");
    r.exit_code = None;
    r.elapsed_ms = 1001;
    r.truncated_stdout = true;
    r.truncated_stderr = true;
    assert_eq!(
        r.status_line(),
        "slow: timeout exit=none elapsed=1001ms stdout=truncated stderr=truncated"
    );
}

#[test]
fn failure_report_prefers_stderr_then_stdout() {
    let r = result("std", false, "runtime_error", "out", "err");
    assert_eq!(
        r.failure_report("ctx"),
        "ctx: std: runtime_error exit=0 elapsed=1ms\nstderr:\nerr"
    );
    let r = result("std", false, "runtime_error", "out", "");
    assert_eq!(
        r.failure_report("ctx"),
        "ctx: std: runtime_error exit=0 elapsed=1ms\nstdout:\nout"
    );
    let r = result("std", false, "runtime_error", "", "");
    assert_eq!(r.failure_report("ctx"), "ctx: std: runtime_error exit=0 elapsed=1ms");
}

#[test]
fn summary_line_hashes_stdout_with_sha256() {
    let r = result("a", true, "ok", "", "");
    assert!(r.summary_line().contains(
        "stdout_sha256=e3b0c44298fc1c149afbf4c8996fb92427ae41e4649b934ca495991b7852b855"
    ));
}
