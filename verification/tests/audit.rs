use cptool::audit::{
    audit_negative_plans, audit_placeholder, audit_report_text, failure_references,
    negative_plan_counted_as_positive, placeholder_pattern, service_noise_token,
};
use cptool::report::{CheckReport, CheckSeverity};
use cptool::schema::{StressPlan, StressPlanExpectation};

fn plan(name: &str, expect: StressPlanExpectation) -> StressPlan {
    StressPlan {
        name: name.to_string(),
        generator: "gen".to_string(),
        args: Vec::new(),
        against: vec!["std".to_string(), "brute".to_string()],
        cases: 10,
        seed_base: None,
        expect,
    }
}

#[test]
fn placeholder_patterns_in_priority_order() {
    assert_eq!(placeholder_pattern("fix this todo later"), Some(r"\bTODO\b"));
    assert_eq!(placeholder_pattern("todolist is a word"), None);
    assert_eq!(placeholder_pattern("# Statement\nbody"), Some(r"#\s*Statement\b"));
    assert_eq!(placeholder_pattern("# 题解\n"), Some(r"#\s*题解\s*$"));
    assert_eq!(placeholder_pattern("内容待补充"), Some("待补充"));
    assert_eq!(placeholder_pattern("# 题面描述\n正文"), None);
}

#[test]
fn failure_references_drop_trailing_punctuation() {
    let refs = failure_references("see tests/failures/expect-001.txt, and (tests/failures/a.in).");
    assert_eq!(refs, vec!["tests/failures/expect-001.txt", "tests/failures/a.in"]);
}

#[test]
fn service_noise_is_found_ignoring_case() {
    assert_eq!(service_noise_token("hit a Rate Limit today"), Some("rate limit"));
    assert_eq!(service_noise_token("all good"), None);
}

#[test]
fn report_text_audit_records_noise_then_missing_references() {
    let text = "服务侧噪音; see tests/failures/expect-001.txt and tests/failures/expect-002.txt";
    let mut report = CheckReport::new("/pkg".to_string());
    audit_report_text(&mut report, &"/pkg/quality_report.md".to_string(), text, &[true, false]);
    assert_eq!(report.issues.len(), 2);
    assert_eq!(report.issues[0].severity, CheckSeverity::Warning);
    assert_eq!(report.issues[0].code, "service_side_noise");
    assert_eq!(
        report.issues[0].message,
        "service-side noise token should not be a package issue: 服务侧噪音"
    );
    assert_eq!(report.issues[1].code, "missing_failure_reference");
    assert_eq!(
        report.issues[1].message,
        "referenced failure artifact does not exist: tests/failures/expect-002.txt"
    );
    assert_eq!(report.issues[1].path.as_deref(), Some("/pkg/quality_report.md"));
}

#[test]
fn negative_plan_named_in_positive_coverage_is_found() {
    let plans = vec![
        plan("ok", StressPlanExpectation::Pass),
        plan("wrong", StressPlanExpectation::Fail),
    ];
    assert_eq!(negative_plan_counted_as_positive(&plans, "正向覆盖: ok, wrong\n"), Some(1));
    assert_eq!(negative_plan_counted_as_positive(&plans, "正向覆盖: ok\n反向: wrong\n"), None);
}

#[test]
fn placeholder_and_negative_plan_warnings() {
    let mut report = CheckReport::new("/pkg".to_string());
    audit_placeholder(&mut report, &"/pkg/statement.md".to_string(), "题面占位");
    audit_placeholder(&mut report, &"/pkg/editorial.md".to_string(), "a real editorial");
    let plans = vec![plan("wrong", StressPlanExpectation::Fail)];
    audit_negative_plans(&mut report, &"/pkg/quality_report.md".to_string(), &plans, "正向: wrong\n");
    assert_eq!(report.issues.len(), 2);
    assert_eq!(report.issues[0].code, "placeholder_text");
    assert_eq!(report.issues[0].message, "placeholder pattern matched: 题面占位");
    assert_eq!(report.issues[1].code, "negative_plan_counted_as_positive");
    assert_eq!(
        report.issues[1].message,
        "expect: fail plan appears in positive coverage text: wrong"
    );
}

#[test]
fn failure_references_include_cptool_failures() {
    let refs = failure_references("missing .cptool/failures/nope.txt and tests/failures/a.in.");
    assert_eq!(refs, vec![".cptool/failures/nope.txt", "tests/failures/a.in"]);
}

#[test]
fn report_audit_warns_on_missing_cptool_failure_reference() {
    let text = "正向覆盖 wrong-proof\nmissing .cptool/failures/nope.txt\nrate limit\n";
    let refs = failure_references(text);
    assert_eq!(refs, vec![".cptool/failures/nope.txt"]);
    let mut report = CheckReport::new("/w".to_string());
    audit_report_text(&mut report, &"/w/quality_report.md".to_string(), text, &[false]);
    assert_eq!(report.issues.len(), 2);
    assert_eq!(report.issues[0].code, "service_side_noise");
    assert!(report.issues[0].message.ends_with("rate limit"));
    assert_eq!(report.issues[1].code, "missing_failure_reference");
    assert_eq!(
        report.issues[1].message,
        "referenced failure artifact does not exist: .cptool/failures/nope.txt"
    );
    assert_eq!(report.issues[1].path.as_deref(), Some("/w/quality_report.md"));
}
