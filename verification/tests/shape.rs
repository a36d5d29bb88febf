use cptool::data::{check_solution_run, check_validator_run, selected_case};
use cptool::evidence::{
    EvidenceCheckReport, EvidenceReport, EvidenceSection, ObservedFailure,
};
use cptool::file_generator::{
    check_file_args, check_fixture_path, check_generator_output, input_source, InputSource,
};
use cptool::report::CheckReport;
use cptool::schema::{
    CaseSelector, CppProgram, NamedBundle, NamedProgram, OutputConfig, Problem, ProgramInfo,
    RunResult, Stress, Test, TestBundle, TestCase, TestTask, TestTaskType,
};
use cptool::stress::StressSummary;
use cptool::task_expect::{check_expect_task_type, check_fail_program, task_pass_runs};
use cptool::yaml_shape::{check_unknown_yaml_fields, YamlDoc, YamlKey, YamlNode};

fn key(k: &str) -> YamlKey {
    YamlKey::Text(k.to_string())
}

#[test]
fn unknown_yaml_fields_are_reported_with_their_location() {
    // root: {name, colour, programs: {std: {info: {path, flags}, extra}},
    //        test: {bundles: {sample: {cases: [{args, seed}]}}, tasks: [{name, weight}]},
    //        stress: {plans: [{name, repeat}]}, 7: x}
    let nodes = vec![
        YamlNode::Mapping(vec![
            (key("name"), 1),
            (key("colour"), 1),
            (key("programs"), 2),
            (key("test"), 5),
            (key("stress"), 12),
            (YamlKey::Other, 1),
        ]),
        YamlNode::Scalar,
        YamlNode::Mapping(vec![(key("std"), 3)]),
        YamlNode::Mapping(vec![(key("info"), 4), (key("extra"), 1)]),
        YamlNode::Mapping(vec![(key("path"), 1), (key("flags"), 1)]),
        YamlNode::Mapping(vec![(key("bundles"), 6), (key("tasks"), 9)]),
        YamlNode::Mapping(vec![(key("sample"), 7)]),
        YamlNode::Mapping(vec![(key("cases"), 8)]),
        YamlNode::Sequence(vec![10]),
        YamlNode::Sequence(vec![1, 11]),
        YamlNode::Mapping(vec![(key("args"), 1), (key("seed"), 1)]),
        YamlNode::Mapping(vec![(key("name"), 1), (key("weight"), 1)]),
        YamlNode::Mapping(vec![(key("plans"), 13)]),
        YamlNode::Sequence(vec![14]),
        YamlNode::Mapping(vec![(key("name"), 1), (key("repeat"), 1)]),
    ];
    let doc = YamlDoc { nodes };
    let mut report = CheckReport::new("/pkg".to_string());
    check_unknown_yaml_fields(&mut report, &"/pkg/problem.yaml".to_string(), &doc);

    let found: Vec<(String, String)> = report
        .issues
        .iter()
        .map(|i| (i.message.clone(), i.location.clone().unwrap()))
        .collect();
    assert_eq!(
        found,
        vec![
            ("unknown problem.yaml field `colour`".to_string(), "colour".to_string()),
            ("non-string YAML key is ignored by cptool".to_string(), "<root>".to_string()),
            ("unknown problem.yaml field `extra`".to_string(), "programs.std.extra".to_string()),
            ("unknown problem.yaml field `flags`".to_string(), "programs.std.info.flags".to_string()),
            ("unknown problem.yaml field `seed`".to_string(), "test.bundles.sample.cases[0].seed".to_string()),
            ("unknown problem.yaml field `weight`".to_string(), "test.tasks[1].weight".to_string()),
            ("unknown problem.yaml field `repeat`".to_string(), "stress.plans[0].repeat".to_string()),
        ]
    );
    assert!(report.issues.iter().all(|i| i.code == "unknown_field"));
    assert_eq!(report.issues[0].path.as_deref(), Some("/pkg/problem.yaml"));

    let mut quiet = CheckReport::new("/pkg".to_string());
    check_unknown_yaml_fields(
        &mut quiet,
        &"p".to_string(),
        &YamlDoc {
            nodes: vec![YamlNode::Sequence(Vec::new())],
        },
    );
    assert!(quiet.issues.is_empty());
}

#[test]
fn file_generator_reads_only_in_fixtures() {
    assert_eq!(check_fixture_path("/pkg", "fixtures/input/a.in", "sample[0]"), None);
    assert_eq!(check_fixture_path("/pkg", "./fixtures/input/sub/../b.in", "c"), None);
    assert_eq!(
        check_fixture_path("/pkg", "fixtures/input/../secret.in", "sample[0]").unwrap(),
        "generator `:file` for sample[0] must read handwritten input from fixtures/input; got `fixtures/input/../secret.in`"
    );
    assert_eq!(
        check_fixture_path("/pkg", "fixtures/input/a.txt", "c").unwrap(),
        "generator `:file` for c must read a .in fixture under fixtures/input; got `fixtures/input/a.txt`"
    );
    assert!(check_fixture_path("/pkg", "/pkg/fixtures/input/x.in", "c").is_none());
    assert!(check_fixture_path("/pkg", "/etc/x.in", "c").is_some());
    assert_eq!(check_file_args(&vec!["a".to_string()], "c"), None);
    assert_eq!(
        check_file_args(&Vec::new(), "sample[1]").unwrap(),
        "generator `:file` for sample[1] expects exactly one input path argument, got 0"
    );
}

fn gen_problem() -> Problem {
    Problem {
        name: "p".to_string(),
        output: OutputConfig { allow_empty: false },
        stress: Stress { plans: Vec::new() },
        programs: vec![NamedProgram {
            name: "gen".to_string(),
            info: ProgramInfo::Cpp(CppProgram {
                path: "gen.cpp".to_string(),
                compile_args: Vec::new(),
            }),
        }],
        test: Test {
            bundles: vec![NamedBundle {
                name: "sample".to_string(),
                bundle: TestBundle {
                    cases: vec![TestCase {
                        generator_name: "gen".to_string(),
                        args: vec!["1".to_string()],
                    }],
                },
            }],
            tasks: Vec::new(),
        },
        solution_name: "gen".to_string(),
        validator_name: None,
        validator_omitted_reason: None,
        checker_name: None,
        generator_name: None,
        cpp_compile_args: Vec::new(),
    }
}

fn outcome(ok: bool, stdout: &str) -> RunResult {
    RunResult {
        label: "val".to_string(),
        ok,
        kind: if ok { "ok" } else { "runtime_error" }.to_string(),
        exit_code: Some(if ok { 0 } else { 1 }),
        diagnostic: None,
        elapsed_ms: 2,
        stdout_bytes: stdout.as_bytes().to_vec(),
        stderr_bytes: Vec::new(),
        stdout: stdout.to_string(),
        stderr: String::new(),
        truncated_stdout: false,
        truncated_stderr: false,
    }
}

#[test]
fn generation_steps_name_the_case_and_its_inputs() {
    let p = gen_problem();
    assert_eq!(input_source(&p, &":file".to_string()).unwrap(), InputSource::File);
    assert_eq!(input_source(&p, &"gen".to_string()).unwrap(), InputSource::Program);
    assert_eq!(
        input_source(&p, &"nope".to_string()).unwrap_err(),
        "generator `nope` not found"
    );
    assert_eq!(
        input_source(&p, &":x".to_string()).unwrap_err(),
        "generator `:x` is an unknown built-in generator"
    );
    assert!(check_generator_output(&outcome(true, "1"), "sample[0]", 8).is_none());
    assert!(check_generator_output(&outcome(false, ""), "sample[0]", 8)
        .unwrap()
        .starts_with("generator failed for sample[0]: val: runtime_error exit=1"));

    let sel = CaseSelector {
        bundle: "sample".to_string(),
        index: 0,
    };
    assert_eq!(selected_case(&p, &sel).unwrap(), (0, 0));
    let far = CaseSelector {
        bundle: "sample".to_string(),
        index: 5,
    };
    assert_eq!(selected_case(&p, &far).unwrap_err(), "case `5` not found");
    let other = CaseSelector {
        bundle: "main".to_string(),
        index: 0,
    };
    assert_eq!(selected_case(&p, &other).unwrap_err(), "bundle `main` not found");

    let args = vec!["1".to_string(), "a\"b".to_string()];
    assert!(check_validator_run(&outcome(true, ""), &sel, "in/sample-0.in", &"gen".to_string(), &args).is_none());
    let report = check_validator_run(&outcome(false, ""), &sel, "in/sample-0.in", &"gen".to_string(), &args).unwrap();
    assert!(report.starts_with(
        "validator failed for sample[0] input=in/sample-0.in generator=gen args=[\"1\", \"a\\\"b\"]: val:"
    ));
    let mut cut = outcome(true, "9");
    cut.truncated_stdout = true;
    assert_eq!(
        check_solution_run(&cut, &sel, "x.in", 4).unwrap(),
        "solution output for sample[0] exceeded --output-limit-bytes (4)"
    );
    assert!(check_solution_run(&outcome(false, ""), &sel, "x.in", 4)
        .unwrap()
        .starts_with("solution failed for x.in: "));
}

fn summary(name: &str, cases: usize) -> StressSummary {
    StressSummary {
        check_name: Some(name.to_string()),
        checker: None,
        answer_program: None,
        cases,
        elapsed_ms: 3,
        against: vec!["std".to_string(), "b".to_string()],
        empty_stdout_cases: 0,
        all_empty_stdout_cases: 0,
        unique_input_hashes: cases,
    }
}

#[test]
fn evidence_renders_summary_and_quality_notes() {
    let report = EvidenceReport {
        cptool_version: "1.2.3".to_string(),
        work_dir: "/pkg".to_string(),
        check: EvidenceSection::ok(EvidenceCheckReport {
            work_dir: "/pkg".to_string(),
            status: "pass".to_string(),
            errors: 0,
            warnings: 1,
            issues: Vec::new(),
        }),
        generation: EvidenceSection::skipped("--skip-gen".to_string()),
        task: EvidenceSection::ok(vec![summary("t:pass:a", 3), summary("t:fail:b", 2)]),
    };
    assert!(!report.has_errors());
    assert_eq!(
        report.render_text(),
        "# cptool report evidence\n\n- cptool_version: `1.2.3`\n- work_dir: `/pkg`\n- check: ok status=pass errors=0 warnings=1\n- gen: skipped --skip-gen\n- task: ok checks=2 cases=5\n"
    );
    let failures = vec![
        None,
        Some(ObservedFailure {
            failed_cases: 1,
            passed_cases: 1,
            failure_ratio: "0.500".to_string(),
            report_path: "f/report.md".to_string(),
        }),
    ];
    assert_eq!(
        report.render_quality_markdown(&failures),
        "## Tool Evidence\n\n- cptool_version: `1.2.3`\n- work_dir: `/pkg`\n\n### Check\n- status: `pass`\n- errors: 0\n- warnings: 1\n\n### Generation\n- not recorded: --skip-gen\n\n### Positive Task Checks\n- `t:pass:a`: cases=3 unique_input_hashes=3 warnings=0\n\n### Negative Task Checks\n- `t:fail:b`: cases=2 unique_input_hashes=2 warnings=0 failed_cases=1 passed_cases=1 failure_ratio=0.500 report=f/report.md\n"
    );
}

#[test]
fn expect_task_runs_and_their_errors() {
    let task = TestTask {
        name: "t".to_string(),
        official: false,
        task_type: Some(TestTaskType::Sum),
        bundles: Vec::new(),
        dependencies: Vec::new(),
        pass_programs: vec!["a".to_string(), "b".to_string()],
        fail_programs: vec!["c".to_string()],
        cases: Vec::new(),
    };
    assert_eq!(
        check_expect_task_type(&task).unwrap_err(),
        "expect task `t` has type `sum`; test expect tasks must use `min`"
    );
    let runs = task_pass_runs(&task, 2);
    let seen: Vec<(String, usize, String)> = runs
        .iter()
        .map(|r| (r.program.clone(), r.group, r.check_name.clone()))
        .collect();
    assert_eq!(
        seen,
        vec![
            ("a".to_string(), 0, "t:pass:a".to_string()),
            ("a".to_string(), 1, "t:pass:a".to_string()),
            ("b".to_string(), 0, "t:pass:b".to_string()),
            ("b".to_string(), 1, "t:pass:b".to_string()),
        ]
    );
    assert!(check_fail_program(&"t".to_string(), &"c".to_string(), true).is_ok());
    assert_eq!(
        check_fail_program(&"t".to_string(), &"c".to_string(), false).unwrap_err(),
        "fail program `c` passed all cases in task `t`"
    );
}
