use cptool::check_package::{
    check_empty_answers, check_program_paths, check_required_files, check_sample_block_count,
    check_sample_bundle, check_validator_declaration, compare_statement_sample, join_path,
    report_problem_yaml_invalid, DataEntry, SampleAnswer,
};
use cptool::explain::{explain_problem, handwritten_inputs, ExplainReport};
use cptool::problem::validate_problem;
use cptool::raw_schema::{
    normalize_test, raw_arg_to_string, RawArg, RawTest, RawTestBundle, RawTestCase, RawTestTask,
};
use cptool::report::{CheckReport, CheckSeverity};
use cptool::schema::{
    CommandProgram, CppProgram, NamedBundle, NamedProgram, OutputConfig, Problem, ProgramInfo,
    Stress, Test, TestBundle, TestCase, TestTask, TestTaskType,
};

fn cpp(path: &str) -> ProgramInfo {
    ProgramInfo::Cpp(CppProgram {
        path: path.to_string(),
        compile_args: Vec::new(),
    })
}

fn named(name: &str, info: ProgramInfo) -> NamedProgram {
    NamedProgram {
        name: name.to_string(),
        info,
    }
}

fn case(generator: &str, args: &[&str]) -> TestCase {
    TestCase {
        generator_name: generator.to_string(),
        args: args.iter().map(|a| a.to_string()).collect(),
    }
}

fn task(name: &str, bundles: &[&str]) -> TestTask {
    TestTask {
        name: name.to_string(),
        official: true,
        task_type: Some(TestTaskType::Min),
        bundles: bundles.iter().map(|b| b.to_string()).collect(),
        dependencies: Vec::new(),
        pass_programs: Vec::new(),
        fail_programs: Vec::new(),
        cases: Vec::new(),
    }
}

fn valid_package() -> Problem {
    Problem {
        name: "sample".to_string(),
        output: OutputConfig { allow_empty: false },
        stress: Stress { plans: Vec::new() },
        programs: vec![named("gen", cpp("gen.cpp")), named("std", cpp("main.cpp"))],
        test: Test {
            bundles: vec![NamedBundle {
                name: "sample".to_string(),
                bundle: TestBundle {
                    cases: vec![case("gen", &[])],
                },
            }],
            tasks: vec![task("sample", &["sample"])],
        },
        solution_name: "std".to_string(),
        validator_name: None,
        validator_omitted_reason: None,
        checker_name: None,
        generator_name: Some("gen".to_string()),
        cpp_compile_args: Vec::new(),
    }
}

#[test]
fn validate_problem_rejects_missing_program_references() {
    let mut problem = valid_package();
    problem.solution_name = "missing".to_string();

    let err = validate_problem(&problem, &[true]).unwrap_err();

    assert!(err.contains("solution `missing`"));
}

#[test]
fn validate_problem_rejects_missing_generator_references() {
    let mut problem = valid_package();
    problem.test.bundles[0].bundle.cases[0].generator_name = "missing".to_string();

    let err = validate_problem(&problem, &[true]).unwrap_err();

    assert!(err.contains("generator for sample[0] `missing`"));
}

#[test]
fn validate_problem_accepts_file_generator_without_program() {
    let mut problem = valid_package();
    problem.generator_name = Some(":file".to_string());
    problem.test.bundles[0].bundle.cases[0].generator_name = ":file".to_string();

    validate_problem(&problem, &[true]).unwrap();
}

#[test]
fn validate_problem_rejects_unknown_builtin_generator() {
    let mut problem = valid_package();
    problem.test.bundles[0].bundle.cases[0].generator_name = ":unknown".to_string();

    let err = validate_problem(&problem, &[true]).unwrap_err();

    assert!(err.contains("unknown built-in generator"));
}

#[test]
fn validate_problem_rejects_missing_bundle_references() {
    let mut problem = valid_package();
    problem.test.tasks[0].bundles = vec!["missing".to_string()];

    let err = validate_problem(&problem, &[true]).unwrap_err();

    assert!(err.contains("references missing bundle `missing`"));
}

fn number(n: &str) -> RawArg {
    RawArg::Number(n.to_string())
}

fn raw_task(name: &str, task_type: Option<TestTaskType>, bundles: &[&str]) -> RawTestTask {
    RawTestTask {
        name: name.to_string(),
        official: true,
        task_type,
        bundles: bundles.iter().map(|b| b.to_string()).collect(),
        dependencies: Vec::new(),
        pass_programs: Vec::new(),
        fail_programs: Vec::new(),
        cases: Vec::new(),
    }
}

#[test]
fn test_cases_accept_global_bundle_and_case_generators() {
    let raw = RawTest {
        generator: Some("gen".to_string()),
        task_type: Some(TestTaskType::Min),
        bundles: vec![
            (
                "global".to_string(),
                RawTestBundle {
                    generator: None,
                    cases: vec![
                        RawTestCase::Args(vec![number("1"), number("2")]),
                        RawTestCase::Full {
                            generator_name: None,
                            args: vec![number("3"), number("4")],
                        },
                    ],
                },
            ),
            (
                "local".to_string(),
                RawTestBundle {
                    generator: Some("local_gen".to_string()),
                    cases: vec![
                        RawTestCase::Args(vec![number("5")]),
                        RawTestCase::Full {
                            generator_name: None,
                            args: vec![number("6")],
                        },
                    ],
                },
            ),
            (
                "explicit".to_string(),
                RawTestBundle {
                    generator: Some("ignored".to_string()),
                    cases: vec![RawTestCase::Full {
                        generator_name: Some("special_gen".to_string()),
                        args: vec![number("7")],
                    }],
                },
            ),
        ],
        tasks: vec![raw_task("main", None, &["global", "local", "explicit"])],
    };

    let test = normalize_test(&raw).unwrap();

    assert_eq!(test.bundles[0].name, "global");
    assert_eq!(test.bundles[0].bundle.cases[0].generator_name, "gen");
    assert_eq!(test.bundles[0].bundle.cases[0].args, ["1", "2"]);
    assert_eq!(test.bundles[0].bundle.cases[1].generator_name, "gen");
    assert_eq!(test.bundles[1].bundle.cases[0].generator_name, "local_gen");
    assert_eq!(test.bundles[1].bundle.cases[1].generator_name, "local_gen");
    assert_eq!(test.bundles[2].bundle.cases[0].generator_name, "special_gen");
    assert_eq!(test.tasks[0].task_type, Some(TestTaskType::Min));
}

#[test]
fn tasks_accept_global_type_and_task_override() {
    let mut bonus = raw_task("bonus", Some(TestTaskType::Sum), &["main"]);
    bonus.dependencies = vec!["base".to_string()];
    let raw = RawTest {
        generator: Some("gen".to_string()),
        task_type: Some(TestTaskType::Min),
        bundles: vec![(
            "main".to_string(),
            RawTestBundle {
                generator: None,
                cases: vec![RawTestCase::Args(Vec::new())],
            },
        )],
        tasks: vec![raw_task("base", None, &["main"]), bonus],
    };

    let test = normalize_test(&raw).unwrap();

    assert_eq!(test.tasks[0].task_type, Some(TestTaskType::Min));
    assert_eq!(test.tasks[1].task_type, Some(TestTaskType::Sum));
    assert_eq!(test.tasks[1].dependencies, ["base"]);
}

#[test]
fn task_type_requires_global_or_task_value() {
    let raw = RawTest {
        generator: Some("gen".to_string()),
        task_type: None,
        bundles: vec![(
            "sample".to_string(),
            RawTestBundle {
                generator: None,
                cases: vec![RawTestCase::Args(Vec::new())],
            },
        )],
        tasks: vec![raw_task("sample", None, &["sample"])],
    };

    let err = normalize_test(&raw).unwrap_err();

    assert!(err.contains("missing `type`"));
    assert_eq!(
        err,
        "test.tasks[0] is missing `type` and no default type is declared for test"
    );
}

#[test]
fn args_only_test_case_requires_default_generator() {
    let raw = RawTest {
        generator: None,
        task_type: None,
        bundles: vec![(
            "sample".to_string(),
            RawTestBundle {
                generator: None,
                cases: vec![RawTestCase::Args(vec![number("1")])],
            },
        )],
        tasks: vec![raw_task("sample", Some(TestTaskType::Min), &["sample"])],
    };

    let err = normalize_test(&raw).unwrap_err();

    assert!(err.contains("args-only shorthand"));
}

#[test]
fn full_case_without_generator_and_nested_args_are_rejected() {
    let missing = RawTest {
        generator: None,
        task_type: Some(TestTaskType::Min),
        bundles: vec![(
            "b".to_string(),
            RawTestBundle {
                generator: None,
                cases: vec![RawTestCase::Full {
                    generator_name: None,
                    args: Vec::new(),
                }],
            },
        )],
        tasks: Vec::new(),
    };
    assert_eq!(
        normalize_test(&missing).unwrap_err(),
        "test.bundles.b.cases[0] is missing `generator` and no default generator is declared for the bundle or test"
    );

    let nested = RawTest {
        generator: Some("gen".to_string()),
        task_type: None,
        bundles: vec![(
            "b".to_string(),
            RawTestBundle {
                generator: None,
                cases: vec![
                    RawTestCase::Args(vec![RawArg::Null]),
                    RawTestCase::Args(vec![RawArg::Bool(true), RawArg::Nested]),
                ],
            },
        )],
        tasks: Vec::new(),
    };
    assert_eq!(
        normalize_test(&nested).unwrap_err(),
        "test.bundles.b.cases[1].args[1] must be a string, number, boolean, or null"
    );
    assert_eq!(raw_arg_to_string(&RawArg::Null).unwrap(), "null");
    assert_eq!(raw_arg_to_string(&RawArg::Bool(false)).unwrap(), "false");
    assert_eq!(
        raw_arg_to_string(&RawArg::Text("x y".to_string())).unwrap(),
        "x y"
    );
    assert!(raw_arg_to_string(&RawArg::Nested).is_none());
}

fn explain_package() -> Problem {
    let mut p = valid_package();
    p.programs.push(named(
        "brute",
        ProgramInfo::Python(CommandProgram {
            path: "brute.py".to_string(),
            extra_args: Vec::new(),
        }),
    ));
    p.programs.push(named("alt", cpp("alt.cpp")));
    p.test.bundles.push(NamedBundle {
        name: "hand".to_string(),
        bundle: TestBundle {
            cases: vec![
                case(":file", &["fixtures/input/a.in"]),
                case(":file", &["fixtures/input/b.in"]),
                case(":file", &["fixtures/input/a.in"]),
            ],
        },
    });
    p.test.tasks[0].bundles.push("hand".to_string());
    let mut check = task("verify", &[]);
    check.official = false;
    check.task_type = None;
    check.pass_programs = vec!["alt".to_string()];
    check.fail_programs = vec!["brute".to_string()];
    check.cases = vec![case(":file", &["fixtures/input/b.in"]), case("gen", &["7"])];
    p.test.tasks.push(check);
    p
}

#[test]
fn handwritten_inputs_group_readers_by_path() {
    let inputs = handwritten_inputs(&explain_package());

    assert_eq!(inputs.len(), 2);
    assert_eq!(inputs[0].path, "fixtures/input/a.in");
    assert_eq!(inputs[0].used_by, ["hand[0]", "hand[2]"]);
    assert_eq!(inputs[1].path, "fixtures/input/b.in");
    assert_eq!(inputs[1].used_by, ["hand[1]", "task:verify[0]"]);
}

#[test]
fn explain_report_lists_roles_programs_and_data() {
    let p = explain_package();
    let paths: Vec<String> = p.programs.iter().map(|x| x.info.path().clone()).collect();
    let scores = vec!["100.0".to_string(), "0.0".to_string()];
    let report: ExplainReport = explain_problem(&"/pkg".to_string(), &p, &paths, &scores);

    assert_eq!(report.roles.solution.as_ref().unwrap().path, "main.cpp");
    assert!(report.roles.validator.is_none());
    assert_eq!(report.roles.generator.as_ref().unwrap().kind, "cpp");
    assert_eq!(report.programs.len(), 2);
    assert_eq!(report.programs[0].name, "alt");
    assert_eq!(report.programs[0].roles, ["expect_program"]);
    assert_eq!(report.programs[1].name, "brute");
    assert_eq!(report.programs[1].kind, "python");

    let text = report.render_text();
    assert_eq!(
        text,
        "# cptool pkg explain\n\nroles\n  solution: std -> main.cpp (cpp)\n  validator: none\n  checker: none\n  generator: gen -> gen.cpp (cpp)\n\nprograms\n  alt: cpp alt.cpp roles=[expect_program]\n  brute: python brute.py roles=[expect_program]\n\nofficial data\n  task sample score=100.0 type=min bundles=[sample,hand] pass=[] fail=[] generators=[:file,gen]\n  bundle hand cases=3 generators=[:file]\n  bundle sample cases=1 generators=[gen]\n\nexpect checks\n  task verify verify-only bundles=[] inline_cases=2 pass=[alt] fail=[brute] generators=[:file,gen]\n\nhandwritten inputs\n  fixtures/input/a.in used_by=[hand[0],hand[2]]\n  fixtures/input/b.in used_by=[hand[1],task:verify[0]]\n"
    );
}

#[test]
fn check_reports_missing_files_paths_and_validator() {
    let p = valid_package();
    let mut report = CheckReport::new("/pkg".to_string());
    check_required_files(&mut report, &"/pkg".to_string(), &vec![true, false, true, false]);
    check_program_paths(&mut report, &"/pkg".to_string(), &p, &vec![true, false]);
    check_validator_declaration(&mut report, &"/pkg".to_string(), &p);

    assert_eq!(report.issues.len(), 4);
    assert_eq!(report.issues[0].message, "required file `statement.md` is missing");
    assert_eq!(report.issues[0].path.as_deref(), Some("/pkg/statement.md"));
    assert_eq!(report.issues[1].path.as_deref(), Some("/pkg/src/std.cpp"));
    assert_eq!(report.issues[2].code, "program_path_missing");
    assert_eq!(report.issues[2].message, "program `std` path does not exist");
    assert_eq!(report.issues[2].path.as_deref(), Some("/pkg/main.cpp"));
    assert_eq!(report.issues[3].severity, CheckSeverity::Warning);
    assert_eq!(report.issues[3].code, "validator_missing");

    let mut excused = valid_package();
    excused.validator_omitted_reason = Some("  ".to_string());
    let mut blank = CheckReport::new("/pkg".to_string());
    check_validator_declaration(&mut blank, &"/pkg".to_string(), &excused);
    assert_eq!(blank.issues.len(), 1);
    excused.validator_omitted_reason = Some("input is trivial".to_string());
    let mut ok = CheckReport::new("/pkg".to_string());
    check_validator_declaration(&mut ok, &"/pkg".to_string(), &excused);
    assert!(ok.issues.is_empty());
    assert_eq!(join_path("/pkg/", "a"), "/pkg/a");
    assert_eq!(join_path("/pkg", "/abs"), "/abs");
}

#[test]
fn check_reports_empty_and_unreadable_answers() {
    let entries = vec![
        DataEntry {
            name: "a.ans".to_string(),
            size: Ok(0),
        },
        DataEntry {
            name: "a.in".to_string(),
            size: Ok(0),
        },
        DataEntry {
            name: "b.ans".to_string(),
            size: Err("denied".to_string()),
        },
        DataEntry {
            name: ".ans".to_string(),
            size: Ok(0),
        },
    ];
    let mut report = CheckReport::new("/pkg".to_string());
    check_empty_answers(&mut report, &"/pkg/data".to_string(), false, Some(&entries));
    assert_eq!(report.issues.len(), 2);
    assert_eq!(report.issues[0].code, "empty_answer");
    assert_eq!(report.issues[0].path.as_deref(), Some("/pkg/data/a.ans"));
    assert_eq!(report.issues[1].message, "could not inspect .ans file: denied");

    let mut allowed = CheckReport::new("/pkg".to_string());
    check_empty_answers(&mut allowed, &"/pkg/data".to_string(), true, Some(&entries));
    assert_eq!(allowed.issues.len(), 1);

    let mut unreadable = CheckReport::new("/pkg".to_string());
    check_empty_answers(&mut unreadable, &"/pkg/data".to_string(), false, None);
    assert_eq!(unreadable.issues[0].code, "data_dir_unreadable");
}

#[test]
fn check_sample_bundle_and_statement_comparison() {
    let mut report = CheckReport::new("/pkg".to_string());
    assert_eq!(
        check_sample_bundle(&mut report, &"/pkg".to_string(), &valid_package()),
        Some("sample".to_string())
    );
    assert!(report.issues.is_empty());

    let mut empty = valid_package();
    empty.test.bundles[0].bundle.cases.clear();
    assert_eq!(check_sample_bundle(&mut report, &"/pkg".to_string(), &empty), None);
    assert_eq!(report.issues[0].message, "sample bundle `sample` has no cases");

    let mut none = valid_package();
    none.test.bundles[0].name = "main".to_string();
    assert_eq!(check_sample_bundle(&mut report, &"/pkg".to_string(), &none), None);
    assert_eq!(report.issues[1].code, "sample_bundle_missing");

    let statement = "/pkg/statement.md".to_string();
    let mut cmp = CheckReport::new("/pkg".to_string());
    assert!(!check_sample_block_count(&mut cmp, &statement, &Vec::new()));
    assert!(cmp.issues.is_empty());
    assert!(!check_sample_block_count(
        &mut cmp,
        &statement,
        &vec!["1\n".to_string(), "2\n".to_string()]
    ));
    assert_eq!(cmp.issues[0].code, "sample_output_ambiguous");
    assert!(check_sample_block_count(&mut cmp, &statement, &vec!["3\n".to_string()]));

    compare_statement_sample(
        &mut cmp,
        &statement,
        &"3  \n".to_string(),
        &SampleAnswer::Text("3\r\n\r\n".to_string()),
    );
    assert_eq!(cmp.issues.len(), 1);
    compare_statement_sample(
        &mut cmp,
        &statement,
        &"3\n".to_string(),
        &SampleAnswer::Text("4\n".to_string()),
    );
    assert_eq!(cmp.issues[1].code, "statement_sample_output_mismatch");
    compare_statement_sample(&mut cmp, &statement, &"3\n".to_string(), &SampleAnswer::Missing);
    assert_eq!(cmp.issues[2].code, "sample_answer_missing");

    let mut invalid = CheckReport::new("/pkg".to_string());
    report_problem_yaml_invalid(&mut invalid, &"/pkg".to_string(), &"bad yaml".to_string());
    assert_eq!(
        invalid.issues[0].message,
        "problem.yaml could not be loaded or validated: bad yaml"
    );
    assert_eq!(invalid.issues[0].path.as_deref(), Some("/pkg/problem.yaml"));
}

#[test]
fn slugs_are_stable_lowercase_words_without_edge_dashes() {
    for id in ["A + B: Special!", "--x__Y--", "题目 #1 Hard", "a-b - c", "Default Root"] {
        let s = cptool::package::slugify(id).unwrap();
        assert_eq!(cptool::package::slugify(&s), Ok(s.clone()));
        assert!(!s.is_empty());
        assert!(s.chars().all(|c| c.is_ascii_lowercase() || c.is_ascii_digit() || c == '_' || c == '-'));
        assert!(!s.starts_with('-') && !s.ends_with('-'));
    }
    assert_eq!(cptool::package::slugify("A + B: Special!").unwrap(), "a-b-special");
    assert!(cptool::package::slugify("  !!  ").is_err());
}
