use cptool::problem_yaml::{
    key_string, list_string, path_string, quoted, render_problem, sorted_names, YamlNumbers,
};
use cptool::schema::{
    CommandProgram, CppProgram, NamedBundle, NamedProgram, OutputConfig, Problem, ProgramInfo,
    Stress, StressPlan, StressPlanExpectation, Test, TestBundle, TestCase, TestTask, TestTaskType,
};

fn strings(values: &[&str]) -> Vec<String> {
    values.iter().map(|v| v.to_string()).collect()
}

fn case(generator: &str, args: &[&str]) -> TestCase {
    TestCase {
        generator_name: generator.to_string(),
        args: strings(args),
    }
}

fn package() -> Problem {
    Problem {
        name: "A + B".to_string(),
        output: OutputConfig { allow_empty: false },
        stress: Stress {
            plans: vec![
                StressPlan {
                    name: "p1".to_string(),
                    generator: "gen".to_string(),
                    args: strings(&["{1:3}"]),
                    against: strings(&["std", "brute"]),
                    cases: 10,
                    seed_base: None,
                    expect: StressPlanExpectation::Pass,
                },
                StressPlan {
                    name: "p2".to_string(),
                    generator: "brute2".to_string(),
                    args: Vec::new(),
                    against: strings(&["std", "brute"]),
                    cases: 5,
                    seed_base: Some(7),
                    expect: StressPlanExpectation::Fail,
                },
            ],
        },
        programs: vec![
            NamedProgram {
                name: "std".to_string(),
                info: ProgramInfo::Cpp(CppProgram {
                    path: "./src/std.cpp".to_string(),
                    compile_args: strings(&["-O2"]),
                }),
            },
            NamedProgram {
                name: "gen".to_string(),
                info: ProgramInfo::Cpp(CppProgram {
                    path: "./src/gen.cpp".to_string(),
                    compile_args: strings(&["-O2", "-DGEN"]),
                }),
            },
            NamedProgram {
                name: "brute".to_string(),
                info: ProgramInfo::Python(CommandProgram {
                    path: "./src/brute.py".to_string(),
                    extra_args: strings(&["--fast"]),
                }),
            },
        ],
        test: Test {
            bundles: vec![
                NamedBundle {
                    name: "small".to_string(),
                    bundle: TestBundle {
                        cases: vec![case("gen", &["1", "a b"]), case(":file", &["fixtures/input/x.in"])],
                    },
                },
                NamedBundle {
                    name: "sample".to_string(),
                    bundle: TestBundle { cases: vec![case("gen", &[])] },
                },
            ],
            tasks: vec![TestTask {
                name: "all".to_string(),
                official: true,
                task_type: Some(TestTaskType::Min),
                bundles: strings(&["sample", "small"]),
                dependencies: strings(&["base"]),
                pass_programs: Vec::new(),
                fail_programs: Vec::new(),
                cases: Vec::new(),
            }],
        },
        solution_name: "std".to_string(),
        validator_name: None,
        validator_omitted_reason: None,
        checker_name: Some("chk".to_string()),
        generator_name: Some("gen".to_string()),
        cpp_compile_args: strings(&["-O2"]),
    }
}

fn numbers() -> YamlNumbers {
    YamlNumbers {
        time_limit: "3.0".to_string(),
        memory_limit: "512.0".to_string(),
        program_time_limits: vec![None, Some("5.0".to_string()), None],
        program_memory_limits: vec![None, None, Some("256.0".to_string())],
        task_scores: vec![Some("100.0".to_string())],
    }
}

#[test]
fn problem_yaml_writes_programs_and_bundles_in_name_order() {
    let expected = "name: \"A + B\"\n\
time_limit_secs: 3.0\n\
memory_limit_mb: 512.0\n\
cpp_compile_args: [\"-O2\"]\n\
programs:\n\
\x20 brute:\n\
\x20   info: !python\n\
\x20     path: \"./src/brute.py\"\n\
\x20     extra_args: [\"--fast\"]\n\
\x20   memory_limit_mb: 256.0\n\
\x20 gen:\n\
\x20   info: !cpp\n\
\x20     path: \"./src/gen.cpp\"\n\
\x20     compile_args: [\"-O2\", \"-DGEN\"]\n\
\x20   time_limit_secs: 5.0\n\
\x20 std:\n\
\x20   info: !cpp\n\
\x20     path: \"./src/std.cpp\"\n\
solution: std\n\
checker: chk\n\
generator: gen\n\
test:\n\
\x20 bundles:\n\
\x20   sample:\n\
\x20     cases:\n\
\x20     - []\n\
\x20   small:\n\
\x20     cases:\n\
\x20     - [\"1\", \"a b\"]\n\
\x20     - generator: \":file\"\n\
\x20       args: [\"fixtures/input/x.in\"]\n\
\x20 tasks:\n\
\x20 - name: all\n\
\x20   score: 100.0\n\
\x20   type: min\n\
\x20   bundles: [\"sample\", \"small\"]\n\
\x20   dependencies: [\"base\"]\n\
stress:\n\
\x20 plans:\n\
\x20 - name: p1\n\
\x20   args: [\"{1:3}\"]\n\
\x20   against: [\"std\", \"brute\"]\n\
\x20   cases: 10\n\
\x20   expect: pass\n\
\x20 - name: p2\n\
\x20   generator: brute2\n\
\x20   args: []\n\
\x20   against: [\"std\", \"brute\"]\n\
\x20   cases: 5\n\
\x20   seed_base: 7\n\
\x20   expect: fail\n";
    assert_eq!(render_problem(&package(), &numbers()), expected);
}

#[test]
fn problem_yaml_writes_task_checks_and_omits_empty_sections() {
    let mut problem = package();
    problem.stress.plans.clear();
    problem.output.allow_empty = true;
    problem.validator_name = Some("val".to_string());
    problem.validator_omitted_reason = Some("a \"quoted\" reason".to_string());
    problem.test.tasks = vec![TestTask {
        name: "expect".to_string(),
        official: false,
        task_type: Some(TestTaskType::Sum),
        bundles: Vec::new(),
        dependencies: Vec::new(),
        pass_programs: strings(&["std"]),
        fail_programs: strings(&["wrong"]),
        cases: vec![case("gen", &["5"])],
    }];
    let mut n = numbers();
    n.task_scores = vec![None];
    let text = render_problem(&problem, &n);
    assert!(text.contains("cpp_compile_args: [\"-O2\"]\noutput:\n  allow_empty: true\nprograms:\n"));
    assert!(text.contains("solution: std\nvalidator: val\nvalidator_omitted_reason: \"a \\\"quoted\\\" reason\"\nchecker: chk\n"));
    assert!(text.ends_with(
        "  tasks:\n  - name: expect\n    type: sum\n    bundles: []\n    pass: [\"std\"]\n    fail: [\"wrong\"]\n    cases:\n    - generator: gen\n      args: [\"5\"]\n"
    ));
    assert!(!text.contains("stress:"));
}

#[test]
fn yaml_pieces_quote_what_is_not_a_plain_word() {
    assert_eq!(key_string("sample_1-b"), "sample_1-b");
    assert_eq!(key_string("has space"), "\"has space\"");
    assert_eq!(key_string(""), "\"\"");
    assert_eq!(path_string("src\\gen.cpp"), "\"src/gen.cpp\"");
    assert_eq!(list_string(&strings(&["a", "b\"c"])), "[\"a\", \"b\\\"c\"]");
    assert_eq!(list_string(&Vec::new()), "[]");
}

#[test]
fn sorted_names_drop_duplicates() {
    let names = strings(&["std", "brute", "gen", "brute"]);
    assert_eq!(sorted_names(&names), strings(&["brute", "gen", "std"]));
}

#[test]
fn quoted_escapes_quotes_backslashes_and_controls() {
    assert_eq!(
        quoted("a\"b\\c\u{1}\n\t\r\u{8}\u{c}\u{1f} é/"),
        "\"a\\\"b\\\\c\\u0001\\n\\t\\r\\b\\f\\u001f é/\""
    );
}
