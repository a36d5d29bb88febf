use cptool::schema::{
    CppProgram, NamedBundle, NamedProgram, OutputConfig, Problem, ProgramInfo, Stress, Test,
    TestBundle, TestCase, TestTask, TestTaskType,
};
use cptool::stress_plan::StressPlanFilter;
use cptool::task_expect::{
    cases_by_generator, push_case_group, select_expect_tasks, select_filtered_tasks,
    task_case_groups, TaskCaseGroup,
};

fn case(generator: &str, arg: &str) -> TestCase {
    TestCase {
        generator_name: generator.to_string(),
        args: vec![arg.to_string()],
    }
}

fn bundle(name: &str, cases: Vec<TestCase>) -> NamedBundle {
    NamedBundle {
        name: name.to_string(),
        bundle: TestBundle { cases },
    }
}

fn task(name: &str, bundles: &[&str], pass: &[&str], fail: &[&str]) -> TestTask {
    TestTask {
        name: name.to_string(),
        official: false,
        task_type: Some(TestTaskType::Min),
        bundles: bundles.iter().map(|b| b.to_string()).collect(),
        dependencies: Vec::new(),
        pass_programs: pass.iter().map(|p| p.to_string()).collect(),
        fail_programs: fail.iter().map(|p| p.to_string()).collect(),
        cases: Vec::new(),
    }
}

fn package() -> Problem {
    Problem {
        name: "p".to_string(),
        output: OutputConfig { allow_empty: false },
        stress: Stress { plans: Vec::new() },
        programs: vec![NamedProgram {
            name: "std".to_string(),
            info: ProgramInfo::Cpp(CppProgram {
                path: "std.cpp".to_string(),
                compile_args: Vec::new(),
            }),
        }],
        test: Test {
            bundles: vec![
                bundle("small", vec![case("rand", "1"), case("rand", "2"), case(":file", "a.in")]),
                bundle("large", vec![case("rand", "9")]),
            ],
            tasks: vec![
                task("scored", &["small"], &[], &[]),
                task("checks", &["small", "large"], &["alt"], &["wrong"]),
            ],
        },
        solution_name: "std".to_string(),
        validator_name: None,
        validator_omitted_reason: None,
        checker_name: None,
        generator_name: None,
        cpp_compile_args: Vec::new(),
    }
}

fn view(groups: &[TaskCaseGroup]) -> Vec<(String, Vec<Vec<String>>)> {
    groups
        .iter()
        .map(|g| (g.generator_name.clone(), g.args_by_case.clone()))
        .collect()
}

fn rows(values: &[&str]) -> Vec<Vec<String>> {
    values.iter().map(|v| vec![v.to_string()]).collect()
}

#[test]
fn task_case_groups_join_neighbouring_cases_of_one_generator() {
    let mut problem = package();
    problem.test.tasks[1].cases.push(case("rand", "7"));
    let groups = task_case_groups(&problem, &problem.test.tasks[1]).unwrap();
    assert_eq!(
        view(&groups),
        vec![
            ("rand".to_string(), rows(&["1", "2"])),
            (":file".to_string(), rows(&["a.in"])),
            ("rand".to_string(), rows(&["9", "7"])),
        ]
    );
}

#[test]
fn cases_by_generator_groups_in_generator_name_order() {
    let problem = package();
    let groups = cases_by_generator(&problem, &problem.test.tasks[1]).unwrap();
    assert_eq!(
        view(&groups),
        vec![
            (":file".to_string(), rows(&["a.in"])),
            ("rand".to_string(), rows(&["1", "2", "9"])),
        ]
    );
}

#[test]
fn task_groups_report_the_first_missing_bundle() {
    let problem = package();
    let missing = task("broken", &["small", "huge", "tiny"], &["alt"], &[]);
    assert_eq!(task_case_groups(&problem, &missing).unwrap_err(), "bundle `huge` not found");
    assert_eq!(cases_by_generator(&problem, &missing).unwrap_err(), "bundle `huge` not found");
}

#[test]
fn push_case_group_skips_empty_cases() {
    let mut groups = Vec::new();
    push_case_group(&mut groups, "rand", Vec::new());
    assert!(groups.is_empty());
    push_case_group(&mut groups, "rand", rows(&["1"]));
    push_case_group(&mut groups, "rand", rows(&["2"]));
    assert_eq!(view(&groups), vec![("rand".to_string(), rows(&["1", "2"]))]);
}

#[test]
fn expect_task_selection() {
    let problem = package();
    let tasks = select_expect_tasks(&problem.test.tasks, None).unwrap();
    assert_eq!(tasks.len(), 1);
    assert_eq!(tasks[0].name, "checks");
    assert_eq!(
        select_expect_tasks(&problem.test.tasks, Some("scored")).unwrap_err(),
        "expect task `scored` has no pass or fail checks"
    );
    assert_eq!(
        select_expect_tasks(&problem.test.tasks, Some("nope")).unwrap_err(),
        "expect task `nope` not found"
    );
    assert!(select_filtered_tasks(&problem.test.tasks, Some("nope"), StressPlanFilter::All)
        .unwrap()
        .is_empty());
    assert_eq!(
        select_filtered_tasks(&problem.test.tasks, Some("checks"), StressPlanFilter::PositiveOnly)
            .unwrap()
            .len(),
        1
    );
    assert_eq!(
        select_filtered_tasks(&problem.test.tasks, Some("scored"), StressPlanFilter::NegativeOnly).unwrap_err(),
        "expect task `scored` does not match selected expectation filter"
    );
}
