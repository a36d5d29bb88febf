use cptool::export::syzoj::{SubtaskType, SyzojExporter};
use cptool::schema::{
    CommandProgram, CppProgram, NamedBundle, NamedProgram, OutputConfig, Problem, ProgramInfo,
    Stress, Test, TestBundle, TestCase, TestTask, TestTaskType,
};

fn cpp(path: &str) -> ProgramInfo {
    ProgramInfo::Cpp(CppProgram {
        path: path.to_string(),
        compile_args: Vec::new(),
    })
}

fn named(name: &str, info: ProgramInfo) -> NamedProgram {
    NamedProgram {
        name: name.to_string(),
        info,
    }
}

fn bundle(name: &str, cases: usize) -> NamedBundle {
    NamedBundle {
        name: name.to_string(),
        bundle: TestBundle {
            cases: (0..cases)
                .map(|i| TestCase {
                    generator_name: "gen".to_string(),
                    args: vec![i.to_string()],
                })
                .collect(),
        },
    }
}

fn task(name: &str, task_type: TestTaskType, bundles: &[&str], dependencies: &[&str]) -> TestTask {
    TestTask {
        name: name.to_string(),
        official: true,
        task_type: Some(task_type),
        bundles: bundles.iter().map(|b| b.to_string()).collect(),
        dependencies: dependencies.iter().map(|d| d.to_string()).collect(),
        pass_programs: Vec::new(),
        fail_programs: Vec::new(),
        cases: Vec::new(),
    }
}

fn exported() -> Problem {
    Problem {
        name: "demo".to_string(),
        output: OutputConfig { allow_empty: false },
        stress: Stress { plans: Vec::new() },
        programs: vec![
            named("gen", cpp("./src/gen.cpp")),
            named("std", cpp("./src/std.cpp")),
            named("chk", cpp("./src/chk.cpp")),
        ],
        test: Test {
            bundles: vec![bundle("sample", 1), bundle("small", 2), bundle("large", 2)],
            tasks: vec![
                task("sample", TestTaskType::Min, &["sample"], &[]),
                task("small", TestTaskType::Sum, &["small"], &["sample"]),
                task("all", TestTaskType::Min, &["small", "large"], &["sample", "small"]),
            ],
        },
        solution_name: "std".to_string(),
        validator_name: None,
        validator_omitted_reason: None,
        checker_name: Some("chk".to_string()),
        generator_name: Some("gen".to_string()),
        cpp_compile_args: Vec::new(),
    }
}

#[test]
fn syzoj_plan_numbers_every_task_case_in_order() {
    let plan = SyzojExporter::plan(&exported()).unwrap();
    let copies: Vec<(&str, &str)> = plan.copies.iter().map(|(s, n)| (s.as_str(), n.as_str())).collect();
    assert_eq!(
        copies,
        vec![
            ("sample-0", "0"),
            ("small-0", "1"),
            ("small-1", "2"),
            ("small-0", "3"),
            ("small-1", "4"),
            ("large-0", "5"),
            ("large-1", "6"),
        ]
    );
    assert_eq!(plan.subtasks.len(), 3);
    assert_eq!(plan.subtasks[0].cases, vec!["0"]);
    assert_eq!(plan.subtasks[1].cases, vec!["1", "2"]);
    assert_eq!(plan.subtasks[2].cases, vec!["3", "4", "5", "6"]);
    assert!(plan.subtasks[0].subtask_type == SubtaskType::Min);
    assert!(plan.subtasks[1].subtask_type == SubtaskType::Sum);
    assert_eq!(plan.subtasks[2].dependencies, vec![1, 2]);
    assert_eq!(plan.special_judge_source.as_deref(), Some("./src/chk.cpp"));
}

#[test]
fn syzoj_plan_without_checker_has_no_special_judge() {
    let mut problem = exported();
    problem.checker_name = None;
    let plan = SyzojExporter::plan(&problem).unwrap();
    assert!(plan.special_judge_source.is_none());
}

#[test]
fn syzoj_plan_reports_missing_bundle_before_missing_task() {
    let mut problem = exported();
    problem.test.tasks[1].bundles.push("huge".to_string());
    problem.test.tasks[1].dependencies.push("ghost".to_string());
    assert_eq!(SyzojExporter::plan(&problem).unwrap_err(), "bundle `huge` not found");
}

#[test]
fn syzoj_plan_reports_missing_dependency() {
    let mut problem = exported();
    problem.test.tasks[2].dependencies.push("ghost".to_string());
    assert_eq!(SyzojExporter::plan(&problem).unwrap_err(), "task `ghost` not found");
}

#[test]
fn syzoj_plan_rejects_missing_or_non_cpp_checker() {
    let mut problem = exported();
    problem.checker_name = Some("missing".to_string());
    assert_eq!(SyzojExporter::plan(&problem).unwrap_err(), "checker `missing` not found");

    let mut problem = exported();
    problem.programs[2].info = ProgramInfo::Command(CommandProgram {
        path: "./chk".to_string(),
        extra_args: Vec::new(),
    });
    assert_eq!(
        SyzojExporter::plan(&problem).unwrap_err(),
        "command program is not supported as special judge in syzoj exporter"
    );

    let mut problem = exported();
    problem.programs[2].info = ProgramInfo::Python(CommandProgram {
        path: "./chk.py".to_string(),
        extra_args: Vec::new(),
    });
    assert_eq!(
        SyzojExporter::plan(&problem).unwrap_err(),
        "python program is not supported as special judge in syzoj exporter"
    );
}
