use cptool::add::{
    add_bundle, add_task, assign_checker, assign_validator, builtin_checker_file, builtin_checker_ids, checker_step,
    default_source_path, infer_kind, normalize_package_path, program_info_from_parts,
    program_step, resolve_program_path, set_program, unknown_checker_message, validator_step,
    AddBundleOptions, AddProgramKind, AddTaskOptions, RoleStep,
};
use cptool::schema::{
    CppProgram, NamedBundle, NamedProgram, OutputConfig, Problem, ProgramInfo, Stress, Test,
    TestBundle, TestCase, TestTask, TestTaskType,
};

fn cpp(path: &str) -> ProgramInfo {
    ProgramInfo::Cpp(CppProgram {
        path: path.to_string(),
        compile_args: Vec::new(),
    })
}

fn scaffold() -> Problem {
    Problem {
        name: "Add Bundle".to_string(),
        output: OutputConfig { allow_empty: false },
        stress: Stress { plans: Vec::new() },
        programs: vec![
            NamedProgram { name: "gen".to_string(), info: cpp("./src/gen.cpp") },
            NamedProgram { name: "std".to_string(), info: cpp("./src/std.cpp") },
        ],
        test: Test {
            bundles: vec![NamedBundle {
                name: "sample".to_string(),
                bundle: TestBundle {
                    cases: vec![TestCase { generator_name: "gen".to_string(), args: Vec::new() }],
                },
            }],
            tasks: vec![TestTask {
                name: "sample".to_string(),
                official: true,
                task_type: Some(TestTaskType::Min),
                bundles: vec!["sample".to_string()],
                dependencies: Vec::new(),
                pass_programs: Vec::new(),
                fail_programs: Vec::new(),
                cases: Vec::new(),
            }],
        },
        solution_name: "std".to_string(),
        validator_name: None,
        validator_omitted_reason: None,
        checker_name: None,
        generator_name: Some("gen".to_string()),
        cpp_compile_args: vec!["-O2".to_string()],
    }
}

fn bundle_options(name: &str, cases: Vec<Vec<&str>>, replace: bool) -> AddBundleOptions {
    AddBundleOptions {
        work_dir: ".".to_string(),
        name: name.to_string(),
        generator: Some("gen".to_string()),
        cases: cases
            .into_iter()
            .map(|case| case.into_iter().map(str::to_string).collect())
            .collect(),
        replace,
    }
}

#[test]
fn add_bundle_and_task_update_the_package() {
    let mut problem = scaffold();
    add_bundle(&mut problem, bundle_options("extra", vec![vec!["a"], vec!["b", "c"]], false)).unwrap();
    let err = add_bundle(&mut problem, bundle_options("extra", vec![vec!["z"]], false)).unwrap_err();
    assert_eq!(err, "bundle `extra` already exists; pass --replace to overwrite");
    add_task(
        &mut problem,
        AddTaskOptions {
            work_dir: ".".to_string(),
            name: "extra_task".to_string(),
            task_type: TestTaskType::Sum,
            bundles: vec!["extra".to_string()],
            dependencies: vec!["sample".to_string()],
            replace: false,
        },
    )
    .unwrap();

    let extra = problem.test.bundles.iter().find(|b| b.name == "extra").unwrap();
    assert_eq!(extra.bundle.cases.len(), 2);
    assert_eq!(extra.bundle.cases[1].args, vec!["b".to_string(), "c".to_string()]);
    assert!(problem
        .test
        .tasks
        .iter()
        .any(|task| task.name == "extra_task" && task.task_type == Some(TestTaskType::Sum)));
}

#[test]
fn add_bundle_replace_overwrites_cases() {
    let mut problem = scaffold();
    add_bundle(&mut problem, bundle_options("sample", vec![vec!["1"], vec!["2"]], true)).unwrap();
    assert_eq!(problem.test.bundles.len(), 1);
    assert_eq!(problem.test.bundles[0].bundle.cases.len(), 2);
    let err = add_bundle(&mut problem, bundle_options("empty", Vec::new(), false)).unwrap_err();
    assert_eq!(err, "add bundle requires at least one --case");
}

#[test]
fn add_task_requires_bundles_and_replace() {
    let mut problem = scaffold();
    let options = AddTaskOptions {
        work_dir: ".".to_string(),
        name: "sample".to_string(),
        task_type: TestTaskType::Sum,
        bundles: vec!["sample".to_string()],
        dependencies: Vec::new(),
        replace: false,
    };
    assert_eq!(
        add_task(&mut problem, options.clone()).unwrap_err(),
        "task `sample` already exists; pass --replace to overwrite"
    );
    let mut replace = options.clone();
    replace.replace = true;
    add_task(&mut problem, replace).unwrap();
    assert_eq!(problem.test.tasks.len(), 1);
    assert_eq!(problem.test.tasks[0].task_type, Some(TestTaskType::Sum));
    let mut empty = options;
    empty.bundles = Vec::new();
    assert_eq!(add_task(&mut problem, empty).unwrap_err(), "add task requires at least one --bundle");
}

#[test]
fn generated_builtin_checker_registry_includes_directory_entries() {
    let ids = builtin_checker_ids();
    assert!(ids.contains(&"wcmp"));
    assert!(ids.contains(&"yesno"));
    assert!(ids.contains(&"pointscmp"));
}

#[test]
fn builtin_checker_files_and_unknown_ids() {
    assert_eq!(builtin_checker_file("wcmp").as_deref(), Some("wcmp.cpp"));
    assert_eq!(builtin_checker_file("nope"), None);
    assert!(unknown_checker_message("nope").starts_with("unknown built-in checker `nope`; available: acmp, "));
}

#[test]
fn program_sources_follow_kind_and_extension() {
    assert_eq!(infer_kind(Some("cc")), Some(AddProgramKind::Cpp));
    assert_eq!(infer_kind(Some("py")), Some(AddProgramKind::Python));
    assert_eq!(infer_kind(Some("sh")), None);
    assert_eq!(normalize_package_path("src\\gen.cpp", false), "./src/gen.cpp");
    assert_eq!(default_source_path(&"val".to_string(), AddProgramKind::Python), "./src/val.py");

    let name = "std".to_string();
    assert_eq!(
        resolve_program_path(&name, None, None, (false, false, false)).unwrap(),
        (AddProgramKind::Cpp, "./src/std.cpp".to_string(), true)
    );
    assert_eq!(
        resolve_program_path(&name, None, None, (false, true, false)).unwrap(),
        (AddProgramKind::Python, "./src/std.py".to_string(), false)
    );
    assert!(resolve_program_path(&name, None, None, (true, true, false)).is_err());
    assert_eq!(
        resolve_program_path(&name, None, Some(("tools/run.sh", Some("sh"), false)), (true, true, true)).unwrap(),
        (AddProgramKind::Command, "./tools/run.sh".to_string(), false)
    );

    let info = program_info_from_parts(AddProgramKind::Cpp, "./src/std.cpp".to_string(), &Vec::new(), &vec!["-O2".to_string()]);
    match info {
        ProgramInfo::Cpp(p) => assert_eq!(p.compile_args, vec!["-O2".to_string()]),
        _ => panic!("expected a C++ program"),
    }
}

#[test]
fn role_steps_respect_existing_configuration() {
    let mut problem = scaffold();
    let std_name = "std".to_string();
    assert_eq!(
        program_step(&problem, &std_name, false).unwrap_err(),
        "program `std` already exists; pass --replace to overwrite"
    );
    assert!(program_step(&problem, &std_name, true).is_ok());
    assert_eq!(validator_step(&problem, &"val".to_string(), false).unwrap(), RoleStep::AddSource);
    assert_eq!(validator_step(&problem, &std_name, false).unwrap(), RoleStep::UseExisting);
    assert_eq!(checker_step(&problem, &"chk".to_string(), true, false).unwrap(), RoleStep::AddBuiltin);
    assert_eq!(
        checker_step(&problem, &std_name, true, false).unwrap_err(),
        "program `std` already exists; pass --replace to overwrite"
    );
    problem.validator_name = Some("std".to_string());
    assert_eq!(
        validator_step(&problem, &"val".to_string(), false).unwrap_err(),
        "validator is already configured; pass --replace to overwrite"
    );
}

#[test]
fn set_program_replaces_by_name_or_adds() {
    let mut problem = scaffold();
    set_program(&mut problem, NamedProgram { name: "std".to_string(), info: cpp("./src/main.cpp") });
    assert_eq!(problem.programs.len(), 2);
    match &problem.programs[1].info {
        ProgramInfo::Cpp(p) => assert_eq!(p.path, "./src/main.cpp"),
        _ => panic!("expected a C++ program"),
    }
    set_program(&mut problem, NamedProgram { name: "val".to_string(), info: cpp("./src/val.cpp") });
    assert_eq!(problem.programs.len(), 3);
    assert_eq!(problem.programs[2].name, "val");
}

fn program_names(p: &Problem) -> Vec<String> {
    p.programs.iter().map(|x| x.name.clone()).collect()
}

#[test]
fn adding_bundles_and_tasks_leaves_the_rest_of_the_package() {
    let mut problem = scaffold();
    add_bundle(&mut problem, bundle_options("big", vec![vec!["9"]], false)).unwrap();
    assert_eq!(
        problem.test.bundles.iter().map(|b| b.name.clone()).collect::<Vec<_>>(),
        vec!["sample".to_string(), "big".to_string()]
    );
    add_bundle(&mut problem, bundle_options("sample", vec![vec!["3"]], true)).unwrap();
    assert_eq!(problem.test.bundles[0].name, "sample");
    assert_eq!(problem.test.bundles[0].bundle.cases[0].args, vec!["3".to_string()]);
    assert_eq!(problem.test.bundles[1].name, "big");
    assert_eq!(problem.test.tasks.len(), 1);
    assert_eq!(program_names(&problem), vec!["gen".to_string(), "std".to_string()]);

    add_task(
        &mut problem,
        AddTaskOptions {
            work_dir: ".".to_string(),
            name: "t".to_string(),
            task_type: TestTaskType::Min,
            bundles: vec!["big".to_string()],
            dependencies: Vec::new(),
            replace: false,
        },
    )
    .unwrap();
    let last = problem.test.tasks.last().unwrap();
    assert!(last.pass_programs.is_empty() && last.fail_programs.is_empty() && last.cases.is_empty());
    assert_eq!(program_names(&problem), vec!["gen".to_string(), "std".to_string()]);
    assert_eq!(problem.solution_name, "std");
    assert_eq!(problem.generator_name.as_deref(), Some("gen"));
    assert_eq!(problem.cpp_compile_args, vec!["-O2".to_string()]);
    assert_eq!(problem.test.bundles.len(), 2);
}

#[test]
fn assigning_roles_sets_only_the_role() {
    let mut problem = scaffold();
    problem.validator_omitted_reason = Some("none needed".to_string());
    assign_validator(&mut problem, "val".to_string());
    assert_eq!(problem.validator_name.as_deref(), Some("val"));
    assert!(problem.validator_omitted_reason.is_none());
    assign_checker(&mut problem, "chk".to_string());
    assert_eq!(problem.checker_name.as_deref(), Some("chk"));
    assert_eq!(problem.validator_name.as_deref(), Some("val"));
    assert_eq!(program_names(&problem), vec!["gen".to_string(), "std".to_string()]);
}
