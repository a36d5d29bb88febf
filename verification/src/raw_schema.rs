//! The `test` section of `problem.yaml` as written, and how it becomes the
//! package's test: cases take their generator from the case, the bundle
//! or the test, and tasks their type from the task or the test.

use vstd::prelude::*;
use crate::schema::{NamedBundle, Test, TestBundle, TestCase, TestTask, TestTaskType};
use crate::text::{decimal, opt_view, string_views, usize_to_decimal};

verus! {

/// A case argument as written: null, a boolean, a number (as YAML prints
/// it), a string, or a nested sequence or mapping.
#[derive(Clone, Debug)]
pub enum RawArg {
    Null,
    Bool(bool),
    Number(String),
    Text(String),
    Nested,
}

/// A case as written: only arguments, or a generator and arguments.
#[derive(Clone, Debug)]
pub enum RawTestCase {
    Args(Vec<RawArg>),
    Full { generator_name: Option<String>, args: Vec<RawArg> },
}

/// A bundle as written.
#[derive(Clone, Debug)]
pub struct RawTestBundle {
    pub generator: Option<String>,
    pub cases: Vec<RawTestCase>,
}

/// A task as written; its type may be left to the test's.
#[derive(Clone, Debug)]
pub struct RawTestTask {
    pub name: String,
    pub official: bool,
    pub task_type: Option<TestTaskType>,
    pub bundles: Vec<String>,
    pub dependencies: Vec<String>,
    pub pass_programs: Vec<String>,
    pub fail_programs: Vec<String>,
    pub cases: Vec<TestCase>,
}

/// The `test` section as written, its bundles under their names.
#[derive(Clone, Debug)]
pub struct RawTest {
    pub generator: Option<String>,
    pub task_type: Option<TestTaskType>,
    pub bundles: Vec<(String, RawTestBundle)>,
    pub tasks: Vec<RawTestTask>,
}

/// An argument as a string: `null`, `true`/`false`, the number, or the
/// string; nested values have none.
pub open spec fn raw_arg_text(a: RawArg) -> Option<Seq<char>> {
    match a {
        RawArg::Null => Some("null"@),
        RawArg::Bool(b) => Some(
            if b {
                "true"@
            } else {
                "false"@
            },
        ),
        RawArg::Number(n) => Some(n@),
        RawArg::Text(s) => Some(s@),
        RawArg::Nested => None,
    }
}

/// `test.bundles.<bundle>.cases[<case>]`.
pub open spec fn case_place(bundle: Seq<char>, case_index: nat) -> Seq<char> {
    "test.bundles."@ + bundle + ".cases["@ + decimal(case_index) + "]"@
}

/// The first argument at or after `i` that is not a scalar.
pub open spec fn first_bad_arg_from(args: Seq<RawArg>, i: int) -> Option<int>
    decreases args.len() - i,
{
    if i < 0 || i >= args.len() {
        None
    } else if raw_arg_text(args[i]) is None {
        Some(i)
    } else {
        first_bad_arg_from(args, i + 1)
    }
}

/// The arguments as strings, or the error for the first that is not a
/// scalar.
pub open spec fn args_result(args: Seq<RawArg>, bundle: Seq<char>, case_index: nat) -> Result<
    Seq<Seq<char>>,
    Seq<char>,
> {
    match first_bad_arg_from(args, 0) {
        Some(i) => Err(
            case_place(bundle, case_index) + ".args["@ + decimal(i as nat)
                + "] must be a string, number, boolean, or null"@,
        ),
        None => Ok(args.map_values(|a: RawArg| raw_arg_text(a).unwrap())),
    }
}

/// A case as (generator, arguments), or the error it gives.
pub open spec fn case_result(c: RawTestCase, default_generator: Option<Seq<char>>, bundle: Seq<char>, case_index: nat) -> Result<
    (Seq<char>, Seq<Seq<char>>),
    Seq<char>,
> {
    match c {
        RawTestCase::Args(args) => match default_generator {
            None => Err(
                case_place(bundle, case_index)
                    + " uses args-only shorthand but no generator is declared for the case, bundle, or test"@,
            ),
            Some(g) => match args_result(args@, bundle, case_index) {
                Ok(a) => Ok((g, a)),
                Err(e) => Err(e),
            },
        },
        RawTestCase::Full { generator_name, args } => {
            let g = match opt_view(generator_name) {
                Some(g) => Some(g),
                None => default_generator,
            };
            match g {
                None => Err(
                    case_place(bundle, case_index)
                        + " is missing `generator` and no default generator is declared for the bundle or test"@,
                ),
                Some(g) => match args_result(args@, bundle, case_index) {
                    Ok(a) => Ok((g, a)),
                    Err(e) => Err(e),
                },
            }
        },
    }
}

/// A case as normalized.
pub open spec fn case_view(c: TestCase) -> (Seq<char>, Seq<Seq<char>>) {
    (c.generator_name@, string_views(c.args@))
}

/// Turns one argument into its string.
pub fn raw_arg_to_string(value: &RawArg) -> (r: Option<String>)
    ensures
        opt_view(r) == raw_arg_text(*value),
{
    match value {
        RawArg::Null => Some(String::from_str("null")),
        RawArg::Bool(b) => Some(
            if *b {
                String::from_str("true")
            } else {
                String::from_str("false")
            },
        ),
        RawArg::Number(n) => Some(n.clone()),
        RawArg::Text(s) => Some(s.clone()),
        RawArg::Nested => None,
    }
}

fn case_place_string(bundle_name: &String, case_index: usize) -> (s: String)
    ensures
        s@ == case_place(bundle_name@, case_index as nat),
{
    let mut s = String::from_str("test.bundles.");
    s.append(bundle_name.as_str());
    s.append(".cases[");
    let number = usize_to_decimal(case_index);
    s.append(number.as_str());
    s.append("]");
    s
}

/// Turns the arguments of a case into strings.
pub fn raw_args_to_strings(args: &Vec<RawArg>, bundle_name: &String, case_index: usize) -> (r: Result<
    Vec<String>,
    String,
>)
    ensures
        match (r, args_result(args@, bundle_name@, case_index as nat)) {
            (Ok(v), Ok(a)) => string_views(v@) == a,
            (Err(e), Err(m)) => e@ == m,
            _ => false,
        },
{
    let mut out: Vec<String> = Vec::new();
    let mut i: usize = 0;
    while i < args.len()
        invariant
            i <= args@.len(),
            first_bad_arg_from(args@, 0) == first_bad_arg_from(args@, i as int),
            forall|j: int| 0 <= j < i ==> raw_arg_text(#[trigger] args@[j]) is Some,
            out@.len() == i,
            forall|j: int| 0 <= j < i ==> Some((#[trigger] out@[j])@) == raw_arg_text(args@[j]),
        decreases args@.len() - i,
    {
        match raw_arg_to_string(&args[i]) {
            Some(s) => {
                out.push(s);
            },
            None => {
                let mut message = case_place_string(bundle_name, case_index);
                message.append(".args[");
                let number = usize_to_decimal(i);
                message.append(number.as_str());
                message.append("] must be a string, number, boolean, or null");
                return Err(message);
            },
        }
        i = i + 1;
    }
    assert(string_views(out@) =~= args@.map_values(|a: RawArg| raw_arg_text(a).unwrap())) by {
        assert forall|j: int| 0 <= j < out@.len() implies string_views(out@)[j] == args@.map_values(
            |a: RawArg| raw_arg_text(a).unwrap(),
        )[j] by {
            assert(Some(out@[j]@) == raw_arg_text(args@[j]));
        }
    }
    Ok(out)
}

/// Normalizes one case of bundle `bundle_name`.
pub fn normalize_test_case(
    case: &RawTestCase,
    default_generator: &Option<String>,
    bundle_name: &String,
    case_index: usize,
) -> (r: Result<TestCase, String>)
    ensures
        match (r, case_result(*case, opt_view(*default_generator), bundle_name@, case_index as nat)) {
            (Ok(c), Ok(v)) => case_view(c) == v,
            (Err(e), Err(m)) => e@ == m,
            _ => false,
        },
{
    let (generator, args) = match case {
        RawTestCase::Args(args) => match default_generator {
            None => {
                let mut message = case_place_string(bundle_name, case_index);
                message.append(
                    " uses args-only shorthand but no generator is declared for the case, bundle, or test",
                );
                return Err(message);
            },
            Some(g) => (g.clone(), args),
        },
        RawTestCase::Full { generator_name, args } => {
            let chosen = match generator_name {
                Some(g) => Some(g.clone()),
                None => match default_generator {
                    Some(g) => Some(g.clone()),
                    None => None,
                },
            };
            match chosen {
                None => {
                    let mut message = case_place_string(bundle_name, case_index);
                    message.append(
                        " is missing `generator` and no default generator is declared for the bundle or test",
                    );
                    return Err(message);
                },
                Some(g) => (g, args),
            }
        },
    };
    let strings = raw_args_to_strings(args, bundle_name, case_index)?;
    Ok(TestCase { generator_name: generator, args: strings })
}

/// A task's type: its own, else the test's; else the error for task
/// `index`.
pub open spec fn task_type_result(own: Option<TestTaskType>, default: Option<TestTaskType>, index: nat) -> Result<
    TestTaskType,
    Seq<char>,
> {
    match own {
        Some(t) => Ok(t),
        None => match default {
            Some(t) => Ok(t),
            None => Err(
                "test.tasks["@ + decimal(index) + "] is missing `type` and no default type is declared for test"@,
            ),
        },
    }
}

/// The normalized task keeps every field of the one written, with the
/// type it was given.
pub open spec fn task_kept(raw: RawTestTask, t: TestTask, ty: TestTaskType) -> bool {
    &&& t.name@ == raw.name@
    &&& t.official == raw.official
    &&& t.task_type == Some(ty)
    &&& string_views(t.bundles@) == string_views(raw.bundles@)
    &&& string_views(t.dependencies@) == string_views(raw.dependencies@)
    &&& string_views(t.pass_programs@) == string_views(raw.pass_programs@)
    &&& string_views(t.fail_programs@) == string_views(raw.fail_programs@)
    &&& t.cases@.len() == raw.cases@.len()
    &&& forall|i: int| 0 <= i < t.cases@.len() ==> case_view(#[trigger] t.cases@[i]) == case_view(raw.cases@[i])
}

/// Task `k` of the written section was normalized into `t`.
pub open spec fn task_normalized(raw: RawTest, k: int, t: TestTask) -> bool {
    match task_type_result(raw.tasks@[k].task_type, raw.task_type, k as nat) {
        Ok(ty) => task_kept(raw.tasks@[k], t, ty),
        Err(_) => false,
    }
}

fn clone_cases(cases: &Vec<TestCase>) -> (r: Vec<TestCase>)
    ensures
        r@.len() == cases@.len(),
        forall|i: int| 0 <= i < r@.len() ==> case_view(#[trigger] r@[i]) == case_view(cases@[i]),
{
    let mut r: Vec<TestCase> = Vec::new();
    let mut i: usize = 0;
    while i < cases.len()
        invariant
            i <= cases@.len(),
            r@.len() == i,
            forall|j: int| 0 <= j < i ==> case_view(#[trigger] r@[j]) == case_view(cases@[j]),
        decreases cases@.len() - i,
    {
        let c = TestCase {
            generator_name: cases[i].generator_name.clone(),
            args: crate::text::clone_strings(&cases[i].args),
        };
        r.push(c);
        i = i + 1;
    }
    r
}

/// Normalizes task `index`, giving it the test's type when it has none.
pub fn normalize_test_task(task: &RawTestTask, default_task_type: Option<TestTaskType>, index: usize) -> (r: Result<
    TestTask,
    String,
>)
    ensures
        match (r, task_type_result(task.task_type, default_task_type, index as nat)) {
            (Ok(t), Ok(ty)) => task_kept(*task, t, ty),
            (Err(e), Err(m)) => e@ == m,
            _ => false,
        },
{
    let ty = match task.task_type {
        Some(t) => t,
        None => match default_task_type {
            Some(t) => t,
            None => {
                let mut message = String::from_str("test.tasks[");
                let number = usize_to_decimal(index);
                message.append(number.as_str());
                message.append("] is missing `type` and no default type is declared for test");
                return Err(message);
            },
        },
    };
    Ok(
        TestTask {
            name: task.name.clone(),
            official: task.official,
            task_type: Some(ty),
            bundles: crate::text::clone_strings(&task.bundles),
            dependencies: crate::text::clone_strings(&task.dependencies),
            pass_programs: crate::text::clone_strings(&task.pass_programs),
            fail_programs: crate::text::clone_strings(&task.fail_programs),
            cases: clone_cases(&task.cases),
        },
    )
}

/// The generator a bundle's cases fall back to: the bundle's, else the
/// test's.
pub open spec fn bundle_default(raw: RawTest, b: RawTestBundle) -> Option<Seq<char>> {
    match opt_view(b.generator) {
        Some(g) => Some(g),
        None => opt_view(raw.generator),
    }
}

/// The first error among the cases of a bundle from case `k` on.
pub open spec fn bundle_error_from(raw: RawTest, name: Seq<char>, b: RawTestBundle, k: int) -> Option<Seq<char>>
    decreases b.cases@.len() - k,
{
    if k < 0 || k >= b.cases@.len() {
        None
    } else {
        match case_result(b.cases@[k], bundle_default(raw, b), name, k as nat) {
            Err(e) => Some(e),
            Ok(_) => bundle_error_from(raw, name, b, k + 1),
        }
    }
}

/// The first error among the bundles from bundle `k` on.
pub open spec fn bundles_error_from(raw: RawTest, k: int) -> Option<Seq<char>>
    decreases raw.bundles@.len() - k,
{
    if k < 0 || k >= raw.bundles@.len() {
        None
    } else {
        match bundle_error_from(raw, raw.bundles@[k].0@, raw.bundles@[k].1, 0) {
            Some(e) => Some(e),
            None => bundles_error_from(raw, k + 1),
        }
    }
}

/// The first error among the tasks from task `k` on.
pub open spec fn tasks_error_from(raw: RawTest, k: int) -> Option<Seq<char>>
    decreases raw.tasks@.len() - k,
{
    if k < 0 || k >= raw.tasks@.len() {
        None
    } else {
        match task_type_result(raw.tasks@[k].task_type, raw.task_type, k as nat) {
            Err(e) => Some(e),
            Ok(_) => tasks_error_from(raw, k + 1),
        }
    }
}

/// The error of the whole section: the bundles' first, else the tasks'.
pub open spec fn test_error(raw: RawTest) -> Option<Seq<char>> {
    match bundles_error_from(raw, 0) {
        Some(e) => Some(e),
        None => tasks_error_from(raw, 0),
    }
}

/// The normalized test is the written one, case by case and task by
/// task.
pub open spec fn test_normalized(raw: RawTest, t: Test) -> bool {
    &&& t.bundles@.len() == raw.bundles@.len()
    &&& forall|k: int|
        #![trigger t.bundles@[k]]
        0 <= k < t.bundles@.len() ==> {
            let nb = t.bundles@[k];
            let (name, rb) = raw.bundles@[k];
            &&& nb.name@ == name@
            &&& nb.bundle.cases@.len() == rb.cases@.len()
            &&& forall|i: int|
                0 <= i < nb.bundle.cases@.len() ==> case_result(rb.cases@[i], bundle_default(raw, rb), name@, i as nat)
                    == Ok::<(Seq<char>, Seq<Seq<char>>), Seq<char>>(case_view(#[trigger] nb.bundle.cases@[i]))
        }
    &&& t.tasks@.len() == raw.tasks@.len()
    &&& forall|k: int|
        #![trigger t.tasks@[k]]
        0 <= k < t.tasks@.len() ==> task_normalized(raw, k, t.tasks@[k])
}

fn normalize_bundle(raw: &RawTest, name: &String, bundle: &RawTestBundle) -> (r: Result<TestBundle, String>)
    ensures
        match r {
            Ok(b) => bundle_error_from(*raw, name@, *bundle, 0) is None && b.cases@.len() == bundle.cases@.len()
                && forall|i: int|
                0 <= i < b.cases@.len() ==> case_result(bundle.cases@[i], bundle_default(*raw, *bundle), name@, i as nat)
                    == Ok::<(Seq<char>, Seq<Seq<char>>), Seq<char>>(case_view(#[trigger] b.cases@[i])),
            Err(e) => bundle_error_from(*raw, name@, *bundle, 0) == Some(e@),
        },
{
    let default_generator = match &bundle.generator {
        Some(g) => Some(g.clone()),
        None => match &raw.generator {
            Some(g) => Some(g.clone()),
            None => None,
        },
    };
    proof {
        assert(opt_view(default_generator) == bundle_default(*raw, *bundle));
    }
    let mut cases: Vec<TestCase> = Vec::new();
    let mut i: usize = 0;
    while i < bundle.cases.len()
        invariant
            i <= bundle.cases@.len(),
            opt_view(default_generator) == bundle_default(*raw, *bundle),
            bundle_error_from(*raw, name@, *bundle, 0) == bundle_error_from(*raw, name@, *bundle, i as int),
            cases@.len() == i,
            forall|j: int|
                0 <= j < i ==> case_result(bundle.cases@[j], bundle_default(*raw, *bundle), name@, j as nat)
                    == Ok::<(Seq<char>, Seq<Seq<char>>), Seq<char>>(case_view(#[trigger] cases@[j])),
        decreases bundle.cases@.len() - i,
    {
        let c = normalize_test_case(&bundle.cases[i], &default_generator, name, i)?;
        cases.push(c);
        i = i + 1;
    }
    Ok(TestBundle { cases })
}

/// Normalizes the `test` section: every case gets a generator and every
/// task a type; the first case or task that cannot is the error.
pub fn normalize_test(raw: &RawTest) -> (r: Result<Test, String>)
    ensures
        match r {
            Ok(t) => test_error(*raw) is None && test_normalized(*raw, t),
            Err(e) => test_error(*raw) == Some(e@),
        },
{
    let mut bundles: Vec<NamedBundle> = Vec::new();
    let mut k: usize = 0;
    while k < raw.bundles.len()
        invariant
            k <= raw.bundles@.len(),
            bundles_error_from(*raw, 0) == bundles_error_from(*raw, k as int),
            bundles@.len() == k,
            forall|j: int|
                #![trigger bundles@[j]]
                0 <= j < k ==> {
                    let nb = bundles@[j];
                    let (name, rb) = raw.bundles@[j];
                    &&& nb.name@ == name@
                    &&& nb.bundle.cases@.len() == rb.cases@.len()
                    &&& forall|i: int|
                        0 <= i < nb.bundle.cases@.len() ==> case_result(
                            rb.cases@[i],
                            bundle_default(*raw, rb),
                            name@,
                            i as nat,
                        ) == Ok::<(Seq<char>, Seq<Seq<char>>), Seq<char>>(case_view(#[trigger] nb.bundle.cases@[i]))
                },
        decreases raw.bundles@.len() - k,
    {
        let bundle = match normalize_bundle(raw, &raw.bundles[k].0, &raw.bundles[k].1) {
            Ok(b) => b,
            Err(e) => {
                return Err(e);
            },
        };
        bundles.push(NamedBundle { name: raw.bundles[k].0.clone(), bundle });
        k = k + 1;
    }
    let mut tasks: Vec<TestTask> = Vec::new();
    let mut t: usize = 0;
    while t < raw.tasks.len()
        invariant
            t <= raw.tasks@.len(),
            bundles_error_from(*raw, 0) is None,
            tasks_error_from(*raw, 0) == tasks_error_from(*raw, t as int),
            tasks@.len() == t,
            forall|j: int| 0 <= j < t ==> task_normalized(*raw, j, #[trigger] tasks@[j]),
        decreases raw.tasks@.len() - t,
    {
        let task = normalize_test_task(&raw.tasks[t], raw.task_type, t)?;
        let ghost before = tasks@;
        tasks.push(task);
        proof {
            assert forall|j: int| 0 <= j < t + 1 implies task_normalized(*raw, j, #[trigger] tasks@[j]) by {
                if j < t {
                    assert(tasks@[j] == before[j]);
                }
            }
        }
        t = t + 1;
    }
    Ok(Test { bundles, tasks })
}

} // verus!
