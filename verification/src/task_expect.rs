//! Expect tasks: tasks that name programs which must pass, or must fail,
//! on the task's cases; selecting them and grouping their cases by the
//! generator that produces the inputs.

use vstd::prelude::*;
use crate::data::{bundle_index_from, find_bundle};
use crate::export::syzoj::missing_bundle_from;
use crate::schema::{Problem, TestCase, TestTask};
use crate::stress_plan::StressPlanFilter;
use crate::text::string_views;
use crate::time::Duration;

verus! {

/// Options of a run of expect tasks.
#[derive(Clone, Debug)]
pub struct TaskExpectOptions {
    pub work_dir: String,
    pub name: Option<String>,
    pub failure_dir: Option<String>,
    pub output_limit_bytes: usize,
    pub summary_only: bool,
    pub generation_lock_timeout: Option<Duration>,
}

/// A task names programs that must pass or fail its cases.
pub open spec fn has_expectations(t: TestTask) -> bool {
    t.pass_programs@.len() > 0 || t.fail_programs@.len() > 0
}

/// A filter keeps a task: any expectation, pass programs, or fail programs.
pub open spec fn task_matches(t: TestTask, filter: StressPlanFilter) -> bool {
    match filter {
        StressPlanFilter::All => has_expectations(t),
        StressPlanFilter::PositiveOnly => t.pass_programs@.len() > 0,
        StressPlanFilter::NegativeOnly => t.fail_programs@.len() > 0,
    }
}

/// Whether a filter keeps a task.
pub fn task_matches_filter(task: &TestTask, filter: StressPlanFilter) -> (b: bool)
    ensures
        b == task_matches(*task, filter),
{
    match filter {
        StressPlanFilter::All => task.has_expectations(),
        StressPlanFilter::PositiveOnly => task.pass_programs.len() > 0,
        StressPlanFilter::NegativeOnly => task.fail_programs.len() > 0,
    }
}

/// The index of the first task at or after `i` with the given name.
pub open spec fn task_named_from(tasks: Seq<TestTask>, name: Seq<char>, i: int) -> Option<int>
    decreases tasks.len() - i,
{
    if i < 0 || i >= tasks.len() {
        None
    } else if tasks[i].name@ == name {
        Some(i)
    } else {
        task_named_from(tasks, name, i + 1)
    }
}

/// The tasks a filter keeps, in order.
pub open spec fn matching_tasks(tasks: Seq<TestTask>, filter: StressPlanFilter) -> Seq<TestTask>
    decreases tasks.len(),
{
    if tasks.len() == 0 {
        Seq::empty()
    } else if task_matches(tasks.last(), filter) {
        matching_tasks(tasks.drop_last(), filter).push(tasks.last())
    } else {
        matching_tasks(tasks.drop_last(), filter)
    }
}

/// The tasks as values.
pub open spec fn task_values(v: Seq<&TestTask>) -> Seq<TestTask> {
    v.map_values(|t: &TestTask| *t)
}

/// The first task with the given name.
pub fn find_task(tasks: &[TestTask], name: &str) -> (r: Option<usize>)
    ensures
        match r {
            Some(i) => i < tasks@.len() && task_named_from(tasks@, name@, 0) == Some(i as int),
            None => task_named_from(tasks@, name@, 0) is None,
        },
{
    let target = name.to_string();
    let mut i: usize = 0;
    while i < tasks.len()
        invariant
            i <= tasks@.len(),
            target@ == name@,
            task_named_from(tasks@, name@, 0) == task_named_from(tasks@, name@, i as int),
        decreases tasks@.len() - i,
    {
        if tasks[i].name == target {
            return Some(i);
        }
        i = i + 1;
    }
    None
}

/// The tasks a filter keeps.
pub fn filter_tasks<'a>(tasks: &'a [TestTask], filter: StressPlanFilter) -> (v: Vec<&'a TestTask>)
    ensures
        task_values(v@) == matching_tasks(tasks@, filter),
{
    let mut selected: Vec<&'a TestTask> = Vec::new();
    let mut i: usize = 0;
    while i < tasks.len()
        invariant
            i <= tasks@.len(),
            task_values(selected@) == matching_tasks(tasks@.take(i as int), filter),
        decreases tasks@.len() - i,
    {
        let ghost before = task_values(selected@);
        assert(tasks@.take(i + 1).drop_last() == tasks@.take(i as int));
        assert(tasks@.take(i + 1).last() == tasks@[i as int]);
        if task_matches_filter(&tasks[i], filter) {
            selected.push(&tasks[i]);
            assert(task_values(selected@) =~= before.push(tasks@[i as int]));
        }
        i = i + 1;
    }
    assert(tasks@.take(i as int) == tasks@);
    selected
}

/// Selects the expect tasks of a stress run: the one named, which must
/// match the filter (none when no task has the name), or every task the
/// filter keeps.
pub fn select_filtered_tasks<'a>(
    tasks: &'a [TestTask],
    name: Option<&str>,
    filter: StressPlanFilter,
) -> (r: Result<Vec<&'a TestTask>, String>)
    ensures
        match name {
            Some(n) => match task_named_from(tasks@, n@, 0) {
                Some(i) => if task_matches(tasks@[i], filter) {
                    r is Ok && task_values(r->Ok_0@) == seq![tasks@[i]]
                } else {
                    r is Err && r->Err_0@ == "expect task `"@ + n@
                        + "` does not match selected expectation filter"@
                },
                None => r is Ok && r->Ok_0@.len() == 0,
            },
            None => r is Ok && task_values(r->Ok_0@) == matching_tasks(tasks@, filter),
        },
{
    match name {
        Some(n) => {
            match find_task(tasks, n) {
                Some(i) => {
                    if task_matches_filter(&tasks[i], filter) {
                        let v = vec![&tasks[i]];
                        assert(task_values(v@) =~= seq![tasks@[i as int]]);
                        Ok(v)
                    } else {
                        let mut s = String::from_str("expect task `");
                        s.append(n);
                        s.append("` does not match selected expectation filter");
                        proof {
                            reveal_strlit("expect task `");
                            reveal_strlit("` does not match selected expectation filter");
                        }
                        Err(s)
                    }
                },
                None => Ok(Vec::new()),
            }
        },
        None => Ok(filter_tasks(tasks, filter)),
    }
}

/// Selects the expect tasks to run: the one named, which must have pass or
/// fail programs, or every task that has them (at least one).
pub fn select_expect_tasks<'a>(tasks: &'a [TestTask], name: Option<&str>) -> (r: Result<
    Vec<&'a TestTask>,
    String,
>)
    ensures
        match name {
            Some(n) => match task_named_from(tasks@, n@, 0) {
                Some(i) => if has_expectations(tasks@[i]) {
                    r is Ok && task_values(r->Ok_0@) == seq![tasks@[i]]
                } else {
                    r is Err && r->Err_0@ == "expect task `"@ + n@ + "` has no pass or fail checks"@
                },
                None => r is Err && r->Err_0@ == "expect task `"@ + n@ + "` not found"@,
            },
            None => if matching_tasks(tasks@, StressPlanFilter::All).len() == 0 {
                r is Err && r->Err_0@ == "problem.yaml has no test.tasks with pass or fail checks"@
            } else {
                r is Ok && task_values(r->Ok_0@) == matching_tasks(tasks@, StressPlanFilter::All)
            },
        },
{
    proof {
        reveal_strlit("expect task `");
        reveal_strlit("` has no pass or fail checks");
        reveal_strlit("` not found");
        reveal_strlit("problem.yaml has no test.tasks with pass or fail checks");
    }
    match name {
        Some(n) => {
            match find_task(tasks, n) {
                Some(i) => {
                    if tasks[i].has_expectations() {
                        let v = vec![&tasks[i]];
                        assert(task_values(v@) =~= seq![tasks@[i as int]]);
                        Ok(v)
                    } else {
                        let mut s = String::from_str("expect task `");
                        s.append(n);
                        s.append("` has no pass or fail checks");
                        Err(s)
                    }
                },
                None => {
                    let mut s = String::from_str("expect task `");
                    s.append(n);
                    s.append("` not found");
                    Err(s)
                },
            }
        },
        None => {
            let selected = filter_tasks(tasks, StressPlanFilter::All);
            if selected.len() == 0 {
                Err(String::from_str("problem.yaml has no test.tasks with pass or fail checks"))
            } else {
                Ok(selected)
            }
        },
    }
}

/// The cases of an expect task that one generator produces, in a row.
#[derive(Clone, Debug)]
pub struct TaskCaseGroup {
    pub generator_name: String,
    pub args_by_case: Vec<Vec<String>>,
}

/// The cases of a list of groups, each with its generator, in order.
pub open spec fn group_cases(groups: Seq<TaskCaseGroup>) -> Seq<(Seq<char>, Seq<Seq<char>>)>
    decreases groups.len(),
{
    if groups.len() == 0 {
        Seq::empty()
    } else {
        group_cases(groups.drop_last()) + tagged_cases(
            groups.last().generator_name@,
            groups.last().args_by_case@,
        )
    }
}

/// Cases, each tagged with the generator that produces its input.
pub open spec fn tagged_cases(generator: Seq<char>, args: Seq<Vec<String>>) -> Seq<
    (Seq<char>, Seq<Seq<char>>),
> {
    args.map_values(|a: Vec<String>| (generator, string_views(a@)))
}

/// Every group has cases, and neighbouring groups have different
/// generators.
pub open spec fn groups_wf(groups: Seq<TaskCaseGroup>) -> bool {
    &&& forall|i: int| 0 <= i < groups.len() ==> (#[trigger] groups[i]).args_by_case@.len() > 0
    &&& forall|i: int|
        0 <= i < groups.len() - 1 ==> (#[trigger] groups[i]).generator_name@ != groups[i
            + 1].generator_name@
}

/// Adds cases of one generator after the existing ones: into the last
/// group when it has the same generator, else as a new group; no cases,
/// no change.
pub fn push_case_group(
    groups: &mut Vec<TaskCaseGroup>,
    generator_name: &str,
    args: Vec<Vec<String>>,
)
    ensures
        group_cases(final(groups)@) == group_cases(old(groups)@) + tagged_cases(
            generator_name@,
            args@,
        ),
        groups_wf(old(groups)@) ==> groups_wf(final(groups)@),
{
    let ghost old_groups = groups@;
    if args.len() == 0 {
        assert(tagged_cases(generator_name@, args@) =~= Seq::empty());
        assert(group_cases(old_groups) + Seq::empty() =~= group_cases(old_groups));
        return;
    }
    let name = generator_name.to_string();
    let n = groups.len();
    if n > 0 && groups[n - 1].generator_name == name {
        let mut last = groups.pop().unwrap();
        assert(old_groups.drop_last() == groups@);
        let ghost last_args = last.args_by_case@;
        let mut more = args;
        last.args_by_case.append(&mut more);
        groups.push(last);
        proof {
            let g = groups@;
            assert(g.drop_last() == old_groups.drop_last());
            assert(tagged_cases(generator_name@, last_args + args@) =~= tagged_cases(
                generator_name@,
                last_args,
            ) + tagged_cases(generator_name@, args@));
            assert(group_cases(g) =~= group_cases(old_groups) + tagged_cases(
                generator_name@,
                args@,
            ));
            if groups_wf(old_groups) {
                assert forall|i: int| 0 <= i < g.len() implies (#[trigger] g[i]).args_by_case@.len()
                    > 0 by {
                    if i < g.len() - 1 {
                        assert(g[i] == old_groups[i]);
                    }
                }
                assert forall|i: int| 0 <= i < g.len() - 1 implies (#[trigger] g[i]).generator_name@
                    != g[i + 1].generator_name@ by {
                    assert(g[i] == old_groups[i]);
                    assert(g[i + 1].generator_name@ == old_groups[i + 1].generator_name@);
                }
            }
        }
    } else {
        let group = TaskCaseGroup { generator_name: name, args_by_case: args };
        groups.push(group);
        proof {
            let g = groups@;
            assert(g.drop_last() == old_groups);
            assert(g.last() == group);
            if groups_wf(old_groups) {
                assert forall|i: int| 0 <= i < g.len() implies (#[trigger] g[i]).args_by_case@.len()
                    > 0 by {
                    if i < g.len() - 1 {
                        assert(g[i] == old_groups[i]);
                    }
                }
                assert forall|i: int| 0 <= i < g.len() - 1 implies (#[trigger] g[i]).generator_name@
                    != g[i + 1].generator_name@ by {
                    assert(g[i] == old_groups[i]);
                    if i + 1 < g.len() - 1 {
                        assert(g[i + 1] == old_groups[i + 1]);
                    }
                }
            }
        }
    }
}

} // verus!

verus! {

/// An expect task must score by `min`.
pub open spec fn task_type_error(t: TestTask) -> Option<Seq<char>> {
    match t.task_type {
        Some(crate::schema::TestTaskType::Sum) => Some(
            "expect task `"@ + t.name@ + "` has type `sum`; test expect tasks must use `min`"@,
        ),
        _ => None,
    }
}

/// Checks that an expect task scores by `min`, or has no type.
pub fn check_expect_task_type(task: &TestTask) -> (r: Result<(), String>)
    ensures
        match r {
            Ok(()) => task_type_error(*task) is None,
            Err(e) => task_type_error(*task) == Some(e@),
        },
{
    match task.task_type {
        Some(crate::schema::TestTaskType::Sum) => {
            let mut s = String::from_str("expect task `");
            s.append(task.name.as_str());
            s.append("` has type `sum`; test expect tasks must use `min`");
            Err(s)
        },
        _ => Ok(()),
    }
}

/// The name of the comparison of a task's solution with one of its
/// programs: `task:pass:program` or `task:fail:program`.
pub open spec fn task_check_name(task: Seq<char>, fail: bool, program: Seq<char>) -> Seq<char> {
    task + (if fail {
        ":fail:"@
    } else {
        ":pass:"@
    }) + program
}

/// Names the comparison of a task's solution with one of its programs.
pub fn task_check_label(task: &String, fail: bool, program: &String) -> (s: String)
    ensures
        s@ == task_check_name(task@, fail, program@),
{
    let mut s = task.clone();
    if fail {
        s.append(":fail:");
    } else {
        s.append(":pass:");
    }
    s.append(program.as_str());
    s
}

/// A comparison an expect task asks for: a program, the group of cases it
/// runs on, and its name.
#[derive(Clone, Debug)]
pub struct TaskPassRun {
    pub program: String,
    pub group: usize,
    pub check_name: String,
}

/// The comparisons of the pass programs: each program on each group of
/// cases, program by program.
pub open spec fn pass_runs_spec(task: TestTask, groups: nat) -> Seq<(Seq<char>, nat, Seq<char>)> {
    Seq::new(
        (task.pass_programs@.len() * groups) as nat,
        |k: int|
            (
                task.pass_programs@[k / groups as int]@,
                (k % groups as int) as nat,
                task_check_name(task.name@, false, task.pass_programs@[k / groups as int]@),
            ),
    )
}

/// Lists the comparisons of a task's pass programs over `groups` groups
/// of cases.
pub fn task_pass_runs(task: &TestTask, groups: usize) -> (v: Vec<TaskPassRun>)
    requires
        task.pass_programs@.len() * groups <= usize::MAX,
    ensures
        v@.map_values(|r: TaskPassRun| (r.program@, r.group as nat, r.check_name@)) == pass_runs_spec(*task, groups as nat),
{
    let mut v: Vec<TaskPassRun> = Vec::new();
    let mut p: usize = 0;
    let ghost want = pass_runs_spec(*task, groups as nat);
    while p < task.pass_programs.len()
        invariant
            p <= task.pass_programs@.len(),
            task.pass_programs@.len() * groups <= usize::MAX,
            want == pass_runs_spec(*task, groups as nat),
            v@.len() == p * groups,
            forall|k: int|
                0 <= k < v@.len() ==> ((#[trigger] v@[k]).program@, v@[k].group as nat, v@[k].check_name@) == want[k],
        decreases task.pass_programs@.len() - p,
    {
        let mut g: usize = 0;
        while g < groups
            invariant
                p < task.pass_programs@.len(),
                task.pass_programs@.len() * groups <= usize::MAX,
                want == pass_runs_spec(*task, groups as nat),
                g <= groups,
                v@.len() == p * groups + g,
                forall|k: int|
                    0 <= k < v@.len() ==> ((#[trigger] v@[k]).program@, v@[k].group as nat, v@[k].check_name@)
                        == want[k],
            decreases groups - g,
        {
            proof {
                assert(p * groups + g < (p + 1) * groups) by (nonlinear_arith)
                    requires
                        g < groups,
                ;
                assert((p + 1) * groups <= task.pass_programs@.len() * groups) by (nonlinear_arith)
                    requires
                        p + 1 <= task.pass_programs@.len(),
                ;
                let k = p * groups + g;
                assert(k / groups as int == p && k % groups as int == g) by (nonlinear_arith)
                    requires
                        k == p * groups + g,
                        0 <= g < groups,
                ;
            }
            let run = TaskPassRun {
                program: task.pass_programs[p].clone(),
                group: g,
                check_name: task_check_label(&task.name, false, &task.pass_programs[p]),
            };
            v.push(run);
            g = g + 1;
        }
        proof {
            assert(p * groups + groups == (p + 1) * groups) by (nonlinear_arith);
        }
        p = p + 1;
    }
    proof {
        assert(v@.map_values(|r: TaskPassRun| (r.program@, r.group as nat, r.check_name@)) =~= want);
    }
    v
}

/// A fail program must fail on some group of cases.
pub open spec fn fail_program_error(task: Seq<char>, program: Seq<char>, observed: bool) -> Option<Seq<char>> {
    if observed {
        None
    } else {
        Some("fail program `"@ + program + "` passed all cases in task `"@ + task + "`"@)
    }
}

/// Checks that a fail program was seen failing.
pub fn check_fail_program(task: &String, program: &String, observed: bool) -> (r: Result<(), String>)
    ensures
        match r {
            Ok(()) => fail_program_error(task@, program@, observed) is None,
            Err(e) => fail_program_error(task@, program@, observed) == Some(e@),
        },
{
    if observed {
        return Ok(());
    }
    let mut s = String::from_str("fail program `");
    s.append(program.as_str());
    s.append("` passed all cases in task `");
    s.append(task.as_str());
    s.append("`");
    Err(s)
}

/// A case as a row: its generator and its arguments.
pub open spec fn case_row(c: TestCase) -> (Seq<char>, Seq<Seq<char>>) {
    (c.generator_name@, string_views(c.args@))
}

/// The rows of the cases of the first `k` bundles a task names, each the
/// first bundle of that name.
pub open spec fn bundle_rows(p: Problem, bundles: Seq<String>, k: int) -> Seq<(Seq<char>, Seq<Seq<char>>)>
    decreases k,
{
    if k <= 0 || k > bundles.len() {
        Seq::empty()
    } else {
        bundle_rows(p, bundles, k - 1) + match bundle_index_from(p.test.bundles@, bundles[k - 1]@, 0) {
            Some(b) => p.test.bundles@[b].bundle.cases@.map_values(|c: TestCase| case_row(c)),
            None => Seq::empty(),
        }
    }
}

/// The rows of a task: the cases of its bundles, then its own cases.
pub open spec fn task_rows(p: Problem, t: TestTask) -> Seq<(Seq<char>, Seq<Seq<char>>)> {
    bundle_rows(p, t.bundles@, t.bundles@.len() as int) + t.cases@.map_values(|c: TestCase| case_row(c))
}

/// The error of a task that names a missing bundle: the first one.
pub open spec fn task_bundle_error(p: Problem, t: TestTask) -> Option<Seq<char>> {
    match missing_bundle_from(p, t.bundles@, 0) {
        Some(b) => Some("bundle `"@ + b + "` not found"@),
        None => None,
    }
}

/// Adds the rows of cases to the groups, one case at a time.
fn push_case_rows(groups: &mut Vec<TaskCaseGroup>, cases: &Vec<TestCase>)
    ensures
        group_cases(final(groups)@) == group_cases(old(groups)@) + cases@.map_values(|c: TestCase| case_row(c)),
        groups_wf(old(groups)@) ==> groups_wf(final(groups)@),
{
    let ghost start = group_cases(groups@);
    let ghost wf = groups_wf(groups@);
    let mut c: usize = 0;
    while c < cases.len()
        invariant
            c <= cases@.len(),
            group_cases(groups@) == start + cases@.take(c as int).map_values(|x: TestCase| case_row(x)),
            wf ==> groups_wf(groups@),
        decreases cases@.len() - c,
    {
        let row = vec![crate::text::clone_strings(&cases[c].args)];
        push_case_group(groups, cases[c].generator_name.as_str(), row);
        proof {
            assert(tagged_cases(cases@[c as int].generator_name@, row@) =~= seq![case_row(cases@[c as int])]);
            assert(cases@.take(c + 1).map_values(|x: TestCase| case_row(x)) =~= cases@.take(c as int).map_values(
                |x: TestCase| case_row(x),
            ).push(case_row(cases@[c as int])));
        }
        c = c + 1;
    }
    assert(cases@.take(c as int) =~= cases@);
}

/// The groups of an expect task's cases: the cases of its bundles, then
/// its own, in order, neighbouring cases of one generator in one group;
/// or the error of the first bundle it names that is missing.
pub fn task_case_groups(p: &Problem, t: &TestTask) -> (r: Result<Vec<TaskCaseGroup>, String>)
    ensures
        match r {
            Ok(groups) => task_bundle_error(*p, *t) is None && group_cases(groups@) == task_rows(*p, *t)
                && groups_wf(groups@),
            Err(e) => task_bundle_error(*p, *t) == Some(e@),
        },
{
    proof {
        reveal_strlit("bundle `");
        reveal_strlit("` not found");
    }
    let mut groups: Vec<TaskCaseGroup> = Vec::new();
    let ghost bundles = t.bundles@;
    let mut b: usize = 0;
    proof {
        assert(group_cases(groups@) =~= bundle_rows(*p, bundles, 0));
    }
    while b < t.bundles.len()
        invariant
            b <= bundles.len(),
            bundles == t.bundles@,
            missing_bundle_from(*p, bundles, 0) == missing_bundle_from(*p, bundles, b as int),
            group_cases(groups@) == bundle_rows(*p, bundles, b as int),
            groups_wf(groups@),
        decreases bundles.len() - b,
    {
        match find_bundle(p, &t.bundles[b]) {
            Some(k) => {
                push_case_rows(&mut groups, &p.test.bundles[k].bundle.cases);
            },
            None => {
                let mut s = String::from_str("bundle `");
                s.append(t.bundles[b].as_str());
                s.append("` not found");
                return Err(s);
            },
        }
        b = b + 1;
    }
    push_case_rows(&mut groups, &t.cases);
    Ok(groups)
}

/// The rows of `rows`, among the first `k`, of a generator: their
/// arguments, in order.
pub open spec fn rows_of(rows: Seq<(Seq<char>, Seq<Seq<char>>)>, generator: Seq<char>, k: int) -> Seq<Seq<Seq<char>>>
    decreases k,
{
    if k <= 0 || k > rows.len() {
        Seq::empty()
    } else {
        rows_of(rows, generator, k - 1) + if rows[k - 1].0 == generator {
            seq![rows[k - 1].1]
        } else {
            Seq::empty()
        }
    }
}

/// The cases of a task's bundles grouped by generator: one group per
/// generator, in the order of the generators' names, each with the
/// arguments of its cases in order.
pub open spec fn generator_groups(p: Problem, t: TestTask) -> Seq<(Seq<char>, Seq<Seq<Seq<char>>>)> {
    let rows = bundle_rows(p, t.bundles@, t.bundles@.len() as int);
    let order = crate::problem_yaml::name_order(rows.map_values(|r: (Seq<char>, Seq<Seq<char>>)| r.0));
    Seq::new(order.len(), |g: int| (order[g], rows_of(rows, order[g], rows.len() as int)))
}

/// A group as a generator and its rows.
pub open spec fn group_view(g: TaskCaseGroup) -> (Seq<char>, Seq<Seq<Seq<char>>>) {
    (g.generator_name@, g.args_by_case@.map_values(|a: Vec<String>| string_views(a@)))
}

/// Groups the cases of a task's bundles by generator, in the order of the
/// generators' names; or the error of the first bundle it names that is
/// missing.
pub fn cases_by_generator(p: &Problem, t: &TestTask) -> (r: Result<Vec<TaskCaseGroup>, String>)
    ensures
        match r {
            Ok(groups) => task_bundle_error(*p, *t) is None && groups@.map_values(|g: TaskCaseGroup| group_view(g))
                == generator_groups(*p, *t),
            Err(e) => task_bundle_error(*p, *t) == Some(e@),
        },
{
    proof {
        reveal_strlit("bundle `");
        reveal_strlit("` not found");
    }
    let ghost bundles = t.bundles@;
    let mut generators: Vec<String> = Vec::new();
    let mut rows: Vec<Vec<String>> = Vec::new();
    let mut b: usize = 0;
    while b < t.bundles.len()
        invariant
            b <= bundles.len(),
            bundles == t.bundles@,
            missing_bundle_from(*p, bundles, 0) == missing_bundle_from(*p, bundles, b as int),
            generators@.len() == rows@.len(),
            bundle_rows(*p, bundles, b as int).len() == rows@.len(),
            forall|i: int|
                0 <= i < rows@.len() ==> (#[trigger] bundle_rows(*p, bundles, b as int)[i]) == (
                generators@[i]@,
                string_views(rows@[i]@),
            ),
        decreases bundles.len() - b,
    {
        match find_bundle(p, &t.bundles[b]) {
            Some(k) => {
                let cases = &p.test.bundles[k].bundle.cases;
                let ghost before = bundle_rows(*p, bundles, b as int);
                let ghost added = cases@.map_values(|c: TestCase| case_row(c));
                assert(bundle_rows(*p, bundles, b + 1) == before + added);
                let mut c: usize = 0;
                while c < cases.len()
                    invariant
                        c <= cases@.len(),
                        added == cases@.map_values(|x: TestCase| case_row(x)),
                        generators@.len() == rows@.len(),
                        rows@.len() == before.len() + c,
                        forall|i: int|
                            0 <= i < rows@.len() ==> (#[trigger] (before + added)[i]) == (
                            generators@[i]@,
                            string_views(rows@[i]@),
                        ),
                    decreases cases@.len() - c,
                {
                    let ghost g0 = generators@;
                    let ghost r0 = rows@;
                    generators.push(cases[c].generator_name.clone());
                    rows.push(crate::text::clone_strings(&cases[c].args));
                    assert forall|i: int|
                        0 <= i < rows@.len() implies (#[trigger] (before + added)[i]) == (
                        generators@[i]@,
                        string_views(rows@[i]@),
                    ) by {
                        if i < r0.len() {
                            assert(generators@[i] == g0[i]);
                            assert(rows@[i] == r0[i]);
                        } else {
                            assert((before + added)[i] == added[c as int]);
                        }
                    }
                    c = c + 1;
                }
            },
            None => {
                let mut s = String::from_str("bundle `");
                s.append(t.bundles[b].as_str());
                s.append("` not found");
                return Err(s);
            },
        }
        b = b + 1;
    }
    let ghost all = bundle_rows(*p, bundles, bundles.len() as int);
    let ghost gens = all.map_values(|r: (Seq<char>, Seq<Seq<char>>)| r.0);
    proof {
        assert(string_views(generators@) =~= gens) by {
            assert forall|i: int| 0 <= i < gens.len() implies string_views(generators@)[i] == gens[i] by {
                assert(all[i] == (generators@[i]@, string_views(rows@[i]@)));
            }
        }
    }
    let order = crate::problem_yaml::sorted_names(&generators);
    let ghost ov = string_views(order@);
    let mut groups: Vec<TaskCaseGroup> = Vec::new();
    let mut g: usize = 0;
    while g < order.len()
        invariant
            g <= order@.len(),
            ov == string_views(order@),
            ov == crate::problem_yaml::name_order(gens),
            gens == all.map_values(|r: (Seq<char>, Seq<Seq<char>>)| r.0),
            generator_groups(*p, *t) == Seq::new(ov.len(), |h: int| (ov[h], rows_of(all, ov[h], all.len() as int))),
            all.len() == rows@.len(),
            generators@.len() == rows@.len(),
            forall|i: int| 0 <= i < rows@.len() ==> (#[trigger] all[i]) == (generators@[i]@, string_views(rows@[i]@)),
            groups@.len() == g,
            forall|h: int| 0 <= h < g ==> group_view(#[trigger] groups@[h]) == generator_groups(*p, *t)[h],
        decreases order@.len() - g,
    {
        let mut picked: Vec<Vec<String>> = Vec::new();
        let mut i: usize = 0;
        while i < rows.len()
            invariant
                g < order@.len(),
                i <= rows@.len(),
                all.len() == rows@.len(),
                generators@.len() == rows@.len(),
                forall|j: int| 0 <= j < rows@.len() ==> (#[trigger] all[j]) == (generators@[j]@, string_views(rows@[j]@)),
                picked@.map_values(|a: Vec<String>| string_views(a@)) == rows_of(all, order@[g as int]@, i as int),
            decreases rows@.len() - i,
        {
            let ghost before = picked@;
            if generators[i] == order[g] {
                picked.push(crate::text::clone_strings(&rows[i]));
                assert(picked@.map_values(|a: Vec<String>| string_views(a@)) =~= before.map_values(
                    |a: Vec<String>| string_views(a@),
                ).push(string_views(rows@[i as int]@)));
            }
            assert(all[i as int] == (generators@[i as int]@, string_views(rows@[i as int]@)));
            i = i + 1;
        }
        let group = TaskCaseGroup { generator_name: order[g].clone(), args_by_case: picked };
        let ghost g0 = groups@;
        groups.push(group);
        assert forall|h: int| 0 <= h < g + 1 implies group_view(#[trigger] groups@[h]) == generator_groups(*p, *t)[h] by {
            if h < g {
                assert(groups@[h] == g0[h]);
            } else {
                assert(ov[h] == order@[h]@);
            }
        }
        g = g + 1;
    }
    assert(groups@.map_values(|x: TaskCaseGroup| group_view(x)) =~= generator_groups(*p, *t));
    Ok(groups)
}

} // verus!
