//! Export to SYZOJ: the numbered data files, the subtasks with their cases
//! and dependencies, and the special judge.

use vstd::prelude::*;
use crate::data::{bundle_index_from, find_bundle};
use crate::explain::{program_index_from, program_position};
use crate::schema::{Problem, ProgramInfo, TestTaskType};
use crate::text::{decimal, opt_view, string_views, usize_to_decimal};

verus! {

/// The languages SYZOJ runs a special judge in.
#[derive(Clone, Copy, Debug, PartialEq, Eq, Structural)]
pub enum ProgramType {
    Cpp,
}

/// How SYZOJ combines the cases of a subtask into its score.
#[derive(Clone, Copy, Debug, PartialEq, Eq, Structural)]
pub enum SubtaskType {
    Sum,
    Min,
    Mul,
}

impl From<TestTaskType> for SubtaskType {
    fn from(task_type: TestTaskType) -> (r: SubtaskType) {
        match task_type {
            TestTaskType::Sum => SubtaskType::Sum,
            TestTaskType::Min => SubtaskType::Min,
        }
    }
}

impl vstd::std_specs::convert::FromSpecImpl<TestTaskType> for SubtaskType {
    open spec fn obeys_from_spec() -> bool {
        true
    }

    open spec fn from_spec(task_type: TestTaskType) -> SubtaskType {
        match task_type {
            TestTaskType::Sum => SubtaskType::Sum,
            TestTaskType::Min => SubtaskType::Min,
        }
    }
}

/// The subtask type a task type becomes.
pub open spec fn subtask_type_of(t: TestTaskType) -> SubtaskType {
    match t {
        TestTaskType::Sum => SubtaskType::Sum,
        TestTaskType::Min => SubtaskType::Min,
    }
}

/// A subtask of the export: how it is scored, its data files by number,
/// and the subtasks it depends on (numbered from one).
#[derive(Clone, Debug)]
pub struct SyzojSubtask {
    pub subtask_type: SubtaskType,
    pub cases: Vec<String>,
    pub dependencies: Vec<usize>,
}

/// What an export writes: each data file copied under its number, the
/// subtasks, and the source of the special judge, if there is one.
#[derive(Clone, Debug)]
pub struct SyzojPlan {
    pub copies: Vec<(String, String)>,
    pub subtasks: Vec<SyzojSubtask>,
    pub special_judge_source: Option<String>,
}

/// The exporter for SYZOJ.
#[derive(Clone, Copy, Debug)]
pub struct SyzojExporter;

/// The position of the last task with the name, below `k`.
pub open spec fn last_task_below(p: Problem, name: Seq<char>, k: int) -> Option<int>
    decreases k,
{
    if k <= 0 || k > p.test.tasks@.len() {
        None
    } else if p.test.tasks@[k - 1].name@ == name {
        Some(k - 1)
    } else {
        last_task_below(p, name, k - 1)
    }
}

/// The data files, as named in the data directory, that a bundle of a
/// task contributes: one per case of the first bundle with the name.
pub open spec fn bundle_sources(p: Problem, name: Seq<char>) -> Seq<Seq<char>> {
    match bundle_index_from(p.test.bundles@, name, 0) {
        Some(k) => Seq::new(p.test.bundles@[k].bundle.cases@.len(), |c: int| case_name(name, c as nat)),
        None => Seq::empty(),
    }
}

/// The data files of the first `n` bundles of a task, in order.
pub open spec fn task_sources(p: Problem, bundles: Seq<String>, n: int) -> Seq<Seq<char>>
    decreases n,
{
    if n <= 0 || n > bundles.len() {
        Seq::empty()
    } else {
        task_sources(p, bundles, n - 1) + bundle_sources(p, bundles[n - 1]@)
    }
}

/// The data files of a task's bundles, in order.
pub open spec fn task_files(p: Problem, t: int) -> Seq<Seq<char>> {
    task_sources(p, p.test.tasks@[t].bundles@, p.test.tasks@[t].bundles@.len() as int)
}

/// The data files of the first `t` tasks, in order.
pub open spec fn sources_before(p: Problem, t: int) -> Seq<Seq<char>>
    decreases t,
{
    if t <= 0 || t > p.test.tasks@.len() {
        Seq::empty()
    } else {
        sources_before(p, t - 1) + task_files(p, t - 1)
    }
}

/// Every data file an export copies, in the order they are numbered.
pub open spec fn all_sources(p: Problem) -> Seq<Seq<char>> {
    sources_before(p, p.test.tasks@.len() as int)
}

/// The numbers of task `t`'s data files: they follow those of the tasks
/// before it.
pub open spec fn task_numbers(p: Problem, t: int) -> Seq<Seq<char>> {
    Seq::new(task_files(p, t).len(), |j: int| decimal((sources_before(p, t).len() + j) as nat))
}

/// The first bundle name, from `k` on, that no bundle has.
pub open spec fn missing_bundle_from(p: Problem, bundles: Seq<String>, k: int) -> Option<Seq<char>>
    decreases bundles.len() - k,
{
    if k < 0 || k >= bundles.len() {
        None
    } else if bundle_index_from(p.test.bundles@, bundles[k]@, 0) is None {
        Some(bundles[k]@)
    } else {
        missing_bundle_from(p, bundles, k + 1)
    }
}

/// The first dependency, from `k` on, that no task has as its name.
pub open spec fn missing_task_from(p: Problem, deps: Seq<String>, k: int) -> Option<Seq<char>>
    decreases deps.len() - k,
{
    if k < 0 || k >= deps.len() {
        None
    } else if last_task_below(p, deps[k]@, p.test.tasks@.len() as int) is None {
        Some(deps[k]@)
    } else {
        missing_task_from(p, deps, k + 1)
    }
}

/// Why task `t` cannot be exported: a bundle it names is missing, else a
/// task it depends on is.
pub open spec fn task_error(p: Problem, t: int) -> Option<Seq<char>> {
    match missing_bundle_from(p, p.test.tasks@[t].bundles@, 0) {
        Some(b) => Some("bundle `"@ + b + "` not found"@),
        None => match missing_task_from(p, p.test.tasks@[t].dependencies@, 0) {
            Some(d) => Some("task `"@ + d + "` not found"@),
            None => None,
        },
    }
}

/// The error of the first task, from `t` on, that cannot be exported.
pub open spec fn tasks_error_from(p: Problem, t: int) -> Option<Seq<char>>
    decreases p.test.tasks@.len() - t,
{
    if t < 0 || t >= p.test.tasks@.len() {
        None
    } else {
        match task_error(p, t) {
            Some(e) => Some(e),
            None => tasks_error_from(p, t + 1),
        }
    }
}

/// Why the checker cannot be the special judge: it is not a program of
/// the package, or it is not C++.
pub open spec fn checker_error(p: Problem) -> Option<Seq<char>> {
    match p.checker_name {
        Some(c) => match program_index_from(p, c@, 0) {
            None => Some("checker `"@ + c@ + "` not found"@),
            Some(i) => match p.programs@[i].info {
                ProgramInfo::Command(_) => Some(
                    "command program is not supported as special judge in syzoj exporter"@,
                ),
                ProgramInfo::Python(_) => Some("python program is not supported as special judge in syzoj exporter"@),
                ProgramInfo::Cpp(_) => None,
            },
        },
        None => None,
    }
}

/// The C++ source of the special judge: the checker's, if there is one.
pub open spec fn special_judge_of(p: Problem) -> Option<Seq<char>> {
    match p.checker_name {
        Some(c) => match program_index_from(p, c@, 0) {
            Some(i) => match p.programs@[i].info {
                ProgramInfo::Cpp(cpp) => Some(cpp.path@),
                _ => None,
            },
            None => None,
        },
        None => None,
    }
}

/// Why an export fails: the first task that cannot be exported, else the
/// checker.
pub open spec fn plan_error(p: Problem) -> Option<Seq<char>> {
    match tasks_error_from(p, 0) {
        Some(e) => Some(e),
        None => checker_error(p),
    }
}

/// The plan is the export of the package: the data files numbered in
/// order, each task a subtask of its own files, its type and its
/// dependencies by position, and the special judge.
pub open spec fn plan_matches(p: Problem, plan: SyzojPlan) -> bool {
    &&& plan.copies@.len() == all_sources(p).len()
    &&& forall|i: int|
        0 <= i < plan.copies@.len() ==> (#[trigger] plan.copies@[i]).0@ == all_sources(p)[i]
            && plan.copies@[i].1@ == decimal(i as nat)
    &&& plan.subtasks@.len() == p.test.tasks@.len()
    &&& forall|t: int|
        0 <= t < plan.subtasks@.len() ==> (#[trigger] plan.subtasks@[t]).subtask_type == subtask_type_of(
            p.test.tasks@[t].task_type.unwrap(),
        ) && string_views(plan.subtasks@[t].cases@) == task_numbers(p, t)
            && plan.subtasks@[t].dependencies@.len() == p.test.tasks@[t].dependencies@.len() && forall|d: int|
            0 <= d < plan.subtasks@[t].dependencies@.len() ==> last_task_below(
                p,
                p.test.tasks@[t].dependencies@[d]@,
                p.test.tasks@.len() as int,
            ) == Some(#[trigger] plan.subtasks@[t].dependencies@[d] - 1)
    &&& opt_view(plan.special_judge_source) == special_judge_of(p)
}

fn last_task_named(problem: &Problem, name: &String) -> (r: Option<usize>)
    ensures
        match r {
            Some(i) => i < problem.test.tasks@.len() && last_task_below(
                *problem,
                name@,
                problem.test.tasks@.len() as int,
            ) == Some(i as int),
            None => last_task_below(*problem, name@, problem.test.tasks@.len() as int) is None,
        },
{
    let mut k = problem.test.tasks.len();
    while k > 0
        invariant
            k <= problem.test.tasks@.len(),
            last_task_below(*problem, name@, problem.test.tasks@.len() as int) == last_task_below(
                *problem,
                name@,
                k as int,
            ),
        decreases k,
    {
        if problem.test.tasks[k - 1].name == *name {
            return Some(k - 1);
        }
        k = k - 1;
    }
    None
}

/// The file name of a case in the package's data directory.
pub open spec fn case_name(bundle: Seq<char>, index: nat) -> Seq<char> {
    bundle + "-"@ + decimal(index)
}

impl SyzojExporter {
    /// Plans an export: every case of every task's bundles, numbered in
    /// order from 0, the subtasks' dependencies as positions of the named
    /// tasks, and the checker's C++ source as the special judge.
    pub fn plan(problem: &Problem) -> (r: Result<SyzojPlan, String>)
        requires
            forall|t: int| 0 <= t < problem.test.tasks@.len() ==> (#[trigger] problem.test.tasks@[t]).task_type is Some,
        ensures
            match r {
                Ok(plan) => plan_error(*problem) is None && plan_matches(*problem, plan),
                Err(e) => plan_error(*problem) == Some(e@),
            },
    {
        proof {
            reveal_strlit("-");
            reveal_strlit("bundle `");
            reveal_strlit("` not found");
            reveal_strlit("task `");
            reveal_strlit("checker `");
            reveal_strlit("command program is not supported as special judge in syzoj exporter");
            reveal_strlit("python program is not supported as special judge in syzoj exporter");
        }
        let ghost p = *problem;
        let ntasks = problem.test.tasks.len();
        let mut copies: Vec<(String, String)> = Vec::new();
        let mut subtasks: Vec<SyzojSubtask> = Vec::new();
        let mut t: usize = 0;
        while t < ntasks
            invariant
                p == *problem,
                ntasks == p.test.tasks@.len(),
                forall|t: int| 0 <= t < p.test.tasks@.len() ==> (#[trigger] p.test.tasks@[t]).task_type is Some,
                t <= ntasks,
                subtasks@.len() == t,
                tasks_error_from(p, 0) == tasks_error_from(p, t as int),
                copies@.len() == sources_before(p, t as int).len(),
                forall|i: int|
                    0 <= i < copies@.len() ==> (#[trigger] copies@[i]).0@ == sources_before(p, t as int)[i]
                        && copies@[i].1@ == decimal(i as nat),
                forall|u: int|
                    0 <= u < t ==> (#[trigger] subtasks@[u]).subtask_type == subtask_type_of(
                        p.test.tasks@[u].task_type.unwrap(),
                    ) && string_views(subtasks@[u].cases@) == task_numbers(p, u)
                        && subtasks@[u].dependencies@.len() == p.test.tasks@[u].dependencies@.len()
                        && forall|d: int|
                        0 <= d < subtasks@[u].dependencies@.len() ==> last_task_below(
                            p,
                            p.test.tasks@[u].dependencies@[d]@,
                            p.test.tasks@.len() as int,
                        ) == Some(#[trigger] subtasks@[u].dependencies@[d] - 1),
            decreases ntasks - t,
        {
            let task = &problem.test.tasks[t];
            let ghost bundles = task.bundles@;
            let ghost before = sources_before(p, t as int);
            let mut cases: Vec<String> = Vec::new();
            let mut b: usize = 0;
            while b < task.bundles.len()
                invariant
                    p == *problem,
                    t < p.test.tasks@.len(),
                    *task == p.test.tasks@[t as int],
                    bundles == task.bundles@,
                    before == sources_before(p, t as int),
                    tasks_error_from(p, 0) == tasks_error_from(p, t as int),
                    b <= bundles.len(),
                    missing_bundle_from(p, bundles, 0) == missing_bundle_from(p, bundles, b as int),
                    copies@.len() == before.len() + task_sources(p, bundles, b as int).len(),
                    forall|i: int|
                        0 <= i < copies@.len() ==> (#[trigger] copies@[i]).0@ == (before + task_sources(
                            p,
                            bundles,
                            b as int,
                        ))[i] && copies@[i].1@ == decimal(i as nat),
                    cases@.len() == task_sources(p, bundles, b as int).len(),
                    forall|j: int|
                        0 <= j < cases@.len() ==> (#[trigger] cases@[j])@ == decimal((before.len() + j) as nat),
                decreases bundles.len() - b,
            {
                let bundle_name = &task.bundles[b];
                let k = match find_bundle(problem, bundle_name) {
                    Some(k) => k,
                    None => {
                        let mut s = String::from_str("bundle `");
                        s.append(bundle_name.as_str());
                        s.append("` not found");
                        proof {
                            assert(task_error(p, t as int) == Some(s@));
                            assert(tasks_error_from(p, t as int) == Some(s@));
                        }
                        return Err(s);
                    },
                };
                let count = problem.test.bundles[k].bundle.cases.len();
                let ghost done = before + task_sources(p, bundles, b as int);
                let ghost piece = bundle_sources(p, bundle_name@);
                assert(piece.len() == count);
                let mut c: usize = 0;
                while c < count
                    invariant
                        p == *problem,
                        c <= count,
                        piece.len() == count,
                        forall|j: int| 0 <= j < count ==> #[trigger] piece[j] == case_name(bundle_name@, j as nat),
                        copies@.len() == done.len() + c,
                        forall|i: int|
                            0 <= i < copies@.len() ==> (#[trigger] copies@[i]).0@ == (done + piece)[i]
                                && copies@[i].1@ == decimal(i as nat),
                        done.len() >= before.len(),
                        cases@.len() == copies@.len() - before.len(),
                        forall|j: int|
                            0 <= j < cases@.len() ==> (#[trigger] cases@[j])@ == decimal((before.len() + j) as nat),
                    decreases count - c,
                {
                    let number = usize_to_decimal(copies.len());
                    let mut source = bundle_name.clone();
                    source.append("-");
                    source.append(usize_to_decimal(c).as_str());
                    let ghost old_copies = copies@;
                    let ghost old_cases = cases@;
                    cases.push(number.clone());
                    copies.push((source, number));
                    assert(copies@[old_copies.len() as int].0@ == (done + piece)[old_copies.len() as int]);
                    assert forall|i: int|
                        0 <= i < copies@.len() implies (#[trigger] copies@[i]).0@ == (done + piece)[i]
                            && copies@[i].1@ == decimal(i as nat) by {
                        if i < old_copies.len() {
                            assert(copies@[i] == old_copies[i]);
                        }
                    }
                    assert forall|j: int|
                        0 <= j < cases@.len() implies (#[trigger] cases@[j])@ == decimal((before.len() + j) as nat) by {
                        if j < old_cases.len() {
                            assert(cases@[j] == old_cases[j]);
                        }
                    }
                    c = c + 1;
                }
                proof {
                    assert(task_sources(p, bundles, b + 1) == task_sources(p, bundles, b as int) + piece);
                    assert(before + task_sources(p, bundles, b + 1) =~= done + piece);
                }
                b = b + 1;
            }
            proof {
                assert(missing_bundle_from(p, bundles, 0) is None);
            }
            let mut dependencies: Vec<usize> = Vec::new();
            let mut d: usize = 0;
            while d < task.dependencies.len()
                invariant
                    p == *problem,
                    ntasks == p.test.tasks@.len(),
                    t < p.test.tasks@.len(),
                    *task == p.test.tasks@[t as int],
                    missing_bundle_from(p, task.bundles@, 0) is None,
                    tasks_error_from(p, 0) == tasks_error_from(p, t as int),
                    missing_task_from(p, task.dependencies@, 0) == missing_task_from(p, task.dependencies@, d as int),
                    d <= task.dependencies@.len(),
                    dependencies@.len() == d,
                    forall|e: int|
                        0 <= e < d ==> last_task_below(p, task.dependencies@[e]@, p.test.tasks@.len() as int)
                            == Some(#[trigger] dependencies@[e] - 1),
                decreases task.dependencies@.len() - d,
            {
                match last_task_named(problem, &task.dependencies[d]) {
                    Some(i) => {
                        dependencies.push(i + 1);
                    },
                    None => {
                        let mut s = String::from_str("task `");
                        s.append(task.dependencies[d].as_str());
                        s.append("` not found");
                        proof {
                            assert(task_error(p, t as int) == Some(s@));
                            assert(tasks_error_from(p, t as int) == Some(s@));
                        }
                        return Err(s);
                    },
                }
                d = d + 1;
            }
            let subtask_type = match task.task_type {
                Some(tt) => SubtaskType::from(tt),
                None => SubtaskType::Min,
            };
            proof {
                assert(task_error(p, t as int) is None);
                assert(sources_before(p, t + 1) == before + task_files(p, t as int));
                assert(string_views(cases@) =~= task_numbers(p, t as int));
            }
            let ghost old_subtasks = subtasks@;
            subtasks.push(SyzojSubtask { subtask_type, cases, dependencies });
            assert forall|u: int| 0 <= u < t + 1 implies (#[trigger] subtasks@[u]).subtask_type == subtask_type_of(
                p.test.tasks@[u].task_type.unwrap(),
            ) && string_views(subtasks@[u].cases@) == task_numbers(p, u)
                && subtasks@[u].dependencies@.len() == p.test.tasks@[u].dependencies@.len() && forall|d: int|
                0 <= d < subtasks@[u].dependencies@.len() ==> last_task_below(
                    p,
                    p.test.tasks@[u].dependencies@[d]@,
                    p.test.tasks@.len() as int,
                ) == Some(#[trigger] subtasks@[u].dependencies@[d] - 1) by {
                if u < t {
                    assert(subtasks@[u] == old_subtasks[u]);
                }
            }
            t = t + 1;
        }
        let special_judge_source = match &problem.checker_name {
            Some(checker_name) => match program_position(problem, checker_name) {
                None => {
                    let mut s = String::from_str("checker `");
                    s.append(checker_name.as_str());
                    s.append("` not found");
                    return Err(s);
                },
                Some(i) => match &problem.programs[i].info {
                    ProgramInfo::Command(_) => {
                        return Err(
                            String::from_str("command program is not supported as special judge in syzoj exporter"),
                        );
                    },
                    ProgramInfo::Python(_) => {
                        return Err(
                            String::from_str("python program is not supported as special judge in syzoj exporter"),
                        );
                    },
                    ProgramInfo::Cpp(cpp) => Some(cpp.path.clone()),
                },
            },
            None => None,
        };
        let plan = SyzojPlan { copies, subtasks, special_judge_source };
        proof {
            assert(all_sources(p) == sources_before(p, t as int));
        }
        Ok(plan)
    }
}

} // verus!
