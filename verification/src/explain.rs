//! Explaining a package: the programs behind its roles, the generators of
//! its bundles and tasks, the handwritten inputs its cases read, and the
//! text that `pkg explain` prints.

use vstd::prelude::*;
use crate::data::{bundle_index_from, find_bundle, insert_sorted, strictly_sorted};
use crate::problem::{chars_less, file_generator, text_less};
use crate::schema::{NamedBundle, Problem, ProgramInfo, TestCase, TestTask, TestTaskType};
use crate::stress::join_strings;
use crate::text::{chars_of, decimal, join, string_views, usize_to_decimal};

verus! {

/// Options of explaining a package.
#[derive(Clone, Debug)]
pub struct ExplainOptions {
    pub work_dir: String,
}

/// A program named by a role, with its kind and path.
#[derive(Clone, Debug)]
pub struct ExplainProgramRef {
    pub name: String,
    pub kind: String,
    pub path: String,
}

/// The programs behind the roles of a package.
#[derive(Clone, Debug)]
pub struct ExplainRoles {
    pub solution: Option<ExplainProgramRef>,
    pub validator: Option<ExplainProgramRef>,
    pub checker: Option<ExplainProgramRef>,
    pub generator: Option<ExplainProgramRef>,
}

/// A program that plays no role, with what it is used for.
#[derive(Clone, Debug)]
pub struct ExplainProgram {
    pub name: String,
    pub kind: String,
    pub path: String,
    pub roles: Vec<String>,
}

/// An official bundle: its size and the generators of its cases.
#[derive(Clone, Debug)]
pub struct ExplainBundle {
    pub name: String,
    pub cases: usize,
    pub generators: Vec<String>,
}

/// A handwritten input and the cases that read it.
#[derive(Clone, Debug)]
pub struct ExplainHandwrittenInput {
    pub path: String,
    pub used_by: Vec<String>,
}

/// A list as printed: `[a,b]`, or `[]`.
pub open spec fn list_text(values: Seq<Seq<char>>) -> Seq<char> {
    if values.len() == 0 {
        "[]"@
    } else {
        "["@ + join(values, ","@) + "]"@
    }
}

/// Renders a list of names.
pub fn render_list(values: &Vec<String>) -> (s: String)
    ensures
        s@ == list_text(string_views(values@)),
{
    proof {
        reveal_strlit("[]");
        reveal_strlit("[");
        reveal_strlit("]");
    }
    if values.len() == 0 {
        String::from_str("[]")
    } else {
        let mut s = String::from_str("[");
        s.append(join_strings(values, ",").as_str());
        s.append("]");
        s
    }
}

/// The roles part of a program line: ` roles=[...]`, or nothing.
pub fn render_program_roles(roles: &Vec<String>) -> (s: String)
    ensures
        s@ == if roles@.len() == 0 {
            Seq::empty()
        } else {
            " roles="@ + list_text(string_views(roles@))
        },
{
    if roles.len() == 0 {
        String::new()
    } else {
        proof {
            reveal_strlit(" roles=");
        }
        let mut s = String::from_str(" roles=");
        s.append(render_list(roles).as_str());
        s
    }
}

/// The line of a role: the program and its path and kind, or `none`.
pub open spec fn role_text(label: Seq<char>, role: Option<ExplainProgramRef>) -> Seq<char> {
    match role {
        Some(r) => "  "@ + label + ": "@ + r.name@ + " -> "@ + r.path@ + " ("@ + r.kind@ + ")\n"@,
        None => "  "@ + label + ": none\n"@,
    }
}

/// Appends the line of a role.
pub fn render_role(out: &mut String, label: &str, role: Option<&ExplainProgramRef>)
    ensures
        final(out)@ == old(out)@ + role_text(
            label@,
            match role {
                Some(r) => Some(*r),
                None => None,
            },
        ),
{
    proof {
        reveal_strlit("  ");
        reveal_strlit(": ");
        reveal_strlit(" -> ");
        reveal_strlit(" (");
        reveal_strlit(")\n");
        reveal_strlit(": none\n");
    }
    out.append("  ");
    out.append(label);
    match role {
        Some(r) => {
            out.append(": ");
            out.append(r.name.as_str());
            out.append(" -> ");
            out.append(r.path.as_str());
            out.append(" (");
            out.append(r.kind.as_str());
            out.append(")\n");
        },
        None => {
            out.append(": none\n");
        },
    }
}

/// The word a task type is printed as.
pub open spec fn task_type_word(t: TestTaskType) -> Seq<char> {
    match t {
        TestTaskType::Sum => "sum"@,
        TestTaskType::Min => "min"@,
    }
}

/// The word a task type is printed as.
pub fn task_type_name(task_type: TestTaskType) -> (s: String)
    ensures
        s@ == task_type_word(task_type),
{
    proof {
        reveal_strlit("sum");
        reveal_strlit("min");
    }
    match task_type {
        TestTaskType::Sum => String::from_str("sum"),
        TestTaskType::Min => String::from_str("min"),
    }
}

/// The type part of a task line: ` type=...`, or nothing.
pub fn render_task_type(task_type: Option<&str>) -> (s: String)
    ensures
        s@ == match task_type {
            Some(t) => " type="@ + t@,
            None => Seq::empty(),
        },
{
    match task_type {
        Some(t) => {
            proof {
                reveal_strlit(" type=");
            }
            let mut s = String::from_str(" type=");
            s.append(t);
            s
        },
        None => String::new(),
    }
}

/// The generators named by the cases, each once, in name order.
pub fn case_generators(cases: &Vec<TestCase>) -> (v: Vec<String>)
    ensures
        strictly_sorted(string_views(v@)),
        forall|i: int| 0 <= i < cases@.len() ==> string_views(v@).contains(#[trigger] cases@[i].generator_name@),
        forall|x: Seq<char>| #[trigger] string_views(v@).contains(x) ==> exists|i: int|
            0 <= i < cases@.len() && (#[trigger] cases@[i]).generator_name@ == x,
{
    let mut v: Vec<String> = Vec::new();
    add_case_generators(&mut v, cases);
    v
}

/// Adds the generators of the cases to a sorted list of names.
fn add_case_generators(v: &mut Vec<String>, cases: &Vec<TestCase>)
    requires
        strictly_sorted(string_views(old(v)@)),
    ensures
        strictly_sorted(string_views(final(v)@)),
        forall|i: int| 0 <= i < cases@.len() ==> string_views(final(v)@).contains(#[trigger] cases@[i].generator_name@),
        forall|x: Seq<char>| #[trigger] string_views(old(v)@).contains(x) ==> string_views(final(v)@).contains(x),
        forall|x: Seq<char>| #[trigger] string_views(final(v)@).contains(x) ==> (string_views(old(v)@).contains(x)
            || exists|i: int| 0 <= i < cases@.len() && (#[trigger] cases@[i]).generator_name@ == x),
{
    let ghost start = string_views(v@);
    let mut i: usize = 0;
    while i < cases.len()
        invariant
            i <= cases@.len(),
            strictly_sorted(string_views(v@)),
            forall|j: int| 0 <= j < i ==> string_views(v@).contains(#[trigger] cases@[j].generator_name@),
            forall|x: Seq<char>| #[trigger] start.contains(x) ==> string_views(v@).contains(x),
            forall|x: Seq<char>| #[trigger] string_views(v@).contains(x) ==> (start.contains(x) || exists|j: int|
                0 <= j < i && (#[trigger] cases@[j]).generator_name@ == x),
        decreases cases@.len() - i,
    {
        let ghost before = string_views(v@);
        insert_sorted(v, &cases[i].generator_name);
        proof {
            let after = string_views(v@);
            assert forall|j: int| 0 <= j < i + 1 implies after.contains(#[trigger] cases@[j].generator_name@) by {
                if j < i {
                    assert(before.contains(cases@[j].generator_name@));
                }
            }
            assert forall|x: Seq<char>| #[trigger] start.contains(x) implies after.contains(x) by {
                assert(before.contains(x));
            }
            assert forall|x: Seq<char>| #[trigger] after.contains(x) implies (start.contains(x) || exists|j: int|
                0 <= j < i + 1 && (#[trigger] cases@[j]).generator_name@ == x) by {
                if x == cases@[i as int].generator_name@ {
                    assert(cases@[i as int].generator_name@ == x);
                } else {
                    assert(before.contains(x));
                    if !start.contains(x) {
                        let j = choose|j: int| 0 <= j < i && (#[trigger] cases@[j]).generator_name@ == x;
                        assert(cases@[j].generator_name@ == x);
                    }
                }
            }
        }
        i = i + 1;
    }
}

/// The bundle of the package with the name (the first, if several)
/// holds a case with the generator.
pub open spec fn bundle_uses_generator(p: Problem, bundle: Seq<char>, g: Seq<char>) -> bool {
    match bundle_index_from(p.test.bundles@, bundle, 0) {
        Some(k) => exists|c: int|
            #![trigger p.test.bundles@[k].bundle.cases@[c]]
            0 <= c < p.test.bundles@[k].bundle.cases@.len() && p.test.bundles@[k].bundle.cases@[c].generator_name@ == g,
        None => false,
    }
}

proof fn lemma_bundle_uses(p: Problem, name: Seq<char>, k: int, c: int, x: Seq<char>)
    requires
        bundle_index_from(p.test.bundles@, name, 0) == Some(k),
        0 <= c < p.test.bundles@[k].bundle.cases@.len(),
        p.test.bundles@[k].bundle.cases@[c].generator_name@ == x,
    ensures
        bundle_uses_generator(p, name, x),
{
    let case = p.test.bundles@[k].bundle.cases@[c];
    assert(case.generator_name@ == x);
    assert(exists|d: int|
        #![trigger p.test.bundles@[k].bundle.cases@[d]]
        0 <= d < p.test.bundles@[k].bundle.cases@.len() && p.test.bundles@[k].bundle.cases@[d].generator_name@ == x);
    assert(match bundle_index_from(p.test.bundles@, name, 0) {
        Some(j) => j == k,
        None => false,
    });
}

/// `g` lists, once each and in name order, the generators of the named
/// bundles' cases and of the inline cases.
pub open spec fn generators_listed(p: Problem, bundles: Seq<String>, inline_cases: Seq<TestCase>, g: Seq<Seq<char>>) -> bool {
    &&& strictly_sorted(g)
    &&& forall|x: Seq<char>|
        g.contains(x) <==> ((exists|b: int| 0 <= b < bundles.len() && bundle_uses_generator(p, #[trigger] bundles[b]@, x))
            || exists|i: int| 0 <= i < inline_cases.len() && (#[trigger] inline_cases[i]).generator_name@ == x)
}

/// The generators of a task's cases: those of its bundles and its own
/// cases, each once, in name order.
pub fn task_generators(problem: &Problem, bundles: &Vec<String>, inline_cases: &Vec<TestCase>) -> (v: Vec<String>)
    ensures
        generators_listed(*problem, bundles@, inline_cases@, string_views(v@)),
{
    let mut v: Vec<String> = Vec::new();
    let mut b: usize = 0;
    while b < bundles.len()
        invariant
            b <= bundles@.len(),
            strictly_sorted(string_views(v@)),
            forall|x: Seq<char>|
                string_views(v@).contains(x) <==> exists|c: int|
                    0 <= c < b && bundle_uses_generator(*problem, #[trigger] bundles@[c]@, x),
        decreases bundles@.len() - b,
    {
        let ghost before = string_views(v@);
        match find_bundle(problem, &bundles[b]) {
            Some(k) => {
                let cases = &problem.test.bundles[k].bundle.cases;
                add_case_generators(&mut v, cases);
                assert forall|x: Seq<char>| string_views(v@).contains(x) <==> exists|c: int|
                    0 <= c < b + 1 && bundle_uses_generator(*problem, #[trigger] bundles@[c]@, x) by {
                    if string_views(v@).contains(x) {
                        if !before.contains(x) {
                            let i = choose|i: int| 0 <= i < cases@.len() && (#[trigger] cases@[i]).generator_name@ == x;
                            assert(problem.test.bundles@[k as int].bundle.cases@[i].generator_name@ == x);
                            lemma_bundle_uses(*problem, bundles@[b as int]@, k as int, i, x);
                        } else {
                            let c = choose|c: int| 0 <= c < b && bundle_uses_generator(*problem, #[trigger] bundles@[c]@, x);
                            assert(bundle_uses_generator(*problem, bundles@[c]@, x));
                        }
                    }
                    if exists|c: int| 0 <= c < b + 1 && bundle_uses_generator(*problem, #[trigger] bundles@[c]@, x) {
                        let c = choose|c: int| 0 <= c < b + 1 && bundle_uses_generator(*problem, #[trigger] bundles@[c]@, x);
                        if c < b {
                            assert(before.contains(x));
                        } else {
                            let i = choose|i: int|
                                0 <= i < cases@.len() && #[trigger] problem.test.bundles@[k as int].bundle.cases@[i].generator_name@
                                    == x;
                            assert(cases@[i].generator_name@ == x);
                        }
                    }
                }
            },
            None => {
                assert forall|x: Seq<char>| string_views(v@).contains(x) <==> exists|c: int|
                    0 <= c < b + 1 && bundle_uses_generator(*problem, #[trigger] bundles@[c]@, x) by {
                    if exists|c: int| 0 <= c < b + 1 && bundle_uses_generator(*problem, #[trigger] bundles@[c]@, x) {
                        let c = choose|c: int| 0 <= c < b + 1 && bundle_uses_generator(*problem, #[trigger] bundles@[c]@, x);
                        assert(c < b);
                    }
                }
            },
        }
        b = b + 1;
    }
    let ghost mid = string_views(v@);
    add_case_generators(&mut v, inline_cases);
    proof {
        let g = string_views(v@);
        assert forall|x: Seq<char>|
            g.contains(x) <==> ((exists|c: int| 0 <= c < bundles@.len() && bundle_uses_generator(*problem, #[trigger] bundles@[c]@, x))
                || exists|i: int| 0 <= i < inline_cases@.len() && (#[trigger] inline_cases@[i]).generator_name@ == x) by {
            if exists|i: int| 0 <= i < inline_cases@.len() && (#[trigger] inline_cases@[i]).generator_name@ == x {
                let i = choose|i: int| 0 <= i < inline_cases@.len() && (#[trigger] inline_cases@[i]).generator_name@ == x;
                assert(g.contains(inline_cases@[i].generator_name@));
            }
            if exists|c: int| 0 <= c < bundles@.len() && bundle_uses_generator(*problem, #[trigger] bundles@[c]@, x) {
                assert(mid.contains(x));
            }
        }
    }
    v
}

} // verus!

verus! {

/// Some case of the package, in a bundle or a task, runs the generator.
pub open spec fn generates_cases(p: Problem, name: Seq<char>) -> bool {
    (exists|k: int, c: int|
        0 <= k < p.test.bundles@.len() && 0 <= c < p.test.bundles@[k].bundle.cases@.len()
            && #[trigger] p.test.bundles@[k].bundle.cases@[c].generator_name@ == name) || (exists|t: int, c: int|
        0 <= t < p.test.tasks@.len() && 0 <= c < p.test.tasks@[t].cases@.len()
            && #[trigger] p.test.tasks@[t].cases@[c].generator_name@ == name)
}

/// Some task expects the program to pass or to fail.
pub open spec fn expected_by_task(p: Problem, name: Seq<char>) -> bool {
    (exists|t: int, i: int|
        0 <= t < p.test.tasks@.len() && 0 <= i < p.test.tasks@[t].pass_programs@.len()
            && #[trigger] p.test.tasks@[t].pass_programs@[i]@ == name) || (exists|t: int, i: int|
        0 <= t < p.test.tasks@.len() && 0 <= i < p.test.tasks@[t].fail_programs@.len()
            && #[trigger] p.test.tasks@[t].fail_programs@[i]@ == name)
}

/// What a program without a role is used for, in name order.
pub open spec fn usage_roles(p: Problem, name: Seq<char>) -> Seq<Seq<char>> {
    (if generates_cases(p, name) {
        seq!["case_generator"@]
    } else {
        Seq::empty()
    }) + (if expected_by_task(p, name) {
        seq!["expect_program"@]
    } else {
        Seq::empty()
    })
}

fn any_case_named(cases: &Vec<TestCase>, name: &String) -> (b: bool)
    ensures
        b == exists|c: int| 0 <= c < cases@.len() && (#[trigger] cases@[c]).generator_name@ == name@,
{
    let mut i: usize = 0;
    while i < cases.len()
        invariant
            i <= cases@.len(),
            forall|c: int| 0 <= c < i ==> (#[trigger] cases@[c]).generator_name@ != name@,
        decreases cases@.len() - i,
    {
        if cases[i].generator_name == *name {
            return true;
        }
        i = i + 1;
    }
    false
}

fn any_named(names: &Vec<String>, name: &String) -> (b: bool)
    ensures
        b == exists|i: int| 0 <= i < names@.len() && (#[trigger] names@[i])@ == name@,
{
    let mut i: usize = 0;
    while i < names.len()
        invariant
            i <= names@.len(),
            forall|c: int| 0 <= c < i ==> (#[trigger] names@[c])@ != name@,
        decreases names@.len() - i,
    {
        if names[i] == *name {
            return true;
        }
        i = i + 1;
    }
    false
}

/// What a program without a role is used for: generating cases, being
/// expected to pass or fail by a task.
pub fn program_usage_roles(name: &String, problem: &Problem) -> (v: Vec<String>)
    ensures
        string_views(v@) == usage_roles(*problem, name@),
{
    let mut generates = false;
    let mut k: usize = 0;
    while k < problem.test.bundles.len()
        invariant
            k <= problem.test.bundles@.len(),
            generates == exists|b: int, c: int|
                0 <= b < k && 0 <= c < problem.test.bundles@[b].bundle.cases@.len()
                    && #[trigger] problem.test.bundles@[b].bundle.cases@[c].generator_name@ == name@,
        decreases problem.test.bundles@.len() - k,
    {
        if any_case_named(&problem.test.bundles[k].bundle.cases, name) {
            generates = true;
        }
        k = k + 1;
    }
    let mut t: usize = 0;
    let mut in_tasks = false;
    let mut expected = false;
    while t < problem.test.tasks.len()
        invariant
            t <= problem.test.tasks@.len(),
            in_tasks == exists|u: int, c: int|
                0 <= u < t && 0 <= c < problem.test.tasks@[u].cases@.len()
                    && #[trigger] problem.test.tasks@[u].cases@[c].generator_name@ == name@,
            expected == ((exists|u: int, i: int|
                0 <= u < t && 0 <= i < problem.test.tasks@[u].pass_programs@.len()
                    && #[trigger] problem.test.tasks@[u].pass_programs@[i]@ == name@) || (exists|u: int, i: int|
                0 <= u < t && 0 <= i < problem.test.tasks@[u].fail_programs@.len()
                    && #[trigger] problem.test.tasks@[u].fail_programs@[i]@ == name@)),
        decreases problem.test.tasks@.len() - t,
    {
        let task = &problem.test.tasks[t];
        if any_case_named(&task.cases, name) {
            in_tasks = true;
        }
        if any_named(&task.pass_programs, name) || any_named(&task.fail_programs, name) {
            expected = true;
        }
        t = t + 1;
    }
    proof {
        reveal_strlit("case_generator");
        reveal_strlit("expect_program");
    }
    let mut v: Vec<String> = Vec::new();
    if generates || in_tasks {
        v.push(String::from_str("case_generator"));
    }
    if expected {
        v.push(String::from_str("expect_program"));
    }
    assert(string_views(v@) =~= usage_roles(*problem, name@));
    v
}

} // verus!

verus! {

/// The cases that read a handwritten input, as (path, who reads it): a
/// case of `:file` with a path; case `i` is `prefix[i]`.
pub open spec fn case_usages(cases: Seq<TestCase>, prefix: Seq<char>) -> Seq<(Seq<char>, Seq<char>)>
    decreases cases.len(),
{
    if cases.len() == 0 {
        Seq::empty()
    } else {
        let c = cases.last();
        case_usages(cases.drop_last(), prefix) + if c.generator_name@ == file_generator() && c.args@.len() > 0 {
            seq![(c.args@[0]@, prefix + "["@ + decimal((cases.len() - 1) as nat) + "]"@)]
        } else {
            Seq::empty()
        }
    }
}

/// The handwritten inputs read by the bundles' cases, bundle by bundle.
pub open spec fn bundle_usages(bundles: Seq<NamedBundle>) -> Seq<(Seq<char>, Seq<char>)>
    decreases bundles.len(),
{
    if bundles.len() == 0 {
        Seq::empty()
    } else {
        bundle_usages(bundles.drop_last()) + case_usages(bundles.last().bundle.cases@, bundles.last().name@)
    }
}

/// The handwritten inputs read by the tasks' own cases, as `task:name[i]`.
pub open spec fn task_usages(tasks: Seq<TestTask>) -> Seq<(Seq<char>, Seq<char>)>
    decreases tasks.len(),
{
    if tasks.len() == 0 {
        Seq::empty()
    } else {
        task_usages(tasks.drop_last()) + case_usages(tasks.last().cases@, "task:"@ + tasks.last().name@)
    }
}

/// Every reading of a handwritten input in the package, bundles first.
pub open spec fn file_usages(p: Problem) -> Seq<(Seq<char>, Seq<char>)> {
    bundle_usages(p.test.bundles@) + task_usages(p.test.tasks@)
}

/// Who reads the input at `path`, in order.
pub open spec fn labels_for(u: Seq<(Seq<char>, Seq<char>)>, path: Seq<char>) -> Seq<Seq<char>>
    decreases u.len(),
{
    if u.len() == 0 {
        Seq::empty()
    } else {
        labels_for(u.drop_last(), path) + if u.last().0 == path {
            seq![u.last().1]
        } else {
            Seq::empty()
        }
    }
}

pub open spec fn input_paths(entries: Seq<ExplainHandwrittenInput>) -> Seq<Seq<char>> {
    entries.map_values(|e: ExplainHandwrittenInput| e.path@)
}

/// The entries group the readings by path: one entry per path read, in
/// path order, each with its readers in order.
pub open spec fn inputs_grouped(entries: Seq<ExplainHandwrittenInput>, u: Seq<(Seq<char>, Seq<char>)>) -> bool {
    &&& strictly_sorted(input_paths(entries))
    &&& forall|m: int|
        0 <= m < entries.len() ==> string_views((#[trigger] entries[m]).used_by@) == labels_for(u, entries[m].path@)
            && labels_for(u, entries[m].path@).len() > 0
    &&& forall|j: int| 0 <= j < u.len() ==> input_paths(entries).contains(#[trigger] u[j].0)
}

pub open spec fn pair_views(v: Seq<(String, String)>) -> Seq<(Seq<char>, Seq<char>)> {
    v.map_values(|x: (String, String)| (x.0@, x.1@))
}

proof fn lemma_labels_nonempty(u: Seq<(Seq<char>, Seq<char>)>, path: Seq<char>)
    requires
        labels_for(u, path).len() > 0,
    ensures
        exists|j: int| 0 <= j < u.len() && (#[trigger] u[j]).0 == path,
    decreases u.len(),
{
    if u.last().0 == path {
        assert(u[u.len() - 1].0 == path);
    } else {
        lemma_labels_nonempty(u.drop_last(), path);
        let j = choose|j: int| 0 <= j < u.drop_last().len() && (#[trigger] u.drop_last()[j]).0 == path;
        assert(u[j] == u.drop_last()[j]);
    }
}

fn push_case_usages(out: &mut Vec<(String, String)>, cases: &Vec<TestCase>, prefix: &String)
    ensures
        pair_views(final(out)@) == pair_views(old(out)@) + case_usages(cases@, prefix@),
{
    let ghost start = pair_views(out@);
    let file = String::from_str(crate::problem::file_generator_name());
    let mut i: usize = 0;
    while i < cases.len()
        invariant
            i <= cases@.len(),
            file@ == file_generator(),
            pair_views(out@) == start + case_usages(cases@.take(i as int), prefix@),
        decreases cases@.len() - i,
    {
        assert(cases@.take(i + 1).drop_last() =~= cases@.take(i as int));
        assert(cases@.take(i + 1).last() == cases@[i as int]);
        let c = &cases[i];
        let ghost before = pair_views(out@);
        if c.generator_name == file && c.args.len() > 0 {
            let mut label = prefix.clone();
            label.append("[");
            let n = usize_to_decimal(i);
            label.append(n.as_str());
            label.append("]");
            out.push((c.args[0].clone(), label));
            assert(pair_views(out@) =~= before.push((c.args@[0]@, label@)));
        }
        i = i + 1;
    }
    assert(cases@.take(i as int) =~= cases@);
}

/// Every reading of a handwritten input, as (path, who reads it).
pub fn collect_file_usages(problem: &Problem) -> (v: Vec<(String, String)>)
    ensures
        pair_views(v@) == file_usages(*problem),
{
    let mut v: Vec<(String, String)> = Vec::new();
    assert(pair_views(v@) =~= Seq::<(Seq<char>, Seq<char>)>::empty());
    let mut k: usize = 0;
    while k < problem.test.bundles.len()
        invariant
            k <= problem.test.bundles@.len(),
            pair_views(v@) == bundle_usages(problem.test.bundles@.take(k as int)),
        decreases problem.test.bundles@.len() - k,
    {
        assert(problem.test.bundles@.take(k + 1).drop_last() =~= problem.test.bundles@.take(k as int));
        assert(problem.test.bundles@.take(k + 1).last() == problem.test.bundles@[k as int]);
        push_case_usages(&mut v, &problem.test.bundles[k].bundle.cases, &problem.test.bundles[k].name);
        k = k + 1;
    }
    assert(problem.test.bundles@.take(k as int) =~= problem.test.bundles@);
    let ghost mid = pair_views(v@);
    let mut t: usize = 0;
    while t < problem.test.tasks.len()
        invariant
            t <= problem.test.tasks@.len(),
            mid == bundle_usages(problem.test.bundles@),
            pair_views(v@) == mid + task_usages(problem.test.tasks@.take(t as int)),
        decreases problem.test.tasks@.len() - t,
    {
        assert(problem.test.tasks@.take(t + 1).drop_last() =~= problem.test.tasks@.take(t as int));
        assert(problem.test.tasks@.take(t + 1).last() == problem.test.tasks@[t as int]);
        let mut prefix = String::from_str("task:");
        prefix.append(problem.test.tasks[t].name.as_str());
        push_case_usages(&mut v, &problem.test.tasks[t].cases, &prefix);
        proof {
            assert(pair_views(v@) =~= mid + task_usages(problem.test.tasks@.take(t + 1)));
        }
        t = t + 1;
    }
    assert(problem.test.tasks@.take(t as int) =~= problem.test.tasks@);
    v
}

/// Adds a reading of `path` by `label` to the grouped entries.
fn add_usage(
    entries: &mut Vec<ExplainHandwrittenInput>,
    path: &String,
    label: &String,
    Ghost(u): Ghost<Seq<(Seq<char>, Seq<char>)>>,
)
    requires
        inputs_grouped(old(entries)@, u),
    ensures
        inputs_grouped(final(entries)@, u.push((path@, label@))),
{
    let ghost u2 = u.push((path@, label@));
    assert(u2.drop_last() =~= u);
    let target = chars_of(path.as_str());
    let ghost old_e = entries@;
    let ghost old_p = input_paths(entries@);
    let mut i: usize = 0;
    loop
        invariant
            i <= entries@.len(),
            entries@ == old_e,
            old_p == input_paths(old_e),
            strictly_sorted(old_p),
            target@ == path@,
            forall|j: int| 0 <= j < i ==> text_less(#[trigger] old_p[j], path@),
        ensures
            i <= entries@.len(),
            entries@ == old_e,
            forall|j: int| 0 <= j < i ==> text_less(#[trigger] old_p[j], path@),
            i < entries@.len() ==> (old_p[i as int] == path@ || text_less(path@, old_p[i as int])),
        decreases entries@.len() - i,
    {
        if i == entries.len() {
            break;
        }
        let current = chars_of(entries[i].path.as_str());
        assert(current@ == old_p[i as int]);
        if crate::text::chars_eq(current.as_slice(), target.as_slice()) {
            break;
        }
        if chars_less(target.as_slice(), current.as_slice()) {
            break;
        }
        proof {
            crate::problem::lemma_text_less_total(old_p[i as int], path@);
        }
        i = i + 1;
    }
    if i < entries.len() && entries[i].path == *path {
        let mut entry = entries.remove(i);
        entry.used_by.push(label.clone());
        entries.insert(i, entry);
        proof {
            let ne = entries@;
            assert(input_paths(ne) =~= old_p);
            assert forall|m: int|
                0 <= m < ne.len() implies string_views((#[trigger] ne[m]).used_by@) == labels_for(u2, ne[m].path@)
                && labels_for(u2, ne[m].path@).len() > 0 by {
                if m == i {
                    assert(string_views(ne[m].used_by@) =~= string_views(old_e[m].used_by@).push(label@));
                } else {
                    assert(ne[m] == old_e[m]);
                    assert(old_p[m] != old_p[i as int]) by {
                        if m < i {
                            crate::problem::lemma_text_less_irreflexive(old_p[m]);
                        } else {
                            crate::problem::lemma_text_less_irreflexive(old_p[i as int]);
                        }
                    }
                }
            }
            assert forall|j: int| 0 <= j < u2.len() implies input_paths(ne).contains(#[trigger] u2[j].0) by {
                if j < u.len() {
                    assert(u2[j] == u[j]);
                } else {
                    assert(input_paths(ne)[i as int] == path@);
                }
            }
        }
    } else {
        proof {
            assert forall|j: int| i <= j < old_p.len() implies text_less(path@, #[trigger] old_p[j]) by {
                if j > i {
                    crate::problem::lemma_text_less_trans(path@, old_p[i as int], old_p[j]);
                }
            }
            if labels_for(u, path@).len() > 0 {
                lemma_labels_nonempty(u, path@);
                let j = choose|j: int| 0 <= j < u.len() && (#[trigger] u[j]).0 == path@;
                assert(old_p.contains(u[j].0));
                let m = choose|m: int| 0 <= m < old_p.len() && old_p[m] == path@;
                if m < i {
                    crate::problem::lemma_text_less_irreflexive(path@);
                } else if m > i {
                    crate::problem::lemma_text_less_irreflexive(path@);
                }
                assert(false);
            }
        }
        let mut used_by: Vec<String> = Vec::new();
        used_by.push(label.clone());
        entries.insert(i, ExplainHandwrittenInput { path: path.clone(), used_by });
        proof {
            let ne = entries@;
            let np = input_paths(ne);
            assert(np =~= old_p.insert(i as int, path@));
            assert forall|a: int, b: int| 0 <= a < b < np.len() implies text_less(#[trigger] np[a], #[trigger] np[b]) by {
                if b < i {
                    assert(np[a] == old_p[a]);
                    assert(np[b] == old_p[b]);
                } else if b == i {
                    assert(np[a] == old_p[a]);
                } else if a < i {
                    assert(np[a] == old_p[a]);
                    assert(np[b] == old_p[b - 1]);
                    crate::problem::lemma_text_less_trans(old_p[a], path@, old_p[b - 1]);
                } else if a == i {
                    assert(np[b] == old_p[b - 1]);
                } else {
                    assert(np[a] == old_p[a - 1]);
                    assert(np[b] == old_p[b - 1]);
                }
            }
            assert forall|m: int|
                0 <= m < ne.len() implies string_views((#[trigger] ne[m]).used_by@) == labels_for(u2, ne[m].path@)
                && labels_for(u2, ne[m].path@).len() > 0 by {
                if m == i {
                    assert(labels_for(u, path@).len() == 0);
                    assert(string_views(ne[m].used_by@) =~= seq![label@]);
                    assert(labels_for(u2, path@) =~= seq![label@]);
                } else {
                    let om = if m < i { m } else { m - 1 };
                    assert(ne[m] == old_e[om]);
                    assert(old_p[om] != path@) by {
                        if om < i {
                            crate::problem::lemma_text_less_irreflexive(path@);
                        } else {
                            crate::problem::lemma_text_less_irreflexive(path@);
                        }
                    }
                }
            }
            assert forall|j: int| 0 <= j < u2.len() implies np.contains(#[trigger] u2[j].0) by {
                if j < u.len() {
                    assert(u2[j] == u[j]);
                    assert(old_p.contains(u[j].0));
                    let m = choose|m: int| 0 <= m < old_p.len() && old_p[m] == u[j].0;
                    if m < i {
                        assert(np[m] == old_p[m]);
                    } else {
                        assert(np[m + 1] == old_p[m]);
                    }
                } else {
                    assert(np[i as int] == path@);
                }
            }
        }
    }
}

/// The handwritten inputs of the package in path order, each with the
/// cases that read it.
pub fn handwritten_inputs(problem: &Problem) -> (v: Vec<ExplainHandwrittenInput>)
    ensures
        inputs_grouped(v@, file_usages(*problem)),
{
    let usages = collect_file_usages(problem);
    let ghost u = pair_views(usages@);
    let mut entries: Vec<ExplainHandwrittenInput> = Vec::new();
    proof {
        assert(input_paths(entries@) =~= Seq::<Seq<char>>::empty());
        assert(u.take(0) =~= Seq::<(Seq<char>, Seq<char>)>::empty());
    }
    let mut i: usize = 0;
    while i < usages.len()
        invariant
            i <= usages@.len(),
            u == pair_views(usages@),
            inputs_grouped(entries@, u.take(i as int)),
        decreases usages@.len() - i,
    {
        assert(u.take(i + 1) =~= u.take(i as int).push((usages@[i as int].0@, usages@[i as int].1@)));
        add_usage(&mut entries, &usages[i].0, &usages[i].1, Ghost(u.take(i as int)));
        i = i + 1;
    }
    assert(u.take(i as int) =~= u);
    entries
}

} // verus!

verus! {

/// An official task as listed: its score as printed, type, bundles,
/// expected programs and generators.
#[derive(Clone, Debug)]
pub struct ExplainOfficialTask {
    pub name: String,
    pub score: String,
    pub task_type: Option<String>,
    pub bundles: Vec<String>,
    pub pass: Vec<String>,
    pub fail: Vec<String>,
    pub generators: Vec<String>,
}

/// A task with expectations as listed: whether it is official (then its
/// score as printed counts), its bundles, inline cases, expected programs
/// and generators.
#[derive(Clone, Debug)]
pub struct ExplainExpectTask {
    pub name: String,
    pub official: bool,
    pub score: String,
    pub task_type: Option<String>,
    pub bundles: Vec<String>,
    pub inline_cases: usize,
    pub pass: Vec<String>,
    pub fail: Vec<String>,
    pub generators: Vec<String>,
}

/// The official bundles and tasks.
#[derive(Clone, Debug)]
pub struct ExplainOfficialData {
    pub bundles: Vec<ExplainBundle>,
    pub tasks: Vec<ExplainOfficialTask>,
}

/// What `pkg explain` reports about a package.
#[derive(Clone, Debug)]
pub struct ExplainReport {
    pub work_dir: String,
    pub roles: ExplainRoles,
    pub programs: Vec<ExplainProgram>,
    pub official_data: ExplainOfficialData,
    pub expect_checks: Vec<ExplainExpectTask>,
    pub handwritten_inputs: Vec<ExplainHandwrittenInput>,
}

/// ` roles=[...]`, or nothing.
pub open spec fn roles_part(roles: Seq<String>) -> Seq<char> {
    if roles.len() == 0 {
        Seq::empty()
    } else {
        " roles="@ + list_text(string_views(roles))
    }
}

/// ` type=...`, or nothing.
pub open spec fn type_part(t: Option<String>) -> Seq<char> {
    match t {
        Some(t) => " type="@ + t@,
        None => Seq::empty(),
    }
}

pub open spec fn program_line(p: ExplainProgram) -> Seq<char> {
    "  "@ + p.name@ + ": "@ + p.kind@ + " "@ + p.path@ + roles_part(p.roles@) + "\n"@
}

pub open spec fn programs_text(ps: Seq<ExplainProgram>) -> Seq<char>
    decreases ps.len(),
{
    if ps.len() == 0 {
        Seq::empty()
    } else {
        programs_text(ps.drop_last()) + program_line(ps.last())
    }
}

pub open spec fn official_task_line(t: ExplainOfficialTask) -> Seq<char> {
    "  task "@ + t.name@ + " score="@ + t.score@ + type_part(t.task_type) + " bundles="@ + list_text(
        string_views(t.bundles@),
    ) + " pass="@ + list_text(string_views(t.pass@)) + " fail="@ + list_text(string_views(t.fail@))
        + " generators="@ + list_text(string_views(t.generators@)) + "\n"@
}

pub open spec fn official_tasks_text(ts: Seq<ExplainOfficialTask>) -> Seq<char>
    decreases ts.len(),
{
    if ts.len() == 0 {
        Seq::empty()
    } else {
        official_tasks_text(ts.drop_last()) + official_task_line(ts.last())
    }
}

pub open spec fn bundle_line(b: ExplainBundle) -> Seq<char> {
    "  bundle "@ + b.name@ + " cases="@ + decimal(b.cases as nat) + " generators="@ + list_text(
        string_views(b.generators@),
    ) + "\n"@
}

pub open spec fn bundles_text(bs: Seq<ExplainBundle>) -> Seq<char>
    decreases bs.len(),
{
    if bs.len() == 0 {
        Seq::empty()
    } else {
        bundles_text(bs.drop_last()) + bundle_line(bs.last())
    }
}

pub open spec fn expect_line(t: ExplainExpectTask) -> Seq<char> {
    "  task "@ + t.name@ + " "@ + (if t.official {
        "score="@ + t.score@
    } else {
        "verify-only"@
    }) + " bundles="@ + list_text(string_views(t.bundles@)) + " inline_cases="@ + decimal(t.inline_cases as nat)
        + " pass="@ + list_text(string_views(t.pass@)) + " fail="@ + list_text(string_views(t.fail@))
        + " generators="@ + list_text(string_views(t.generators@)) + "\n"@
}

pub open spec fn expects_text(ts: Seq<ExplainExpectTask>) -> Seq<char>
    decreases ts.len(),
{
    if ts.len() == 0 {
        Seq::empty()
    } else {
        expects_text(ts.drop_last()) + expect_line(ts.last())
    }
}

pub open spec fn input_line(i: ExplainHandwrittenInput) -> Seq<char> {
    "  "@ + i.path@ + " used_by="@ + list_text(string_views(i.used_by@)) + "\n"@
}

pub open spec fn inputs_text(is: Seq<ExplainHandwrittenInput>) -> Seq<char>
    decreases is.len(),
{
    if is.len() == 0 {
        Seq::empty()
    } else {
        inputs_text(is.drop_last()) + input_line(is.last())
    }
}

/// `text`, or `none_line` when the section is empty.
pub open spec fn or_none(empty: bool, none_line: Seq<char>, text: Seq<char>) -> Seq<char> {
    if empty {
        none_line
    } else {
        text
    }
}

/// The text `pkg explain` prints.
pub open spec fn report_text(r: ExplainReport) -> Seq<char> {
    "# cptool pkg explain\n\n"@ + "roles\n"@ + role_text("solution"@, r.roles.solution) + role_text(
        "validator"@,
        r.roles.validator,
    ) + role_text("checker"@, r.roles.checker) + role_text("generator"@, r.roles.generator) + "\nprograms\n"@
        + or_none(r.programs@.len() == 0, "  none\n"@, programs_text(r.programs@)) + "\nofficial data\n"@
        + or_none(r.official_data.tasks@.len() == 0, "  tasks: none\n"@, official_tasks_text(r.official_data.tasks@))
        + or_none(r.official_data.bundles@.len() == 0, "  bundles: none\n"@, bundles_text(r.official_data.bundles@))
        + "\nexpect checks\n"@ + or_none(r.expect_checks@.len() == 0, "  none\n"@, expects_text(r.expect_checks@))
        + "\nhandwritten inputs\n"@ + or_none(
        r.handwritten_inputs@.len() == 0,
        "  none\n"@,
        inputs_text(r.handwritten_inputs@),
    )
}

fn append_list(out: &mut String, values: &Vec<String>)
    ensures
        final(out)@ == old(out)@ + list_text(string_views(values@)),
{
    let l = render_list(values);
    out.append(l.as_str());
}

fn append_programs(out: &mut String, ps: &Vec<ExplainProgram>)
    ensures
        final(out)@ == old(out)@ + programs_text(ps@),
{
    let ghost start = out@;
    let mut i: usize = 0;
    while i < ps.len()
        invariant
            i <= ps@.len(),
            out@ == start + programs_text(ps@.take(i as int)),
        decreases ps@.len() - i,
    {
        assert(ps@.take(i + 1).drop_last() =~= ps@.take(i as int));
        let p = &ps[i];
        out.append("  ");
        out.append(p.name.as_str());
        out.append(": ");
        out.append(p.kind.as_str());
        out.append(" ");
        out.append(p.path.as_str());
        let roles = render_program_roles(&p.roles);
        out.append(roles.as_str());
        out.append("\n");
        i = i + 1;
    }
    assert(ps@.take(i as int) =~= ps@);
}

fn lists_part(pass: &Vec<String>, fail: &Vec<String>, generators: &Vec<String>) -> (s: String)
    ensures
        s@ == " pass="@ + list_text(string_views(pass@)) + " fail="@ + list_text(string_views(fail@))
            + " generators="@ + list_text(string_views(generators@)) + "\n"@,
{
    let mut s = String::from_str(" pass=");
    append_list(&mut s, pass);
    s.append(" fail=");
    append_list(&mut s, fail);
    s.append(" generators=");
    append_list(&mut s, generators);
    s.append("\n");
    s
}

fn official_task_line_string(t: &ExplainOfficialTask) -> (s: String)
    ensures
        s@ == official_task_line(*t),
{
    let mut s = String::from_str("  task ");
    s.append(t.name.as_str());
    s.append(" score=");
    s.append(t.score.as_str());
    let ty = match &t.task_type {
        Some(x) => render_task_type(Some(x.as_str())),
        None => render_task_type(None),
    };
    s.append(ty.as_str());
    s.append(" bundles=");
    append_list(&mut s, &t.bundles);
    let ghost head = s@;
    let rest = lists_part(&t.pass, &t.fail, &t.generators);
    s.append(rest.as_str());
    s
}

fn expect_line_string(t: &ExplainExpectTask) -> (s: String)
    ensures
        s@ == expect_line(*t),
{
    let mut s = String::from_str("  task ");
    s.append(t.name.as_str());
    s.append(" ");
    if t.official {
        s.append("score=");
        s.append(t.score.as_str());
    } else {
        s.append("verify-only");
    }
    s.append(" bundles=");
    append_list(&mut s, &t.bundles);
    s.append(" inline_cases=");
    let n = usize_to_decimal(t.inline_cases);
    s.append(n.as_str());
    let rest = lists_part(&t.pass, &t.fail, &t.generators);
    s.append(rest.as_str());
    s
}

fn append_official_tasks(out: &mut String, ts: &Vec<ExplainOfficialTask>)
    ensures
        final(out)@ == old(out)@ + official_tasks_text(ts@),
{
    let ghost start = out@;
    let mut i: usize = 0;
    while i < ts.len()
        invariant
            i <= ts@.len(),
            out@ == start + official_tasks_text(ts@.take(i as int)),
        decreases ts@.len() - i,
    {
        assert(ts@.take(i + 1).drop_last() =~= ts@.take(i as int));
        let line = official_task_line_string(&ts[i]);
        out.append(line.as_str());
        i = i + 1;
    }
    assert(ts@.take(i as int) =~= ts@);
}

fn append_bundles(out: &mut String, bs: &Vec<ExplainBundle>)
    ensures
        final(out)@ == old(out)@ + bundles_text(bs@),
{
    let ghost start = out@;
    let mut i: usize = 0;
    while i < bs.len()
        invariant
            i <= bs@.len(),
            out@ == start + bundles_text(bs@.take(i as int)),
        decreases bs@.len() - i,
    {
        assert(bs@.take(i + 1).drop_last() =~= bs@.take(i as int));
        let b = &bs[i];
        out.append("  bundle ");
        out.append(b.name.as_str());
        out.append(" cases=");
        let n = usize_to_decimal(b.cases);
        out.append(n.as_str());
        out.append(" generators=");
        append_list(out, &b.generators);
        out.append("\n");
        i = i + 1;
    }
    assert(bs@.take(i as int) =~= bs@);
}

fn append_expects(out: &mut String, ts: &Vec<ExplainExpectTask>)
    ensures
        final(out)@ == old(out)@ + expects_text(ts@),
{
    let ghost start = out@;
    let mut i: usize = 0;
    while i < ts.len()
        invariant
            i <= ts@.len(),
            out@ == start + expects_text(ts@.take(i as int)),
        decreases ts@.len() - i,
    {
        assert(ts@.take(i + 1).drop_last() =~= ts@.take(i as int));
        let line = expect_line_string(&ts[i]);
        out.append(line.as_str());
        i = i + 1;
    }
    assert(ts@.take(i as int) =~= ts@);
}

fn append_inputs(out: &mut String, is: &Vec<ExplainHandwrittenInput>)
    ensures
        final(out)@ == old(out)@ + inputs_text(is@),
{
    let ghost start = out@;
    let mut i: usize = 0;
    while i < is.len()
        invariant
            i <= is@.len(),
            out@ == start + inputs_text(is@.take(i as int)),
        decreases is@.len() - i,
    {
        assert(is@.take(i + 1).drop_last() =~= is@.take(i as int));
        let x = &is[i];
        out.append("  ");
        out.append(x.path.as_str());
        out.append(" used_by=");
        append_list(out, &x.used_by);
        out.append("\n");
        i = i + 1;
    }
    assert(is@.take(i as int) =~= is@);
}

impl ExplainReport {
    /// The text `pkg explain` prints: roles, programs, official data,
    /// expect checks and handwritten inputs, `none` for an empty section.
    pub fn render_text(&self) -> (s: String)
        ensures
            s@ == report_text(*self),
    {
        let mut out = String::from_str("# cptool pkg explain\n\n");
        out.append("roles\n");
        render_role(&mut out, "solution", self.roles.solution.as_ref());
        render_role(&mut out, "validator", self.roles.validator.as_ref());
        render_role(&mut out, "checker", self.roles.checker.as_ref());
        render_role(&mut out, "generator", self.roles.generator.as_ref());
        out.append("\nprograms\n");
        if self.programs.len() == 0 {
            out.append("  none\n");
        } else {
            append_programs(&mut out, &self.programs);
        }
        out.append("\nofficial data\n");
        if self.official_data.tasks.len() == 0 {
            out.append("  tasks: none\n");
        } else {
            append_official_tasks(&mut out, &self.official_data.tasks);
        }
        if self.official_data.bundles.len() == 0 {
            out.append("  bundles: none\n");
        } else {
            append_bundles(&mut out, &self.official_data.bundles);
        }
        out.append("\nexpect checks\n");
        if self.expect_checks.len() == 0 {
            out.append("  none\n");
        } else {
            append_expects(&mut out, &self.expect_checks);
        }
        out.append("\nhandwritten inputs\n");
        if self.handwritten_inputs.len() == 0 {
            out.append("  none\n");
        } else {
            append_inputs(&mut out, &self.handwritten_inputs);
        }
        out
    }
}

} // verus!

verus! {

/// The word a program's kind is printed as.
pub open spec fn kind_word(info: ProgramInfo) -> Seq<char> {
    match info {
        ProgramInfo::Cpp(_) => "cpp"@,
        ProgramInfo::Python(_) => "python"@,
        ProgramInfo::Command(_) => "command"@,
    }
}

fn kind_string(info: &ProgramInfo) -> (s: String)
    ensures
        s@ == kind_word(*info),
{
    match info {
        ProgramInfo::Cpp(_) => String::from_str("cpp"),
        ProgramInfo::Python(_) => String::from_str("python"),
        ProgramInfo::Command(_) => String::from_str("command"),
    }
}

/// The position of the first program with the name, from position `i`.
pub open spec fn program_index_from(p: Problem, name: Seq<char>, i: int) -> Option<int>
    decreases p.programs@.len() - i,
{
    if i < 0 || i >= p.programs@.len() {
        None
    } else if p.programs@[i].name@ == name {
        Some(i)
    } else {
        program_index_from(p, name, i + 1)
    }
}

pub(crate) fn program_position(problem: &Problem, name: &String) -> (r: Option<usize>)
    ensures
        match r {
            Some(i) => i < problem.programs@.len() && program_index_from(*problem, name@, 0) == Some(i as int),
            None => program_index_from(*problem, name@, 0) is None,
        },
{
    let mut i: usize = 0;
    while i < problem.programs.len()
        invariant
            i <= problem.programs@.len(),
            program_index_from(*problem, name@, 0) == program_index_from(*problem, name@, i as int),
        decreases problem.programs@.len() - i,
    {
        if problem.programs[i].name == *name {
            return Some(i);
        }
        i = i + 1;
    }
    None
}

/// A program reference as (name, kind, path).
pub open spec fn ref_view(r: ExplainProgramRef) -> (Seq<char>, Seq<char>, Seq<char>) {
    (r.name@, r.kind@, r.path@)
}

pub open spec fn opt_ref_view(r: Option<ExplainProgramRef>) -> Option<(Seq<char>, Seq<char>, Seq<char>)> {
    match r {
        Some(r) => Some(ref_view(r)),
        None => None,
    }
}

/// The program behind a role, with its kind and shown path, if the
/// package defines it.
pub open spec fn program_ref_spec(p: Problem, paths: Seq<String>, name: Seq<char>) -> Option<
    (Seq<char>, Seq<char>, Seq<char>),
> {
    match program_index_from(p, name, 0) {
        Some(i) => Some((name, kind_word(p.programs@[i].info), paths[i]@)),
        None => None,
    }
}

/// The generator role: a program of the package, or a built-in.
pub open spec fn generator_ref_spec(p: Problem, paths: Seq<String>, name: Seq<char>) -> (Seq<char>, Seq<char>, Seq<char>) {
    match program_index_from(p, name, 0) {
        Some(i) => (name, kind_word(p.programs@[i].info), paths[i]@),
        None => (name, "builtin"@, name),
    }
}

fn program_ref(problem: &Problem, paths: &Vec<String>, name: &String) -> (r: Option<ExplainProgramRef>)
    requires
        paths@.len() == problem.programs@.len(),
    ensures
        opt_ref_view(r) == program_ref_spec(*problem, paths@, name@),
{
    match program_position(problem, name) {
        Some(i) => Some(
            ExplainProgramRef {
                name: name.clone(),
                kind: kind_string(&problem.programs[i].info),
                path: paths[i].clone(),
            },
        ),
        None => None,
    }
}

fn generator_ref(problem: &Problem, paths: &Vec<String>, name: &String) -> (r: ExplainProgramRef)
    requires
        paths@.len() == problem.programs@.len(),
    ensures
        ref_view(r) == generator_ref_spec(*problem, paths@, name@),
{
    match program_position(problem, name) {
        Some(i) => ExplainProgramRef {
            name: name.clone(),
            kind: kind_string(&problem.programs[i].info),
            path: paths[i].clone(),
        },
        None => ExplainProgramRef { name: name.clone(), kind: String::from_str("builtin"), path: name.clone() },
    }
}

/// The program plays a role: solution, validator, checker, or generator.
pub open spec fn plays_role(p: Problem, name: Seq<char>) -> bool {
    ||| name == p.solution_name@
    ||| crate::text::opt_view(p.validator_name) == Some(name)
    ||| crate::text::opt_view(p.checker_name) == Some(name)
    ||| crate::text::opt_view(p.generator_name) == Some(name)
}

/// No two programs of the package share a name.
pub open spec fn program_names_distinct(p: Problem) -> bool {
    forall|i: int, j: int|
        0 <= i < j < p.programs@.len() ==> (#[trigger] p.programs@[i]).name@ != (#[trigger] p.programs@[j]).name@
}

/// Program `i` as listed: (name, kind, shown path, usage roles).
pub open spec fn entry_of(p: Problem, paths: Seq<String>, i: int) -> (Seq<char>, Seq<char>, Seq<char>, Seq<Seq<char>>) {
    (p.programs@[i].name@, kind_word(p.programs@[i].info), paths[i]@, usage_roles(p, p.programs@[i].name@))
}

/// A listed program as (name, kind, path, usage roles).
pub open spec fn listed_view(e: ExplainProgram) -> (Seq<char>, Seq<char>, Seq<char>, Seq<Seq<char>>) {
    (e.name@, e.kind@, e.path@, string_views(e.roles@))
}

/// The entry is program `j` for some `j` below `n` without a role.
pub open spec fn listed_from(p: Problem, paths: Seq<String>, e: ExplainProgram, n: int) -> bool {
    exists|j: int|
        #![trigger entry_of(p, paths, j)]
        0 <= j < n && !plays_role(p, p.programs@[j].name@) && listed_view(e) == entry_of(p, paths, j)
}

/// The programs without a role, in name order, each with its kind, shown
/// path and usage.
pub open spec fn programs_listed(p: Problem, paths: Seq<String>, ps: Seq<ExplainProgram>) -> bool {
    &&& strictly_sorted(ps.map_values(|e: ExplainProgram| e.name@))
    &&& forall|m: int| 0 <= m < ps.len() ==> listed_from(p, paths, #[trigger] ps[m], p.programs@.len() as int)
    &&& forall|i: int|
        0 <= i < p.programs@.len() && !plays_role(p, #[trigger] p.programs@[i].name@) ==> ps.map_values(
            |e: ExplainProgram| e.name@,
        ).contains(p.programs@[i].name@)
}

proof fn lemma_listed_from_grow(p: Problem, paths: Seq<String>, e: ExplainProgram, n: int, k: int)
    requires
        listed_from(p, paths, e, n),
        n <= k,
    ensures
        listed_from(p, paths, e, k),
{
    let j = choose|j: int|
        #![trigger entry_of(p, paths, j)]
        0 <= j < n && !plays_role(p, p.programs@[j].name@) && listed_view(e) == entry_of(p, paths, j);
    assert(listed_view(e) == entry_of(p, paths, j));
}

fn is_role_name(problem: &Problem, name: &String) -> (b: bool)
    ensures
        b == plays_role(*problem, name@),
{
    if *name == problem.solution_name {
        return true;
    }
    let v = match &problem.validator_name {
        Some(x) => *x == *name,
        None => false,
    };
    let c = match &problem.checker_name {
        Some(x) => *x == *name,
        None => false,
    };
    let g = match &problem.generator_name {
        Some(x) => *x == *name,
        None => false,
    };
    v || c || g
}

/// Inserts an entry into a list kept strictly in name order; the name is
/// not there yet.
fn insert_program(list: &mut Vec<ExplainProgram>, e: ExplainProgram)
    requires
        strictly_sorted(old(list)@.map_values(|x: ExplainProgram| x.name@)),
        !old(list)@.map_values(|x: ExplainProgram| x.name@).contains(e.name@),
    ensures
        strictly_sorted(final(list)@.map_values(|x: ExplainProgram| x.name@)),
        forall|m: int| 0 <= m < final(list)@.len() ==> (#[trigger] final(list)@[m] == e || old(list)@.contains(final(list)@[m])),
        forall|m: int| 0 <= m < old(list)@.len() ==> final(list)@.contains(#[trigger] old(list)@[m]),
        final(list)@.contains(e),
{
    let target = chars_of(e.name.as_str());
    let ghost old_l = list@;
    let ghost old_n = list@.map_values(|x: ExplainProgram| x.name@);
    let mut i: usize = 0;
    loop
        invariant
            i <= list@.len(),
            list@ == old_l,
            old_n == old_l.map_values(|x: ExplainProgram| x.name@),
            strictly_sorted(old_n),
            !old_n.contains(e.name@),
            target@ == e.name@,
            forall|j: int| 0 <= j < i ==> text_less(#[trigger] old_n[j], e.name@),
        ensures
            i <= list@.len(),
            list@ == old_l,
            forall|j: int| 0 <= j < i ==> text_less(#[trigger] old_n[j], e.name@),
            i < list@.len() ==> text_less(e.name@, old_n[i as int]),
        decreases list@.len() - i,
    {
        if i == list.len() {
            break;
        }
        let current = chars_of(list[i].name.as_str());
        assert(current@ == old_n[i as int]);
        if chars_less(target.as_slice(), current.as_slice()) {
            break;
        }
        proof {
            crate::problem::lemma_text_less_total(old_n[i as int], e.name@);
            assert(old_n[i as int] != e.name@);
        }
        i = i + 1;
    }
    proof {
        assert forall|j: int| i <= j < old_n.len() implies text_less(e.name@, #[trigger] old_n[j]) by {
            if j > i {
                crate::problem::lemma_text_less_trans(e.name@, old_n[i as int], old_n[j]);
            }
        }
    }
    let ghost en = e.name@;
    let ghost ev = e;
    list.insert(i, e);
    proof {
        let nl = list@;
        let nn = nl.map_values(|x: ExplainProgram| x.name@);
        assert(nl =~= old_l.insert(i as int, ev));
        assert(nn =~= old_n.insert(i as int, en));
        assert forall|a: int, b: int| 0 <= a < b < nn.len() implies text_less(#[trigger] nn[a], #[trigger] nn[b]) by {
            if b < i {
                assert(nn[a] == old_n[a]);
                assert(nn[b] == old_n[b]);
            } else if b == i {
                assert(nn[a] == old_n[a]);
            } else if a < i {
                assert(nn[a] == old_n[a]);
                assert(nn[b] == old_n[b - 1]);
                crate::problem::lemma_text_less_trans(old_n[a], en, old_n[b - 1]);
            } else if a == i {
                assert(nn[b] == old_n[b - 1]);
            } else {
                assert(nn[a] == old_n[a - 1]);
                assert(nn[b] == old_n[b - 1]);
            }
        }
        assert forall|m: int| 0 <= m < nl.len() implies (#[trigger] nl[m] == ev || old_l.contains(nl[m])) by {
            if m < i {
                assert(nl[m] == old_l[m]);
            } else if m > i {
                assert(nl[m] == old_l[m - 1]);
            }
        }
        assert forall|m: int| 0 <= m < old_l.len() implies nl.contains(#[trigger] old_l[m]) by {
            if m < i {
                assert(nl[m] == old_l[m]);
            } else {
                assert(nl[m + 1] == old_l[m]);
            }
        }
        assert(nl[i as int] == ev);
    }
}

/// The programs that play no role, in name order.
fn listed_programs(problem: &Problem, paths: &Vec<String>) -> (ps: Vec<ExplainProgram>)
    requires
        paths@.len() == problem.programs@.len(),
        program_names_distinct(*problem),
    ensures
        programs_listed(*problem, paths@, ps@),
{
    let mut ps: Vec<ExplainProgram> = Vec::new();
    let mut i: usize = 0;
    while i < problem.programs.len()
        invariant
            i <= problem.programs@.len(),
            paths@.len() == problem.programs@.len(),
            program_names_distinct(*problem),
            strictly_sorted(ps@.map_values(|e: ExplainProgram| e.name@)),
            forall|m: int| 0 <= m < ps@.len() ==> listed_from(*problem, paths@, #[trigger] ps@[m], i as int),
            forall|j: int|
                0 <= j < i && !plays_role(*problem, #[trigger] problem.programs@[j].name@) ==> ps@.map_values(
                    |e: ExplainProgram| e.name@,
                ).contains(problem.programs@[j].name@),
        decreases problem.programs@.len() - i,
    {
        let name = &problem.programs[i].name;
        let ghost old_ps = ps@;
        if !is_role_name(problem, name) {
            let e = ExplainProgram {
                name: name.clone(),
                kind: kind_string(&problem.programs[i].info),
                path: paths[i].clone(),
                roles: program_usage_roles(name, problem),
            };
            let ghost ev = e;
            proof {
                let names = ps@.map_values(|x: ExplainProgram| x.name@);
                if names.contains(name@) {
                    let m = choose|m: int| 0 <= m < names.len() && names[m] == name@;
                    assert(listed_from(*problem, paths@, ps@[m], i as int));
                    let j = choose|j: int|
                        #![trigger entry_of(*problem, paths@, j)]
                        0 <= j < i && !plays_role(*problem, problem.programs@[j].name@) && listed_view(ps@[m])
                            == entry_of(*problem, paths@, j);
                    assert(problem.programs@[j].name@ != problem.programs@[i as int].name@);
                }
            }
            insert_program(&mut ps, e);
            proof {
                assert forall|m: int| 0 <= m < ps@.len() implies listed_from(*problem, paths@, #[trigger] ps@[m], i + 1) by {
                    if ps@[m] == ev {
                        assert(listed_view(ps@[m]) == entry_of(*problem, paths@, i as int));
                    } else {
                        let k = choose|k: int| 0 <= k < old_ps.len() && old_ps[k] == ps@[m];
                        assert(listed_from(*problem, paths@, old_ps[k], i as int));
                        lemma_listed_from_grow(*problem, paths@, old_ps[k], i as int, i + 1);
                    }
                }
                assert forall|j: int|
                    0 <= j < i + 1 && !plays_role(*problem, #[trigger] problem.programs@[j].name@) implies ps@.map_values(
                        |e: ExplainProgram| e.name@,
                    ).contains(problem.programs@[j].name@) by {
                    let names = ps@.map_values(|x: ExplainProgram| x.name@);
                    if j < i {
                        let old_names = old_ps.map_values(|x: ExplainProgram| x.name@);
                        let m = choose|m: int| 0 <= m < old_names.len() && old_names[m] == problem.programs@[j].name@;
                        assert(ps@.contains(old_ps[m]));
                        let k = choose|k: int| 0 <= k < ps@.len() && ps@[k] == old_ps[m];
                        assert(names[k] == problem.programs@[j].name@);
                    } else {
                        let k = choose|k: int| 0 <= k < ps@.len() && ps@[k] == ev;
                        assert(names[k] == problem.programs@[j].name@);
                    }
                }
            }
        } else {
            proof {
                assert forall|m: int| 0 <= m < ps@.len() implies listed_from(*problem, paths@, #[trigger] ps@[m], i + 1) by {
                    lemma_listed_from_grow(*problem, paths@, ps@[m], i as int, i + 1);
                }
            }
        }
        i = i + 1;
    }
    ps
}

} // verus!

verus! {

/// The generators of the cases, once each, in name order.
pub open spec fn case_generators_listed(cases: Seq<TestCase>, g: Seq<Seq<char>>) -> bool {
    &&& strictly_sorted(g)
    &&& forall|x: Seq<char>| g.contains(x) <==> exists|i: int| 0 <= i < cases.len() && (#[trigger] cases[i]).generator_name@ == x
}

/// A bundle named by an official task that the package defines.
pub open spec fn official_bundle_name(p: Problem, x: Seq<char>) -> bool {
    &&& exists|t: int, j: int|
        0 <= t < p.test.tasks@.len() && p.test.tasks@[t].official && 0 <= j < p.test.tasks@[t].bundles@.len()
            && #[trigger] p.test.tasks@[t].bundles@[j]@ == x
    &&& bundle_index_from(p.test.bundles@, x, 0) is Some
}

/// The official bundles, in name order, each with its size and
/// generators.
pub open spec fn official_bundles_listed(p: Problem, bs: Seq<ExplainBundle>) -> bool {
    &&& strictly_sorted(bs.map_values(|b: ExplainBundle| b.name@))
    &&& forall|x: Seq<char>| bs.map_values(|b: ExplainBundle| b.name@).contains(x) <==> official_bundle_name(p, x)
    &&& forall|m: int|
        0 <= m < bs.len() ==> match bundle_index_from(p.test.bundles@, (#[trigger] bs[m]).name@, 0) {
            Some(k) => bs[m].cases == p.test.bundles@[k].bundle.cases@.len() && case_generators_listed(
                p.test.bundles@[k].bundle.cases@,
                string_views(bs[m].generators@),
            ),
            None => false,
        }
}

/// The positions of the official tasks.
pub open spec fn official_positions(ts: Seq<TestTask>) -> Seq<int>
    decreases ts.len(),
{
    if ts.len() == 0 {
        Seq::empty()
    } else {
        official_positions(ts.drop_last()) + if ts.last().official {
            seq![ts.len() - 1]
        } else {
            Seq::empty()
        }
    }
}

/// The positions of the tasks that name programs to pass or fail.
pub open spec fn expect_positions(ts: Seq<TestTask>) -> Seq<int>
    decreases ts.len(),
{
    if ts.len() == 0 {
        Seq::empty()
    } else {
        expect_positions(ts.drop_last()) + if ts.last().pass_programs@.len() > 0 || ts.last().fail_programs@.len() > 0 {
            seq![ts.len() - 1]
        } else {
            Seq::empty()
        }
    }
}

pub open spec fn type_word_opt(t: Option<TestTaskType>) -> Option<Seq<char>> {
    match t {
        Some(x) => Some(task_type_word(x)),
        None => None,
    }
}

/// The listed official task is task `k`, with its score as printed.
pub open spec fn official_task_ok(p: Problem, scores: Seq<String>, e: ExplainOfficialTask, k: int) -> bool {
    let t = p.test.tasks@[k];
    &&& e.name@ == t.name@
    &&& e.score@ == scores[k]@
    &&& crate::text::opt_view(e.task_type) == type_word_opt(t.task_type)
    &&& string_views(e.bundles@) == string_views(t.bundles@)
    &&& string_views(e.pass@) == string_views(t.pass_programs@)
    &&& string_views(e.fail@) == string_views(t.fail_programs@)
    &&& generators_listed(p, t.bundles@, t.cases@, string_views(e.generators@))
}

/// The listed expect check is task `k`, with its score as printed.
pub open spec fn expect_task_ok(p: Problem, scores: Seq<String>, e: ExplainExpectTask, k: int) -> bool {
    let t = p.test.tasks@[k];
    &&& e.name@ == t.name@
    &&& e.official == t.official
    &&& e.score@ == scores[k]@
    &&& crate::text::opt_view(e.task_type) == type_word_opt(t.task_type)
    &&& string_views(e.bundles@) == string_views(t.bundles@)
    &&& e.inline_cases == t.cases@.len()
    &&& string_views(e.pass@) == string_views(t.pass_programs@)
    &&& string_views(e.fail@) == string_views(t.fail_programs@)
    &&& generators_listed(p, t.bundles@, t.cases@, string_views(e.generators@))
}

fn type_text(t: Option<TestTaskType>) -> (r: Option<String>)
    ensures
        crate::text::opt_view(r) == type_word_opt(t),
{
    match t {
        Some(x) => Some(task_type_name(x)),
        None => None,
    }
}

fn official_bundles(problem: &Problem) -> (bs: Vec<ExplainBundle>)
    ensures
        official_bundles_listed(*problem, bs@),
{
    let mut names: Vec<String> = Vec::new();
    let mut t: usize = 0;
    while t < problem.test.tasks.len()
        invariant
            t <= problem.test.tasks@.len(),
            strictly_sorted(string_views(names@)),
            forall|x: Seq<char>|
                string_views(names@).contains(x) <==> ((exists|u: int, j: int|
                    0 <= u < t && problem.test.tasks@[u].official && 0 <= j < problem.test.tasks@[u].bundles@.len()
                        && #[trigger] problem.test.tasks@[u].bundles@[j]@ == x) && bundle_index_from(
                    problem.test.bundles@,
                    x,
                    0,
                ) is Some),
        decreases problem.test.tasks@.len() - t,
    {
        let task = &problem.test.tasks[t];
        if task.official {
            let mut j: usize = 0;
            while j < task.bundles.len()
                invariant
                    t < problem.test.tasks@.len(),
                    task == problem.test.tasks@[t as int],
                    task.official,
                    j <= task.bundles@.len(),
                    strictly_sorted(string_views(names@)),
                    forall|x: Seq<char>|
                        string_views(names@).contains(x) <==> (((exists|u: int, i: int|
                            0 <= u < t && problem.test.tasks@[u].official && 0 <= i < problem.test.tasks@[u].bundles@.len()
                                && #[trigger] problem.test.tasks@[u].bundles@[i]@ == x) || exists|i: int|
                            0 <= i < j && #[trigger] task.bundles@[i]@ == x) && bundle_index_from(
                            problem.test.bundles@,
                            x,
                            0,
                        ) is Some),
                decreases task.bundles@.len() - j,
            {
                let ghost before = string_views(names@);
                if find_bundle(problem, &task.bundles[j]).is_some() {
                    insert_sorted(&mut names, &task.bundles[j]);
                }
                proof {
                    let after = string_views(names@);
                    assert forall|x: Seq<char>|
                        after.contains(x) <==> (((exists|u: int, i: int|
                            0 <= u < t && problem.test.tasks@[u].official && 0 <= i < problem.test.tasks@[u].bundles@.len()
                                && #[trigger] problem.test.tasks@[u].bundles@[i]@ == x) || exists|i: int|
                            0 <= i < j + 1 && #[trigger] task.bundles@[i]@ == x) && bundle_index_from(
                            problem.test.bundles@,
                            x,
                            0,
                        ) is Some) by {
                        if x == task.bundles@[j as int]@ {
                            assert(task.bundles@[j as int]@ == x);
                        }
                        if exists|i: int| 0 <= i < j + 1 && #[trigger] task.bundles@[i]@ == x {
                            let i = choose|i: int| 0 <= i < j + 1 && #[trigger] task.bundles@[i]@ == x;
                            if i < j {
                                assert(task.bundles@[i]@ == x);
                            }
                        }
                    }
                }
                j = j + 1;
            }
            proof {
                assert forall|x: Seq<char>|
                    string_views(names@).contains(x) <==> ((exists|u: int, i: int|
                        0 <= u < t + 1 && problem.test.tasks@[u].official && 0 <= i < problem.test.tasks@[u].bundles@.len()
                            && #[trigger] problem.test.tasks@[u].bundles@[i]@ == x) && bundle_index_from(
                        problem.test.bundles@,
                        x,
                        0,
                    ) is Some) by {
                    if exists|i: int| 0 <= i < task.bundles@.len() && #[trigger] task.bundles@[i]@ == x {
                        let i = choose|i: int| 0 <= i < task.bundles@.len() && #[trigger] task.bundles@[i]@ == x;
                        assert(problem.test.tasks@[t as int].bundles@[i]@ == x);
                    }
                    if exists|u: int, i: int|
                        0 <= u < t + 1 && problem.test.tasks@[u].official && 0 <= i < problem.test.tasks@[u].bundles@.len()
                            && #[trigger] problem.test.tasks@[u].bundles@[i]@ == x {
                        let (u, i) = choose|u: int, i: int|
                            0 <= u < t + 1 && problem.test.tasks@[u].official && 0 <= i < problem.test.tasks@[u].bundles@.len()
                                && #[trigger] problem.test.tasks@[u].bundles@[i]@ == x;
                        if u == t {
                            assert(task.bundles@[i]@ == x);
                        }
                    }
                }
            }
        } else {
            proof {
                assert forall|x: Seq<char>|
                    string_views(names@).contains(x) <==> ((exists|u: int, i: int|
                        0 <= u < t + 1 && problem.test.tasks@[u].official && 0 <= i < problem.test.tasks@[u].bundles@.len()
                            && #[trigger] problem.test.tasks@[u].bundles@[i]@ == x) && bundle_index_from(
                        problem.test.bundles@,
                        x,
                        0,
                    ) is Some) by {
                    if exists|u: int, i: int|
                        0 <= u < t + 1 && problem.test.tasks@[u].official && 0 <= i < problem.test.tasks@[u].bundles@.len()
                            && #[trigger] problem.test.tasks@[u].bundles@[i]@ == x {
                        let (u, i) = choose|u: int, i: int|
                            0 <= u < t + 1 && problem.test.tasks@[u].official && 0 <= i < problem.test.tasks@[u].bundles@.len()
                                && #[trigger] problem.test.tasks@[u].bundles@[i]@ == x;
                        assert(u < t);
                    }
                }
            }
        }
        t = t + 1;
    }
    let mut bs: Vec<ExplainBundle> = Vec::new();
    let mut m: usize = 0;
    while m < names.len()
        invariant
            m <= names@.len(),
            bs@.len() == m,
            strictly_sorted(string_views(names@)),
            forall|x: Seq<char>| string_views(names@).contains(x) ==> bundle_index_from(problem.test.bundles@, x, 0) is Some,
            forall|i: int| 0 <= i < m ==> (#[trigger] bs@[i]).name@ == names@[i]@,
            forall|i: int|
                0 <= i < m ==> match bundle_index_from(problem.test.bundles@, (#[trigger] bs@[i]).name@, 0) {
                    Some(k) => bs@[i].cases == problem.test.bundles@[k].bundle.cases@.len() && case_generators_listed(
                        problem.test.bundles@[k].bundle.cases@,
                        string_views(bs@[i].generators@),
                    ),
                    None => false,
                },
        decreases names@.len() - m,
    {
        assert(string_views(names@).contains(names@[m as int]@)) by {
            assert(string_views(names@)[m as int] == names@[m as int]@);
        }
        match find_bundle(problem, &names[m]) {
            Some(k) => {
                let cases = &problem.test.bundles[k].bundle.cases;
                let generators = case_generators(cases);
                bs.push(ExplainBundle { name: names[m].clone(), cases: cases.len(), generators });
            },
            None => {
                assert(false);
            },
        }
        m = m + 1;
    }
    proof {
        let bn = bs@.map_values(|b: ExplainBundle| b.name@);
        assert(bn =~= string_views(names@));
    }
    bs
}

fn official_tasks(problem: &Problem, scores: &Vec<String>) -> (ts: Vec<ExplainOfficialTask>)
    requires
        scores@.len() == problem.test.tasks@.len(),
    ensures
        ts@.len() == official_positions(problem.test.tasks@).len(),
        forall|j: int|
            0 <= j < ts@.len() ==> official_task_ok(
                *problem,
                scores@,
                #[trigger] ts@[j],
                official_positions(problem.test.tasks@)[j],
            ),
{
    let mut ts: Vec<ExplainOfficialTask> = Vec::new();
    let mut k: usize = 0;
    while k < problem.test.tasks.len()
        invariant
            k <= problem.test.tasks@.len(),
            scores@.len() == problem.test.tasks@.len(),
            ts@.len() == official_positions(problem.test.tasks@.take(k as int)).len(),
            forall|j: int|
                0 <= j < ts@.len() ==> official_task_ok(
                    *problem,
                    scores@,
                    #[trigger] ts@[j],
                    official_positions(problem.test.tasks@.take(k as int))[j],
                ),
        decreases problem.test.tasks@.len() - k,
    {
        let ghost prev = official_positions(problem.test.tasks@.take(k as int));
        assert(problem.test.tasks@.take(k + 1).drop_last() =~= problem.test.tasks@.take(k as int));
        assert(problem.test.tasks@.take(k + 1).last() == problem.test.tasks@[k as int]);
        let task = &problem.test.tasks[k];
        if task.official {
            let e = ExplainOfficialTask {
                name: task.name.clone(),
                score: scores[k].clone(),
                task_type: type_text(task.task_type),
                bundles: crate::text::clone_strings(&task.bundles),
                pass: crate::text::clone_strings(&task.pass_programs),
                fail: crate::text::clone_strings(&task.fail_programs),
                generators: task_generators(problem, &task.bundles, &task.cases),
            };
            ts.push(e);
            proof {
                let now = official_positions(problem.test.tasks@.take(k + 1));
                assert(now =~= prev.push(k as int));
                assert forall|j: int| 0 <= j < ts@.len() implies official_task_ok(
                    *problem,
                    scores@,
                    #[trigger] ts@[j],
                    now[j],
                ) by {
                    if j < prev.len() {
                        assert(now[j] == prev[j]);
                    }
                }
            }
        } else {
            assert(official_positions(problem.test.tasks@.take(k + 1)) =~= prev);
        }
        k = k + 1;
    }
    assert(problem.test.tasks@.take(k as int) =~= problem.test.tasks@);
    ts
}

fn expect_tasks(problem: &Problem, scores: &Vec<String>) -> (ts: Vec<ExplainExpectTask>)
    requires
        scores@.len() == problem.test.tasks@.len(),
    ensures
        ts@.len() == expect_positions(problem.test.tasks@).len(),
        forall|j: int|
            0 <= j < ts@.len() ==> expect_task_ok(*problem, scores@, #[trigger] ts@[j], expect_positions(problem.test.tasks@)[j]),
{
    let mut ts: Vec<ExplainExpectTask> = Vec::new();
    let mut k: usize = 0;
    while k < problem.test.tasks.len()
        invariant
            k <= problem.test.tasks@.len(),
            scores@.len() == problem.test.tasks@.len(),
            ts@.len() == expect_positions(problem.test.tasks@.take(k as int)).len(),
            forall|j: int|
                0 <= j < ts@.len() ==> expect_task_ok(
                    *problem,
                    scores@,
                    #[trigger] ts@[j],
                    expect_positions(problem.test.tasks@.take(k as int))[j],
                ),
        decreases problem.test.tasks@.len() - k,
    {
        let ghost prev = expect_positions(problem.test.tasks@.take(k as int));
        assert(problem.test.tasks@.take(k + 1).drop_last() =~= problem.test.tasks@.take(k as int));
        assert(problem.test.tasks@.take(k + 1).last() == problem.test.tasks@[k as int]);
        let task = &problem.test.tasks[k];
        if task.has_expectations() {
            let e = ExplainExpectTask {
                name: task.name.clone(),
                official: task.official,
                score: scores[k].clone(),
                task_type: type_text(task.task_type),
                bundles: crate::text::clone_strings(&task.bundles),
                inline_cases: task.cases.len(),
                pass: crate::text::clone_strings(&task.pass_programs),
                fail: crate::text::clone_strings(&task.fail_programs),
                generators: task_generators(problem, &task.bundles, &task.cases),
            };
            ts.push(e);
            proof {
                let now = expect_positions(problem.test.tasks@.take(k + 1));
                assert(now =~= prev.push(k as int));
                assert forall|j: int| 0 <= j < ts@.len() implies expect_task_ok(*problem, scores@, #[trigger] ts@[j], now[j]) by {
                    if j < prev.len() {
                        assert(now[j] == prev[j]);
                    }
                }
            }
        } else {
            assert(expect_positions(problem.test.tasks@.take(k + 1)) =~= prev);
        }
        k = k + 1;
    }
    assert(problem.test.tasks@.take(k as int) =~= problem.test.tasks@);
    ts
}

/// Explains a package: the programs behind its roles, the programs
/// without a role, the official bundles and tasks, the tasks with
/// expectations and the handwritten inputs. `paths` holds each program's
/// path as shown, `scores` each task's score as printed.
pub fn explain_problem(work_dir: &String, problem: &Problem, paths: &Vec<String>, scores: &Vec<String>) -> (r:
    ExplainReport)
    requires
        paths@.len() == problem.programs@.len(),
        scores@.len() == problem.test.tasks@.len(),
        program_names_distinct(*problem),
    ensures
        r.work_dir@ == work_dir@,
        opt_ref_view(r.roles.solution) == program_ref_spec(*problem, paths@, problem.solution_name@),
        opt_ref_view(r.roles.validator) == match problem.validator_name {
            Some(n) => program_ref_spec(*problem, paths@, n@),
            None => None,
        },
        opt_ref_view(r.roles.checker) == match problem.checker_name {
            Some(n) => program_ref_spec(*problem, paths@, n@),
            None => None,
        },
        opt_ref_view(r.roles.generator) == match problem.generator_name {
            Some(n) => Some(generator_ref_spec(*problem, paths@, n@)),
            None => None,
        },
        programs_listed(*problem, paths@, r.programs@),
        official_bundles_listed(*problem, r.official_data.bundles@),
        r.official_data.tasks@.len() == official_positions(problem.test.tasks@).len(),
        forall|j: int|
            0 <= j < r.official_data.tasks@.len() ==> official_task_ok(
                *problem,
                scores@,
                #[trigger] r.official_data.tasks@[j],
                official_positions(problem.test.tasks@)[j],
            ),
        r.expect_checks@.len() == expect_positions(problem.test.tasks@).len(),
        forall|j: int|
            0 <= j < r.expect_checks@.len() ==> expect_task_ok(
                *problem,
                scores@,
                #[trigger] r.expect_checks@[j],
                expect_positions(problem.test.tasks@)[j],
            ),
        inputs_grouped(r.handwritten_inputs@, file_usages(*problem)),
{
    let solution = program_ref(problem, paths, &problem.solution_name);
    let validator = match &problem.validator_name {
        Some(n) => program_ref(problem, paths, n),
        None => None,
    };
    let checker = match &problem.checker_name {
        Some(n) => program_ref(problem, paths, n),
        None => None,
    };
    let generator = match &problem.generator_name {
        Some(n) => Some(generator_ref(problem, paths, n)),
        None => None,
    };
    ExplainReport {
        work_dir: work_dir.clone(),
        roles: ExplainRoles { solution, validator, checker, generator },
        programs: listed_programs(problem, paths),
        official_data: ExplainOfficialData { bundles: official_bundles(problem), tasks: official_tasks(problem, scores) },
        expect_checks: expect_tasks(problem, scores),
        handwritten_inputs: handwritten_inputs(problem),
    }
}

} // verus!
