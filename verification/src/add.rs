//! Editing a package's configuration: adding bundles, tasks and programs,
//! choosing where a new program's source lives, and the built-in checkers.

use vstd::prelude::*;
use crate::data::{bundle_index_from, find_bundle};
use crate::explain::{program_index_from, program_position};
use crate::schema::{
    CommandProgram, CppProgram, NamedBundle, NamedProgram, Problem, ProgramInfo, TestBundle, TestCase,
    TestTask, TestTaskType,
};
use crate::text::{chars_of, string_from_chars, string_views};

verus! {

/// The kind of program a source is.
#[derive(Clone, Copy, Debug, PartialEq, Eq, Structural)]
pub enum AddProgramKind {
    Cpp,
    Python,
    Command,
}

/// Options of adding a bundle: its name, the generator of its cases, the
/// arguments of each case, and whether an existing bundle is replaced.
#[derive(Clone, Debug)]
pub struct AddBundleOptions {
    pub work_dir: String,
    pub name: String,
    pub generator: Option<String>,
    pub cases: Vec<Vec<String>>,
    pub replace: bool,
}

/// The bundles by name.
pub open spec fn bundles_map(bs: Seq<NamedBundle>) -> Map<Seq<char>, TestBundle>
    decreases bs.len(),
{
    if bs.len() == 0 {
        Map::empty()
    } else {
        bundles_map(bs.drop_last()).insert(bs.last().name@, bs.last().bundle)
    }
}

/// No two bundles share a name.
pub open spec fn unique_bundle_names(bs: Seq<NamedBundle>) -> bool {
    forall|i: int, j: int| 0 <= i < j < bs.len() ==> (#[trigger] bs[i]).name@ != (#[trigger] bs[j]).name@
}

proof fn lemma_bundles_map_dom(bs: Seq<NamedBundle>, name: Seq<char>)
    ensures
        bundles_map(bs).dom().contains(name) <==> exists|i: int| 0 <= i < bs.len() && (#[trigger] bs[i]).name@ == name,
    decreases bs.len(),
{
    if bs.len() > 0 {
        lemma_bundles_map_dom(bs.drop_last(), name);
        if exists|i: int| 0 <= i < bs.drop_last().len() && (#[trigger] bs.drop_last()[i]).name@ == name {
            let i = choose|i: int| 0 <= i < bs.drop_last().len() && (#[trigger] bs.drop_last()[i]).name@ == name;
            assert(bs[i].name@ == name);
        }
        if exists|i: int| 0 <= i < bs.len() && (#[trigger] bs[i]).name@ == name {
            let i = choose|i: int| 0 <= i < bs.len() && (#[trigger] bs[i]).name@ == name;
            if i < bs.len() - 1 {
                assert(bs.drop_last()[i].name@ == name);
            }
        }
    }
}

proof fn lemma_bundles_map_update(bs: Seq<NamedBundle>, k: int, nb: NamedBundle)
    requires
        unique_bundle_names(bs),
        0 <= k < bs.len(),
        bs[k].name@ == nb.name@,
    ensures
        bundles_map(bs.update(k, nb)) == bundles_map(bs).insert(nb.name@, nb.bundle),
    decreases bs.len(),
{
    let u = bs.update(k, nb);
    if k == bs.len() - 1 {
        assert(u.drop_last() == bs.drop_last());
        assert(bundles_map(u) =~= bundles_map(bs).insert(nb.name@, nb.bundle));
    } else {
        let init = bs.drop_last();
        assert(unique_bundle_names(init)) by {
            assert forall|i: int, j: int| 0 <= i < j < init.len() implies (#[trigger] init[i]).name@
                != (#[trigger] init[j]).name@ by {
                assert(init[i] == bs[i]);
                assert(init[j] == bs[j]);
            }
        }
        lemma_bundles_map_update(init, k, nb);
        assert(u.drop_last() == init.update(k, nb));
        assert(u.last() == bs.last());
        assert(bs.last().name@ != nb.name@) by {
            assert(bs[k].name@ != bs[bs.len() - 1].name@);
        }
        assert(bundles_map(u) =~= bundles_map(bs).insert(nb.name@, nb.bundle));
    }
}

/// Where the first bundle with the name is, from `k` on: there is none in
/// the rest, or it is the first one there.
proof fn lemma_bundle_index_from(bs: Seq<NamedBundle>, name: Seq<char>, k: int)
    requires
        0 <= k,
    ensures
        match bundle_index_from(bs, name, k) {
            Some(i) => k <= i < bs.len() && bs[i].name@ == name && forall|j: int|
                k <= j < i ==> (#[trigger] bs[j]).name@ != name,
            None => forall|j: int| k <= j < bs.len() ==> (#[trigger] bs[j]).name@ != name,
        },
    decreases bs.len() - k,
{
    if k < bs.len() && bs[k].name@ != name {
        lemma_bundle_index_from(bs, name, k + 1);
    }
}

/// The bundle the options describe: one case per argument list, each run
/// by the given generator (`gen` when none is given).
pub open spec fn new_bundle_ok(b: TestBundle, options: AddBundleOptions) -> bool {
    let generator = match options.generator {
        Some(g) => g@,
        None => "gen"@,
    };
    &&& b.cases@.len() == options.cases@.len()
    &&& forall|i: int|
        0 <= i < b.cases@.len() ==> (#[trigger] b.cases@[i]).generator_name@ == generator
            && b.cases@[i].args@ == options.cases@[i]@
}

/// Adds a bundle to a package, or replaces the bundle of the same name
/// when asked to; refuses an empty bundle and an unrequested replacement.
pub fn add_bundle(problem: &mut Problem, options: AddBundleOptions) -> (r: Result<(), String>)
    requires
        unique_bundle_names(old(problem).test.bundles@),
    ensures
        unique_bundle_names(final(problem).test.bundles@),
        match r {
            Ok(()) => {
                &&& options.cases@.len() > 0
                &&& (!options.replace ==> !bundles_map(old(problem).test.bundles@).dom().contains(
                    options.name@,
                ))
                &&& exists|b: TestBundle|
                    new_bundle_ok(b, options) && bundles_map(final(problem).test.bundles@)
                        == bundles_map(old(problem).test.bundles@).insert(options.name@, b)
                &&& exists|nb: NamedBundle|
                    nb.name@ == options.name@ && #[trigger] new_bundle_ok(nb.bundle, options)
                        && final(problem).test.bundles@ == match bundle_index_from(
                        old(problem).test.bundles@,
                        options.name@,
                        0,
                    ) {
                        Some(k) => old(problem).test.bundles@.update(k, nb),
                        None => old(problem).test.bundles@.push(nb),
                    }
                &&& final(problem).test.tasks == old(problem).test.tasks
                &&& final(problem).programs == old(problem).programs
                &&& final(problem).name == old(problem).name
                &&& final(problem).output == old(problem).output
                &&& final(problem).stress == old(problem).stress
                &&& final(problem).solution_name == old(problem).solution_name
                &&& final(problem).validator_name == old(problem).validator_name
                &&& final(problem).validator_omitted_reason == old(problem).validator_omitted_reason
                &&& final(problem).checker_name == old(problem).checker_name
                &&& final(problem).generator_name == old(problem).generator_name
                &&& final(problem).cpp_compile_args == old(problem).cpp_compile_args
            },
            Err(e) => *final(problem) == *old(problem) && if options.cases@.len() == 0 {
                e@ == "add bundle requires at least one --case"@
            } else {
                !options.replace && bundles_map(old(problem).test.bundles@).dom().contains(
                    options.name@,
                ) && e@ == "bundle `"@ + options.name@
                    + "` already exists; pass --replace to overwrite"@
            },
        },
{
    proof {
        reveal_strlit("add bundle requires at least one --case");
        reveal_strlit("bundle `");
        reveal_strlit("` already exists; pass --replace to overwrite");
        reveal_strlit("gen");
    }
    if options.cases.len() == 0 {
        return Err(String::from_str("add bundle requires at least one --case"));
    }
    let ghost old_bundles = problem.test.bundles@;
    let existing = find_bundle(problem, &options.name);
    proof {
        lemma_bundle_index_from(old_bundles, options.name@, 0);
        lemma_bundles_map_dom(old_bundles, options.name@);
    }
    if existing.is_some() && !options.replace {
        let mut s = String::from_str("bundle `");
        s.append(options.name.as_str());
        s.append("` already exists; pass --replace to overwrite");
        return Err(s);
    }
    let generator = match &options.generator {
        Some(g) => g.clone(),
        None => String::from_str("gen"),
    };
    let mut cases: Vec<TestCase> = Vec::new();
    let mut c: usize = 0;
    while c < options.cases.len()
        invariant
            c <= options.cases@.len(),
            cases@.len() == c,
            generator@ == match options.generator {
                Some(g) => g@,
                None => "gen"@,
            },
            forall|j: int|
                0 <= j < c ==> (#[trigger] cases@[j]).generator_name@ == generator@ && cases@[j].args@
                    == options.cases@[j]@,
        decreases options.cases@.len() - c,
    {
        let args = crate::text::clone_strings(&options.cases[c]);
        cases.push(TestCase { generator_name: generator.clone(), args });
        c = c + 1;
    }
    let bundle = TestBundle { cases };
    assert(new_bundle_ok(bundle, options));
    let named = NamedBundle { name: options.name.clone(), bundle };
    assert(named.name@ == options.name@ && new_bundle_ok(named.bundle, options));
    match existing {
        Some(k) => {
            problem.test.bundles.set(k, named);
            proof {
                assert(problem.test.bundles@ == old_bundles.update(k as int, named));
                lemma_bundles_map_update(old_bundles, k as int, named);
                let nb = problem.test.bundles@;
                assert forall|a: int, b: int| 0 <= a < b < nb.len() implies (#[trigger] nb[a]).name@
                    != (#[trigger] nb[b]).name@ by {
                    if a != k && b != k {
                        assert(nb[a] == old_bundles[a]);
                        assert(nb[b] == old_bundles[b]);
                    } else if a == k {
                        assert(nb[b] == old_bundles[b]);
                        assert(old_bundles[k as int].name@ != old_bundles[b].name@);
                    } else {
                        assert(nb[a] == old_bundles[a]);
                        assert(old_bundles[a].name@ != old_bundles[k as int].name@);
                    }
                }
            }
        },
        None => {
            problem.test.bundles.push(named);
            proof {
                let nb = problem.test.bundles@;
                assert(nb.drop_last() == old_bundles);
                assert forall|a: int, b: int| 0 <= a < b < nb.len() implies (#[trigger] nb[a]).name@
                    != (#[trigger] nb[b]).name@ by {
                    assert(nb[a] == old_bundles[a]);
                    if b < nb.len() - 1 {
                        assert(nb[b] == old_bundles[b]);
                    }
                }
            }
        },
    }
    Ok(())
}

/// Law: once a bundle is added, reading the package's bundle of that name
/// gives the added bundle, and every other bundle reads as before.
pub proof fn lemma_add_bundle_read_back(
    before: Map<Seq<char>, TestBundle>,
    name: Seq<char>,
    b: TestBundle,
    other: Seq<char>,
)
    requires
        other != name,
    ensures
        before.insert(name, b)[name] == b,
        before.insert(name, b).dom().contains(name),
        before.dom().contains(other) ==> before.insert(name, b)[other] == before[other],
        before.insert(name, b).dom().contains(other) == before.dom().contains(other),
{
}

/// Options of adding a task (its score, a real number, is kept apart).
#[derive(Clone, Debug)]
pub struct AddTaskOptions {
    pub work_dir: String,
    pub name: String,
    pub task_type: TestTaskType,
    pub bundles: Vec<String>,
    pub dependencies: Vec<String>,
    pub replace: bool,
}

/// The first task with the name, from `i` on.
pub open spec fn task_position_from(tasks: Seq<TestTask>, name: Seq<char>, i: int) -> Option<int>
    decreases tasks.len() - i,
{
    if i < 0 || i >= tasks.len() {
        None
    } else if tasks[i].name@ == name {
        Some(i)
    } else {
        task_position_from(tasks, name, i + 1)
    }
}

fn task_position(tasks: &Vec<TestTask>, name: &String) -> (r: Option<usize>)
    ensures
        match r {
            Some(k) => k < tasks@.len() && task_position_from(tasks@, name@, 0) == Some(k as int),
            None => task_position_from(tasks@, name@, 0) is None,
        },
{
    let mut i: usize = 0;
    while i < tasks.len()
        invariant
            i <= tasks@.len(),
            task_position_from(tasks@, name@, 0) == task_position_from(tasks@, name@, i as int),
        decreases tasks@.len() - i,
    {
        if tasks[i].name == *name {
            return Some(i);
        }
        i = i + 1;
    }
    None
}

/// Adds a task at the end of the tasks, first removing the task of the
/// same name when asked to replace it.
pub fn add_task(problem: &mut Problem, options: AddTaskOptions) -> (r: Result<(), String>)
    ensures
        match r {
            Ok(()) => options.bundles@.len() > 0 && ({
                let kept = match task_position_from(old(problem).test.tasks@, options.name@, 0) {
                    Some(k) => old(problem).test.tasks@.remove(k),
                    None => old(problem).test.tasks@,
                };
                &&& (task_position_from(old(problem).test.tasks@, options.name@, 0) is Some ==> options.replace)
                &&& final(problem).test.tasks@.drop_last() == kept
                &&& final(problem).test.tasks@.last().name@ == options.name@
                &&& final(problem).test.tasks@.last().task_type == Some(options.task_type)
                &&& final(problem).test.tasks@.last().official
                &&& final(problem).test.tasks@.last().bundles@ == options.bundles@
                &&& final(problem).test.tasks@.last().dependencies@ == options.dependencies@
                &&& final(problem).test.tasks@.last().pass_programs@.len() == 0
                &&& final(problem).test.tasks@.last().fail_programs@.len() == 0
                &&& final(problem).test.tasks@.last().cases@.len() == 0
                &&& final(problem).programs == old(problem).programs
                &&& final(problem).name == old(problem).name
                &&& final(problem).output == old(problem).output
                &&& final(problem).stress == old(problem).stress
                &&& final(problem).solution_name == old(problem).solution_name
                &&& final(problem).validator_name == old(problem).validator_name
                &&& final(problem).validator_omitted_reason == old(problem).validator_omitted_reason
                &&& final(problem).checker_name == old(problem).checker_name
                &&& final(problem).generator_name == old(problem).generator_name
                &&& final(problem).cpp_compile_args == old(problem).cpp_compile_args
            }) && final(problem).test.bundles == old(problem).test.bundles,
            Err(e) => *final(problem) == *old(problem) && if options.bundles@.len() == 0 {
                e@ == "add task requires at least one --bundle"@
            } else {
                !options.replace && task_position_from(old(problem).test.tasks@, options.name@, 0) is Some
                    && e@ == "task `"@ + options.name@ + "` already exists; pass --replace to overwrite"@
            },
        },
{
    proof {
        reveal_strlit("add task requires at least one --bundle");
        reveal_strlit("task `");
        reveal_strlit("` already exists; pass --replace to overwrite");
    }
    if options.bundles.len() == 0 {
        return Err(String::from_str("add task requires at least one --bundle"));
    }
    let ghost old_tasks = problem.test.tasks@;
    let position = task_position(&problem.test.tasks, &options.name);
    match position {
        Some(k) => {
            if !options.replace {
                let mut s = String::from_str("task `");
                s.append(options.name.as_str());
                s.append("` already exists; pass --replace to overwrite");
                return Err(s);
            }
            problem.test.tasks.remove(k);
        },
        None => {},
    }
    let task = TestTask {
        name: options.name,
        official: true,
        task_type: Some(options.task_type),
        bundles: options.bundles,
        dependencies: options.dependencies,
        pass_programs: Vec::new(),
        fail_programs: Vec::new(),
        cases: Vec::new(),
    };
    problem.test.tasks.push(task);
    Ok(())
}

} // verus!

verus! {

/// The ids of the built-in checkers, in order.
pub open spec fn builtin_ids() -> Seq<Seq<char>> {
    seq![
        "acmp"@, "caseicmp"@, "casencmp"@, "casewcmp"@, "dcmp"@, "fcmp"@, "hcmp"@, "icmp"@,
        "lcmp"@, "ncmp"@, "nyesno"@, "pointscmp"@, "pointsinfo"@, "rcmp"@, "rcmp4"@, "rcmp6"@,
        "rcmp9"@, "rncmp"@, "uncmp"@, "wcmp"@, "yesno"@,
    ]
}

/// The ids of the built-in checkers (testlib's checkers), in order.
pub fn builtin_checker_ids() -> (v: Vec<&'static str>)
    ensures
        v@.map_values(|s: &str| s@) == builtin_ids(),
{
    let v = vec![
        "acmp", "caseicmp", "casencmp", "casewcmp", "dcmp", "fcmp", "hcmp", "icmp", "lcmp", "ncmp",
        "nyesno", "pointscmp", "pointsinfo", "rcmp", "rcmp4", "rcmp6", "rcmp9", "rncmp", "uncmp",
        "wcmp", "yesno",
    ];
    assert(v@.map_values(|s: &str| s@) =~= builtin_ids());
    v
}

/// The source file of a built-in checker: its id with `.cpp`.
pub fn builtin_checker_file(id: &str) -> (r: Option<String>)
    ensures
        match r {
            Some(f) => builtin_ids().contains(id@) && f@ == id@ + ".cpp"@,
            None => !builtin_ids().contains(id@),
        },
{
    let ids = builtin_checker_ids();
    let target = id.to_string();
    let mut i: usize = 0;
    while i < ids.len()
        invariant
            i <= ids@.len(),
            ids@.map_values(|s: &str| s@) == builtin_ids(),
            target@ == id@,
            forall|j: int| 0 <= j < i ==> builtin_ids()[j] != id@,
        decreases ids@.len() - i,
    {
        assert(ids@[i as int]@ == builtin_ids()[i as int]);
        if ids[i].to_string() == target {
            let mut f = target.clone();
            f.append(".cpp");
            proof {
                reveal_strlit(".cpp");
            }
            return Some(f);
        }
        i = i + 1;
    }
    None
}

/// The message for an unknown built-in checker, listing the known ones.
pub open spec fn unknown_checker_text(builtin: Seq<char>) -> Seq<char> {
    "unknown built-in checker `"@ + builtin + "`; available: "@ + crate::text::join(builtin_ids(), ", "@)
}

/// The message for an unknown built-in checker.
pub fn unknown_checker_message(builtin: &str) -> (s: String)
    ensures
        s@ == unknown_checker_text(builtin@),
{
    proof {
        reveal_strlit("unknown built-in checker `");
        reveal_strlit("`; available: ");
    }
    let ids = builtin_checker_ids();
    let mut names: Vec<String> = Vec::new();
    let mut i: usize = 0;
    while i < ids.len()
        invariant
            i <= ids@.len(),
            ids@.map_values(|s: &str| s@) == builtin_ids(),
            string_views(names@) == builtin_ids().take(i as int),
        decreases ids@.len() - i,
    {
        let ghost before = string_views(names@);
        let n = ids[i].to_string();
        names.push(n);
        assert(string_views(names@) =~= before.push(builtin_ids()[i as int]));
        assert(builtin_ids().take(i + 1) =~= builtin_ids().take(i as int).push(builtin_ids()[i as int]));
        i = i + 1;
    }
    assert(builtin_ids().take(i as int) =~= builtin_ids());
    let mut s = String::from_str("unknown built-in checker `");
    s.append(builtin);
    s.append("`; available: ");
    s.append(crate::stress::join_strings(&names, ", ").as_str());
    s
}

/// The program kind a source's extension shows.
pub open spec fn kind_of_extension(ext: Option<Seq<char>>) -> Option<AddProgramKind> {
    match ext {
        Some(e) => if e == "cpp"@ || e == "cc"@ || e == "cxx"@ {
            Some(AddProgramKind::Cpp)
        } else if e == "py"@ {
            Some(AddProgramKind::Python)
        } else {
            None
        },
        None => None,
    }
}

/// Law: the extensions `cpp`, `cc` and `cxx`, and no others, show a C++
/// source; `py`, and no other, shows a Python source; any other extension,
/// or none, shows no kind.
pub proof fn lemma_extension_kinds(ext: Option<Seq<char>>)
    ensures
        (kind_of_extension(ext) == Some(AddProgramKind::Cpp)) <==> (ext == Some("cpp"@) || ext
            == Some("cc"@) || ext == Some("cxx"@)),
        (kind_of_extension(ext) == Some(AddProgramKind::Python)) <==> ext == Some("py"@),
        kind_of_extension(ext) != Some(AddProgramKind::Command),
        (kind_of_extension(ext) is None) <==> !(ext == Some("cpp"@) || ext == Some("cc"@) || ext
            == Some("cxx"@) || ext == Some("py"@)),
{
    reveal_strlit("cpp");
    reveal_strlit("cc");
    reveal_strlit("cxx");
    reveal_strlit("py");
    assert("py"@[0] != "cc"@[0]);
    assert("py"@.len() != "cpp"@.len() && "py"@.len() != "cxx"@.len());
}

/// The program kind a source's extension shows, if any.
pub fn infer_kind(extension: Option<&str>) -> (k: Option<AddProgramKind>)
    ensures
        k == kind_of_extension(
            match extension {
                Some(e) => Some(e@),
                None => None,
            },
        ),
{
    proof {
        reveal_strlit("cpp");
        reveal_strlit("cc");
        reveal_strlit("cxx");
        reveal_strlit("py");
    }
    match extension {
        Some(e) => {
            let e = e.to_string();
            if e == String::from_str("cpp") || e == String::from_str("cc") || e == String::from_str(
                "cxx",
            ) {
                Some(AddProgramKind::Cpp)
            } else if e == String::from_str("py") {
                Some(AddProgramKind::Python)
            } else {
                None
            }
        },
        None => None,
    }
}

/// A relative source path as the package records it: with `/` as the
/// separator and starting with `./`; an absolute path stays as it is.
pub open spec fn package_path(path: Seq<char>, absolute: bool) -> Seq<char> {
    if absolute {
        path
    } else {
        let raw = path.map_values(|c: char| if c == '\\' { '/' } else { c });
        if crate::text::starts_with(raw, "./"@) {
            raw
        } else {
            "./"@ + raw
        }
    }
}

/// Records a source path the way the package writes it.
pub fn normalize_package_path(path: &str, absolute: bool) -> (s: String)
    ensures
        s@ == package_path(path@, absolute),
{
    if absolute {
        return path.to_string();
    }
    let chars = chars_of(path);
    let mut raw: Vec<char> = Vec::new();
    let mut i: usize = 0;
    while i < chars.len()
        invariant
            i <= chars@.len(),
            raw@ == chars@.take(i as int).map_values(|c: char| if c == '\\' { '/' } else { c }),
        decreases chars@.len() - i,
    {
        let c = chars[i];
        raw.push(if c == '\\' { '/' } else { c });
        assert(chars@.take(i + 1).map_values(|c: char| if c == '\\' { '/' } else { c })
            =~= chars@.take(i as int).map_values(|c: char| if c == '\\' { '/' } else { c }).push(
            if c == '\\' { '/' } else { c },
        ));
        i = i + 1;
    }
    assert(chars@.take(i as int) == chars@);
    let prefix = chars_of("./");
    proof {
        reveal_strlit("./");
    }
    if crate::text::has_prefix(raw.as_slice(), prefix.as_slice()) {
        string_from_chars(raw.as_slice())
    } else {
        let mut s = String::from_str("./");
        s.append(string_from_chars(raw.as_slice()).as_str());
        s
    }
}

/// The default source path of a program of each kind.
pub open spec fn default_source(name: Seq<char>, kind: AddProgramKind) -> Seq<char> {
    match kind {
        AddProgramKind::Cpp => "./src/"@ + name + ".cpp"@,
        AddProgramKind::Python => "./src/"@ + name + ".py"@,
        AddProgramKind::Command => "./src/"@ + name,
    }
}

/// The default source path of a program of the kind.
pub fn default_source_path(name: &String, kind: AddProgramKind) -> (s: String)
    ensures
        s@ == default_source(name@, kind),
{
    proof {
        reveal_strlit("./src/");
        reveal_strlit(".cpp");
        reveal_strlit(".py");
    }
    let mut s = String::from_str("./src/");
    s.append(name.as_str());
    match kind {
        AddProgramKind::Cpp => s.append(".cpp"),
        AddProgramKind::Python => s.append(".py"),
        AddProgramKind::Command => {},
    }
    s
}

/// Where a new program's source is, of which kind, and whether an empty
/// source must be created: an explicit path keeps its kind (given, from
/// its extension, else a command); otherwise the one existing default
/// source (of the given kind, if one is given), or a new default source.
/// `existing` says which of the C++, Python and command defaults exist.
pub fn resolve_program_path(
    name: &String,
    kind: Option<AddProgramKind>,
    explicit_path: Option<(&str, Option<&str>, bool)>,
    existing: (bool, bool, bool),
) -> (r: Result<(AddProgramKind, String, bool), String>)
    ensures
        match explicit_path {
            Some((p, ext, absolute)) => r is Ok && r->Ok_0.0 == match kind {
                Some(k) => k,
                None => match kind_of_extension(
                    match ext {
                        Some(e) => Some(e@),
                        None => None,
                    },
                ) {
                    Some(k) => k,
                    None => AddProgramKind::Command,
                },
            } && r->Ok_0.1@ == package_path(p@, absolute) && !r->Ok_0.2,
            None => match kind {
                Some(k) => r is Ok && r->Ok_0.0 == k && r->Ok_0.1@ == default_source(name@, k)
                    && r->Ok_0.2 == !(match k {
                    AddProgramKind::Cpp => existing.0,
                    AddProgramKind::Python => existing.1,
                    AddProgramKind::Command => existing.2,
                }),
                None => {
                    let n = (if existing.0 { 1int } else { 0int }) + (if existing.1 { 1int } else { 0int }) + (if existing.2 { 1int } else { 0int });
                    if n == 0 {
                        r is Ok && r->Ok_0.0 == AddProgramKind::Cpp && r->Ok_0.1@ == default_source(
                            name@,
                            AddProgramKind::Cpp,
                        ) && r->Ok_0.2
                    } else if n == 1 {
                        r is Ok && !r->Ok_0.2 && r->Ok_0.1@ == default_source(name@, r->Ok_0.0)
                            && (match r->Ok_0.0 {
                            AddProgramKind::Cpp => existing.0,
                            AddProgramKind::Python => existing.1,
                            AddProgramKind::Command => existing.2,
                        })
                    } else {
                        r is Err && r->Err_0@ == "multiple source candidates found for `"@ + name@
                            + "`; use `add program "@ + name@
                            + " --path ...` or `--kind ...` first, then register the role"@
                    }
                },
            },
        },
{
    match explicit_path {
        Some((p, ext, absolute)) => {
            let k = match kind {
                Some(k) => k,
                None => match infer_kind(ext) {
                    Some(k) => k,
                    None => AddProgramKind::Command,
                },
            };
            Ok((k, normalize_package_path(p, absolute), false))
        },
        None => match kind {
            Some(k) => {
                let exists = match k {
                    AddProgramKind::Cpp => existing.0,
                    AddProgramKind::Python => existing.1,
                    AddProgramKind::Command => existing.2,
                };
                Ok((k, default_source_path(name, k), !exists))
            },
            None => {
                let (c, p, m) = existing;
                if !c && !p && !m {
                    Ok((AddProgramKind::Cpp, default_source_path(name, AddProgramKind::Cpp), true))
                } else if c && !p && !m {
                    Ok((AddProgramKind::Cpp, default_source_path(name, AddProgramKind::Cpp), false))
                } else if !c && p && !m {
                    Ok((AddProgramKind::Python, default_source_path(name, AddProgramKind::Python), false))
                } else if !c && !p && m {
                    Ok((AddProgramKind::Command, default_source_path(name, AddProgramKind::Command), false))
                } else {
                    proof {
                        reveal_strlit("multiple source candidates found for `");
                        reveal_strlit("`; use `add program ");
                        reveal_strlit(" --path ...` or `--kind ...` first, then register the role");
                    }
                    let mut s = String::from_str("multiple source candidates found for `");
                    s.append(name.as_str());
                    s.append("`; use `add program ");
                    s.append(name.as_str());
                    s.append(" --path ...` or `--kind ...` first, then register the role");
                    Err(s)
                }
            },
        },
    }
}

/// How a program of the kind is run: C++ with the given compile arguments
/// (the package's defaults when none are given), or Python or a command
/// without extra arguments.
pub fn program_info_from_parts(
    kind: AddProgramKind,
    path: String,
    compile_args: &Vec<String>,
    default_cpp_compile_args: &Vec<String>,
) -> (info: ProgramInfo)
    ensures
        match kind {
            AddProgramKind::Cpp => info matches ProgramInfo::Cpp(p) && p.path == path && p.compile_args@
                == if compile_args@.len() == 0 {
                default_cpp_compile_args@
            } else {
                compile_args@
            },
            AddProgramKind::Python => info matches ProgramInfo::Python(p) && p.path == path
                && p.extra_args@.len() == 0,
            AddProgramKind::Command => info matches ProgramInfo::Command(p) && p.path == path
                && p.extra_args@.len() == 0,
        },
{
    match kind {
        AddProgramKind::Cpp => ProgramInfo::Cpp(
            CppProgram {
                path,
                compile_args: if compile_args.len() == 0 {
                    crate::text::clone_strings(default_cpp_compile_args)
                } else {
                    crate::text::clone_strings(compile_args)
                },
            },
        ),
        AddProgramKind::Python => ProgramInfo::Python(CommandProgram { path, extra_args: Vec::new() }),
        AddProgramKind::Command => ProgramInfo::Command(CommandProgram { path, extra_args: Vec::new() }),
    }
}

} // verus!

verus! {

/// A program of the package has the name.
pub open spec fn defines_program(p: Problem, name: Seq<char>) -> bool {
    exists|i: int| 0 <= i < p.programs@.len() && (#[trigger] p.programs@[i]).name@ == name
}

/// Registers a program under its name: it replaces the first program of
/// that name, or is added after the others; nothing else changes.
pub fn set_program(problem: &mut Problem, program: NamedProgram)
    ensures
        final(problem).programs@ == match program_index_from(*old(problem), program.name@, 0) {
            Some(i) => old(problem).programs@.update(i, program),
            None => old(problem).programs@.push(program),
        },
        final(problem).test == old(problem).test,
        final(problem).stress == old(problem).stress,
        final(problem).name == old(problem).name,
        final(problem).solution_name == old(problem).solution_name,
        final(problem).validator_name == old(problem).validator_name,
        final(problem).validator_omitted_reason == old(problem).validator_omitted_reason,
        final(problem).checker_name == old(problem).checker_name,
        final(problem).generator_name == old(problem).generator_name,
        final(problem).cpp_compile_args == old(problem).cpp_compile_args,
        final(problem).output == old(problem).output,
{
    match program_position(problem, &program.name) {
        Some(i) => problem.programs.set(i, program),
        None => problem.programs.push(program),
    }
}

/// Where the first program with the name is, from `k` on: there is none
/// in the rest, or it is the first one there.
proof fn lemma_program_index_from(p: Problem, name: Seq<char>, k: int)
    requires
        0 <= k,
    ensures
        match program_index_from(p, name, k) {
            Some(i) => k <= i < p.programs@.len() && p.programs@[i].name@ == name && forall|j: int|
                k <= j < i ==> (#[trigger] p.programs@[j]).name@ != name,
            None => forall|j: int| k <= j < p.programs@.len() ==> (#[trigger] p.programs@[j]).name@ != name,
        },
    decreases p.programs@.len() - k,
{
    if k < p.programs@.len() && p.programs@[k].name@ != name {
        lemma_program_index_from(p, name, k + 1);
    }
}

/// Law: after a program is registered, looking its name up finds it.
pub proof fn lemma_set_program_read_back(before: Problem, after: Problem, program: NamedProgram)
    requires
        after.programs@ == match program_index_from(before, program.name@, 0) {
            Some(i) => before.programs@.update(i, program),
            None => before.programs@.push(program),
        },
    ensures
        match program_index_from(after, program.name@, 0) {
            Some(i) => after.programs@[i] == program,
            None => false,
        },
{
    let n = program.name@;
    lemma_program_index_from(before, n, 0);
    lemma_program_index_from(after, n, 0);
    match program_index_from(before, n, 0) {
        Some(i) => {
            assert(after.programs@[i] == program);
            match program_index_from(after, n, 0) {
                Some(k) => {
                    if k < i {
                        assert(after.programs@[k] == before.programs@[k]);
                    }
                    if k > i {
                        assert(after.programs@[i].name@ == n);
                    }
                },
                None => {
                    assert(after.programs@[i].name@ == n);
                },
            }
        },
        None => {
            let last = before.programs@.len() as int;
            assert(after.programs@[last] == program);
            match program_index_from(after, n, 0) {
                Some(k) => {
                    if k < last {
                        assert(after.programs@[k] == before.programs@[k]);
                    }
                },
                None => {
                    assert(after.programs@[last].name@ == n);
                },
            }
        },
    }
}

/// What registering a validator or checker does.
#[derive(Clone, Copy, Debug, PartialEq, Eq, Structural)]
pub enum RoleStep {
    UseExisting,
    AddBuiltin,
    AddSource,
}

/// Whether adding a program under the name is allowed.
pub fn program_step(problem: &Problem, name: &String, replace: bool) -> (r: Result<(), String>)
    ensures
        match r {
            Ok(()) => !defines_program(*problem, name@) || replace,
            Err(e) => defines_program(*problem, name@) && !replace && e@ == "program `"@ + name@
                + "` already exists; pass --replace to overwrite"@,
        },
{
    if crate::problem::program_exists(problem, name) && !replace {
        proof {
            reveal_strlit("program `");
            reveal_strlit("` already exists; pass --replace to overwrite");
        }
        let mut s = String::from_str("program `");
        s.append(name.as_str());
        s.append("` already exists; pass --replace to overwrite");
        return Err(s);
    }
    proof {
        assert(crate::problem::has_program(*problem, name@) == defines_program(*problem, name@));
    }
    Ok(())
}

/// Makes the named program the package's validator, dropping any reason
/// given for having none; nothing else changes.
pub fn assign_validator(problem: &mut Problem, name: String)
    ensures
        final(problem).validator_name == Some(name),
        final(problem).validator_omitted_reason is None,
        final(problem).programs == old(problem).programs,
        final(problem).test == old(problem).test,
        final(problem).stress == old(problem).stress,
        final(problem).name == old(problem).name,
        final(problem).output == old(problem).output,
        final(problem).solution_name == old(problem).solution_name,
        final(problem).checker_name == old(problem).checker_name,
        final(problem).generator_name == old(problem).generator_name,
        final(problem).cpp_compile_args == old(problem).cpp_compile_args,
{
    problem.validator_name = Some(name);
    problem.validator_omitted_reason = None;
}

/// Makes the named program the package's checker; nothing else changes.
pub fn assign_checker(problem: &mut Problem, name: String)
    ensures
        final(problem).checker_name == Some(name),
        final(problem).programs == old(problem).programs,
        final(problem).test == old(problem).test,
        final(problem).stress == old(problem).stress,
        final(problem).name == old(problem).name,
        final(problem).output == old(problem).output,
        final(problem).solution_name == old(problem).solution_name,
        final(problem).validator_name == old(problem).validator_name,
        final(problem).validator_omitted_reason == old(problem).validator_omitted_reason,
        final(problem).generator_name == old(problem).generator_name,
        final(problem).cpp_compile_args == old(problem).cpp_compile_args,
{
    problem.checker_name = Some(name);
}

/// What adding a validator does: refuse to replace a configured one
/// unasked, register an existing program of that name, or add a program.
pub fn validator_step(problem: &Problem, name: &String, replace: bool) -> (r: Result<RoleStep, String>)
    ensures
        match r {
            Ok(step) => !(problem.validator_name is Some && !replace) && step == if defines_program(
                *problem,
                name@,
            ) && !replace {
                RoleStep::UseExisting
            } else {
                RoleStep::AddSource
            },
            Err(e) => problem.validator_name is Some && !replace
                && e@ == "validator is already configured; pass --replace to overwrite"@,
        },
{
    if problem.validator_name.is_some() && !replace {
        proof {
            reveal_strlit("validator is already configured; pass --replace to overwrite");
        }
        return Err(String::from_str("validator is already configured; pass --replace to overwrite"));
    }
    let exists = crate::problem::program_exists(problem, name);
    proof {
        assert(crate::problem::has_program(*problem, name@) == defines_program(*problem, name@));
    }
    if exists && !replace {
        Ok(RoleStep::UseExisting)
    } else {
        Ok(RoleStep::AddSource)
    }
}

/// What adding a checker does: refuse to replace a configured one
/// unasked, register an existing program of that name (unless a built-in
/// is asked for), refuse to overwrite an existing program unasked, or add
/// the built-in checker or a source.
pub fn checker_step(problem: &Problem, name: &String, builtin: bool, replace: bool) -> (r: Result<
    RoleStep,
    String,
>)
    ensures
        match r {
            Ok(step) => !(problem.checker_name is Some && !replace) && if !builtin && defines_program(
                *problem,
                name@,
            ) && !replace {
                step == RoleStep::UseExisting
            } else {
                !(defines_program(*problem, name@) && !replace) && step == if builtin {
                    RoleStep::AddBuiltin
                } else {
                    RoleStep::AddSource
                }
            },
            Err(e) => if problem.checker_name is Some && !replace {
                e@ == "checker is already configured; pass --replace to overwrite"@
            } else {
                builtin && defines_program(*problem, name@) && !replace && e@ == "program `"@ + name@
                    + "` already exists; pass --replace to overwrite"@
            },
        },
{
    if problem.checker_name.is_some() && !replace {
        proof {
            reveal_strlit("checker is already configured; pass --replace to overwrite");
        }
        return Err(String::from_str("checker is already configured; pass --replace to overwrite"));
    }
    let exists = crate::problem::program_exists(problem, name);
    proof {
        assert(crate::problem::has_program(*problem, name@) == defines_program(*problem, name@));
    }
    if !builtin && exists && !replace {
        return Ok(RoleStep::UseExisting);
    }
    if exists && !replace {
        proof {
            reveal_strlit("program `");
            reveal_strlit("` already exists; pass --replace to overwrite");
        }
        let mut s = String::from_str("program `");
        s.append(name.as_str());
        s.append("` already exists; pass --replace to overwrite");
        return Err(s);
    }
    if builtin {
        Ok(RoleStep::AddBuiltin)
    } else {
        Ok(RoleStep::AddSource)
    }
}

/// The message of a built-in checker that would overwrite a source.
pub fn builtin_source_exists_message(path: &str) -> (s: String)
    ensures
        s@ == "checker source "@ + path@
            + " already exists; omit --builtin to register the existing source, or pass --replace to overwrite it with the built-in checker"@,
{
    proof {
        reveal_strlit("checker source ");
        reveal_strlit(" already exists; omit --builtin to register the existing source, or pass --replace to overwrite it with the built-in checker");
    }
    let mut s = String::from_str("checker source ");
    s.append(path);
    s.append(" already exists; omit --builtin to register the existing source, or pass --replace to overwrite it with the built-in checker");
    s
}

} // verus!
