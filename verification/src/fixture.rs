//! Fixtures of a package: handwritten inputs, and inputs and outputs that
//! the validator and checker must accept or reject; their names, their
//! listing and the problems a check of them reports.

use vstd::prelude::*;
use crate::judge::JudgeExpectation;
use crate::schema::Problem;
use crate::text::{chars_of, contains, string_views, trim, trimmed, string_from_chars};

verus! {

/// Options of adding a handwritten input fixture.
#[derive(Clone, Debug)]
pub struct AddInputFixtureOptions {
    pub work_dir: String,
    pub name: String,
    pub from: Option<String>,
    pub replace: bool,
}

/// Options of adding a validator fixture.
#[derive(Clone, Debug)]
pub struct AddValidatorFixtureOptions {
    pub work_dir: String,
    pub expect: JudgeExpectation,
    pub name: String,
    pub from: Option<String>,
    pub replace: bool,
}

/// Options of adding a checker fixture.
#[derive(Clone, Debug)]
pub struct AddCheckerFixtureOptions {
    pub work_dir: String,
    pub expect: JudgeExpectation,
    pub name: String,
    pub input_from: Option<String>,
    pub output_from: Option<String>,
    pub answer_from: Option<String>,
    pub replace: bool,
}

/// The files an added fixture consists of, and whether one was replaced.
#[derive(Clone, Debug)]
pub struct AddFixtureReport {
    pub work_dir: String,
    pub paths: Vec<String>,
    pub replaced: bool,
}

/// The lines printed after adding a fixture: one per file.
pub open spec fn fixture_lines(r: AddFixtureReport) -> Seq<Seq<char>> {
    string_views(r.paths@).map_values(
        |p: Seq<char>| (if r.replaced {
            "wrote "@
        } else {
            "created "@
        }) + p,
    )
}

impl AddFixtureReport {
    /// The lines printed after adding a fixture.
    pub fn summary_lines(&self) -> (v: Vec<String>)
        ensures
            string_views(v@) == fixture_lines(*self),
    {
        proof {
            reveal_strlit("wrote ");
            reveal_strlit("created ");
        }
        let mut v: Vec<String> = Vec::new();
        let mut i: usize = 0;
        while i < self.paths.len()
            invariant
                i <= self.paths@.len(),
                string_views(v@) == fixture_lines(*self).take(i as int),
            decreases self.paths@.len() - i,
        {
            let mut line = String::from_str(if self.replaced { "wrote " } else { "created " });
            line.append(self.paths[i].as_str());
            let ghost before = string_views(v@);
            v.push(line);
            assert(string_views(v@) =~= before.push(line@));
            assert(fixture_lines(*self).take(i + 1) =~= fixture_lines(*self).take(i as int).push(
                line@,
            ));
            i = i + 1;
        }
        assert(fixture_lines(*self).take(i as int) =~= fixture_lines(*self));
        v
    }
}

/// The handwritten inputs, validator and checker fixtures of a package.
#[derive(Clone, Debug)]
pub struct FixtureListReport {
    pub work_dir: String,
    pub inputs: Vec<InputFixture>,
    pub validators: Vec<ValidatorFixture>,
    pub checkers: Vec<CheckerFixture>,
}

/// A handwritten input and whether a case reads it.
#[derive(Clone, Debug)]
pub struct InputFixture {
    pub name: String,
    pub path: String,
    pub used: bool,
}

/// An input the validator must accept or reject.
#[derive(Clone, Debug)]
pub struct ValidatorFixture {
    pub name: String,
    pub expect: JudgeExpectation,
    pub path: String,
}

/// An input, output and answer the checker must accept or reject.
#[derive(Clone, Debug)]
pub struct CheckerFixture {
    pub name: String,
    pub expect: JudgeExpectation,
    pub path: String,
    pub input_path: String,
    pub output_path: String,
    pub answer_path: String,
}

/// The outcome of checking the fixtures.
#[derive(Clone, Debug)]
pub struct FixtureCheckReport {
    pub ok: bool,
    pub work_dir: String,
    pub errors: Vec<FixtureIssue>,
    pub list: FixtureListReport,
}

/// A problem found among the fixtures.
#[derive(Clone, Debug)]
pub struct FixtureIssue {
    pub code: String,
    pub path: String,
    pub message: String,
}

/// The state of one file of a checker fixture.
#[derive(Clone, Copy, Debug, PartialEq, Eq, Structural)]
pub enum FixtureFileState {
    Missing,
    Empty,
    Present,
}

/// Why a fixture name is refused, as on Unix: empty, a path, with an
/// extension, or with a backslash.
pub open spec fn fixture_name_error(name: Seq<char>) -> Option<Seq<char>> {
    let t = trim(name);
    if t.len() == 0 {
        Some("fixture name cannot be empty"@)
    } else if contains(t, "/"@) || t == "."@ || t == ".."@ {
        Some("fixture name must be a file stem, not a path: `"@ + name + "`"@)
    } else if exists|i: int| 1 <= i < t.len() && #[trigger] t[i] == '.' {
        Some("fixture name must not include an extension: `"@ + name + "`"@)
    } else if contains(t, "\\"@) {
        Some("fixture name must be a safe file stem: `"@ + name + "`"@)
    } else {
        None
    }
}

/// Checks a fixture name and gives it trimmed.
pub fn validate_fixture_stem(name: &str) -> (r: Result<String, String>)
    ensures
        match r {
            Ok(s) => fixture_name_error(name@) is None && s@ == trim(name@),
            Err(e) => fixture_name_error(name@) == Some(e@),
        },
{
    proof {
        reveal_strlit("fixture name cannot be empty");
        reveal_strlit("fixture name must be a file stem, not a path: `");
        reveal_strlit("fixture name must not include an extension: `");
        reveal_strlit("fixture name must be a safe file stem: `");
        reveal_strlit("`");
        reveal_strlit("/");
        reveal_strlit(".");
        reveal_strlit("..");
        reveal_strlit("\\");
    }
    let chars = chars_of(name);
    let t = trimmed(chars.as_slice());
    if t.len() == 0 {
        return Err(String::from_str("fixture name cannot be empty"));
    }
    let is_dot = t.len() == 1 && t[0] == '.';
    let is_dotdot = t.len() == 2 && t[0] == '.' && t[1] == '.';
    proof {
        if is_dot {
            assert(t@ =~= "."@);
        }
        if t@ == "."@ {
            assert(t@.len() == 1 && t@[0] == '.');
        }
        if is_dotdot {
            assert(t@ =~= ".."@);
        }
        if t@ == ".."@ {
            assert(t@.len() == 2 && t@[0] == '.' && t@[1] == '.');
        }
    }
    if crate::text::has_substring(t.as_slice(), chars_of("/").as_slice()) || is_dot || is_dotdot {
        let mut s = String::from_str("fixture name must be a file stem, not a path: `");
        s.append(name);
        s.append("`");
        return Err(s);
    }
    let mut i: usize = 1;
    while i < t.len()
        invariant
            1 <= i <= t@.len(),
            t@ == trim(name@),
            !contains(t@, "/"@),
            t@ != "."@,
            t@ != ".."@,
            forall|j: int| 1 <= j < i ==> t@[j] != '.',
        decreases t@.len() - i,
    {
        if t[i] == '.' {
            assert(t@[i as int] == '.');
            assert(exists|j: int| 1 <= j < t@.len() && #[trigger] t@[j] == '.');
            let mut s = String::from_str("fixture name must not include an extension: `");
            s.append(name);
            s.append("`");
            return Err(s);
        }
        i = i + 1;
    }
    if crate::text::has_substring(t.as_slice(), chars_of("\\").as_slice()) {
        let mut s = String::from_str("fixture name must be a safe file stem: `");
        s.append(name);
        s.append("`");
        return Err(s);
    }
    Ok(string_from_chars(t.as_slice()))
}

/// The message of a fixture that exists when no replacement was asked.
pub fn fixture_exists_message(path: &str) -> (s: String)
    ensures
        s@ == "fixture already exists: "@ + path@ + "; pass --replace to overwrite"@,
{
    proof {
        reveal_strlit("fixture already exists: ");
        reveal_strlit("; pass --replace to overwrite");
    }
    let mut s = String::from_str("fixture already exists: ");
    s.append(path);
    s.append("; pass --replace to overwrite");
    s
}

/// The issues of the fixtures: every input no case reads, and every
/// checker fixture file that is missing or empty; `checker_files` gives the
/// state of each checker fixture's input, output and answer.
pub open spec fn fixture_issues(
    inputs: Seq<InputFixture>,
    checkers: Seq<CheckerFixture>,
    checker_files: Seq<(FixtureFileState, FixtureFileState, FixtureFileState)>,
) -> Seq<(Seq<char>, Seq<char>, Seq<char>)> {
    unused_input_issues(inputs) + checker_file_issues(checkers, checker_files)
}

/// The issue of each input no case reads.
pub open spec fn unused_input_issues(inputs: Seq<InputFixture>) -> Seq<(Seq<char>, Seq<char>, Seq<char>)>
    decreases inputs.len(),
{
    if inputs.len() == 0 {
        Seq::empty()
    } else {
        unused_input_issues(inputs.drop_last()) + if inputs.last().used {
            Seq::empty()
        } else {
            seq![("unused_input_fixture"@, inputs.last().path@, "input fixture is not referenced by any `:file` test case"@)]
        }
    }
}

/// The issue of one checker fixture file, if it has one.
pub open spec fn file_issue(path: Seq<char>, state: FixtureFileState) -> Seq<(Seq<char>, Seq<char>, Seq<char>)> {
    match state {
        FixtureFileState::Missing => seq![("incomplete_checker_fixture"@, path, "checker fixture must contain matching .in, .out, and .ans files"@)],
        FixtureFileState::Empty => seq![("empty_checker_fixture_file"@, path, "checker fixture files must be non-empty"@)],
        FixtureFileState::Present => Seq::empty(),
    }
}

/// The issues of the checker fixtures' files, fixture by fixture and
/// input, output, answer in that order.
pub open spec fn checker_file_issues(
    checkers: Seq<CheckerFixture>,
    files: Seq<(FixtureFileState, FixtureFileState, FixtureFileState)>,
) -> Seq<(Seq<char>, Seq<char>, Seq<char>)>
    decreases checkers.len(),
{
    if checkers.len() == 0 || files.len() != checkers.len() {
        Seq::empty()
    } else {
        let c = checkers.last();
        let f = files.last();
        checker_file_issues(checkers.drop_last(), files.drop_last()) + file_issue(c.input_path@, f.0)
            + file_issue(c.output_path@, f.1) + file_issue(c.answer_path@, f.2)
    }
}

/// Issues by their contents.
pub open spec fn issues_view(v: Seq<FixtureIssue>) -> Seq<(Seq<char>, Seq<char>, Seq<char>)> {
    v.map_values(|i: FixtureIssue| (i.code@, i.path@, i.message@))
}

fn push_file_issue(errors: &mut Vec<FixtureIssue>, path: &String, state: FixtureFileState)
    ensures
        issues_view(final(errors)@) == issues_view(old(errors)@) + file_issue(path@, state),
{
    proof {
        reveal_strlit("incomplete_checker_fixture");
        reveal_strlit("checker fixture must contain matching .in, .out, and .ans files");
        reveal_strlit("empty_checker_fixture_file");
        reveal_strlit("checker fixture files must be non-empty");
    }
    let ghost before = issues_view(errors@);
    match state {
        FixtureFileState::Missing => {
            errors.push(FixtureIssue {
                code: String::from_str("incomplete_checker_fixture"),
                path: path.clone(),
                message: String::from_str("checker fixture must contain matching .in, .out, and .ans files"),
            });
            assert(issues_view(errors@) =~= before + file_issue(path@, state));
        },
        FixtureFileState::Empty => {
            errors.push(FixtureIssue {
                code: String::from_str("empty_checker_fixture_file"),
                path: path.clone(),
                message: String::from_str("checker fixture files must be non-empty"),
            });
            assert(issues_view(errors@) =~= before + file_issue(path@, state));
        },
        FixtureFileState::Present => {
            assert(issues_view(errors@) =~= before + file_issue(path@, state));
        },
    }
}

/// Checks the fixtures: the check passes when there are no issues.
pub fn check_fixtures(
    list: FixtureListReport,
    checker_files: &Vec<(FixtureFileState, FixtureFileState, FixtureFileState)>,
) -> (r: FixtureCheckReport)
    requires
        checker_files@.len() == list.checkers@.len(),
    ensures
        issues_view(r.errors@) == fixture_issues(list.inputs@, list.checkers@, checker_files@),
        r.ok == (r.errors@.len() == 0),
        r.work_dir == list.work_dir,
        r.list == list,
{
    proof {
        reveal_strlit("unused_input_fixture");
        reveal_strlit("input fixture is not referenced by any `:file` test case");
    }
    let mut errors: Vec<FixtureIssue> = Vec::new();
    let mut i: usize = 0;
    while i < list.inputs.len()
        invariant
            i <= list.inputs@.len(),
            issues_view(errors@) == unused_input_issues(list.inputs@.take(i as int)),
        decreases list.inputs@.len() - i,
    {
        assert(list.inputs@.take(i + 1).drop_last() == list.inputs@.take(i as int));
        assert(list.inputs@.take(i + 1).last() == list.inputs@[i as int]);
        let ghost before = issues_view(errors@);
        if !list.inputs[i].used {
            errors.push(FixtureIssue {
                code: String::from_str("unused_input_fixture"),
                path: list.inputs[i].path.clone(),
                message: String::from_str("input fixture is not referenced by any `:file` test case"),
            });
            assert(issues_view(errors@) =~= before + seq![("unused_input_fixture"@, list.inputs@[i as int].path@, "input fixture is not referenced by any `:file` test case"@)]);
        } else {
            assert(issues_view(errors@) =~= before + Seq::<(Seq<char>, Seq<char>, Seq<char>)>::empty());
        }
        i = i + 1;
    }
    assert(list.inputs@.take(i as int) == list.inputs@);
    let ghost head = issues_view(errors@);
    let mut k: usize = 0;
    while k < list.checkers.len()
        invariant
            checker_files@.len() == list.checkers@.len(),
            k <= list.checkers@.len(),
            issues_view(errors@) == head + checker_file_issues(list.checkers@.take(k as int), checker_files@.take(k as int)),
        decreases list.checkers@.len() - k,
    {
        assert(list.checkers@.take(k + 1).drop_last() == list.checkers@.take(k as int));
        assert(checker_files@.take(k + 1).drop_last() == checker_files@.take(k as int));
        assert(list.checkers@.take(k + 1).last() == list.checkers@[k as int]);
        assert(checker_files@.take(k + 1).last() == checker_files@[k as int]);
        let c = &list.checkers[k];
        let (a, b, d) = checker_files[k];
        push_file_issue(&mut errors, &c.input_path, a);
        push_file_issue(&mut errors, &c.output_path, b);
        push_file_issue(&mut errors, &c.answer_path, d);
        k = k + 1;
    }
    assert(list.checkers@.take(k as int) == list.checkers@);
    assert(checker_files@.take(k as int) == checker_files@);
    let ok = errors.len() == 0;
    let work_dir = list.work_dir.clone();
    FixtureCheckReport { ok, work_dir, errors, list }
}

/// The raw path arguments of the cases that read a handwritten input: the
/// file generator with exactly one argument, bundle by bundle.
pub open spec fn file_fixture_args(p: Problem) -> Seq<Seq<char>> {
    file_args_from(p, 0)
}

/// The handwritten-input arguments of the bundles from `k` on.
pub open spec fn file_args_from(p: Problem, k: int) -> Seq<Seq<char>>
    decreases p.test.bundles@.len() - k,
{
    if k < 0 || k >= p.test.bundles@.len() {
        Seq::empty()
    } else {
        case_file_args(p.test.bundles@[k].bundle.cases@) + file_args_from(p, k + 1)
    }
}

/// The handwritten-input arguments of a bundle's cases.
pub open spec fn case_file_args(cases: Seq<crate::schema::TestCase>) -> Seq<Seq<char>>
    decreases cases.len(),
{
    if cases.len() == 0 {
        Seq::empty()
    } else {
        let c = cases.last();
        case_file_args(cases.drop_last()) + if c.generator_name@ == crate::problem::file_generator()
            && c.args@.len() == 1 {
            seq![c.args@[0]@]
        } else {
            Seq::empty()
        }
    }
}

/// The raw path arguments of the cases that read a handwritten input.
pub fn used_input_args(problem: &Problem) -> (v: Vec<String>)
    ensures
        string_views(v@) == file_fixture_args(*problem),
{
    let file = String::from_str(":file");
    proof {
        reveal_strlit(":file");
    }
    let mut v: Vec<String> = Vec::new();
    let mut k: usize = 0;
    while k < problem.test.bundles.len()
        invariant
            k <= problem.test.bundles@.len(),
            file@ == crate::problem::file_generator(),
            string_views(v@) + file_args_from(*problem, k as int) == file_fixture_args(*problem),
        decreases problem.test.bundles@.len() - k,
    {
        let cases = &problem.test.bundles[k].bundle.cases;
        let ghost start = string_views(v@);
        let mut i: usize = 0;
        while i < cases.len()
            invariant
                i <= cases@.len(),
                file@ == crate::problem::file_generator(),
                string_views(v@) == start + case_file_args(cases@.take(i as int)),
            decreases cases@.len() - i,
        {
            assert(cases@.take(i + 1).drop_last() == cases@.take(i as int));
            assert(cases@.take(i + 1).last() == cases@[i as int]);
            let ghost before = string_views(v@);
            if cases[i].generator_name == file && cases[i].args.len() == 1 {
                v.push(cases[i].args[0].clone());
                assert(string_views(v@) =~= before + seq![cases@[i as int].args@[0]@]);
            } else {
                assert(string_views(v@) =~= before + Seq::<Seq<char>>::empty());
            }
            i = i + 1;
        }
        assert(cases@.take(i as int) == cases@);
        assert(start + file_args_from(*problem, k as int) =~= (start + case_file_args(cases@)) + file_args_from(*problem, k + 1));
        k = k + 1;
    }
    assert(string_views(v@) + Seq::<Seq<char>>::empty() =~= string_views(v@));
    v
}

} // verus!
