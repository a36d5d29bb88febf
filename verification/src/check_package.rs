//! The checks of `pkg check` that judge what was found in a package: the
//! required files, program paths, the validator's declaration, empty
//! answers, the sample bundle and the statement's sample output. The
//! command looks at the files; these functions decide what is reported.
//! Paths are joined with `/`.

use vstd::prelude::*;
use crate::data::{bundle_index_from, find_bundle};
use crate::file_generator::is_rooted;
use crate::markdown::{normalize_output_block, normalized_block};
use crate::problem::{find_sample_bundle, sample_bundle_name};
use crate::report::{CheckIssue, CheckReport, CheckSeverity, plain_issue};
use crate::schema::Problem;
use crate::text::{opt_view, trim};

verus! {

/// An issue as expected: severity, code, message and path.
pub type IssueSpec = (CheckSeverity, Seq<char>, Seq<char>, Option<Seq<char>>);

/// `after` is `before` with the expected issues appended, none at a
/// location inside a file.
pub open spec fn pushed(before: Seq<CheckIssue>, after: Seq<CheckIssue>, expected: Seq<IssueSpec>) -> bool {
    &&& after.len() == before.len() + expected.len()
    &&& after.subrange(0, before.len() as int) == before
    &&& forall|i: int|
        0 <= i < expected.len() ==> plain_issue(
            expected[i].0,
            expected[i].1,
            expected[i].2,
            expected[i].3,
            None,
            #[trigger] after[before.len() + i],
        )
}

pub(crate) proof fn lemma_pushed_none(a: Seq<CheckIssue>)
    ensures
        pushed(a, a, Seq::empty()),
{
    assert(a.subrange(0, a.len() as int) =~= a);
}

pub(crate) proof fn lemma_pushed_one(a: Seq<CheckIssue>, b: Seq<CheckIssue>, e: IssueSpec)
    requires
        b.len() == a.len() + 1,
        b.drop_last() == a,
        plain_issue(e.0, e.1, e.2, e.3, None, b.last()),
    ensures
        pushed(a, b, seq![e]),
{
    assert(b.subrange(0, a.len() as int) =~= b.drop_last());
}

pub(crate) proof fn lemma_pushed_trans(a: Seq<CheckIssue>, b: Seq<CheckIssue>, c: Seq<CheckIssue>, e1: Seq<IssueSpec>, e2: Seq<IssueSpec>)
    requires
        pushed(a, b, e1),
        pushed(b, c, e2),
    ensures
        pushed(a, c, e1 + e2),
{
    assert(c.subrange(0, a.len() as int) =~= b.subrange(0, a.len() as int)) by {
        assert forall|k: int| 0 <= k < a.len() implies c[k] == b[k] by {
            assert(c.subrange(0, b.len() as int)[k] == b[k]);
        }
    }
    let e = e1 + e2;
    assert forall|i: int| 0 <= i < e.len() implies plain_issue(
        e[i].0,
        e[i].1,
        e[i].2,
        e[i].3,
        None,
        #[trigger] c[a.len() + i],
    ) by {
        if i < e1.len() {
            assert(c[a.len() + i] == c.subrange(0, b.len() as int)[a.len() + i]);
            assert(b[a.len() + i] == c[a.len() + i]);
        } else {
            let j = i - e1.len();
            assert(a.len() + i == b.len() + j);
            assert(plain_issue(e2[j].0, e2[j].1, e2[j].2, e2[j].3, None, c[b.len() + j]));
        }
    }
}

/// `rel` taken from the directory `base`.
pub open spec fn path_join(base: Seq<char>, rel: Seq<char>) -> Seq<char> {
    if is_rooted(rel) {
        rel
    } else if base.len() == 0 {
        rel
    } else if base.last() == '/' {
        base + rel
    } else {
        base + "/"@ + rel
    }
}

/// Joins a path to a directory.
pub fn join_path(base: &str, rel: &str) -> (s: String)
    ensures
        s@ == path_join(base@, rel@),
{
    let r = crate::text::chars_of(rel);
    if r.len() > 0 && r[0] == '/' {
        return String::from_str(rel);
    }
    let b = crate::text::chars_of(base);
    if b.len() == 0 {
        return String::from_str(rel);
    }
    let mut s = String::from_str(base);
    if b[b.len() - 1] != '/' {
        s.append("/");
    }
    s.append(rel);
    s
}

/// The files every package has.
pub open spec fn required_files() -> Seq<Seq<char>> {
    seq!["problem.yaml"@, "statement.md"@, "editorial.md"@, "src/std.cpp"@]
}

/// The errors for the required files that are missing; `present[i]` says
/// whether required file `i` is there.
pub open spec fn missing_file_issues(work_dir: Seq<char>, present: Seq<bool>, n: int) -> Seq<IssueSpec>
    decreases n,
{
    if n <= 0 {
        Seq::empty()
    } else {
        missing_file_issues(work_dir, present, n - 1) + if present[n - 1] {
            Seq::empty()
        } else {
            seq![
                (
                    CheckSeverity::Error,
                    "required_file_missing"@,
                    "required file `"@ + required_files()[n - 1] + "` is missing"@,
                    Some(path_join(work_dir, required_files()[n - 1])),
                ),
            ]
        }
    }
}

/// Reports each required file that is missing; `present` says, file by
/// file in the order `problem.yaml`, `statement.md`, `editorial.md`,
/// `src/std.cpp`, whether it is there.
pub fn check_required_files(report: &mut CheckReport, work_dir: &String, present: &Vec<bool>)
    requires
        present@.len() == 4,
    ensures
        final(report).work_dir == old(report).work_dir,
        pushed(old(report).issues@, final(report).issues@, missing_file_issues(work_dir@, present@, 4)),
{
    let files: Vec<&str> = vec!["problem.yaml", "statement.md", "editorial.md", "src/std.cpp"];
    assert(files@.map_values(|s: &str| s@) =~= required_files());
    let ghost start = report.issues@;
    proof {
        lemma_pushed_none(start);
    }
    let mut i: usize = 0;
    while i < 4
        invariant
            i <= 4,
            present@.len() == 4,
            files@.len() == 4,
            files@.map_values(|s: &str| s@) == required_files(),
            report.work_dir == old(report).work_dir,
            start == old(report).issues@,
            pushed(start, report.issues@, missing_file_issues(work_dir@, present@, i as int)),
        decreases 4 - i,
    {
        let ghost before = report.issues@;
        if !present[i] {
            assert(files@[i as int]@ == files@.map_values(|s: &str| s@)[i as int]);
            let mut message = String::from_str("required file `");
            message.append(files[i]);
            message.append("` is missing");
            let path = join_path(work_dir.as_str(), files[i]);
            report.error(String::from_str("required_file_missing"), message, Some(path));
            proof {
                lemma_pushed_one(
                    before,
                    report.issues@,
                    (
                        CheckSeverity::Error,
                        "required_file_missing"@,
                        "required file `"@ + required_files()[i as int] + "` is missing"@,
                        Some(path_join(work_dir@, required_files()[i as int])),
                    ),
                );
                lemma_pushed_trans(
                    start,
                    before,
                    report.issues@,
                    missing_file_issues(work_dir@, present@, i as int),
                    seq![
                        (
                            CheckSeverity::Error,
                            "required_file_missing"@,
                            "required file `"@ + required_files()[i as int] + "` is missing"@,
                            Some(path_join(work_dir@, required_files()[i as int])),
                        ),
                    ],
                );
            }
        } else {
            assert(missing_file_issues(work_dir@, present@, i + 1) =~= missing_file_issues(
                work_dir@,
                present@,
                i as int,
            ));
        }
        i = i + 1;
    }
}

/// The errors for the programs whose path is missing; `present[i]` says
/// whether the path of program `i` exists.
pub open spec fn missing_program_issues(work_dir: Seq<char>, p: Problem, present: Seq<bool>, n: int) -> Seq<IssueSpec>
    decreases n,
{
    if n <= 0 {
        Seq::empty()
    } else {
        missing_program_issues(work_dir, p, present, n - 1) + if present[n - 1] {
            Seq::empty()
        } else {
            seq![
                (
                    CheckSeverity::Error,
                    "program_path_missing"@,
                    "program `"@ + p.programs@[n - 1].name@ + "` path does not exist"@,
                    Some(path_join(work_dir, p.programs@[n - 1].info.path_of())),
                ),
            ]
        }
    }
}

/// Reports each program whose path does not exist; `present[i]` says
/// whether the path of program `i`, taken from the package, exists.
pub fn check_program_paths(report: &mut CheckReport, work_dir: &String, problem: &Problem, present: &Vec<bool>)
    requires
        present@.len() == problem.programs@.len(),
    ensures
        final(report).work_dir == old(report).work_dir,
        pushed(
            old(report).issues@,
            final(report).issues@,
            missing_program_issues(work_dir@, *problem, present@, problem.programs@.len() as int),
        ),
{
    let ghost start = report.issues@;
    proof {
        lemma_pushed_none(start);
    }
    let mut i: usize = 0;
    while i < problem.programs.len()
        invariant
            i <= problem.programs@.len(),
            present@.len() == problem.programs@.len(),
            report.work_dir == old(report).work_dir,
            start == old(report).issues@,
            pushed(start, report.issues@, missing_program_issues(work_dir@, *problem, present@, i as int)),
        decreases problem.programs@.len() - i,
    {
        let ghost before = report.issues@;
        if !present[i] {
            let program = &problem.programs[i];
            let mut message = String::from_str("program `");
            message.append(program.name.as_str());
            message.append("` path does not exist");
            let path = join_path(work_dir.as_str(), program.info.path().as_str());
            report.error(String::from_str("program_path_missing"), message, Some(path));
            proof {
                let e = (
                    CheckSeverity::Error,
                    "program_path_missing"@,
                    "program `"@ + problem.programs@[i as int].name@ + "` path does not exist"@,
                    Some(path_join(work_dir@, problem.programs@[i as int].info.path_of())),
                );
                lemma_pushed_one(before, report.issues@, e);
                lemma_pushed_trans(
                    start,
                    before,
                    report.issues@,
                    missing_program_issues(work_dir@, *problem, present@, i as int),
                    seq![e],
                );
            }
        } else {
            assert(missing_program_issues(work_dir@, *problem, present@, i + 1) =~= missing_program_issues(
                work_dir@,
                *problem,
                present@,
                i as int,
            ));
        }
        i = i + 1;
    }
}

/// A package that declares no validator must say why, in a reason that
/// is not blank.
pub open spec fn validator_declaration_issues(work_dir: Seq<char>, p: Problem) -> Seq<IssueSpec> {
    if p.validator_name is Some {
        Seq::empty()
    } else if (match opt_view(p.validator_omitted_reason) {
        Some(r) => trim(r).len() > 0,
        None => false,
    }) {
        Seq::empty()
    } else {
        seq![
            (
                CheckSeverity::Warning,
                "validator_missing"@,
                "`validator` is not declared; add one or set `validator_omitted_reason`"@,
                Some(path_join(work_dir, "problem.yaml"@)),
            ),
        ]
    }
}

/// Warns when no validator is declared and no reason is given.
pub fn check_validator_declaration(report: &mut CheckReport, work_dir: &String, problem: &Problem)
    ensures
        final(report).work_dir == old(report).work_dir,
        pushed(old(report).issues@, final(report).issues@, validator_declaration_issues(work_dir@, *problem)),
{
    let ghost start = report.issues@;
    if problem.validator_name.is_some() {
        proof {
            lemma_pushed_none(start);
        }
        return;
    }
    let explained = match &problem.validator_omitted_reason {
        Some(reason) => {
            let chars = crate::text::chars_of(reason.as_str());
            let t = crate::text::trimmed(chars.as_slice());
            t.len() > 0
        },
        None => false,
    };
    if explained {
        proof {
            lemma_pushed_none(start);
        }
        return;
    }
    let path = join_path(work_dir.as_str(), "problem.yaml");
    report.warning(
        String::from_str("validator_missing"),
        String::from_str("`validator` is not declared; add one or set `validator_omitted_reason`"),
        Some(path),
    );
    proof {
        lemma_pushed_one(
            start,
            report.issues@,
            (
                CheckSeverity::Warning,
                "validator_missing"@,
                "`validator` is not declared; add one or set `validator_omitted_reason`"@,
                Some(path_join(work_dir@, "problem.yaml"@)),
            ),
        );
    }
}

/// The file name has the extension `ext` (which holds no `.`): it ends
/// with `.ext` and something comes before.
pub open spec fn has_extension(name: Seq<char>, ext: Seq<char>) -> bool {
    name.len() > ext.len() + 1 && name.subrange(name.len() - ext.len() - 1, name.len() as int) == "."@ + ext
}

fn ends_with_ans(name: &str) -> (b: bool)
    ensures
        b == has_extension(name@, "ans"@),
{
    proof {
        reveal_strlit("ans");
        reveal_strlit(".");
    }
    let c = crate::text::chars_of(name);
    let n = c.len();
    let b = n > 4 && c[n - 4] == '.' && c[n - 3] == 'a' && c[n - 2] == 'n' && c[n - 1] == 's';
    proof {
        if n > 4 {
            let tail = name@.subrange(n - 4, n as int);
            if b {
                assert(tail =~= "."@ + "ans"@);
            } else if tail == "."@ + "ans"@ {
                assert(tail[0] == '.' && tail[1] == 'a' && tail[2] == 'n' && tail[3] == 's');
            }
        }
    }
    b
}

/// An entry of the data directory: its file name and its size, or why
/// it could not be inspected.
#[derive(Debug)]
pub struct DataEntry {
    pub name: String,
    pub size: Result<u64, String>,
}

/// The issues about the answers among the data directory's entries: an
/// empty one is an error unless empty output is allowed; one that could
/// not be inspected is a warning.
pub open spec fn answer_issues(data_dir: Seq<char>, allow_empty: bool, entries: Seq<DataEntry>) -> Seq<IssueSpec>
    decreases entries.len(),
{
    if entries.len() == 0 {
        Seq::empty()
    } else {
        let e = entries.last();
        answer_issues(data_dir, allow_empty, entries.drop_last()) + if !has_extension(e.name@, "ans"@) {
            Seq::empty()
        } else {
            match e.size {
                Ok(n) => if n == 0 && !allow_empty {
                    seq![
                        (
                            CheckSeverity::Error,
                            "empty_answer"@,
                            ".ans file is empty but output.allow_empty is not declared"@,
                            Some(path_join(data_dir, e.name@)),
                        ),
                    ]
                } else {
                    Seq::empty()
                },
                Err(m) => seq![
                    (
                        CheckSeverity::Warning,
                        "answer_unreadable"@,
                        "could not inspect .ans file: "@ + m@,
                        Some(path_join(data_dir, e.name@)),
                    ),
                ],
            }
        }
    }
}

/// Checks the answers in the data directory; `entries` is what listing it
/// gave, or `None` when it could not be read.
pub fn check_empty_answers(
    report: &mut CheckReport,
    data_dir: &String,
    allow_empty: bool,
    entries: Option<&Vec<DataEntry>>,
)
    ensures
        final(report).work_dir == old(report).work_dir,
        pushed(
            old(report).issues@,
            final(report).issues@,
            match entries {
                None => seq![
                    (
                        CheckSeverity::Warning,
                        "data_dir_unreadable"@,
                        "data directory exists but could not be read"@,
                        Some(data_dir@),
                    ),
                ],
                Some(es) => answer_issues(data_dir@, allow_empty, es@),
            },
        ),
{
    let ghost start = report.issues@;
    let entries = match entries {
        None => {
            report.warning(
                String::from_str("data_dir_unreadable"),
                String::from_str("data directory exists but could not be read"),
                Some(data_dir.clone()),
            );
            proof {
                lemma_pushed_one(
                    start,
                    report.issues@,
                    (
                        CheckSeverity::Warning,
                        "data_dir_unreadable"@,
                        "data directory exists but could not be read"@,
                        Some(data_dir@),
                    ),
                );
            }
            return;
        },
        Some(es) => es,
    };
    proof {
        lemma_pushed_none(start);
        assert(entries@.take(0) =~= Seq::<DataEntry>::empty());
    }
    let mut i: usize = 0;
    while i < entries.len()
        invariant
            i <= entries@.len(),
            report.work_dir == old(report).work_dir,
            start == old(report).issues@,
            pushed(start, report.issues@, answer_issues(data_dir@, allow_empty, entries@.take(i as int))),
        decreases entries@.len() - i,
    {
        assert(entries@.take(i + 1).drop_last() =~= entries@.take(i as int));
        assert(entries@.take(i + 1).last() == entries@[i as int]);
        let ghost before = report.issues@;
        let e = &entries[i];
        let ghost prev = answer_issues(data_dir@, allow_empty, entries@.take(i as int));
        if ends_with_ans(e.name.as_str()) {
            match &e.size {
                Ok(n) => {
                    if *n == 0 && !allow_empty {
                        let path = join_path(data_dir.as_str(), e.name.as_str());
                        report.error(
                            String::from_str("empty_answer"),
                            String::from_str(".ans file is empty but output.allow_empty is not declared"),
                            Some(path),
                        );
                        proof {
                            let x = (
                                CheckSeverity::Error,
                                "empty_answer"@,
                                ".ans file is empty but output.allow_empty is not declared"@,
                                Some(path_join(data_dir@, e.name@)),
                            );
                            lemma_pushed_one(before, report.issues@, x);
                            lemma_pushed_trans(start, before, report.issues@, prev, seq![x]);
                        }
                    } else {
                        proof {
                            assert(answer_issues(data_dir@, allow_empty, entries@.take(i + 1)) =~= prev);
                        }
                    }
                },
                Err(m) => {
                    let mut message = String::from_str("could not inspect .ans file: ");
                    message.append(m.as_str());
                    let path = join_path(data_dir.as_str(), e.name.as_str());
                    report.warning(String::from_str("answer_unreadable"), message, Some(path));
                    proof {
                        let x = (
                            CheckSeverity::Warning,
                            "answer_unreadable"@,
                            "could not inspect .ans file: "@ + m@,
                            Some(path_join(data_dir@, e.name@)),
                        );
                        lemma_pushed_one(before, report.issues@, x);
                        lemma_pushed_trans(start, before, report.issues@, prev, seq![x]);
                    }
                },
            }
        } else {
            proof {
                assert(answer_issues(data_dir@, allow_empty, entries@.take(i + 1)) =~= prev);
            }
        }
        i = i + 1;
    }
    assert(entries@.take(i as int) =~= entries@);
}

/// What the sample bundle allows: generating it, or the issue that says
/// why not.
pub open spec fn sample_bundle_check(work_dir: Seq<char>, p: Problem) -> Result<Seq<char>, IssueSpec> {
    match sample_bundle_name(p) {
        None => Err(
            (
                CheckSeverity::Warning,
                "sample_bundle_missing"@,
                "no `sample` bundle is declared, so sample data generation was not checked"@,
                Some(path_join(work_dir, "problem.yaml"@)),
            ),
        ),
        Some(b) => match bundle_index_from(p.test.bundles@, b, 0) {
            Some(k) => if p.test.bundles@[k].bundle.cases@.len() > 0 {
                Ok(b)
            } else {
                Err(
                    (
                        CheckSeverity::Error,
                        "sample_bundle_empty"@,
                        "sample bundle `"@ + b + "` has no cases"@,
                        Some(path_join(work_dir, "problem.yaml"@)),
                    ),
                )
            },
            None => Err(
                (
                    CheckSeverity::Error,
                    "sample_bundle_empty"@,
                    "sample bundle `"@ + b + "` has no cases"@,
                    Some(path_join(work_dir, "problem.yaml"@)),
                ),
            ),
        },
    }
}

/// Finds the sample bundle to generate, or reports why there is none.
pub fn check_sample_bundle(report: &mut CheckReport, work_dir: &String, problem: &Problem) -> (r: Option<String>)
    ensures
        final(report).work_dir == old(report).work_dir,
        match sample_bundle_check(work_dir@, *problem) {
            Ok(b) => r matches Some(s) && s@ == b && final(report).issues@ == old(report).issues@,
            Err(e) => r is None && pushed(old(report).issues@, final(report).issues@, seq![e]),
        },
{
    let ghost start = report.issues@;
    let path = join_path(work_dir.as_str(), "problem.yaml");
    match find_sample_bundle(problem) {
        None => {
            report.warning(
                String::from_str("sample_bundle_missing"),
                String::from_str("no `sample` bundle is declared, so sample data generation was not checked"),
                Some(path),
            );
            proof {
                lemma_pushed_one(start, report.issues@, sample_bundle_check(work_dir@, *problem)->Err_0);
            }
            None
        },
        Some(name) => {
            let bundle = String::from_str(name);
            let has_cases = match find_bundle(problem, &bundle) {
                Some(k) => problem.test.bundles[k].bundle.cases.len() > 0,
                None => false,
            };
            if has_cases {
                Some(bundle)
            } else {
                let mut message = String::from_str("sample bundle `");
                message.append(name);
                message.append("` has no cases");
                report.error(String::from_str("sample_bundle_empty"), message, Some(path));
                proof {
                    lemma_pushed_one(start, report.issues@, sample_bundle_check(work_dir@, *problem)->Err_0);
                }
                None
            }
        },
    }
}

/// Reports that generating the sample bundle failed, with the failure.
pub fn report_sample_generation_failed(report: &mut CheckReport, work_dir: &String, bundle: &String, error: &String)
    ensures
        final(report).work_dir == old(report).work_dir,
        pushed(
            old(report).issues@,
            final(report).issues@,
            seq![
                (
                    CheckSeverity::Error,
                    "sample_generation_failed"@,
                    "sample data generation failed for bundle `"@ + bundle@ + "`: "@ + error@,
                    Some(path_join(work_dir@, "problem.yaml"@)),
                ),
            ],
        ),
{
    let ghost start = report.issues@;
    let mut message = String::from_str("sample data generation failed for bundle `");
    message.append(bundle.as_str());
    message.append("`: ");
    message.append(error.as_str());
    let path = join_path(work_dir.as_str(), "problem.yaml");
    report.error(String::from_str("sample_generation_failed"), message, Some(path));
    proof {
        lemma_pushed_one(
            start,
            report.issues@,
            (
                CheckSeverity::Error,
                "sample_generation_failed"@,
                "sample data generation failed for bundle `"@ + bundle@ + "`: "@ + error@,
                Some(path_join(work_dir@, "problem.yaml"@)),
            ),
        );
    }
}

/// A generated sample file: its name and its size, when it could be
/// inspected.
#[derive(Clone, Debug)]
pub struct GeneratedFileSize {
    pub name: String,
    pub size: Option<u64>,
}

/// An error for each generated answer that is empty, unless empty
/// output is allowed.
pub open spec fn generated_answer_issues(allow_empty: bool, files: Seq<GeneratedFileSize>) -> Seq<IssueSpec>
    decreases files.len(),
{
    if files.len() == 0 {
        Seq::empty()
    } else {
        let f = files.last();
        generated_answer_issues(allow_empty, files.drop_last()) + if has_extension(f.name@, "ans"@) && f.size
            == Some(0u64) && !allow_empty {
            seq![
                (
                    CheckSeverity::Error,
                    "empty_answer"@,
                    "generated sample .ans is empty but output.allow_empty is not declared"@,
                    None,
                ),
            ]
        } else {
            Seq::empty()
        }
    }
}

/// Checks the answers that generating the sample bundle wrote.
pub fn check_generated_sample_answers(report: &mut CheckReport, allow_empty: bool, files: &Vec<GeneratedFileSize>)
    ensures
        final(report).work_dir == old(report).work_dir,
        pushed(old(report).issues@, final(report).issues@, generated_answer_issues(allow_empty, files@)),
{
    let ghost start = report.issues@;
    proof {
        lemma_pushed_none(start);
        assert(files@.take(0) =~= Seq::<GeneratedFileSize>::empty());
    }
    let mut i: usize = 0;
    while i < files.len()
        invariant
            i <= files@.len(),
            report.work_dir == old(report).work_dir,
            start == old(report).issues@,
            pushed(start, report.issues@, generated_answer_issues(allow_empty, files@.take(i as int))),
        decreases files@.len() - i,
    {
        assert(files@.take(i + 1).drop_last() =~= files@.take(i as int));
        assert(files@.take(i + 1).last() == files@[i as int]);
        let ghost before = report.issues@;
        let ghost prev = generated_answer_issues(allow_empty, files@.take(i as int));
        let f = &files[i];
        let empty = match f.size {
            Some(n) => n == 0,
            None => false,
        };
        if ends_with_ans(f.name.as_str()) && empty && !allow_empty {
            report.error(
                String::from_str("empty_answer"),
                String::from_str("generated sample .ans is empty but output.allow_empty is not declared"),
                None,
            );
            proof {
                let x = (
                    CheckSeverity::Error,
                    "empty_answer"@,
                    "generated sample .ans is empty but output.allow_empty is not declared"@,
                    None,
                );
                lemma_pushed_one(before, report.issues@, x);
                lemma_pushed_trans(start, before, report.issues@, prev, seq![x]);
            }
        } else {
            proof {
                assert(generated_answer_issues(allow_empty, files@.take(i + 1)) =~= prev);
            }
        }
        i = i + 1;
    }
    assert(files@.take(i as int) =~= files@);
}

/// Whether the statement's sample output is compared: only when it holds
/// exactly one sample output block; several are reported as ambiguous.
pub fn check_sample_block_count(report: &mut CheckReport, statement_path: &String, blocks: &Vec<String>) -> (compare:
    bool)
    ensures
        final(report).work_dir == old(report).work_dir,
        compare == (blocks@.len() == 1),
        blocks@.len() > 1 ==> pushed(
            old(report).issues@,
            final(report).issues@,
            seq![
                (
                    CheckSeverity::Warning,
                    "sample_output_ambiguous"@,
                    "multiple sample output code blocks were found in statement.md; skipped comparison"@,
                    Some(statement_path@),
                ),
            ],
        ),
        blocks@.len() <= 1 ==> final(report).issues@ == old(report).issues@,
{
    let ghost start = report.issues@;
    if blocks.len() > 1 {
        report.warning(
            String::from_str("sample_output_ambiguous"),
            String::from_str("multiple sample output code blocks were found in statement.md; skipped comparison"),
            Some(statement_path.clone()),
        );
        proof {
            lemma_pushed_one(
                start,
                report.issues@,
                (
                    CheckSeverity::Warning,
                    "sample_output_ambiguous"@,
                    "multiple sample output code blocks were found in statement.md; skipped comparison"@,
                    Some(statement_path@),
                ),
            );
        }
        return false;
    }
    blocks.len() == 1
}

/// The sample answer the statement is compared with: its text, or why it
/// is not there.
#[derive(Clone, Debug)]
pub enum SampleAnswer {
    Text(String),
    /// No `sample-0.ans` to compare with.
    Missing,
    /// The answer at this path could not be read.
    Unreadable(String),
}

/// The issue from comparing the statement's one sample output block with
/// the sample answer.
pub open spec fn sample_compare_issues(statement_path: Seq<char>, block: Seq<char>, answer: SampleAnswer) -> Seq<
    IssueSpec,
> {
    match answer {
        SampleAnswer::Missing => seq![
            (
                CheckSeverity::Warning,
                "sample_answer_missing"@,
                "sample output was found in statement.md, but sample-0.ans is unavailable"@,
                Some(statement_path),
            ),
        ],
        SampleAnswer::Unreadable(p) => seq![
            (
                CheckSeverity::Warning,
                "sample_answer_unreadable"@,
                "sample-0.ans exists but could not be read"@,
                Some(p@),
            ),
        ],
        SampleAnswer::Text(a) => if normalized_block(block) != normalized_block(a@) {
            seq![
                (
                    CheckSeverity::Error,
                    "statement_sample_output_mismatch"@,
                    "statement.md sample output does not match sample-0.ans"@,
                    Some(statement_path),
                ),
            ]
        } else {
            Seq::empty()
        },
    }
}

/// Compares the statement's sample output block with the sample answer,
/// once both are normalized.
pub fn compare_statement_sample(report: &mut CheckReport, statement_path: &String, block: &String, answer: &SampleAnswer)
    ensures
        final(report).work_dir == old(report).work_dir,
        pushed(old(report).issues@, final(report).issues@, sample_compare_issues(statement_path@, block@, *answer)),
{
    let ghost start = report.issues@;
    match answer {
        SampleAnswer::Missing => {
            report.warning(
                String::from_str("sample_answer_missing"),
                String::from_str("sample output was found in statement.md, but sample-0.ans is unavailable"),
                Some(statement_path.clone()),
            );
            proof {
                lemma_pushed_one(start, report.issues@, sample_compare_issues(statement_path@, block@, *answer)[0]);
            }
        },
        SampleAnswer::Unreadable(p) => {
            report.warning(
                String::from_str("sample_answer_unreadable"),
                String::from_str("sample-0.ans exists but could not be read"),
                Some(p.clone()),
            );
            proof {
                lemma_pushed_one(start, report.issues@, sample_compare_issues(statement_path@, block@, *answer)[0]);
            }
        },
        SampleAnswer::Text(a) => {
            let left = normalize_output_block(block.as_str());
            let right = normalize_output_block(a.as_str());
            if left != right {
                report.error(
                    String::from_str("statement_sample_output_mismatch"),
                    String::from_str("statement.md sample output does not match sample-0.ans"),
                    Some(statement_path.clone()),
                );
                proof {
                    lemma_pushed_one(start, report.issues@, sample_compare_issues(statement_path@, block@, *answer)[0]);
                }
            } else {
                proof {
                    lemma_pushed_none(start);
                }
            }
        },
    }
}

/// Reports that `problem.yaml` could not be loaded, with why.
pub fn report_problem_yaml_invalid(report: &mut CheckReport, work_dir: &String, error: &String)
    ensures
        final(report).work_dir == old(report).work_dir,
        pushed(
            old(report).issues@,
            final(report).issues@,
            seq![
                (
                    CheckSeverity::Error,
                    "problem_yaml_invalid"@,
                    "problem.yaml could not be loaded or validated: "@ + error@,
                    Some(path_join(work_dir@, "problem.yaml"@)),
                ),
            ],
        ),
{
    let ghost start = report.issues@;
    let mut message = String::from_str("problem.yaml could not be loaded or validated: ");
    message.append(error.as_str());
    let path = join_path(work_dir.as_str(), "problem.yaml");
    report.error(String::from_str("problem_yaml_invalid"), message, Some(path));
    proof {
        lemma_pushed_one(
            start,
            report.issues@,
            (
                CheckSeverity::Error,
                "problem_yaml_invalid"@,
                "problem.yaml could not be loaded or validated: "@ + error@,
                Some(path_join(work_dir@, "problem.yaml"@)),
            ),
        );
    }
}

/// Decides what a data generation in progress means for the check: with
/// the marker of one, records a transient lock error that points at the
/// marker and answers that the data checks are skipped; with none, changes
/// nothing and answers that they go on.
pub fn check_generation_in_progress(report: &mut CheckReport, marker: Option<String>) -> (skip: bool)
    ensures
        skip == marker is Some,
        final(report).work_dir == old(report).work_dir,
        marker is None ==> final(report).issues@ == old(report).issues@,
        marker is Some ==> {
            let issue = final(report).issues@.last();
            &&& final(report).issues@.len() == old(report).issues@.len() + 1
            &&& final(report).issues@.drop_last() == old(report).issues@
            &&& issue.severity == CheckSeverity::Error
            &&& issue.code@ == "data_generation_in_progress"@
            &&& issue.message@
                == "data generation is in progress; skipped data consistency checks to avoid reading partial output"@
            &&& opt_view(issue.path) == opt_view(marker)
            &&& opt_view(issue.kind) == Some("lock"@)
            &&& issue.transient == Some(true)
            &&& opt_view(issue.retry_after) == Some("wait_for_generation_then_retry"@)
        },
{
    match marker {
        Some(m) => {
            report.lock_error(
                String::from_str("data_generation_in_progress"),
                String::from_str(
                    "data generation is in progress; skipped data consistency checks to avoid reading partial output",
                ),
                Some(m),
            );
            true
        },
        None => false,
    }
}

} // verus!
