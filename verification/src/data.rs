//! Data generation: which cases a run generates, the warnings it raises,
//! and the report and summary line it prints.

use vstd::prelude::*;
use crate::problem::{
    bundle_exists, case_role, lemma_selector_round_trip, parse_case_selector, selector_parse,
    selector_text_of, selector_result_matches, text_less,
    chars_less, SelectorError,
};
use crate::schema::{CaseSelector, NamedBundle, Problem, RunResult, failure_text};
use crate::stress::join_strings;
use crate::text::{chars_of, decimal, join, opt_view, string_views, u128_to_decimal, usize_to_decimal};
use crate::time::Duration;

verus! {

/// Options of a data generation.
#[derive(Clone, Debug)]
pub struct GenerateOptions {
    pub work_dir: String,
    pub bundle: Option<String>,
    pub selector: Option<String>,
    pub output_dir: Option<String>,
    pub output_limit_bytes: usize,
    pub generation_lock_timeout: Option<Duration>,
}

/// What a generation warning is about.
#[derive(Clone, Copy, Debug, PartialEq, Eq, Structural)]
pub enum GenerateWarningKind {
    GeneratorOutputSuspicious,
    EmptyAnswer,
    RepeatedInput,
}

/// The word a warning kind is printed as.
pub open spec fn kind_text(k: GenerateWarningKind) -> Seq<char> {
    match k {
        GenerateWarningKind::GeneratorOutputSuspicious => "generator_output_suspicious"@,
        GenerateWarningKind::EmptyAnswer => "empty_answer"@,
        GenerateWarningKind::RepeatedInput => "repeated_input"@,
    }
}

impl GenerateWarningKind {
    /// The word this kind is printed as.
    pub fn as_str(self) -> (s: &'static str)
        ensures
            s@ == kind_text(self),
    {
        match self {
            GenerateWarningKind::GeneratorOutputSuspicious => "generator_output_suspicious",
            GenerateWarningKind::EmptyAnswer => "empty_answer",
            GenerateWarningKind::RepeatedInput => "repeated_input",
        }
    }
}

/// A warning raised while generating data.
#[derive(Clone, Debug)]
pub struct GenerateWarning {
    pub kind: GenerateWarningKind,
    pub bundle: String,
    pub case_index: Option<usize>,
    pub program: String,
    pub stdout_bytes: usize,
    pub stderr_bytes: usize,
    pub case_count: Option<usize>,
    pub unique_input_hashes: Option<usize>,
    pub random_coverage: Option<bool>,
}

/// A value or a default, as printed.
pub open spec fn or_value(o: Option<usize>, d: nat) -> nat {
    match o {
        Some(v) => v as nat,
        None => d,
    }
}

/// The line printed for a generation warning.
pub open spec fn warning_text(w: GenerateWarning) -> Seq<char> {
    match w.kind {
        GenerateWarningKind::GeneratorOutputSuspicious => "warning: generator_output_suspicious case="@
            + w.bundle@ + "["@ + decimal(or_value(w.case_index, 0)) + "] generator="@ + w.program@
            + " stdout_bytes="@ + decimal(w.stdout_bytes as nat) + " stderr_bytes="@ + decimal(
            w.stderr_bytes as nat,
        ),
        GenerateWarningKind::EmptyAnswer => "warning: empty_answer case="@ + w.bundle@ + "["@
            + decimal(or_value(w.case_index, 0)) + "] solution="@ + w.program@ + " stdout_bytes="@
            + decimal(w.stdout_bytes as nat) + " stderr_bytes="@ + decimal(w.stderr_bytes as nat),
        GenerateWarningKind::RepeatedInput => "warning: repeated_input bundle="@ + w.bundle@
            + " cases="@ + decimal(or_value(w.case_count, 0)) + " unique_input_hashes="@ + decimal(
            or_value(w.unique_input_hashes, 1),
        ) + " random_coverage=false hint=all_inputs_identical_within_bundle"@,
    }
}

fn or_default(o: Option<usize>, d: usize) -> (v: usize)
    ensures
        v == or_value(o, d as nat),
{
    match o {
        Some(v) => v,
        None => d,
    }
}

fn case_part(w: &GenerateWarning, head: &str, role: &str) -> (s: String)
    ensures
        s@ == head@ + w.bundle@ + "["@ + decimal(or_value(w.case_index, 0)) + "] "@ + role@
            + w.program@ + " stdout_bytes="@ + decimal(w.stdout_bytes as nat) + " stderr_bytes="@
            + decimal(w.stderr_bytes as nat),
{
    proof {
        reveal_strlit("[");
        reveal_strlit("] ");
        reveal_strlit(" stdout_bytes=");
        reveal_strlit(" stderr_bytes=");
    }
    let mut s = head.to_string();
    s.append(w.bundle.as_str());
    s.append("[");
    s.append(usize_to_decimal(or_default(w.case_index, 0)).as_str());
    s.append("] ");
    s.append(role);
    s.append(w.program.as_str());
    s.append(" stdout_bytes=");
    s.append(usize_to_decimal(w.stdout_bytes).as_str());
    s.append(" stderr_bytes=");
    s.append(usize_to_decimal(w.stderr_bytes).as_str());
    s
}

impl GenerateWarning {
    /// The line printed for this warning.
    pub fn render(&self) -> (s: String)
        ensures
            s@ == warning_text(*self),
    {
        proof {
            reveal_strlit("warning: generator_output_suspicious case=");
            reveal_strlit("generator=");
            reveal_strlit("warning: empty_answer case=");
            reveal_strlit("solution=");
            reveal_strlit("warning: repeated_input bundle=");
            reveal_strlit(" cases=");
            reveal_strlit(" unique_input_hashes=");
            reveal_strlit(" random_coverage=false hint=all_inputs_identical_within_bundle");
            reveal_strlit("] generator=");
            reveal_strlit("] solution=");
            reveal_strlit("] ");
        }
        match self.kind {
            GenerateWarningKind::GeneratorOutputSuspicious => {
                let s = case_part(self, "warning: generator_output_suspicious case=", "generator=");
                assert("] "@ + "generator="@ == "] generator="@);
                s
            },
            GenerateWarningKind::EmptyAnswer => {
                let s = case_part(self, "warning: empty_answer case=", "solution=");
                assert("] "@ + "solution="@ == "] solution="@);
                s
            },
            GenerateWarningKind::RepeatedInput => {
                let mut s = String::from_str("warning: repeated_input bundle=");
                s.append(self.bundle.as_str());
                s.append(" cases=");
                s.append(usize_to_decimal(or_default(self.case_count, 0)).as_str());
                s.append(" unique_input_hashes=");
                s.append(usize_to_decimal(or_default(self.unique_input_hashes, 1)).as_str());
                s.append(" random_coverage=false hint=all_inputs_identical_within_bundle");
                s
            },
        }
    }
}

/// How many warnings are of the kind.
pub open spec fn count_of_kind(ws: Seq<GenerateWarning>, k: GenerateWarningKind) -> nat
    decreases ws.len(),
{
    if ws.len() == 0 {
        0
    } else {
        count_of_kind(ws.drop_last(), k) + if ws.last().kind == k {
            1nat
        } else {
            0nat
        }
    }
}

/// The kinds in the order they are summarized (the order of their words).
pub open spec fn summary_kinds() -> Seq<GenerateWarningKind> {
    seq![
        GenerateWarningKind::EmptyAnswer,
        GenerateWarningKind::GeneratorOutputSuspicious,
        GenerateWarningKind::RepeatedInput,
    ]
}

/// The `kind:count` entries of the kinds that occur, in word order.
pub open spec fn kind_entries(ws: Seq<GenerateWarning>, kinds: Seq<GenerateWarningKind>) -> Seq<
    Seq<char>,
>
    decreases kinds.len(),
{
    if kinds.len() == 0 {
        Seq::empty()
    } else {
        let rest = kind_entries(ws, kinds.drop_last());
        let k = kinds.last();
        if count_of_kind(ws, k) > 0 {
            rest.push(kind_text(k) + ":"@ + decimal(count_of_kind(ws, k)))
        } else {
            rest
        }
    }
}

/// The warnings as printed in a summary: `kind:count` for each kind that
/// occurs, in the order of the kinds' words, or `0` when there are none.
pub open spec fn warnings_summary_text(ws: Seq<GenerateWarning>) -> Seq<char> {
    if ws.len() == 0 {
        "0"@
    } else {
        join(kind_entries(ws, summary_kinds()), ","@)
    }
}

fn count_kind(ws: &Vec<GenerateWarning>, k: GenerateWarningKind) -> (n: usize)
    ensures
        n == count_of_kind(ws@, k),
{
    let mut n: usize = 0;
    let mut i: usize = 0;
    while i < ws.len()
        invariant
            i <= ws@.len(),
            n == count_of_kind(ws@.take(i as int), k),
            n <= i,
        decreases ws@.len() - i,
    {
        assert(ws@.take(i + 1).drop_last() == ws@.take(i as int));
        assert(ws@.take(i + 1).last() == ws@[i as int]);
        if ws[i].kind == k {
            n = n + 1;
        }
        i = i + 1;
    }
    assert(ws@.take(i as int) == ws@);
    n
}

/// Summarizes generation warnings by kind.
pub fn summarize_generate_warnings(warnings: &Vec<GenerateWarning>) -> (s: String)
    ensures
        s@ == warnings_summary_text(warnings@),
{
    if warnings.len() == 0 {
        proof {
            reveal_strlit("0");
        }
        return String::from_str("0");
    }
    let kinds = vec![
        GenerateWarningKind::EmptyAnswer,
        GenerateWarningKind::GeneratorOutputSuspicious,
        GenerateWarningKind::RepeatedInput,
    ];
    assert(kinds@ == summary_kinds());
    let mut entries: Vec<String> = Vec::new();
    let mut i: usize = 0;
    while i < kinds.len()
        invariant
            i <= kinds@.len(),
            kinds@ == summary_kinds(),
            string_views(entries@) == kind_entries(warnings@, kinds@.take(i as int)),
        decreases kinds@.len() - i,
    {
        assert(kinds@.take(i + 1).drop_last() == kinds@.take(i as int));
        assert(kinds@.take(i + 1).last() == kinds@[i as int]);
        let k = kinds[i];
        let n = count_kind(warnings, k);
        if n > 0 {
            let mut e = k.as_str().to_string();
            e.append(":");
            e.append(usize_to_decimal(n).as_str());
            proof {
                reveal_strlit(":");
            }
            let ghost before = string_views(entries@);
            entries.push(e);
            assert(string_views(entries@) =~= before.push(e@));
        }
        i = i + 1;
    }
    assert(kinds@.take(i as int) == kinds@);
    join_strings(&entries, ",")
}

/// What a data generation produced.
#[derive(Clone, Debug)]
pub struct GenerateReport {
    pub paths: Vec<String>,
    pub cases: usize,
    pub bundles: Vec<String>,
    pub elapsed_ms: u128,
    pub input_bytes: usize,
    pub answer_bytes: usize,
    pub validator_configured: bool,
    pub validator_calls: usize,
    pub warnings: Vec<GenerateWarning>,
}

/// The line printed after a data generation.
pub open spec fn generate_summary_text(r: GenerateReport) -> Seq<char> {
    "gen: ok cases="@ + decimal(r.cases as nat) + " bundles="@ + join(string_views(r.bundles@), ","@)
        + " elapsed="@ + decimal(r.elapsed_ms as nat) + "ms in_bytes="@ + decimal(
        r.input_bytes as nat,
    ) + " ans_bytes="@ + decimal(r.answer_bytes as nat) + " validator_calls="@ + decimal(
        r.validator_calls as nat,
    ) + " warnings="@ + warnings_summary_text(r.warnings@)
}

impl GenerateReport {
    /// The line printed after a data generation.
    pub fn summary_line(&self) -> (s: String)
        ensures
            s@ == generate_summary_text(*self),
    {
        proof {
            reveal_strlit("gen: ok cases=");
            reveal_strlit(" bundles=");
            reveal_strlit(" elapsed=");
            reveal_strlit("ms in_bytes=");
            reveal_strlit(" ans_bytes=");
            reveal_strlit(" validator_calls=");
            reveal_strlit(" warnings=");
        }
        let mut s = String::from_str("gen: ok cases=");
        s.append(usize_to_decimal(self.cases).as_str());
        s.append(" bundles=");
        s.append(join_strings(&self.bundles, ",").as_str());
        s.append(" elapsed=");
        s.append(u128_to_decimal(self.elapsed_ms).as_str());
        s.append("ms in_bytes=");
        s.append(usize_to_decimal(self.input_bytes).as_str());
        s.append(" ans_bytes=");
        s.append(usize_to_decimal(self.answer_bytes).as_str());
        s.append(" validator_calls=");
        s.append(usize_to_decimal(self.validator_calls).as_str());
        s.append(" warnings=");
        s.append(summarize_generate_warnings(&self.warnings).as_str());
        s
    }
}

/// Why the cases to generate could not be chosen.
#[derive(Clone, Debug)]
pub enum SelectCasesError {
    Selector(SelectorError),
    BundleNotFound(String),
    CaseNotFound(usize),
}

impl SelectCasesError {
    /// The message printed for this error.
    pub fn message(&self) -> (s: String)
        ensures
            match self {
                SelectCasesError::Selector(_) => true,
                SelectCasesError::BundleNotFound(b) => s@ == "bundle `"@ + b@ + "` not found"@,
                SelectCasesError::CaseNotFound(i) => s@ == "case `"@ + decimal(*i as nat)
                    + "` not found"@,
            },
    {
        proof {
            reveal_strlit("bundle `");
            reveal_strlit("` not found");
            reveal_strlit("case `");
        }
        match self {
            SelectCasesError::Selector(e) => e.message(),
            SelectCasesError::BundleNotFound(b) => {
                let mut s = String::from_str("bundle `");
                s.append(b.as_str());
                s.append("` not found");
                s
            },
            SelectCasesError::CaseNotFound(i) => {
                let mut s = String::from_str("case `");
                s.append(usize_to_decimal(*i).as_str());
                s.append("` not found");
                s
            },
        }
    }
}

/// The index of the bundle with the name, from `k` on.
pub open spec fn bundle_index_from(bundles: Seq<NamedBundle>, name: Seq<char>, k: int) -> Option<int>
    decreases bundles.len() - k,
{
    if k < 0 || k >= bundles.len() {
        None
    } else if bundles[k].name@ == name {
        Some(k)
    } else {
        bundle_index_from(bundles, name, k + 1)
    }
}

/// The position of a bundle by name.
pub fn find_bundle(problem: &Problem, name: &String) -> (r: Option<usize>)
    ensures
        match r {
            Some(k) => k < problem.test.bundles@.len() && bundle_index_from(
                problem.test.bundles@,
                name@,
                0,
            ) == Some(k as int),
            None => bundle_index_from(problem.test.bundles@, name@, 0) is None,
        },
{
    let mut k: usize = 0;
    while k < problem.test.bundles.len()
        invariant
            k <= problem.test.bundles@.len(),
            bundle_index_from(problem.test.bundles@, name@, 0) == bundle_index_from(
                problem.test.bundles@,
                name@,
                k as int,
            ),
        decreases problem.test.bundles@.len() - k,
    {
        if problem.test.bundles[k].name == *name {
            return Some(k);
        }
        k = k + 1;
    }
    None
}

/// Every case of a bundle, as selectors.
pub open spec fn bundle_selectors(name: Seq<char>, count: nat) -> Seq<(Seq<char>, nat)> {
    Seq::new(count, |i: int| (name, i as nat))
}

/// Selectors by their contents.
pub open spec fn selectors_view(v: Seq<CaseSelector>) -> Seq<(Seq<char>, nat)> {
    v.map_values(|s: CaseSelector| (s.bundle@, s.index as nat))
}

fn push_bundle_cases(out: &mut Vec<CaseSelector>, name: &String, count: usize)
    ensures
        selectors_view(final(out)@) == selectors_view(old(out)@) + bundle_selectors(name@, count as nat),
{
    let ghost start = selectors_view(out@);
    let mut i: usize = 0;
    while i < count
        invariant
            i <= count,
            selectors_view(out@) == start + bundle_selectors(name@, i as nat),
        decreases count - i,
    {
        let ghost before = selectors_view(out@);
        out.push(CaseSelector { bundle: name.clone(), index: i });
        assert(selectors_view(out@) =~= before.push((name@, i as nat)));
        assert(bundle_selectors(name@, (i + 1) as nat) =~= bundle_selectors(name@, i as nat).push(
            (name@, i as nat),
        ));
        i = i + 1;
    }
}

/// A bundle is scored by an official task.
pub open spec fn is_official_bundle(p: Problem, name: Seq<char>) -> bool {
    exists|t: int, b: int|
        0 <= t < p.test.tasks@.len() && p.test.tasks@[t].official && 0 <= b
            < p.test.tasks@[t].bundles@.len() && #[trigger] p.test.tasks@[t].bundles@[b]@ == name
}

/// Whether a bundle is scored by an official task.
pub fn official_bundle(problem: &Problem, name: &String) -> (b: bool)
    ensures
        b == is_official_bundle(*problem, name@),
{
    let mut t: usize = 0;
    while t < problem.test.tasks.len()
        invariant
            t <= problem.test.tasks@.len(),
            forall|u: int, b: int|
                0 <= u < t && problem.test.tasks@[u].official && 0 <= b
                    < problem.test.tasks@[u].bundles@.len() ==> #[trigger] problem.test.tasks@[u].bundles@[b]@
                    != name@,
        decreases problem.test.tasks@.len() - t,
    {
        let task = &problem.test.tasks[t];
        if task.official {
            let mut b: usize = 0;
            while b < task.bundles.len()
                invariant
                    t < problem.test.tasks@.len(),
                    *task == problem.test.tasks@[t as int],
                    task.official,
                    b <= task.bundles@.len(),
                    forall|c: int| 0 <= c < b ==> (#[trigger] task.bundles@[c])@ != name@,
                decreases task.bundles@.len() - b,
            {
                if task.bundles[b] == *name {
                    assert(problem.test.tasks@[t as int].bundles@[b as int]@ == name@);
                    return true;
                }
                b = b + 1;
            }
        }
        t = t + 1;
    }
    false
}

/// The selectors of every case of the official bundles, from bundle `k`
/// on, in the order of the bundles.
pub open spec fn official_selectors_from(p: Problem, k: int) -> Seq<(Seq<char>, nat)>
    decreases p.test.bundles@.len() - k,
{
    if k < 0 || k >= p.test.bundles@.len() {
        Seq::empty()
    } else {
        let b = p.test.bundles@[k];
        (if is_official_bundle(p, b.name@) {
            bundle_selectors(b.name@, b.bundle.cases@.len())
        } else {
            Seq::empty()
        }) + official_selectors_from(p, k + 1)
    }
}

/// The case a selector names in the package, when it names one: the
/// bundle and index the selector reads as, provided a bundle of that name
/// is declared (the first one counts) and has a case at that index.
pub open spec fn existing_case(p: Problem, sel: Seq<char>) -> Option<(Seq<char>, int)> {
    match selector_parse(sel) {
        Ok((b, i)) => match bundle_index_from(p.test.bundles@, b, 0) {
            Some(k) => if 0 <= i < p.test.bundles@[k].bundle.cases@.len() {
                Some((b, i))
            } else {
                None
            },
            None => None,
        },
        Err(_) => None,
    }
}

/// Law: the selector written for a case of a declared bundle names that
/// case, whichever of the bundle's cases it is, the last one included
/// (when several bundles share the name, the first one is the one meant).
pub proof fn lemma_written_selector_names_case(p: Problem, k: int, i: nat)
    requires
        0 <= k < p.test.bundles@.len(),
        p.test.bundles@[k].name@.len() > 0,
        bundle_index_from(p.test.bundles@, p.test.bundles@[k].name@, 0) == Some(k),
        i < p.test.bundles@[k].bundle.cases@.len(),
        i <= usize::MAX,
    ensures
        existing_case(p, selector_text_of(p.test.bundles@[k].name@, i)) == Some(
            (p.test.bundles@[k].name@, i as int),
        ),
{
    lemma_selector_round_trip(p.test.bundles@[k].name@, i);
}

/// Law: a selector names a case only when it reads as a bundle that is
/// declared and an index below that bundle's number of cases.
pub proof fn lemma_existing_case_exists(p: Problem, sel: Seq<char>)
    ensures
        existing_case(p, sel) matches Some((b, i)) ==> (exists|k: int|
            0 <= k < p.test.bundles@.len() && #[trigger] p.test.bundles@[k].name@ == b && 0 <= i
                < p.test.bundles@[k].bundle.cases@.len()) && selector_parse(sel) == Ok::<
            (Seq<char>, int),
            SelectorError,
        >((b, i)),
{
    if let Ok((b, i)) = selector_parse(sel) {
        if let Some(k) = bundle_index_from(p.test.bundles@, b, 0) {
            lemma_bundle_index_found(p.test.bundles@, b, 0);
        }
    }
}

proof fn lemma_bundle_index_found(bs: Seq<NamedBundle>, name: Seq<char>, k: int)
    requires
        0 <= k,
    ensures
        bundle_index_from(bs, name, k) matches Some(i) ==> k <= i < bs.len() && bs[i].name@ == name,
    decreases bs.len() - k,
{
    if k < bs.len() && bs[k].name@ != name {
        lemma_bundle_index_found(bs, name, k + 1);
    }
}

/// The cases a generation covers: the one selected (which must exist),
/// every case of the named bundle, or every case of the official bundles.
pub fn select_cases(problem: &Problem, bundle: Option<&str>, selector: Option<&str>) -> (r: Result<
    Vec<CaseSelector>,
    SelectCasesError,
>)
    ensures
        match selector {
            Some(sel) => match r {
                Ok(v) => v@.len() == 1 && selector_result_matches(Ok(v@[0]), sel@)
                    && bundle_index_from(problem.test.bundles@, v@[0].bundle@, 0) is Some
                    && v@[0].index < problem.test.bundles@[bundle_index_from(
                    problem.test.bundles@,
                    v@[0].bundle@,
                    0,
                ).unwrap()].bundle.cases@.len(),
                Err(SelectCasesError::Selector(e)) => selector_result_matches(Err(e), sel@),
                Err(SelectCasesError::BundleNotFound(b)) => bundle_index_from(
                    problem.test.bundles@,
                    b@,
                    0,
                ) is None,
                Err(SelectCasesError::CaseNotFound(i)) => true,
            },
            None => true,
        },
        match selector {
            Some(sel) => match existing_case(*problem, sel@) {
                Some((b, i)) => r is Ok && r->Ok_0@.len() == 1 && r->Ok_0@[0].bundle@ == b
                    && r->Ok_0@[0].index == i,
                None => r is Err,
            },
            None => true,
        },
        match (selector, r) {
            (Some(sel), Err(SelectCasesError::CaseNotFound(i))) => match selector_parse(sel@) {
                Ok((b, j)) => j == i && match bundle_index_from(problem.test.bundles@, b, 0) {
                    Some(k) => i >= problem.test.bundles@[k].bundle.cases@.len(),
                    None => false,
                },
                Err(_) => false,
            },
            _ => true,
        },
        match selector {
            None => match bundle {
                Some(name) => match bundle_index_from(problem.test.bundles@, name@, 0) {
                    Some(k) => r is Ok && selectors_view(r->Ok_0@) == bundle_selectors(
                        name@,
                        problem.test.bundles@[k].bundle.cases@.len(),
                    ),
                    None => r matches Err(SelectCasesError::BundleNotFound(b)) && b@ == name@,
                },
                None => r is Ok && selectors_view(r->Ok_0@) == official_selectors_from(*problem, 0),
            },
            Some(_) => true,
        },
{
    match selector {
        Some(sel) => {
            let parsed = match parse_case_selector(sel) {
                Ok(s) => s,
                Err(e) => {
                    return Err(SelectCasesError::Selector(e));
                },
            };
            match find_bundle(problem, &parsed.bundle) {
                Some(k) => {
                    if parsed.index >= problem.test.bundles[k].bundle.cases.len() {
                        return Err(SelectCasesError::CaseNotFound(parsed.index));
                    }
                    let v = vec![parsed];
                    Ok(v)
                },
                None => Err(SelectCasesError::BundleNotFound(parsed.bundle)),
            }
        },
        None => match bundle {
            Some(name) => {
                let name = name.to_string();
                match find_bundle(problem, &name) {
                    Some(k) => {
                        let mut v: Vec<CaseSelector> = Vec::new();
                        assert(selectors_view(v@) =~= Seq::<(Seq<char>, nat)>::empty());
                        push_bundle_cases(&mut v, &name, problem.test.bundles[k].bundle.cases.len());
                        assert(Seq::<(Seq<char>, nat)>::empty() + bundle_selectors(
                            name@,
                            problem.test.bundles@[k as int].bundle.cases@.len(),
                        ) =~= bundle_selectors(
                            name@,
                            problem.test.bundles@[k as int].bundle.cases@.len(),
                        ));
                        Ok(v)
                    },
                    None => Err(SelectCasesError::BundleNotFound(name)),
                }
            },
            None => {
                let mut v: Vec<CaseSelector> = Vec::new();
                let mut k: usize = 0;
                assert(selectors_view(v@) =~= Seq::<(Seq<char>, nat)>::empty());
                while k < problem.test.bundles.len()
                    invariant
                        k <= problem.test.bundles@.len(),
                        selectors_view(v@) + official_selectors_from(*problem, k as int)
                            == official_selectors_from(*problem, 0),
                    decreases problem.test.bundles@.len() - k,
                {
                    let b = &problem.test.bundles[k];
                    let ghost before = selectors_view(v@);
                    if official_bundle(problem, &b.name) {
                        push_bundle_cases(&mut v, &b.name, b.bundle.cases.len());
                        assert(before + official_selectors_from(*problem, k as int) =~= (before
                            + bundle_selectors(b.name@, b.bundle.cases@.len()))
                            + official_selectors_from(*problem, k + 1));
                    } else {
                        assert(before + official_selectors_from(*problem, k as int) =~= before
                            + official_selectors_from(*problem, k + 1));
                    }
                    k = k + 1;
                }
                assert(selectors_view(v@) + Seq::<(Seq<char>, nat)>::empty() =~= selectors_view(
                    v@,
                ));
                Ok(v)
            },
        },
    }
}

} // verus!

verus! {

/// What generating one case produced, as far as the report needs it.
#[derive(Clone, Debug)]
pub struct GeneratedCase {
    pub selector: CaseSelector,
    pub input_hash: Vec<u8>,
    pub input_bytes: usize,
    pub answer_bytes: usize,
    pub validator_calls: usize,
    pub warnings: Vec<GenerateWarning>,
}

/// The names are in strictly increasing order, so each occurs once.
pub open spec fn strictly_sorted(names: Seq<Seq<char>>) -> bool {
    forall|i: int, j: int| 0 <= i < j < names.len() ==> text_less(#[trigger] names[i], #[trigger] names[j])
}

/// The bundle of a case is one of the names, and every name is the bundle
/// of some case.
pub open spec fn names_of_cases(names: Seq<Seq<char>>, cases: Seq<GeneratedCase>) -> bool {
    &&& forall|i: int| 0 <= i < cases.len() ==> names.contains(#[trigger] cases[i].selector.bundle@)
    &&& forall|j: int|
        0 <= j < names.len() ==> exists|i: int|
            0 <= i < cases.len() && #[trigger] cases[i].selector.bundle@ == #[trigger] names[j]
}

/// The input hashes of the cases of one bundle, in order.
pub open spec fn bundle_hashes(cases: Seq<GeneratedCase>, bundle: Seq<char>) -> Seq<Seq<u8>>
    decreases cases.len(),
{
    if cases.len() == 0 {
        Seq::empty()
    } else {
        let rest = bundle_hashes(cases.drop_last(), bundle);
        if cases.last().selector.bundle@ == bundle {
            rest.push(cases.last().input_hash@)
        } else {
            rest
        }
    }
}

/// More than one input and all of them the same.
pub open spec fn all_same(hashes: Seq<Seq<u8>>) -> bool {
    hashes.len() > 1 && forall|i: int| 0 <= i < hashes.len() ==> #[trigger] hashes[i] == hashes[0]
}

/// The sum of a quantity over the cases.
pub open spec fn sum_of(cases: Seq<GeneratedCase>, f: spec_fn(GeneratedCase) -> nat) -> nat
    decreases cases.len(),
{
    if cases.len() == 0 {
        0
    } else {
        sum_of(cases.drop_last(), f) + f(cases.last())
    }
}

/// The warnings of the cases, in order.
pub open spec fn case_warnings(cases: Seq<GeneratedCase>) -> Seq<GenerateWarning>
    decreases cases.len(),
{
    if cases.len() == 0 {
        Seq::empty()
    } else {
        case_warnings(cases.drop_last()) + cases.last().warnings@
    }
}

/// The repeated-input warnings: one per bundle, in name order, whose
/// several cases all had the same input.
pub open spec fn repeated_warnings(names: Seq<Seq<char>>, cases: Seq<GeneratedCase>) -> Seq<(Seq<char>, nat)>
    decreases names.len(),
{
    if names.len() == 0 {
        Seq::empty()
    } else {
        let rest = repeated_warnings(names.drop_last(), cases);
        let h = bundle_hashes(cases, names.last());
        if all_same(h) {
            rest.push((names.last(), h.len()))
        } else {
            rest
        }
    }
}

/// A repeated-input warning for a bundle of `count` identical inputs.
pub open spec fn is_repeated_warning(w: GenerateWarning, bundle: Seq<char>, count: nat) -> bool {
    &&& w.kind == GenerateWarningKind::RepeatedInput
    &&& w.bundle@ == bundle
    &&& w.case_index is None
    &&& w.program@.len() == 0
    &&& w.stdout_bytes == 0
    &&& w.stderr_bytes == 0
    &&& w.case_count == Some(count as usize)
    &&& w.unique_input_hashes == Some(1usize)
    &&& w.random_coverage == Some(false)
}

/// Inserts a name into a strictly sorted list of names, unless it is there.
pub fn insert_sorted(names: &mut Vec<String>, name: &String)
    requires
        strictly_sorted(string_views(old(names)@)),
    ensures
        strictly_sorted(string_views(final(names)@)),
        forall|x: Seq<char>| string_views(final(names)@).contains(x) <==> (string_views(old(names)@).contains(x) || x == name@),
{
    let target = chars_of(name.as_str());
    let ghost old_v = string_views(names@);
    let mut i: usize = 0;
    loop
        invariant
            i <= names@.len(),
            string_views(names@) == old_v,
            strictly_sorted(old_v),
            target@ == name@,
            forall|j: int| 0 <= j < i ==> text_less(#[trigger] old_v[j], name@),
        ensures
            i <= names@.len(),
            string_views(names@) == old_v,
            forall|j: int| 0 <= j < i ==> text_less(#[trigger] old_v[j], name@),
            i < names@.len() ==> text_less(name@, old_v[i as int]),
        decreases names@.len() - i,
    {
        if i == names.len() {
            break;
        }
        let current = chars_of(names[i].as_str());
        assert(current@ == old_v[i as int]);
        if crate::text::chars_eq(current.as_slice(), target.as_slice()) {
            assert(old_v.contains(name@));
            return;
        }
        if chars_less(target.as_slice(), current.as_slice()) {
            break;
        }
        proof {
            crate::problem::lemma_text_less_total(old_v[i as int], name@);
        }
        i = i + 1;
    }
    proof {
        assert forall|j: int| i <= j < old_v.len() implies text_less(name@, #[trigger] old_v[j]) by {
            if j > i {
                crate::problem::lemma_text_less_trans(name@, old_v[i as int], old_v[j]);
            }
        }
    }
    names.insert(i, name.clone());
    proof {
        let nv = string_views(names@);
        assert(nv =~= old_v.insert(i as int, name@));
        assert forall|a: int, b: int| 0 <= a < b < nv.len() implies text_less(#[trigger] nv[a], #[trigger] nv[b]) by {
            if b < i {
                assert(nv[a] == old_v[a]);
                assert(nv[b] == old_v[b]);
            } else if b == i {
                assert(nv[a] == old_v[a]);
            } else if a < i {
                assert(nv[a] == old_v[a]);
                assert(nv[b] == old_v[b - 1]);
            } else if a == i {
                assert(nv[b] == old_v[b - 1]);
            } else {
                assert(nv[a] == old_v[a - 1]);
                assert(nv[b] == old_v[b - 1]);
            }
        }
        assert forall|x: Seq<char>| nv.contains(x) <==> (old_v.contains(x) || x == name@) by {
            if nv.contains(x) {
                let k = choose|k: int| 0 <= k < nv.len() && nv[k] == x;
                if k < i {
                    assert(old_v[k] == x);
                } else if k > i {
                    assert(old_v[k - 1] == x);
                }
            }
            if old_v.contains(x) {
                let k = choose|k: int| 0 <= k < old_v.len() && old_v[k] == x;
                if k < i {
                    assert(nv[k] == x);
                } else {
                    assert(nv[k + 1] == x);
                }
            }
            if x == name@ {
                assert(nv[i as int] == x);
            }
        }
    }
}

} // verus!

verus! {

/// The input bytes of all cases.
pub open spec fn input_sum(cases: Seq<GeneratedCase>) -> nat
    decreases cases.len(),
{
    if cases.len() == 0 {
        0
    } else {
        input_sum(cases.drop_last()) + cases.last().input_bytes as nat
    }
}

/// The answer bytes of all cases.
pub open spec fn answer_sum(cases: Seq<GeneratedCase>) -> nat
    decreases cases.len(),
{
    if cases.len() == 0 {
        0
    } else {
        answer_sum(cases.drop_last()) + cases.last().answer_bytes as nat
    }
}

/// The validator calls of all cases.
pub open spec fn validator_sum(cases: Seq<GeneratedCase>) -> nat
    decreases cases.len(),
{
    if cases.len() == 0 {
        0
    } else {
        validator_sum(cases.drop_last()) + cases.last().validator_calls as nat
    }
}

proof fn lemma_sums_monotone(cases: Seq<GeneratedCase>, i: int)
    requires
        0 <= i <= cases.len(),
    ensures
        input_sum(cases.take(i)) <= input_sum(cases),
        answer_sum(cases.take(i)) <= answer_sum(cases),
        validator_sum(cases.take(i)) <= validator_sum(cases),
    decreases cases.len() - i,
{
    if i < cases.len() {
        lemma_sums_monotone(cases, i + 1);
        assert(cases.take(i + 1).drop_last() == cases.take(i));
    } else {
        assert(cases.take(i) == cases);
    }
}

fn copy_warning(w: &GenerateWarning) -> (c: GenerateWarning)
    ensures
        c == *w,
{
    GenerateWarning {
        kind: w.kind,
        bundle: w.bundle.clone(),
        case_index: w.case_index,
        program: w.program.clone(),
        stdout_bytes: w.stdout_bytes,
        stderr_bytes: w.stderr_bytes,
        case_count: w.case_count,
        unique_input_hashes: w.unique_input_hashes,
        random_coverage: w.random_coverage,
    }
}

fn bytes_eq(a: &Vec<u8>, b: &Vec<u8>) -> (r: bool)
    ensures
        r == (a@ == b@),
{
    if a.len() != b.len() {
        return false;
    }
    let mut i: usize = 0;
    while i < a.len()
        invariant
            a@.len() == b@.len(),
            i <= a@.len(),
            forall|k: int| 0 <= k < i ==> a@[k] == b@[k],
        decreases a@.len() - i,
    {
        if a[i] != b[i] {
            return false;
        }
        i = i + 1;
    }
    assert(a@ =~= b@);
    true
}

/// Every hash equals the first.
pub open spec fn all_eq_first(h: Seq<Seq<u8>>) -> bool {
    forall|k: int| 0 <= k < h.len() ==> #[trigger] h[k] == h[0]
}

proof fn lemma_all_eq_first_push(h: Seq<Seq<u8>>, x: Seq<u8>)
    ensures
        all_eq_first(h.push(x)) == (all_eq_first(h) && (h.len() == 0 || x == h[0])),
{
    let n = h.push(x);
    if all_eq_first(n) {
        assert forall|k: int| 0 <= k < h.len() implies #[trigger] h[k] == h[0] by {
            assert(n[k] == h[k]);
            assert(n[0] == h[0]);
        }
        if h.len() > 0 {
            assert(n[h.len() as int] == x);
            assert(n[0] == h[0]);
        }
    }
    if all_eq_first(h) && (h.len() == 0 || x == h[0]) {
        assert forall|k: int| 0 <= k < n.len() implies #[trigger] n[k] == n[0] by {
            if k < h.len() {
                assert(n[k] == h[k]);
            }
            if h.len() > 0 {
                assert(n[0] == h[0]);
            }
        }
    }
}

/// How many cases of the bundle there are and whether they all had the
/// same input.
fn bundle_repetition(cases: &Vec<GeneratedCase>, bundle: &String) -> (r: (usize, bool))
    ensures
        r.0 == bundle_hashes(cases@, bundle@).len(),
        r.1 == all_same(bundle_hashes(cases@, bundle@)),
{
    let mut count: usize = 0;
    let mut first: Option<usize> = None;
    let mut same = true;
    let mut i: usize = 0;
    while i < cases.len()
        invariant
            i <= cases@.len(),
            count == bundle_hashes(cases@.take(i as int), bundle@).len(),
            count <= i,
            match first {
                Some(f) => f < cases@.len() && count > 0 && cases@[f as int].input_hash@
                    == bundle_hashes(cases@.take(i as int), bundle@)[0],
                None => count == 0,
            },
            same == all_eq_first(bundle_hashes(cases@.take(i as int), bundle@)),
        decreases cases@.len() - i,
    {
        let ghost prev = bundle_hashes(cases@.take(i as int), bundle@);
        assert(cases@.take(i + 1).drop_last() == cases@.take(i as int));
        assert(cases@.take(i + 1).last() == cases@[i as int]);
        if cases[i].selector.bundle == *bundle {
            proof {
                lemma_all_eq_first_push(prev, cases@[i as int].input_hash@);
            }
            match first {
                Some(f) => {
                    let eq = bytes_eq(&cases[i].input_hash, &cases[f].input_hash);
                    assert(prev.push(cases@[i as int].input_hash@)[0] == prev[0]);
                    if !eq {
                        same = false;
                    }
                },
                None => {
                    first = Some(i);
                },
            }
            count = count + 1;
        }
        i = i + 1;
    }
    assert(cases@.take(i as int) == cases@);
    (count, count > 1 && same)
}

} // verus!

verus! {

/// The repeated-input warnings of a report, after the warnings of its
/// cases, are the ones `repeated_warnings` lists.
pub open spec fn repeated_tail(ws: Seq<GenerateWarning>, start: int, rw: Seq<(Seq<char>, nat)>) -> bool {
    &&& ws.len() == start + rw.len()
    &&& forall|k: int| 0 <= k < rw.len() ==> is_repeated_warning(#[trigger] ws[start + k], rw[k].0, rw[k].1)
}

/// The report of a data generation: the cases and bytes generated, the
/// bundles in name order, and the warnings of the cases followed by one
/// repeated-input warning per bundle whose several inputs were identical.
pub fn build_generate_report(
    cases: Vec<GeneratedCase>,
    paths: Vec<String>,
    elapsed_ms: u128,
    validator_configured: bool,
) -> (r: GenerateReport)
    requires
        input_sum(cases@) <= usize::MAX,
        answer_sum(cases@) <= usize::MAX,
        validator_sum(cases@) <= usize::MAX,
    ensures
        r.paths == paths,
        r.cases == cases@.len(),
        strictly_sorted(string_views(r.bundles@)),
        names_of_cases(string_views(r.bundles@), cases@),
        r.elapsed_ms == elapsed_ms,
        r.input_bytes == input_sum(cases@),
        r.answer_bytes == answer_sum(cases@),
        r.validator_configured == validator_configured,
        r.validator_calls == validator_sum(cases@),
        r.warnings@.subrange(0, case_warnings(cases@).len() as int) == case_warnings(cases@),
        repeated_tail(
            r.warnings@,
            case_warnings(cases@).len() as int,
            repeated_warnings(string_views(r.bundles@), cases@),
        ),
{
    let mut bundles: Vec<String> = Vec::new();
    let mut input_bytes: usize = 0;
    let mut answer_bytes: usize = 0;
    let mut validator_calls: usize = 0;
    let mut warnings: Vec<GenerateWarning> = Vec::new();
    let mut i: usize = 0;
    while i < cases.len()
        invariant
            i <= cases@.len(),
            input_sum(cases@) <= usize::MAX,
            answer_sum(cases@) <= usize::MAX,
            validator_sum(cases@) <= usize::MAX,
            strictly_sorted(string_views(bundles@)),
            forall|x: Seq<char>| string_views(bundles@).contains(x) <==> exists|k: int|
                0 <= k < i && #[trigger] cases@[k].selector.bundle@ == x,
            input_bytes == input_sum(cases@.take(i as int)),
            answer_bytes == answer_sum(cases@.take(i as int)),
            validator_calls == validator_sum(cases@.take(i as int)),
            warnings@ == case_warnings(cases@.take(i as int)),
        decreases cases@.len() - i,
    {
        let c = &cases[i];
        assert(cases@.take(i + 1).drop_last() == cases@.take(i as int));
        assert(cases@.take(i + 1).last() == cases@[i as int]);
        proof {
            lemma_sums_monotone(cases@, i + 1);
        }
        let ghost before = string_views(bundles@);
        insert_sorted(&mut bundles, &c.selector.bundle);
        assert forall|x: Seq<char>| string_views(bundles@).contains(x) <==> exists|k: int|
            0 <= k < i + 1 && #[trigger] cases@[k].selector.bundle@ == x by {
            if x == c.selector.bundle@ {
                assert(cases@[i as int].selector.bundle@ == x);
            }
            if exists|k: int| 0 <= k < i + 1 && #[trigger] cases@[k].selector.bundle@ == x {
                let k = choose|k: int| 0 <= k < i + 1 && #[trigger] cases@[k].selector.bundle@ == x;
                if k < i {
                    assert(before.contains(x));
                }
            }
        }
        input_bytes = input_bytes + c.input_bytes;
        answer_bytes = answer_bytes + c.answer_bytes;
        validator_calls = validator_calls + c.validator_calls;
        let ghost wbefore = warnings@;
        let mut j: usize = 0;
        while j < c.warnings.len()
            invariant
                j <= c.warnings@.len(),
                warnings@ == wbefore + c.warnings@.take(j as int),
            decreases c.warnings@.len() - j,
        {
            warnings.push(copy_warning(&c.warnings[j]));
            assert(c.warnings@.take(j + 1) == c.warnings@.take(j as int).push(c.warnings@[j as int]));
            j = j + 1;
        }
        assert(c.warnings@.take(j as int) == c.warnings@);
        i = i + 1;
    }
    assert(cases@.take(i as int) == cases@);
    let ghost names = string_views(bundles@);
    let ghost cw = warnings@;
    let mut b: usize = 0;
    while b < bundles.len()
        invariant
            b <= bundles@.len(),
            names == string_views(bundles@),
            cw == case_warnings(cases@),
            warnings@.subrange(0, cw.len() as int) == cw,
            repeated_tail(warnings@, cw.len() as int, repeated_warnings(names.take(b as int), cases@)),
        decreases bundles@.len() - b,
    {
        assert(names.take(b + 1).drop_last() == names.take(b as int));
        assert(names.take(b + 1).last() == bundles@[b as int]@);
        let (count, same) = bundle_repetition(&cases, &bundles[b]);
        if same {
            let ghost before = warnings@;
            warnings.push(
                GenerateWarning {
                    kind: GenerateWarningKind::RepeatedInput,
                    bundle: bundles[b].clone(),
                    case_index: None,
                    program: String::new(),
                    stdout_bytes: 0,
                    stderr_bytes: 0,
                    case_count: Some(count),
                    unique_input_hashes: Some(1),
                    random_coverage: Some(false),
                },
            );
            assert(warnings@.subrange(0, cw.len() as int) =~= before.subrange(0, cw.len() as int));
            let ghost rw = repeated_warnings(names.take(b + 1), cases@);
            assert forall|k: int| 0 <= k < rw.len() implies is_repeated_warning(
                #[trigger] warnings@[cw.len() + k],
                rw[k].0,
                rw[k].1,
            ) by {
                if k < rw.len() - 1 {
                    assert(warnings@[cw.len() + k] == before[cw.len() + k]);
                }
            }
        }
        b = b + 1;
    }
    assert(names.take(b as int) == names);
    proof {
        assert forall|j: int| 0 <= j < names.len() implies exists|k: int|
            0 <= k < cases@.len() && #[trigger] cases@[k].selector.bundle@ == #[trigger] names[j] by {
            assert(names.contains(names[j]));
        }
        assert forall|k: int| 0 <= k < cases@.len() implies names.contains(
            #[trigger] cases@[k].selector.bundle@,
        ) by {}
    }
    let n = cases.len();
    GenerateReport {
        paths,
        cases: n,
        bundles,
        elapsed_ms,
        input_bytes,
        answer_bytes,
        validator_configured,
        validator_calls,
        warnings,
    }
}

} // verus!

verus! {

/// The warnings of one generated case: an empty input is suspicious, and
/// an empty answer to a non-empty input is flagged unless the package
/// allows empty output.
pub open spec fn case_warning_kinds(input_len: nat, answer_len: nat, allow_empty: bool) -> Seq<GenerateWarningKind> {
    (if input_len == 0 {
        seq![GenerateWarningKind::GeneratorOutputSuspicious]
    } else {
        Seq::empty()
    }) + (if !allow_empty && input_len > 0 && answer_len == 0 {
        seq![GenerateWarningKind::EmptyAnswer]
    } else {
        Seq::empty()
    })
}

/// The warnings of one generated case, with the programs involved and the
/// sizes of what they wrote.
pub fn case_generation_warnings(
    selector: &CaseSelector,
    generator_label: &String,
    input_len: usize,
    generator_stderr_bytes: usize,
    allow_empty: bool,
    solution_label: &String,
    answer_len: usize,
    answer_stderr_bytes: usize,
) -> (w: Vec<GenerateWarning>)
    ensures
        w@.map_values(|x: GenerateWarning| x.kind) == case_warning_kinds(
            input_len as nat,
            answer_len as nat,
            allow_empty,
        ),
        forall|i: int|
            0 <= i < w@.len() ==> (#[trigger] w@[i]).bundle@ == selector.bundle@ && w@[i].case_index
                == Some(selector.index) && w@[i].stdout_bytes == 0 && w@[i].case_count is None
                && w@[i].unique_input_hashes is None && w@[i].random_coverage is None && if w@[i].kind
                == GenerateWarningKind::GeneratorOutputSuspicious {
                w@[i].program@ == generator_label@ && w@[i].stderr_bytes == generator_stderr_bytes
            } else {
                w@[i].program@ == solution_label@ && w@[i].stderr_bytes == answer_stderr_bytes
            },
{
    let mut w: Vec<GenerateWarning> = Vec::new();
    if input_len == 0 {
        w.push(
            GenerateWarning {
                kind: GenerateWarningKind::GeneratorOutputSuspicious,
                bundle: selector.bundle.clone(),
                case_index: Some(selector.index),
                program: generator_label.clone(),
                stdout_bytes: 0,
                stderr_bytes: generator_stderr_bytes,
                case_count: None,
                unique_input_hashes: None,
                random_coverage: None,
            },
        );
    }
    let ghost first = w@;
    if !allow_empty && input_len > 0 && answer_len == 0 {
        w.push(
            GenerateWarning {
                kind: GenerateWarningKind::EmptyAnswer,
                bundle: selector.bundle.clone(),
                case_index: Some(selector.index),
                program: solution_label.clone(),
                stdout_bytes: 0,
                stderr_bytes: answer_stderr_bytes,
                case_count: None,
                unique_input_hashes: None,
                random_coverage: None,
            },
        );
    }
    assert(w@.map_values(|x: GenerateWarning| x.kind) =~= case_warning_kinds(
        input_len as nat,
        answer_len as nat,
        allow_empty,
    ));
    w
}

/// The record of one generated case: its input's digest and size, its
/// answer's size, its validator calls and warnings.
pub fn finish_generated_case(
    selector: CaseSelector,
    input: &[u8],
    answer_bytes: usize,
    validator_calls: usize,
    warnings: Vec<GenerateWarning>,
) -> (c: GeneratedCase)
    ensures
        c.selector == selector,
        c.input_hash@ == crate::digest::sha256(input@),
        c.input_bytes == input@.len(),
        c.answer_bytes == answer_bytes,
        c.validator_calls == validator_calls,
        c.warnings == warnings,
{
    GeneratedCase {
        selector,
        input_hash: crate::digest::sha256_digest(input),
        input_bytes: input.len(),
        answer_bytes,
        validator_calls,
        warnings,
    }
}


/// The case a selector names, or why there is none.
pub open spec fn selected_case_spec(p: Problem, sel: CaseSelector) -> Result<(int, int), Seq<char>> {
    match bundle_index_from(p.test.bundles@, sel.bundle@, 0) {
        None => Err("bundle `"@ + sel.bundle@ + "` not found"@),
        Some(k) => if sel.index < p.test.bundles@[k].bundle.cases@.len() {
            Ok((k, sel.index as int))
        } else {
            Err("case `"@ + decimal(sel.index as nat) + "` not found"@)
        },
    }
}

/// Finds the bundle and case a selector names, as positions.
pub fn selected_case(problem: &Problem, selector: &CaseSelector) -> (r: Result<(usize, usize), String>)
    ensures
        match (r, selected_case_spec(*problem, *selector)) {
            (Ok((k, i)), Ok((a, b))) => k == a && i == b,
            (Err(e), Err(m)) => e@ == m,
            _ => false,
        },
{
    match find_bundle(problem, &selector.bundle) {
        None => {
            let mut s = String::from_str("bundle `");
            s.append(selector.bundle.as_str());
            s.append("` not found");
            Err(s)
        },
        Some(k) => {
            if selector.index < problem.test.bundles[k].bundle.cases.len() {
                Ok((k, selector.index))
            } else {
                let mut s = String::from_str("case `");
                let n = usize_to_decimal(selector.index);
                s.append(n.as_str());
                s.append("` not found");
                Err(s)
            }
        },
    }
}

/// The text std's `Debug` gives a list of strings, as in `["a", "b"]`.
pub uninterp spec fn debug_string_list(items: Seq<Seq<char>>) -> Seq<char>;

/// Formats with std's `{:?}`; the contract claims that the text is the
/// function `debug_string_list` of the strings alone.
#[verifier::external_body]
fn debug_strings(items: &Vec<String>) -> (s: String)
    ensures
        s@ == debug_string_list(string_views(items@)),
{
    format!("{:?}", items)
}

/// `bundle[index]`.
pub open spec fn case_label(sel: CaseSelector) -> Seq<char> {
    sel.bundle@ + "["@ + decimal(sel.index as nat) + "]"@
}

/// The failure of a validator's run on a generated input, naming the
/// case, the input's path and how it was generated.
pub open spec fn validator_failure_text(
    r: RunResult,
    sel: CaseSelector,
    input_path: Seq<char>,
    generator: Seq<char>,
    args: Seq<Seq<char>>,
) -> Option<Seq<char>> {
    if r.ok {
        None
    } else {
        Some(
            failure_text(
                r,
                "validator failed for "@ + case_label(sel) + " input="@ + input_path + " generator="@ + generator
                    + " args="@ + debug_string_list(args),
            ),
        )
    }
}

fn case_label_string(selector: &CaseSelector) -> (s: String)
    ensures
        s@ == case_label(*selector),
{
    let mut s = selector.bundle.clone();
    s.append("[");
    let n = usize_to_decimal(selector.index);
    s.append(n.as_str());
    s.append("]");
    s
}

/// Checks a validator's run on the input generated for a case.
pub fn check_validator_run(
    result: &RunResult,
    selector: &CaseSelector,
    input_path: &str,
    generator: &String,
    args: &Vec<String>,
) -> (r: Option<String>)
    ensures
        opt_view(r) == validator_failure_text(*result, *selector, input_path@, generator@, string_views(args@)),
{
    if result.is_success() {
        return None;
    }
    let mut context = String::from_str("validator failed for ");
    let label = case_label_string(selector);
    context.append(label.as_str());
    context.append(" input=");
    context.append(input_path);
    context.append(" generator=");
    context.append(generator.as_str());
    context.append(" args=");
    let shown = debug_strings(args);
    context.append(shown.as_str());
    Some(result.failure_report(context.as_str()))
}

/// What the solution's run on a case's input must satisfy: success, and
/// output not cut at the limit.
pub open spec fn solution_run_error(r: RunResult, sel: CaseSelector, input_path: Seq<char>, limit: nat) -> Option<
    Seq<char>,
> {
    if !r.ok {
        Some(failure_text(r, "solution failed for "@ + input_path))
    } else if r.truncated_stdout {
        Some("solution output for "@ + case_label(sel) + " exceeded --output-limit-bytes ("@ + decimal(limit) + ")"@)
    } else {
        None
    }
}

/// Checks the solution's run on a case's input.
pub fn check_solution_run(result: &RunResult, selector: &CaseSelector, input_path: &str, output_limit_bytes: usize) -> (r:
    Option<String>)
    ensures
        opt_view(r) == solution_run_error(*result, *selector, input_path@, output_limit_bytes as nat),
{
    if !result.is_success() {
        let mut context = String::from_str("solution failed for ");
        context.append(input_path);
        return Some(result.failure_report(context.as_str()));
    }
    if result.truncated_stdout {
        let mut s = String::from_str("solution output for ");
        let label = case_label_string(selector);
        s.append(label.as_str());
        s.append(" exceeded --output-limit-bytes (");
        let n = usize_to_decimal(output_limit_bytes);
        s.append(n.as_str());
        s.append(")");
        return Some(s);
    }
    None
}

} // verus!
