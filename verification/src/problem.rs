//! Addressing cases of a package: the `bundle[index]` selector, the file
//! stem of a case, and the structural checks of a package's references.

use vstd::prelude::*;
use crate::schema::{CaseSelector, NamedBundle, Problem, StressPlan, TestTask};
use crate::text::{
    all_digits, chars_of, copy_range, decimal, digits_value, is_digit, parse_unsigned,
    string_from_chars, unsigned_value, usize_to_decimal,
};

verus! {

/// The index of the last `c` in `s`.
pub open spec fn last_index_of(s: Seq<char>, c: char) -> Option<int>
    decreases s.len(),
{
    if s.len() == 0 {
        None
    } else if s.last() == c {
        Some(s.len() - 1)
    } else {
        last_index_of(s.drop_last(), c)
    }
}

/// Why a selector could not be read.
#[derive(Clone, Debug)]
pub enum SelectorError {
    Malformed(String),
    EmptyBundle,
    InvalidIndex(String),
}

impl SelectorError {
    /// The message printed for this error.
    pub fn message(&self) -> (s: String)
        ensures
            s@ == match self {
                SelectorError::Malformed(v) => "case selector must look like bundle[index], got `"@
                    + v@ + "`"@,
                SelectorError::EmptyBundle => "case selector bundle cannot be empty"@,
                SelectorError::InvalidIndex(raw) => "invalid case selector index `"@ + raw@ + "`"@,
            },
    {
        proof {
            reveal_strlit("case selector must look like bundle[index], got `");
            reveal_strlit("`");
            reveal_strlit("case selector bundle cannot be empty");
            reveal_strlit("invalid case selector index `");
        }
        match self {
            SelectorError::Malformed(v) => {
                let mut s = String::from_str("case selector must look like bundle[index], got `");
                s.append(v.as_str());
                s.append("`");
                s
            },
            SelectorError::EmptyBundle => String::from_str("case selector bundle cannot be empty"),
            SelectorError::InvalidIndex(raw) => {
                let mut s = String::from_str("invalid case selector index `");
                s.append(raw.as_str());
                s.append("`");
                s
            },
        }
    }
}

/// What reading a selector gives: the bundle and index, or which error.
pub open spec fn selector_parse(value: Seq<char>) -> Result<(Seq<char>, int), SelectorError> {
    match last_index_of(value, '[') {
        None => Err(SelectorError::Malformed(arbitrary())),
        Some(open) => if !(value.len() > 0 && value.last() == ']') {
            Err(SelectorError::Malformed(arbitrary()))
        } else if open == 0 {
            Err(SelectorError::EmptyBundle)
        } else {
            match unsigned_value(value.subrange(open + 1, value.len() - 1), usize::MAX as int) {
                Some(index) => Ok((value.subrange(0, open), index)),
                None => Err(SelectorError::InvalidIndex(arbitrary())),
            }
        },
    }
}

/// The selector read and the value returned agree, errors carrying the
/// selector or the index text as written.
pub open spec fn selector_result_matches(r: Result<CaseSelector, SelectorError>, value: Seq<char>) -> bool {
    match (r, selector_parse(value)) {
        (Ok(sel), Ok((bundle, index))) => sel.bundle@ == bundle && sel.index == index,
        (Err(SelectorError::Malformed(v)), Err(SelectorError::Malformed(_))) => v@ == value,
        (Err(SelectorError::EmptyBundle), Err(SelectorError::EmptyBundle)) => true,
        (Err(SelectorError::InvalidIndex(raw)), Err(SelectorError::InvalidIndex(_))) => {
            let open = last_index_of(value, '[').unwrap();
            raw@ == value.subrange(open + 1, value.len() - 1)
        },
        _ => false,
    }
}

/// The index of the last `c`.
fn find_last(s: &[char], c: char) -> (r: Option<usize>)
    ensures
        match r {
            Some(i) => i < s@.len() && s@[i as int] == c && last_index_of(s@, c) == Some(i as int),
            None => last_index_of(s@, c) is None,
        },
{
    let mut n = s.len();
    assert(s@.subrange(0, n as int) == s@);
    while n > 0
        invariant
            n <= s@.len(),
            last_index_of(s@.subrange(0, n as int), c) == last_index_of(s@, c),
        decreases n,
    {
        assert(s@.subrange(0, n as int).drop_last() == s@.subrange(0, n - 1));
        if s[n - 1] == c {
            return Some(n - 1);
        }
        n = n - 1;
    }
    None
}

/// Reads a `bundle[index]` selector; the index counts from zero.
pub fn parse_case_selector(value: &str) -> (r: Result<CaseSelector, SelectorError>)
    ensures
        selector_result_matches(r, value@),
{
    let chars = chars_of(value);
    let n = chars.len();
    let open = match find_last(chars.as_slice(), '[') {
        Some(i) => i,
        None => {
            return Err(SelectorError::Malformed(value.to_string()));
        },
    };
    if !(n > 0 && chars[n - 1] == ']') {
        return Err(SelectorError::Malformed(value.to_string()));
    }
    assert(open < n - 1) by {
        assert(chars@[open as int] == '[');
    }
    if open == 0 {
        return Err(SelectorError::EmptyBundle);
    }
    let raw = copy_range(chars.as_slice(), open + 1, n - 1);
    match parse_unsigned(raw.as_slice(), usize::MAX as u64) {
        Some(index) => {
            let bundle = copy_range(chars.as_slice(), 0, open);
            Ok(CaseSelector { bundle: string_from_chars(bundle.as_slice()), index: index as usize })
        },
        None => Err(SelectorError::InvalidIndex(string_from_chars(raw.as_slice()))),
    }
}

/// A selector as written: `bundle[index]`.
pub open spec fn selector_text_of(bundle: Seq<char>, index: nat) -> Seq<char> {
    bundle + "["@ + decimal(index) + "]"@
}

/// Writes a selector as `bundle[index]`.
pub fn selector_text(selector: &CaseSelector) -> (s: String)
    ensures
        s@ == selector_text_of(selector.bundle@, selector.index as nat),
{
    proof {
        reveal_strlit("[");
        reveal_strlit("]");
    }
    let mut s = selector.bundle.clone();
    s.append("[");
    s.append(usize_to_decimal(selector.index).as_str());
    s.append("]");
    s
}

/// The file stem of a case: `bundle-index`.
pub open spec fn case_stem(bundle: Seq<char>, index: nat) -> Seq<char> {
    bundle + "-"@ + decimal(index)
}

/// The file stem of the case a selector names.
pub fn case_file_stem(selector: &CaseSelector) -> (s: String)
    ensures
        s@ == case_stem(selector.bundle@, selector.index as nat),
{
    proof {
        reveal_strlit("-");
    }
    let mut s = selector.bundle.clone();
    s.append("-");
    s.append(usize_to_decimal(selector.index).as_str());
    s
}

proof fn lemma_digit_char(d: nat)
    requires
        d < 10,
    ensures
        is_digit(crate::text::digit_char(d)),
        crate::text::digit_value(crate::text::digit_char(d)) == d,
{
}

proof fn lemma_decimal_digits(n: nat)
    ensures
        decimal(n).len() > 0,
        all_digits(decimal(n)),
        digits_value(decimal(n)) == n,
    decreases n,
{
    if n >= 10 {
        lemma_decimal_digits(n / 10);
        lemma_digit_char(n % 10);
        let d = decimal(n / 10);
        let s = decimal(n);
        assert(s == d.push(crate::text::digit_char(n % 10)));
        assert(s.drop_last() == d);
        assert(s.last() == crate::text::digit_char(n % 10));
        assert(digits_value(s) == digits_value(d) * 10 + crate::text::digit_value(s.last()));
        assert((n / 10) * 10 + n % 10 == n);
        assert forall|i: int| 0 <= i < s.len() implies is_digit(#[trigger] s[i]) by {
            if i < d.len() {
                assert(s[i] == d[i]);
            }
        }
    } else {
        lemma_digit_char(n);
        let s = decimal(n);
        assert(s.drop_last() =~= Seq::<char>::empty());
        assert(digits_value(Seq::<char>::empty()) == 0);
        assert(digits_value(s) == digits_value(s.drop_last()) * 10 + crate::text::digit_value(
            s.last(),
        ));
    }
}

proof fn lemma_no_bracket_in_decimal(n: nat)
    ensures
        last_index_of(decimal(n), '[') is None,
        decimal(n).len() > 0,
    decreases decimal(n).len(),
{
    lemma_decimal_digits(n);
    lemma_no_bracket_in_digits(decimal(n));
}

proof fn lemma_no_bracket_in_digits(s: Seq<char>)
    requires
        all_digits(s),
    ensures
        last_index_of(s, '[') is None,
    decreases s.len(),
{
    if s.len() > 0 {
        assert(is_digit(s[s.len() - 1]));
        assert forall|i: int| 0 <= i < s.drop_last().len() implies is_digit(
            #[trigger] s.drop_last()[i],
        ) by {
            assert(s.drop_last()[i] == s[i]);
        }
        lemma_no_bracket_in_digits(s.drop_last());
    }
}

/// Law: reading back a written selector gives the same bundle and index,
/// whatever the (non-empty) bundle name holds.
pub proof fn lemma_selector_round_trip(bundle: Seq<char>, index: nat)
    requires
        bundle.len() > 0,
        index <= usize::MAX,
    ensures
        selector_parse(selector_text_of(bundle, index)) == Ok::<(Seq<char>, int), SelectorError>(
            (bundle, index as int),
        ),
{
    reveal_strlit("[");
    reveal_strlit("]");
    let digits = decimal(index);
    let text = selector_text_of(bundle, index);
    lemma_no_bracket_in_decimal(index);
    lemma_decimal_digits(index);
    let open = bundle.len() as int;
    assert(text.last() == ']');
    assert(text.drop_last() == bundle + "["@ + digits);
    assert(text =~= (bundle + "["@ + digits).push(']'));
    assert(last_index_of(text, '[') == Some(open)) by {
        lemma_last_index_after(bundle + "["@, digits, '[');
        assert((bundle + "["@).last() == '[');
    }
    assert(text.subrange(open + 1, text.len() - 1) == digits);
    assert(text.subrange(0, open) == bundle);
    assert(digits.len() == 0 || digits[0] != '+') by {
        assert(is_digit(digits[0]));
    }
}

proof fn lemma_last_index_after(a: Seq<char>, b: Seq<char>, c: char)
    requires
        last_index_of(b, c) is None,
        a.len() > 0,
        a.last() == c,
        c != ']',
    ensures
        last_index_of((a + b).push(']'), c) == Some(a.len() - 1),
    decreases b.len(),
{
    lemma_last_index_concat(a, b, c);
    assert((a + b).push(']').drop_last() == a + b);
}

proof fn lemma_last_index_concat(a: Seq<char>, b: Seq<char>, c: char)
    requires
        last_index_of(b, c) is None,
        a.len() > 0,
        a.last() == c,
    ensures
        last_index_of(a + b, c) == Some(a.len() - 1),
    decreases b.len(),
{
    if b.len() == 0 {
        assert(a + b == a);
    } else {
        assert((a + b).drop_last() == a + b.drop_last());
        assert((a + b).last() == b.last());
        lemma_last_index_concat(a, b.drop_last(), c);
    }
}

} // verus!

verus! {

/// The built-in generator that reads a handwritten input file.
pub open spec fn file_generator() -> Seq<char> {
    ":file"@
}

/// The name of the built-in generator that reads a handwritten input file.
pub fn file_generator_name() -> (s: &'static str)
    ensures
        s@ == file_generator(),
{
    ":file"
}

/// The first of two optional errors.
pub open spec fn first_error(a: Option<Seq<char>>, b: Option<Seq<char>>) -> Option<Seq<char>> {
    if a is Some {
        a
    } else {
        b
    }
}

/// A program of the package has the name.
pub open spec fn has_program(p: Problem, name: Seq<char>) -> bool {
    exists|i: int| 0 <= i < p.programs@.len() && (#[trigger] p.programs@[i]).name@ == name
}

/// The error for a role naming a program the package does not define.
pub open spec fn program_ref_error(p: Problem, name: Seq<char>, role: Seq<char>) -> Option<Seq<char>> {
    if has_program(p, name) {
        None
    } else {
        Some(role + " `"@ + name + "` is not defined in programs"@)
    }
}

/// The error for a role naming a generator: the file generator is always
/// there, other names starting with `:` are unknown built-ins, and the rest
/// must be programs.
pub open spec fn generator_ref_error(p: Problem, name: Seq<char>, role: Seq<char>) -> Option<Seq<char>> {
    if name == file_generator() {
        None
    } else if name.len() > 0 && name[0] == ':' {
        Some(role + " `"@ + name + "` is an unknown built-in generator"@)
    } else {
        program_ref_error(p, name, role)
    }
}

/// The role of the generator of one case of a bundle.
pub open spec fn case_role(bundle: Seq<char>, index: nat) -> Seq<char> {
    "generator for "@ + bundle + "["@ + decimal(index) + "]"@
}

/// The first case, from `i` on, whose generator is not defined.
pub open spec fn cases_error_from(p: Problem, b: NamedBundle, i: int) -> Option<Seq<char>>
    decreases b.bundle.cases@.len() - i,
{
    if i < 0 || i >= b.bundle.cases@.len() {
        None
    } else {
        first_error(
            generator_ref_error(p, b.bundle.cases@[i].generator_name@, case_role(b.name@, i as nat)),
            cases_error_from(p, b, i + 1),
        )
    }
}

/// The first bundle, from `k` on, with a case whose generator is not
/// defined.
pub open spec fn bundles_error_from(p: Problem, k: int) -> Option<Seq<char>>
    decreases p.test.bundles@.len() - k,
{
    if k < 0 || k >= p.test.bundles@.len() {
        None
    } else {
        first_error(cases_error_from(p, p.test.bundles@[k], 0), bundles_error_from(p, k + 1))
    }
}

/// The role of the generator of a stress plan.
pub open spec fn plan_role(plan: Seq<char>) -> Seq<char> {
    "generator for stress plan `"@ + plan + "`"@
}

/// The error of one stress plan's generator: it cannot read a file, and it
/// must be defined.
pub open spec fn plan_error(p: Problem, plan: StressPlan) -> Option<Seq<char>> {
    if plan.generator@ == file_generator() {
        Some("generator for stress plan `"@ + plan.name@ + "` cannot use `:file`"@)
    } else {
        generator_ref_error(p, plan.generator@, plan_role(plan.name@))
    }
}

/// The first stress plan, from `k` on, with a bad generator.
pub open spec fn plans_error_from(p: Problem, k: int) -> Option<Seq<char>>
    decreases p.stress.plans@.len() - k,
{
    if k < 0 || k >= p.stress.plans@.len() {
        None
    } else {
        first_error(plan_error(p, p.stress.plans@[k]), plans_error_from(p, k + 1))
    }
}

/// A bundle of the package has the name.
pub open spec fn has_bundle(p: Problem, name: Seq<char>) -> bool {
    exists|i: int| 0 <= i < p.test.bundles@.len() && (#[trigger] p.test.bundles@[i]).name@ == name
}

/// A task of the package has the name.
pub open spec fn has_task(p: Problem, name: Seq<char>) -> bool {
    exists|i: int| 0 <= i < p.test.tasks@.len() && (#[trigger] p.test.tasks@[i]).name@ == name
}

/// The first bundle of a task, from `i` on, that the package lacks.
pub open spec fn task_bundles_error_from(p: Problem, t: TestTask, i: int) -> Option<Seq<char>>
    decreases t.bundles@.len() - i,
{
    if i < 0 || i >= t.bundles@.len() {
        None
    } else if !has_bundle(p, t.bundles@[i]@) {
        Some("task `"@ + t.name@ + "` references missing bundle `"@ + t.bundles@[i]@ + "`"@)
    } else {
        task_bundles_error_from(p, t, i + 1)
    }
}

/// The first dependency of a task, from `i` on, that is no task.
pub open spec fn task_deps_error_from(p: Problem, t: TestTask, i: int) -> Option<Seq<char>>
    decreases t.dependencies@.len() - i,
{
    if i < 0 || i >= t.dependencies@.len() {
        None
    } else if !has_task(p, t.dependencies@[i]@) {
        Some("task `"@ + t.name@ + "` references missing dependency `"@ + t.dependencies@[i]@ + "`"@)
    } else {
        task_deps_error_from(p, t, i + 1)
    }
}

/// The first task, from `k` on, with a bad score, a missing bundle or a
/// missing dependency; `score_ok` says which scores are non-negative and
/// finite.
pub open spec fn tasks_error_from(p: Problem, score_ok: Seq<bool>, k: int) -> Option<Seq<char>>
    decreases p.test.tasks@.len() - k,
{
    if k < 0 || k >= p.test.tasks@.len() {
        None
    } else {
        let t = p.test.tasks@[k];
        if !score_ok[k] {
            Some("task `"@ + t.name@ + "` score must be a non-negative finite number"@)
        } else {
            first_error(
                task_bundles_error_from(p, t, 0),
                first_error(task_deps_error_from(p, t, 0), tasks_error_from(p, score_ok, k + 1)),
            )
        }
    }
}

/// The first structural error of a package, in the order the checks run:
/// programs present, the programs of the roles, the generators of cases
/// and stress plans, then tasks.
pub open spec fn validation_error(p: Problem, score_ok: Seq<bool>) -> Option<Seq<char>> {
    if p.programs@.len() == 0 {
        Some("programs cannot be empty"@)
    } else {
        first_error(
            program_ref_error(p, p.solution_name@, "solution"@),
            first_error(
                match p.validator_name {
                    Some(v) => program_ref_error(p, v@, "validator"@),
                    None => None,
                },
                first_error(
                    match p.checker_name {
                        Some(c) => program_ref_error(p, c@, "checker"@),
                        None => None,
                    },
                    first_error(
                        match p.generator_name {
                            Some(g) => generator_ref_error(p, g@, "generator"@),
                            None => None,
                        },
                        first_error(
                            bundles_error_from(p, 0),
                            first_error(plans_error_from(p, 0), tasks_error_from(p, score_ok, 0)),
                        ),
                    ),
                ),
            ),
        )
    }
}

/// Whether the package defines a program with the name.
pub fn program_exists(problem: &Problem, name: &String) -> (b: bool)
    ensures
        b == has_program(*problem, name@),
{
    let mut i: usize = 0;
    while i < problem.programs.len()
        invariant
            i <= problem.programs@.len(),
            forall|j: int| 0 <= j < i ==> (#[trigger] problem.programs@[j]).name@ != name@,
        decreases problem.programs@.len() - i,
    {
        if problem.programs[i].name == *name {
            return true;
        }
        i = i + 1;
    }
    false
}

/// Checks that a role names a program of the package.
pub fn ensure_program_exists(problem: &Problem, name: &String, role: &String) -> (r: Result<(), String>)
    ensures
        match r {
            Ok(()) => program_ref_error(*problem, name@, role@) is None,
            Err(e) => program_ref_error(*problem, name@, role@) == Some(e@),
        },
{
    if program_exists(problem, name) {
        Ok(())
    } else {
        proof {
            reveal_strlit(" `");
            reveal_strlit("` is not defined in programs");
        }
        let mut s = role.clone();
        s.append(" `");
        s.append(name.as_str());
        s.append("` is not defined in programs");
        Err(s)
    }
}

/// Checks that a role names a generator: the file generator, or a program.
pub fn ensure_generator_exists(problem: &Problem, name: &String, role: &String) -> (r: Result<(), String>)
    ensures
        match r {
            Ok(()) => generator_ref_error(*problem, name@, role@) is None,
            Err(e) => generator_ref_error(*problem, name@, role@) == Some(e@),
        },
{
    proof {
        reveal_strlit(":file");
        reveal_strlit(" `");
        reveal_strlit("` is an unknown built-in generator");
    }
    if *name == String::from_str(":file") {
        return Ok(());
    }
    let chars = chars_of(name.as_str());
    if chars.len() > 0 && chars[0] == ':' {
        let mut s = role.clone();
        s.append(" `");
        s.append(name.as_str());
        s.append("` is an unknown built-in generator");
        return Err(s);
    }
    ensure_program_exists(problem, name, role)
}

fn case_generator_role(bundle: &String, index: usize) -> (s: String)
    ensures
        s@ == case_role(bundle@, index as nat),
{
    proof {
        reveal_strlit("generator for ");
        reveal_strlit("[");
        reveal_strlit("]");
    }
    let mut s = String::from_str("generator for ");
    s.append(bundle.as_str());
    s.append("[");
    s.append(usize_to_decimal(index).as_str());
    s.append("]");
    s
}

fn check_bundle_generators(problem: &Problem) -> (r: Result<(), String>)
    ensures
        match r {
            Ok(()) => bundles_error_from(*problem, 0) is None,
            Err(e) => bundles_error_from(*problem, 0) == Some(e@),
        },
{
    let mut k: usize = 0;
    while k < problem.test.bundles.len()
        invariant
            k <= problem.test.bundles@.len(),
            bundles_error_from(*problem, 0) == bundles_error_from(*problem, k as int),
        decreases problem.test.bundles@.len() - k,
    {
        let b = &problem.test.bundles[k];
        let mut i: usize = 0;
        while i < b.bundle.cases.len()
            invariant
                k < problem.test.bundles@.len(),
                *b == problem.test.bundles@[k as int],
                bundles_error_from(*problem, 0) == bundles_error_from(*problem, k as int),
                i <= b.bundle.cases@.len(),
                cases_error_from(*problem, *b, 0) == cases_error_from(*problem, *b, i as int),
            decreases b.bundle.cases@.len() - i,
        {
            let role = case_generator_role(&b.name, i);
            match ensure_generator_exists(problem, &b.bundle.cases[i].generator_name, &role) {
                Ok(()) => {},
                Err(e) => {
                    return Err(e);
                },
            }
            i = i + 1;
        }
        k = k + 1;
    }
    Ok(())
}

fn check_plan_generators(problem: &Problem) -> (r: Result<(), String>)
    ensures
        match r {
            Ok(()) => plans_error_from(*problem, 0) is None,
            Err(e) => plans_error_from(*problem, 0) == Some(e@),
        },
{
    proof {
        reveal_strlit(":file");
        reveal_strlit("generator for stress plan `");
        reveal_strlit("` cannot use `:file`");
        reveal_strlit("`");
    }
    let mut k: usize = 0;
    while k < problem.stress.plans.len()
        invariant
            k <= problem.stress.plans@.len(),
            plans_error_from(*problem, 0) == plans_error_from(*problem, k as int),
        decreases problem.stress.plans@.len() - k,
    {
        let plan = &problem.stress.plans[k];
        if plan.generator == String::from_str(":file") {
            let mut s = String::from_str("generator for stress plan `");
            s.append(plan.name.as_str());
            s.append("` cannot use `:file`");
            return Err(s);
        }
        let mut role = String::from_str("generator for stress plan `");
        role.append(plan.name.as_str());
        role.append("`");
        match ensure_generator_exists(problem, &plan.generator, &role) {
            Ok(()) => {},
            Err(e) => {
                return Err(e);
            },
        }
        k = k + 1;
    }
    Ok(())
}

pub fn bundle_exists(problem: &Problem, name: &String) -> (b: bool)
    ensures
        b == has_bundle(*problem, name@),
{
    let mut i: usize = 0;
    while i < problem.test.bundles.len()
        invariant
            i <= problem.test.bundles@.len(),
            forall|j: int| 0 <= j < i ==> (#[trigger] problem.test.bundles@[j]).name@ != name@,
        decreases problem.test.bundles@.len() - i,
    {
        if problem.test.bundles[i].name == *name {
            return true;
        }
        i = i + 1;
    }
    false
}

fn task_exists(problem: &Problem, name: &String) -> (b: bool)
    ensures
        b == has_task(*problem, name@),
{
    let mut i: usize = 0;
    while i < problem.test.tasks.len()
        invariant
            i <= problem.test.tasks@.len(),
            forall|j: int| 0 <= j < i ==> (#[trigger] problem.test.tasks@[j]).name@ != name@,
        decreases problem.test.tasks@.len() - i,
    {
        if problem.test.tasks[i].name == *name {
            return true;
        }
        i = i + 1;
    }
    false
}

fn check_task(problem: &Problem, t: &TestTask) -> (r: Result<(), String>)
    ensures
        match r {
            Ok(()) => first_error(task_bundles_error_from(*problem, *t, 0), task_deps_error_from(
                *problem,
                *t,
                0,
            )) is None,
            Err(e) => first_error(
                task_bundles_error_from(*problem, *t, 0),
                task_deps_error_from(*problem, *t, 0),
            ) == Some(e@),
        },
{
    proof {
        reveal_strlit("task `");
        reveal_strlit("` references missing bundle `");
        reveal_strlit("` references missing dependency `");
        reveal_strlit("`");
    }
    let mut i: usize = 0;
    while i < t.bundles.len()
        invariant
            i <= t.bundles@.len(),
            task_bundles_error_from(*problem, *t, 0) == task_bundles_error_from(*problem, *t, i as int),
        decreases t.bundles@.len() - i,
    {
        if !bundle_exists(problem, &t.bundles[i]) {
            let mut s = String::from_str("task `");
            s.append(t.name.as_str());
            s.append("` references missing bundle `");
            s.append(t.bundles[i].as_str());
            s.append("`");
            return Err(s);
        }
        i = i + 1;
    }
    let mut j: usize = 0;
    while j < t.dependencies.len()
        invariant
            j <= t.dependencies@.len(),
            task_bundles_error_from(*problem, *t, 0) is None,
            task_deps_error_from(*problem, *t, 0) == task_deps_error_from(*problem, *t, j as int),
        decreases t.dependencies@.len() - j,
    {
        if !task_exists(problem, &t.dependencies[j]) {
            let mut s = String::from_str("task `");
            s.append(t.name.as_str());
            s.append("` references missing dependency `");
            s.append(t.dependencies[j].as_str());
            s.append("`");
            return Err(s);
        }
        j = j + 1;
    }
    Ok(())
}

fn check_tasks(problem: &Problem, score_ok: &[bool]) -> (r: Result<(), String>)
    requires
        score_ok@.len() == problem.test.tasks@.len(),
    ensures
        match r {
            Ok(()) => tasks_error_from(*problem, score_ok@, 0) is None,
            Err(e) => tasks_error_from(*problem, score_ok@, 0) == Some(e@),
        },
{
    proof {
        reveal_strlit("task `");
        reveal_strlit("` score must be a non-negative finite number");
    }
    let mut k: usize = 0;
    while k < problem.test.tasks.len()
        invariant
            score_ok@.len() == problem.test.tasks@.len(),
            k <= problem.test.tasks@.len(),
            tasks_error_from(*problem, score_ok@, 0) == tasks_error_from(*problem, score_ok@, k as int),
        decreases problem.test.tasks@.len() - k,
    {
        let t = &problem.test.tasks[k];
        if !score_ok[k] {
            let mut s = String::from_str("task `");
            s.append(t.name.as_str());
            s.append("` score must be a non-negative finite number");
            return Err(s);
        }
        match check_task(problem, t) {
            Ok(()) => {},
            Err(e) => {
                return Err(e);
            },
        }
        k = k + 1;
    }
    Ok(())
}

/// Checks the references of a package: at least one program, the roles,
/// every generator of a case or stress plan, and every task's score,
/// bundles and dependencies; the first failed check is the error.
/// `score_ok` says, per task, whether its score is non-negative and
/// finite.
pub fn validate_problem(problem: &Problem, score_ok: &[bool]) -> (r: Result<(), String>)
    requires
        score_ok@.len() == problem.test.tasks@.len(),
    ensures
        match r {
            Ok(()) => validation_error(*problem, score_ok@) is None,
            Err(e) => validation_error(*problem, score_ok@) == Some(e@),
        },
{
    proof {
        reveal_strlit("programs cannot be empty");
        reveal_strlit("solution");
        reveal_strlit("validator");
        reveal_strlit("checker");
        reveal_strlit("generator");
    }
    if problem.programs.len() == 0 {
        return Err(String::from_str("programs cannot be empty"));
    }
    ensure_program_exists(problem, &problem.solution_name, &String::from_str("solution"))?;
    match &problem.validator_name {
        Some(name) => ensure_program_exists(problem, name, &String::from_str("validator"))?,
        None => {},
    }
    match &problem.checker_name {
        Some(name) => ensure_program_exists(problem, name, &String::from_str("checker"))?,
        None => {},
    }
    match &problem.generator_name {
        Some(name) => ensure_generator_exists(problem, name, &String::from_str("generator"))?,
        None => {},
    }
    check_bundle_generators(problem)?;
    check_plan_generators(problem)?;
    check_tasks(problem, score_ok)
}

} // verus!

verus! {

/// `a` comes before `b` in the order of `str` (character by character,
/// a proper prefix first).
pub open spec fn text_less(a: Seq<char>, b: Seq<char>) -> bool
    decreases a.len(),
{
    if a.len() == 0 {
        b.len() > 0
    } else if b.len() == 0 {
        false
    } else if a[0] != b[0] {
        a[0] < b[0]
    } else {
        text_less(a.drop_first(), b.drop_first())
    }
}

/// Whether `a` comes before `b` in the order of `str`.
pub fn chars_less(a: &[char], b: &[char]) -> (r: bool)
    ensures
        r == text_less(a@, b@),
{
    let mut i: usize = 0;
    assert(a@.skip(0) == a@);
    assert(b@.skip(0) == b@);
    while i < a.len() && i < b.len() && a[i] == b[i]
        invariant
            i <= a@.len(),
            i <= b@.len(),
            text_less(a@, b@) == text_less(a@.skip(i as int), b@.skip(i as int)),
        decreases a@.len() - i,
    {
        assert(a@.skip(i as int).drop_first() == a@.skip(i + 1));
        assert(b@.skip(i as int).drop_first() == b@.skip(i + 1));
        i = i + 1;
    }
    assert(a@.skip(i as int).len() == a@.len() - i);
    if i == a.len() {
        i < b.len()
    } else if i == b.len() {
        false
    } else {
        assert(a@.skip(i as int)[0] == a@[i as int]);
        assert(b@.skip(i as int)[0] == b@[i as int]);
        a[i] < b[i]
    }
}

/// The index of the bundle whose name comes first.
pub open spec fn is_least_bundle(bundles: Seq<NamedBundle>, k: int) -> bool {
    0 <= k < bundles.len() && forall|j: int|
        0 <= j < bundles.len() ==> !text_less(#[trigger] bundles[j].name@, bundles[k].name@)
}

pub proof fn lemma_text_less_irreflexive(a: Seq<char>)
    ensures
        !text_less(a, a),
    decreases a.len(),
{
    if a.len() > 0 {
        lemma_text_less_irreflexive(a.drop_first());
    }
}

pub proof fn lemma_text_less_total(a: Seq<char>, b: Seq<char>)
    ensures
        a == b || text_less(a, b) || text_less(b, a),
    decreases a.len(),
{
    if a.len() > 0 && b.len() > 0 && a[0] == b[0] {
        lemma_text_less_total(a.drop_first(), b.drop_first());
        if a.drop_first() == b.drop_first() {
            assert(a == seq![a[0]] + a.drop_first());
            assert(b == seq![b[0]] + b.drop_first());
        }
    } else if a.len() > 0 && b.len() > 0 {
        assert(a[0] < b[0] || b[0] < a[0]);
    } else if a.len() == 0 && b.len() == 0 {
        assert(a == b);
    }
}

pub proof fn lemma_text_less_trans(a: Seq<char>, b: Seq<char>, c: Seq<char>)
    requires
        text_less(a, b),
        text_less(b, c),
    ensures
        text_less(a, c),
    decreases a.len(),
{
    if a.len() > 0 && b.len() > 0 && c.len() > 0 && a[0] == b[0] && b[0] == c[0] {
        lemma_text_less_trans(a.drop_first(), b.drop_first(), c.drop_first());
    }
}

/// The case the `run` command uses when no selector is given: the first
/// case of the first bundle of the first task, else the first case of the
/// bundle whose name comes first.
pub fn default_selector(problem: &Problem) -> (r: Result<CaseSelector, String>)
    ensures
        match r {
            Ok(sel) => sel.index == 0 && if problem.test.tasks@.len() > 0
                && problem.test.tasks@[0].bundles@.len() > 0 {
                sel.bundle@ == problem.test.tasks@[0].bundles@[0]@
            } else {
                exists|k: int| is_least_bundle(problem.test.bundles@, k) && sel.bundle@
                    == problem.test.bundles@[k].name@
            },
            Err(e) => !(problem.test.tasks@.len() > 0 && problem.test.tasks@[0].bundles@.len() > 0)
                && problem.test.bundles@.len() == 0 && e@ == "problem.yaml has no test bundles"@,
        },
{
    if problem.test.tasks.len() > 0 && problem.test.tasks[0].bundles.len() > 0 {
        return Ok(CaseSelector { bundle: problem.test.tasks[0].bundles[0].clone(), index: 0 });
    }
    let bundles = &problem.test.bundles;
    if bundles.len() == 0 {
        proof {
            reveal_strlit("problem.yaml has no test bundles");
        }
        return Err(String::from_str("problem.yaml has no test bundles"));
    }
    let mut best: usize = 0;
    let mut best_chars = chars_of(bundles[0].name.as_str());
    proof {
        lemma_text_less_irreflexive(bundles@[0].name@);
    }
    let mut i: usize = 1;
    while i < bundles.len()
        invariant
            1 <= i <= bundles@.len(),
            best < i,
            best_chars@ == bundles@[best as int].name@,
            forall|j: int| 0 <= j < i ==> !text_less(#[trigger] bundles@[j].name@, bundles@[best as int].name@),
        decreases bundles@.len() - i,
    {
        let candidate = chars_of(bundles[i].name.as_str());
        if chars_less(candidate.as_slice(), best_chars.as_slice()) {
            proof {
                let old_best = bundles@[best as int].name@;
                let new_best = bundles@[i as int].name@;
                assert forall|j: int| 0 <= j < i + 1 implies !text_less(
                    #[trigger] bundles@[j].name@,
                    new_best,
                ) by {
                    if j == i {
                        lemma_text_less_irreflexive(new_best);
                    } else if text_less(bundles@[j].name@, new_best) {
                        lemma_text_less_trans(bundles@[j].name@, new_best, old_best);
                    }
                }
            }
            best = i;
            best_chars = candidate;
        } else {
            proof {
                assert(!text_less(bundles@[i as int].name@, bundles@[best as int].name@));
            }
        }
        i = i + 1;
    }
    assert(is_least_bundle(bundles@, best as int));
    let sel = CaseSelector { bundle: bundles[best].name.clone(), index: 0 };
    assert(sel.bundle@ == bundles@[best as int].name@);
    Ok(sel)
}

/// The bundle that holds the samples: `sample`, else `samples`.
pub open spec fn sample_bundle_name(p: Problem) -> Option<Seq<char>> {
    if has_bundle(p, "sample"@) {
        Some("sample"@)
    } else if has_bundle(p, "samples"@) {
        Some("samples"@)
    } else {
        None
    }
}

/// The name of the bundle that holds the samples, if there is one.
pub fn find_sample_bundle(problem: &Problem) -> (r: Option<&'static str>)
    ensures
        match r {
            Some(n) => sample_bundle_name(*problem) == Some(n@),
            None => sample_bundle_name(*problem) is None,
        },
{
    proof {
        reveal_strlit("sample");
        reveal_strlit("samples");
    }
    if bundle_exists(problem, &String::from_str("sample")) {
        Some("sample")
    } else if bundle_exists(problem, &String::from_str("samples")) {
        Some("samples")
    } else {
        None
    }
}

} // verus!
