//! Generator arguments of a batch: an argument written as a range
//! (`lo..hi` or `{lo:hi}`) stands for every integer from `lo` to `hi`, and
//! the batch runs the generator once for each combination of values.

use vstd::prelude::*;
use crate::text::{
    clone_strings, contains, i64_to_decimal, i64_value, pair_view, parse_i64, replace_all,
    replaced, signed_decimal, split_once, split_once_chars, string_views, chars_of,
    string_from_chars, usize_to_decimal, decimal,
};

verus! {

/// What is wrong with a range argument.
#[derive(Clone, Copy, Debug, PartialEq, Eq, Structural)]
pub enum RangeIssue {
    InvalidStart,
    InvalidEnd,
    Reversed,
}

/// A range argument that cannot be expanded, with the argument as written.
#[derive(Clone, Debug)]
pub struct RangeArgError {
    pub issue: RangeIssue,
    pub arg: String,
}

/// The message printed for a range argument that cannot be expanded.
pub open spec fn range_error_text(issue: RangeIssue, arg: Seq<char>) -> Seq<char> {
    match issue {
        RangeIssue::InvalidStart => "invalid range start in generator arg `"@ + arg + "`"@,
        RangeIssue::InvalidEnd => "invalid range end in generator arg `"@ + arg + "`"@,
        RangeIssue::Reversed => "range generator arg `"@ + arg + "` has start greater than end"@,
    }
}

impl RangeArgError {
    /// The message printed for this error.
    pub fn message(&self) -> (s: String)
        ensures
            s@ == range_error_text(self.issue, self.arg@),
    {
        proof {
            reveal_strlit("invalid range start in generator arg `");
            reveal_strlit("invalid range end in generator arg `");
            reveal_strlit("range generator arg `");
            reveal_strlit("`");
            reveal_strlit("` has start greater than end");
        }
        let mut s = match self.issue {
            RangeIssue::InvalidStart => String::from_str("invalid range start in generator arg `"),
            RangeIssue::InvalidEnd => String::from_str("invalid range end in generator arg `"),
            RangeIssue::Reversed => String::from_str("range generator arg `"),
        };
        s.append(self.arg.as_str());
        match self.issue {
            RangeIssue::Reversed => s.append("` has start greater than end"),
            _ => s.append("`"),
        }
        s
    }
}

/// The two ends of `lo..hi`: both present, and no second `..` after the first.
pub open spec fn dot_range_parts(arg: Seq<char>) -> Option<(Seq<char>, Seq<char>)> {
    match split_once(arg, ".."@) {
        Some((lo, hi)) => if lo.len() == 0 || hi.len() == 0 || contains(hi, ".."@) {
            None
        } else {
            Some((lo, hi))
        },
        None => None,
    }
}

/// The two ends of `{lo:hi}`, with a single `:` between them.
pub open spec fn brace_range_parts(arg: Seq<char>) -> Option<(Seq<char>, Seq<char>)> {
    if arg.len() >= 2 && arg[0] == '{' && arg.last() == '}' {
        match split_once(arg.subrange(1, arg.len() - 1), ":"@) {
            Some((lo, hi)) => if contains(hi, ":"@) {
                None
            } else {
                Some((lo, hi))
            },
            None => None,
        }
    } else {
        None
    }
}

/// The ends of a range argument; `dot` says whether `lo..hi` is accepted
/// besides `{lo:hi}`.
pub open spec fn range_parts(arg: Seq<char>, dot: bool) -> Option<(Seq<char>, Seq<char>)> {
    if dot && dot_range_parts(arg) is Some {
        dot_range_parts(arg)
    } else {
        brace_range_parts(arg)
    }
}

/// Why a range argument cannot be expanded, if it cannot.
pub open spec fn range_issue(arg: Seq<char>, dot: bool) -> Option<RangeIssue> {
    match range_parts(arg, dot) {
        Some((lo, hi)) => if i64_value(lo) is None {
            Some(RangeIssue::InvalidStart)
        } else if i64_value(hi) is None {
            Some(RangeIssue::InvalidEnd)
        } else if i64_value(lo).unwrap() > i64_value(hi).unwrap() {
            Some(RangeIssue::Reversed)
        } else {
            None
        },
        None => None,
    }
}

/// The decimal renderings of `lo..=hi`, in increasing order.
pub open spec fn range_values(lo: int, hi: int) -> Seq<Seq<char>> {
    Seq::new((hi - lo + 1) as nat, |k: int| signed_decimal(lo + k))
}

/// The values an argument stands for: those of its range, or itself.
pub open spec fn arg_choice(arg: Seq<char>, dot: bool) -> Seq<Seq<char>> {
    match range_parts(arg, dot) {
        Some((lo, hi)) => if range_issue(arg, dot) is None {
            range_values(i64_value(lo).unwrap(), i64_value(hi).unwrap())
        } else {
            seq![arg]
        },
        None => seq![arg],
    }
}

/// Every row of `rows` extended by every value, rows in order and values in
/// order within each row.
pub open spec fn extend_rows(rows: Seq<Seq<Seq<char>>>, values: Seq<Seq<char>>) -> Seq<
    Seq<Seq<char>>,
>
    decreases rows.len(),
{
    if rows.len() == 0 {
        Seq::empty()
    } else {
        extend_rows(rows.drop_last(), values) + values.map_values(
            |v: Seq<char>| rows.last().push(v),
        )
    }
}

/// Every combination that takes one value from each choice, the last
/// choice varying fastest.
pub open spec fn product(choices: Seq<Seq<Seq<char>>>) -> Seq<Seq<Seq<char>>>
    decreases choices.len(),
{
    if choices.len() == 0 {
        seq![Seq::empty()]
    } else {
        extend_rows(product(choices.drop_last()), choices.last())
    }
}

/// The number of combinations: the product of the choices' sizes.
pub open spec fn combination_count(choices: Seq<Seq<Seq<char>>>) -> nat
    decreases choices.len(),
{
    if choices.len() == 0 {
        1
    } else {
        combination_count(choices.drop_last()) * choices.last().len()
    }
}

/// The contents of rows of strings.
pub open spec fn rows_view(rows: Seq<Vec<String>>) -> Seq<Seq<Seq<char>>> {
    rows.map_values(|r: Vec<String>| string_views(r@))
}

/// The choices of every argument.
pub open spec fn arg_choices(args: Seq<Seq<char>>, dot: bool) -> Seq<Seq<Seq<char>>> {
    args.map_values(|a: Seq<char>| arg_choice(a, dot))
}

/// What expanding `args` gives: every combination, or the first argument
/// that cannot be expanded.
pub open spec fn range_args_ok(args: Seq<Seq<char>>, dot: bool) -> bool {
    forall|k: int| 0 <= k < args.len() ==> range_issue(#[trigger] args[k], dot) is None
}

pub proof fn lemma_extend_rows_len(rows: Seq<Seq<Seq<char>>>, values: Seq<Seq<char>>)
    ensures
        extend_rows(rows, values).len() == rows.len() * values.len(),
    decreases rows.len(),
{
    if rows.len() > 0 {
        lemma_extend_rows_len(rows.drop_last(), values);
        assert((rows.len() - 1) * values.len() + values.len() == rows.len() * values.len())
            by (nonlinear_arith);
    }
}

pub proof fn lemma_extend_rows_member(
    rows: Seq<Seq<Seq<char>>>,
    values: Seq<Seq<char>>,
    n: int,
    k: int,
)
    requires
        forall|i: int| 0 <= i < rows.len() ==> (#[trigger] rows[i]).len() == n,
        0 <= k < extend_rows(rows, values).len(),
    ensures
        exists|i: int, j: int|
            0 <= i < rows.len() && 0 <= j < values.len() && extend_rows(rows, values)[k]
                == rows[i].push(values[j]),
    decreases rows.len(),
{
    let prev = extend_rows(rows.drop_last(), values);
    if k < prev.len() {
        lemma_extend_rows_member(rows.drop_last(), values, n, k);
        let (i, j) = choose|i: int, j: int|
            0 <= i < rows.drop_last().len() && 0 <= j < values.len() && prev[k]
                == rows.drop_last()[i].push(values[j]);
        assert(rows.drop_last()[i] == rows[i]);
    } else {
        let j = k - prev.len();
        assert(extend_rows(rows, values)[k] == rows[rows.len() - 1].push(values[j]));
    }
}

/// Law: there are as many combinations as the product of the sizes of
/// the choices.
pub proof fn lemma_product_len(choices: Seq<Seq<Seq<char>>>)
    ensures
        product(choices).len() == combination_count(choices),
    decreases choices.len(),
{
    if choices.len() > 0 {
        lemma_product_len(choices.drop_last());
        lemma_extend_rows_len(product(choices.drop_last()), choices.last());
    }
}

/// Law: every combination has one value per choice, and the value at each
/// position is one of that position's choices.
pub proof fn lemma_product_rows(choices: Seq<Seq<Seq<char>>>, k: int)
    requires
        0 <= k < product(choices).len(),
    ensures
        product(choices)[k].len() == choices.len(),
        forall|p: int| 0 <= p < choices.len() ==> choices[p].contains(#[trigger] product(choices)[k][p]),
    decreases choices.len(),
{
    if choices.len() > 0 {
        let init = choices.drop_last();
        let prev = product(init);
        assert forall|i: int| 0 <= i < prev.len() implies (#[trigger] prev[i]).len()
            == init.len() by {
            lemma_product_rows(init, i);
        }
        lemma_extend_rows_member(prev, choices.last(), init.len() as int, k);
        let (i, j) = choose|i: int, j: int|
            0 <= i < prev.len() && 0 <= j < choices.last().len() && product(choices)[k]
                == prev[i].push(choices.last()[j]);
        lemma_product_rows(init, i);
        assert forall|p: int| 0 <= p < choices.len() implies choices[p].contains(
            #[trigger] product(choices)[k][p],
        ) by {
            if p < init.len() {
                assert(init[p] == choices[p]);
                assert(init[p].contains(prev[i][p]));
            } else {
                assert(product(choices)[k][p] == choices.last()[j]);
            }
        }
    } else {
        assert(product(choices) == seq![Seq::<Seq<char>>::empty()]);
    }
}

/// The ends of `lo..hi`, when the argument has that form.
fn dot_parts(arg: &[char]) -> (r: Option<(Vec<char>, Vec<char>)>)
    ensures
        pair_view(r) == dot_range_parts(arg@),
{
    let dots = vec!['.', '.'];
    assert(dots@ == ".."@) by {
        reveal_strlit("..");
    }
    match split_once_chars(arg, dots.as_slice()) {
        Some((lo, hi)) => {
            if lo.len() == 0 || hi.len() == 0 || crate::text::has_substring(
                hi.as_slice(),
                dots.as_slice(),
            ) {
                None
            } else {
                Some((lo, hi))
            }
        },
        None => None,
    }
}

/// The ends of `{lo:hi}`, when the argument has that form.
fn brace_parts(arg: &[char]) -> (r: Option<(Vec<char>, Vec<char>)>)
    ensures
        pair_view(r) == brace_range_parts(arg@),
{
    let n = arg.len();
    if n >= 2 && arg[0] == '{' && arg[n - 1] == '}' {
        let inner = crate::text::copy_range(arg, 1, n - 1);
        let colon = vec![':'];
        assert(colon@ == ":"@) by {
            reveal_strlit(":");
        }
        match split_once_chars(inner.as_slice(), colon.as_slice()) {
            Some((lo, hi)) => {
                if crate::text::has_substring(hi.as_slice(), colon.as_slice()) {
                    None
                } else {
                    Some((lo, hi))
                }
            },
            None => None,
        }
    } else {
        None
    }
}

/// The ends of a range argument, in the forms that `dot` admits.
fn parts_of(arg: &[char], dot: bool) -> (r: Option<(Vec<char>, Vec<char>)>)
    ensures
        pair_view(r) == range_parts(arg@, dot),
{
    if dot {
        let d = dot_parts(arg);
        if d.is_some() {
            return d;
        }
    }
    brace_parts(arg)
}

/// The decimal renderings of `lo..=hi`.
fn range_strings(lo: i64, hi: i64) -> (v: Vec<String>)
    requires
        lo <= hi,
    ensures
        string_views(v@) == range_values(lo as int, hi as int),
{
    let mut v: Vec<String> = Vec::new();
    let mut x: i64 = lo;
    loop
        invariant_except_break
            string_views(v@) == Seq::new((x - lo) as nat, |k: int| signed_decimal(lo + k)),
        invariant
            lo <= x <= hi,
        ensures
            string_views(v@) == range_values(lo as int, hi as int),
        decreases hi - x,
    {
        let s = i64_to_decimal(x);
        let ghost before = string_views(v@);
        v.push(s);
        assert(string_views(v@) =~= Seq::new((x - lo + 1) as nat, |k: int| signed_decimal(lo + k)))
            by {
            assert(string_views(v@) =~= before.push(s@));
        }
        if x == hi {
            break;
        }
        x = x + 1;
    }
    v
}

/// The values a single argument stands for, or why it cannot be expanded.
pub fn expand_arg(arg: &String, dot: bool) -> (r: Result<Vec<String>, RangeArgError>)
    ensures
        match r {
            Ok(values) => range_issue(arg@, dot) is None && string_views(values@) == arg_choice(
                arg@,
                dot,
            ),
            Err(e) => range_issue(arg@, dot) == Some(e.issue) && e.arg@ == arg@,
        },
{
    let chars = chars_of(arg.as_str());
    match parts_of(chars.as_slice(), dot) {
        Some((lo, hi)) => {
            let start = match parse_i64(lo.as_slice()) {
                Some(v) => v,
                None => {
                    return Err(RangeArgError { issue: RangeIssue::InvalidStart, arg: arg.clone() });
                },
            };
            let end = match parse_i64(hi.as_slice()) {
                Some(v) => v,
                None => {
                    return Err(RangeArgError { issue: RangeIssue::InvalidEnd, arg: arg.clone() });
                },
            };
            if start > end {
                return Err(RangeArgError { issue: RangeIssue::Reversed, arg: arg.clone() });
            }
            Ok(range_strings(start, end))
        },
        None => {
            let v = vec![arg.clone()];
            assert(string_views(v@) =~= seq![arg@]);
            Ok(v)
        },
    }
}

/// Expands `args` into every combination of their values; `dot` says
/// whether `lo..hi` is a range besides `{lo:hi}`.
pub fn expand_ranges(args: &[String], dot: bool) -> (r: Result<Vec<Vec<String>>, RangeArgError>)
    ensures
        match r {
            Ok(rows) => range_args_ok(string_views(args@), dot) && rows_view(rows@) == product(
                arg_choices(string_views(args@), dot),
            ),
            Err(e) => exists|k: int|
                0 <= k < args@.len() && range_issue(#[trigger] args@[k]@, dot) == Some(e.issue)
                    && e.arg@ == args@[k]@ && forall|j: int|
                    0 <= j < k ==> range_issue(args@[j]@, dot) is None,
        },
{
    let ghost argv = string_views(args@);
    let ghost all = arg_choices(argv, dot);
    let mut choices: Vec<Vec<String>> = Vec::new();
    let mut i: usize = 0;
    while i < args.len()
        invariant
            argv == string_views(args@),
            all == arg_choices(argv, dot),
            i <= args@.len(),
            rows_view(choices@) == all.take(i as int),
            forall|j: int| 0 <= j < i ==> range_issue(args@[j]@, dot) is None,
        decreases args@.len() - i,
    {
        match expand_arg(&args[i], dot) {
            Ok(values) => {
                let ghost before = rows_view(choices@);
                choices.push(values);
                assert(rows_view(choices@) =~= before.push(all[i as int]));
                assert(all.take(i + 1) =~= all.take(i as int).push(all[i as int]));
            },
            Err(e) => {
                return Err(e);
            },
        }
        i = i + 1;
    }
    assert(all.take(i as int) =~= all);
    assert(range_args_ok(argv, dot)) by {
        assert forall|k: int| 0 <= k < argv.len() implies range_issue(#[trigger] argv[k], dot)
            is None by {
            assert(argv[k] == args@[k]@);
        }
    }
    let mut expanded: Vec<Vec<String>> = vec![Vec::new()];
    assert(rows_view(expanded@) =~= product(all.take(0))) by {
        assert(string_views(expanded@[0]@) =~= Seq::<Seq<char>>::empty());
    }
    let mut c: usize = 0;
    while c < choices.len()
        invariant
            c <= choices@.len(),
            rows_view(choices@) == all,
            rows_view(expanded@) == product(all.take(c as int)),
        decreases choices@.len() - c,
    {
        let values = &choices[c];
        let ghost vals = string_views(values@);
        let ghost rows = rows_view(expanded@);
        assert(vals == all[c as int]);
        let mut next: Vec<Vec<String>> = Vec::new();
        let mut p: usize = 0;
        while p < expanded.len()
            invariant
                p <= expanded@.len(),
                rows == rows_view(expanded@),
                vals == string_views(values@),
                rows_view(next@) == extend_rows(rows.take(p as int), vals),
            decreases expanded@.len() - p,
        {
            let mut q: usize = 0;
            while q < values.len()
                invariant
                    p < expanded@.len(),
                    q <= values@.len(),
                    rows == rows_view(expanded@),
                    vals == string_views(values@),
                    rows_view(next@) == extend_rows(rows.take(p as int), vals) + vals.take(
                        q as int,
                    ).map_values(|v: Seq<char>| rows[p as int].push(v)),
                decreases values@.len() - q,
            {
                let mut row = clone_strings(&expanded[p]);
                row.push(values[q].clone());
                assert(string_views(row@) =~= rows[p as int].push(vals[q as int]));
                let ghost before = rows_view(next@);
                next.push(row);
                assert(rows_view(next@) =~= before.push(rows[p as int].push(vals[q as int])));
                assert(vals.take(q + 1).map_values(|v: Seq<char>| rows[p as int].push(v))
                    =~= vals.take(q as int).map_values(|v: Seq<char>| rows[p as int].push(v)).push(
                    rows[p as int].push(vals[q as int]),
                ));
                q = q + 1;
            }
            assert(vals.take(q as int) =~= vals);
            assert(rows.take(p + 1).drop_last() =~= rows.take(p as int));
            assert(rows.take(p + 1).last() == rows[p as int]);
            p = p + 1;
        }
        assert(rows.take(p as int) =~= rows);
        assert(all.take(c + 1).drop_last() =~= all.take(c as int));
        assert(all.take(c + 1).last() == all[c as int]);
        expanded = next;
        c = c + 1;
    }
    assert(all.take(c as int) =~= all);
    Ok(expanded)
}

/// Expands batch generator arguments: `lo..hi` and `{lo:hi}` stand for
/// every integer between the ends, and every combination is one row.
pub fn range_args(args: &[String]) -> (r: Result<Vec<Vec<String>>, RangeArgError>)
    ensures
        match r {
            Ok(rows) => range_args_ok(string_views(args@), true) && rows_view(rows@) == product(
                arg_choices(string_views(args@), true),
            ),
            Err(e) => exists|k: int|
                0 <= k < args@.len() && range_issue(#[trigger] args@[k]@, true) == Some(e.issue)
                    && e.arg@ == args@[k]@ && forall|j: int|
                    0 <= j < k ==> range_issue(args@[j]@, true) is None,
        },
{
    expand_ranges(args, true)
}

/// `arg` with `{case0}` replaced by the zero-based case number and then
/// `{case}` by the one-based one.
pub open spec fn legacy_arg(arg: Seq<char>, case0: nat) -> Seq<char> {
    replace_all(replace_all(arg, "{case0}"@, decimal(case0)), "{case}"@, decimal(case0 + 1))
}

/// Substitutes the case placeholders of one argument.
pub fn legacy_expand_arg(arg: &String, case: usize, case0: usize) -> (s: String)
    requires
        case == case0 + 1,
    ensures
        s@ == legacy_arg(arg@, case0 as nat),
{
    let chars = chars_of(arg.as_str());
    let p0 = chars_of("{case0}");
    let p1 = chars_of("{case}");
    proof {
        reveal_strlit("{case0}");
        reveal_strlit("{case}");
    }
    let n0 = chars_of(usize_to_decimal(case0).as_str());
    let n1 = chars_of(usize_to_decimal(case).as_str());
    let once = replaced(chars.as_slice(), p0.as_slice(), n0.as_slice());
    let twice = replaced(once.as_slice(), p1.as_slice(), n1.as_slice());
    string_from_chars(twice.as_slice())
}

/// The arguments of each of `cases` cases, placeholders substituted.
pub fn legacy_stress_args_by_case(args: &[String], cases: usize) -> (rows: Vec<Vec<String>>)
    ensures
        rows@.len() == cases,
        forall|c: int| 0 <= c < cases ==> (#[trigger] rows@[c])@.len() == args@.len(),
        forall|c: int, k: int|
            0 <= c < cases && 0 <= k < args@.len() ==> (#[trigger] rows@[c]@[k])@ == legacy_arg(
                args@[k]@,
                c as nat,
            ),
{
    let mut rows: Vec<Vec<String>> = Vec::new();
    let mut c: usize = 0;
    while c < cases
        invariant
            c <= cases,
            rows@.len() == c,
            forall|d: int| 0 <= d < c ==> (#[trigger] rows@[d])@.len() == args@.len(),
            forall|d: int, k: int|
                0 <= d < c && 0 <= k < args@.len() ==> (#[trigger] rows@[d]@[k])@ == legacy_arg(
                    args@[k]@,
                    d as nat,
                ),
        decreases cases - c,
    {
        let mut row: Vec<String> = Vec::new();
        let mut k: usize = 0;
        while k < args.len()
            invariant
                c < cases,
                k <= args@.len(),
                row@.len() == k,
                forall|m: int| 0 <= m < k ==> (#[trigger] row@[m])@ == legacy_arg(args@[m]@, c as nat),
            decreases args@.len() - k,
        {
            row.push(legacy_expand_arg(&args[k], c + 1, c));
            k = k + 1;
        }
        let ghost before = rows@;
        rows.push(row);
        assert(forall|d: int| 0 <= d < c ==> rows@[d] == before[d]);
        assert(rows@[c as int] == row);
        c = c + 1;
    }
    rows
}

} // verus!
