//! Generator arguments of stress plans: each case of a plan runs the
//! generator on the plan's arguments as written, and `{lo:hi}` ranges expand
//! into one row per value.

use vstd::prelude::*;
use crate::batch_args::{
    arg_choices, expand_ranges, product, range_args_ok, range_issue, rows_view, RangeArgError,
};
use crate::schema::StressPlan;
use crate::text::string_views;

verus! {

/// `cases` rows, each a copy of `args`.
pub fn direct_stress_args_by_case(args: &[String], cases: usize) -> (rows: Vec<Vec<String>>)
    ensures
        rows@.len() == cases,
        forall|c: int| 0 <= c < cases ==> (#[trigger] rows@[c])@ == args@,
{
    let mut rows: Vec<Vec<String>> = Vec::new();
    let mut c: usize = 0;
    while c < cases
        invariant
            c <= cases,
            rows@.len() == c,
            forall|d: int| 0 <= d < c ==> (#[trigger] rows@[d])@ == args@,
        decreases cases - c,
    {
        let mut row: Vec<String> = Vec::new();
        let mut k: usize = 0;
        while k < args.len()
            invariant
                k <= args@.len(),
                row@ == args@.subrange(0, k as int),
            decreases args@.len() - k,
        {
            row.push(args[k].clone());
            assert(args@.subrange(0, k + 1) == args@.subrange(0, k as int).push(args@[k as int]));
            k = k + 1;
        }
        assert(args@.subrange(0, args@.len() as int) == args@);
        rows.push(row);
        c = c + 1;
    }
    rows
}

/// The arguments of each case of a plan: its arguments as written, once
/// per case.
pub fn plan_args_by_case(plan: &StressPlan) -> (rows: Vec<Vec<String>>)
    ensures
        rows@.len() == plan.cases,
        forall|c: int| 0 <= c < plan.cases ==> (#[trigger] rows@[c])@ == plan.args@,
{
    expand_args_by_case(plan.args.as_slice(), plan.cases)
}

/// The arguments of each of `cases` cases.
fn expand_args_by_case(args: &[String], cases: usize) -> (rows: Vec<Vec<String>>)
    ensures
        rows@.len() == cases,
        forall|c: int| 0 <= c < cases ==> (#[trigger] rows@[c])@ == args@,
{
    let mut rows: Vec<Vec<String>> = Vec::new();
    let mut c: usize = 0;
    while c < cases
        invariant
            c <= cases,
            rows@.len() == c,
            forall|d: int| 0 <= d < c ==> (#[trigger] rows@[d])@ == args@,
        decreases cases - c,
    {
        let mut row: Vec<String> = Vec::new();
        let mut k: usize = 0;
        while k < args.len()
            invariant
                c < cases,
                k <= args@.len(),
                row@ == args@.subrange(0, k as int),
            decreases args@.len() - k,
        {
            row.push(expand_arg(&args[k], c + 1, c));
            assert(args@.subrange(0, k + 1) == args@.subrange(0, k as int).push(args@[k as int]));
            k = k + 1;
        }
        assert(args@.subrange(0, args@.len() as int) == args@);
        rows.push(row);
        c = c + 1;
    }
    rows
}

/// One argument of one case: the argument as written.
fn expand_arg(arg: &String, case: usize, case0: usize) -> (s: String)
    ensures
        s == *arg,
{
    arg.clone()
}

/// Expands stress generator arguments: `{lo:hi}` stands for every integer
/// between the ends, and every combination is one row.
pub fn range_args(args: &[String]) -> (r: Result<Vec<Vec<String>>, RangeArgError>)
    ensures
        match r {
            Ok(rows) => range_args_ok(string_views(args@), false) && rows_view(rows@) == product(
                arg_choices(string_views(args@), false),
            ),
            Err(e) => exists|k: int|
                0 <= k < args@.len() && range_issue(#[trigger] args@[k]@, false) == Some(e.issue)
                    && e.arg@ == args@[k]@ && forall|j: int|
                    0 <= j < k ==> range_issue(args@[j]@, false) is None,
        },
{
    expand_ranges(args, false)
}

} // verus!
