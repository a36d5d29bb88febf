//! Which stress plans and expect tasks a run selects: all of them, one by
//! name, and only those whose expectation matches a filter.

use vstd::prelude::*;
use crate::schema::{StressPlan, StressPlanExpectation, TestTask};
use crate::time::Duration;

verus! {

/// Which expectations a stress run keeps.
#[derive(Clone, Copy, Debug, PartialEq, Eq, Structural)]
pub enum StressPlanFilter {
    All,
    PositiveOnly,
    NegativeOnly,
}

/// Options of a stress-plan run.
#[derive(Clone, Debug)]
pub struct StressPlanOptions {
    pub work_dir: String,
    pub name: Option<String>,
    pub failure_dir: Option<String>,
    pub output_limit_bytes: usize,
    pub summary_only: bool,
    pub filter: StressPlanFilter,
    pub generation_lock_timeout: Option<Duration>,
}

/// The filter chosen by the command-line switches; positive wins when both
/// are given.
pub fn stress_plan_filter(positive_only: bool, negative_only: bool) -> (f: StressPlanFilter)
    ensures
        f == (if positive_only {
            StressPlanFilter::PositiveOnly
        } else if negative_only {
            StressPlanFilter::NegativeOnly
        } else {
            StressPlanFilter::All
        }),
{
    if positive_only {
        StressPlanFilter::PositiveOnly
    } else if negative_only {
        StressPlanFilter::NegativeOnly
    } else {
        StressPlanFilter::All
    }
}

/// A plan is kept by a filter.
pub open spec fn plan_matches(plan: StressPlan, filter: StressPlanFilter) -> bool {
    match filter {
        StressPlanFilter::All => true,
        StressPlanFilter::PositiveOnly => plan.expect == StressPlanExpectation::Pass,
        StressPlanFilter::NegativeOnly => plan.expect == StressPlanExpectation::Fail,
    }
}

/// Whether a filter keeps a plan.
pub fn plan_matches_filter(plan: &StressPlan, filter: StressPlanFilter) -> (b: bool)
    ensures
        b == plan_matches(*plan, filter),
{
    match filter {
        StressPlanFilter::All => true,
        StressPlanFilter::PositiveOnly => plan.expect == StressPlanExpectation::Pass,
        StressPlanFilter::NegativeOnly => plan.expect == StressPlanExpectation::Fail,
    }
}

/// Why no plans could be selected.
#[derive(Clone, Debug)]
pub enum PlanSelectError {
    NoPlans,
    NotFound(String),
    FilterMismatch(String),
    NoneMatched,
}

impl PlanSelectError {
    /// The message printed for this error.
    pub fn message(&self) -> (s: String)
        ensures
            s@ == match self {
                PlanSelectError::NoPlans => "problem.yaml has no stress.plans"@,
                PlanSelectError::NotFound(n) => "stress plan `"@ + n@ + "` not found"@,
                PlanSelectError::FilterMismatch(n) => "stress plan `"@ + n@
                    + "` does not match selected expectation filter"@,
                PlanSelectError::NoneMatched => "no stress.plans matched selected expectation filter"@,
            },
    {
        proof {
            reveal_strlit("problem.yaml has no stress.plans");
            reveal_strlit("stress plan `");
            reveal_strlit("` not found");
            reveal_strlit("` does not match selected expectation filter");
            reveal_strlit("no stress.plans matched selected expectation filter");
        }
        match self {
            PlanSelectError::NoPlans => String::from_str("problem.yaml has no stress.plans"),
            PlanSelectError::NotFound(n) => {
                let mut s = String::from_str("stress plan `");
                s.append(n.as_str());
                s.append("` not found");
                s
            },
            PlanSelectError::FilterMismatch(n) => {
                let mut s = String::from_str("stress plan `");
                s.append(n.as_str());
                s.append("` does not match selected expectation filter");
                s
            },
            PlanSelectError::NoneMatched => String::from_str(
                "no stress.plans matched selected expectation filter",
            ),
        }
    }
}

/// The index of the first plan at or after `i` with the given name.
pub open spec fn plan_named_from(plans: Seq<StressPlan>, name: Seq<char>, i: int) -> Option<int>
    decreases plans.len() - i,
{
    if i < 0 || i >= plans.len() {
        None
    } else if plans[i].name@ == name {
        Some(i)
    } else {
        plan_named_from(plans, name, i + 1)
    }
}

/// The plans a filter keeps, in order.
pub open spec fn matching_plans(plans: Seq<StressPlan>, filter: StressPlanFilter) -> Seq<StressPlan>
    decreases plans.len(),
{
    if plans.len() == 0 {
        Seq::empty()
    } else if plan_matches(plans.last(), filter) {
        matching_plans(plans.drop_last(), filter).push(plans.last())
    } else {
        matching_plans(plans.drop_last(), filter)
    }
}

/// What selecting plans gives: `Ok` with the plans, or the error.
pub open spec fn plan_selection(
    plans: Seq<StressPlan>,
    name: Option<Seq<char>>,
    filter: StressPlanFilter,
) -> Result<Seq<StressPlan>, PlanSelectError> {
    if plans.len() == 0 {
        Err(PlanSelectError::NoPlans)
    } else {
        match name {
            Some(n) => match plan_named_from(plans, n, 0) {
                Some(i) => if plan_matches(plans[i], filter) {
                    Ok(seq![plans[i]])
                } else {
                    Err(PlanSelectError::FilterMismatch(arbitrary()))
                },
                None => Err(PlanSelectError::NotFound(arbitrary())),
            },
            None => if matching_plans(plans, filter).len() == 0 {
                Err(PlanSelectError::NoneMatched)
            } else {
                Ok(matching_plans(plans, filter))
            },
        }
    }
}

/// The selection and the returned value agree: the same plans, or the same
/// kind of error naming the requested plan.
pub open spec fn selection_matches(
    r: Result<Vec<&StressPlan>, PlanSelectError>,
    plans: Seq<StressPlan>,
    name: Option<Seq<char>>,
    filter: StressPlanFilter,
) -> bool {
    match (r, plan_selection(plans, name, filter)) {
        (Ok(v), Ok(s)) => v@.map_values(|p: &StressPlan| *p) == s,
        (Err(PlanSelectError::NoPlans), Err(PlanSelectError::NoPlans)) => true,
        (Err(PlanSelectError::NotFound(a)), Err(PlanSelectError::NotFound(_))) => Some(a@) == name,
        (Err(PlanSelectError::FilterMismatch(a)), Err(PlanSelectError::FilterMismatch(_))) => Some(
            a@,
        ) == name,
        (Err(PlanSelectError::NoneMatched), Err(PlanSelectError::NoneMatched)) => true,
        _ => false,
    }
}

/// The first plan with the given name.
fn find_plan(plans: &[StressPlan], name: &str) -> (r: Option<usize>)
    ensures
        match r {
            Some(i) => i < plans@.len() && plan_named_from(plans@, name@, 0) == Some(i as int),
            None => plan_named_from(plans@, name@, 0) is None,
        },
{
    let target = name.to_string();
    let mut i: usize = 0;
    while i < plans.len()
        invariant
            i <= plans@.len(),
            target@ == name@,
            plan_named_from(plans@, name@, 0) == plan_named_from(plans@, name@, i as int),
        decreases plans@.len() - i,
    {
        if plans[i].name == target {
            return Some(i);
        }
        i = i + 1;
    }
    None
}

/// Selects the stress plans to run: the one named (which must match the
/// filter), or every plan the filter keeps (at least one).
pub fn select_plans<'a>(
    plans: &'a [StressPlan],
    name: Option<&str>,
    filter: StressPlanFilter,
) -> (r: Result<Vec<&'a StressPlan>, PlanSelectError>)
    ensures
        selection_matches(
            r,
            plans@,
            match name {
                Some(n) => Some(n@),
                None => None,
            },
            filter,
        ),
{
    if plans.len() == 0 {
        return Err(PlanSelectError::NoPlans);
    }
    match name {
        Some(n) => {
            match find_plan(plans, n) {
                Some(i) => {
                    if plan_matches_filter(&plans[i], filter) {
                        let v = vec![&plans[i]];
                        assert(v@.map_values(|p: &StressPlan| *p) =~= seq![plans@[i as int]]);
                        Ok(v)
                    } else {
                        Err(PlanSelectError::FilterMismatch(n.to_string()))
                    }
                },
                None => Err(PlanSelectError::NotFound(n.to_string())),
            }
        },
        None => {
            let mut selected: Vec<&'a StressPlan> = Vec::new();
            let mut i: usize = 0;
            while i < plans.len()
                invariant
                    i <= plans@.len(),
                    selected@.map_values(|p: &StressPlan| *p) == matching_plans(
                        plans@.take(i as int),
                        filter,
                    ),
                decreases plans@.len() - i,
            {
                let ghost before = selected@.map_values(|p: &StressPlan| *p);
                assert(plans@.take(i + 1).drop_last() == plans@.take(i as int));
                assert(plans@.take(i + 1).last() == plans@[i as int]);
                assert(matching_plans(plans@.take(i + 1), filter) == if plan_matches(
                    plans@[i as int],
                    filter,
                ) {
                    matching_plans(plans@.take(i as int), filter).push(plans@[i as int])
                } else {
                    matching_plans(plans@.take(i as int), filter)
                });
                if plan_matches_filter(&plans[i], filter) {
                    selected.push(&plans[i]);
                    assert(selected@.map_values(|p: &StressPlan| *p) =~= before.push(
                        plans@[i as int],
                    ));
                } else {
                }
                i = i + 1;
            }
            assert(plans@.take(i as int) == plans@);
            if selected.len() == 0 {
                Err(PlanSelectError::NoneMatched)
            } else {
                Ok(selected)
            }
        },
    }
}

} // verus!
