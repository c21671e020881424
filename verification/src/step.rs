//! Validation and planning of one rolling-rebalance step.
//!
//! A rolling sequence keeps its factorizations across dates, so a step may
//! only change data that leaves the factored system intact: expected
//! returns, the turnover anchor, the tracking benchmark, the budget, and
//! constraint right-hand sides. A step is validated in full before anything
//! changes; the plan then says which parts of the workspace data to rebuild.

use vstd::prelude::*;

use crate::constraints::DimensionError;

verus! {

/// What the base problem of a sequence provides.
#[derive(Clone, Copy, Debug)]
pub struct SequenceShape {
    /// Number of portfolio weights.
    pub dimension: usize,
    /// Whether the problem has a turnover anchor (previous weights).
    pub has_anchor: bool,
    /// Whether the problem tracks a benchmark.
    pub has_benchmark: bool,
    /// Whether the problem has a budget row.
    pub has_budget: bool,
    /// Whether the problem carries proportional (L1) turnover costs.
    pub has_l1_turnover: bool,
    /// Number of user equality rows (the budget row excluded).
    pub user_equality_rows: usize,
    /// Number of inequality rows.
    pub inequality_rows: usize,
}

/// A vector supplied by a step: its length and whether every entry is
/// finite.
#[derive(Clone, Copy, Debug)]
pub struct VectorSummary {
    /// Number of entries.
    pub len: usize,
    /// Whether every entry is finite.
    pub finite: bool,
}

/// A budget supplied by a step.
#[derive(Clone, Copy, Debug)]
pub struct BudgetSummary {
    /// Whether the budget is finite.
    pub finite: bool,
    /// Whether the budget lies within the sums of the lower and upper bounds.
    pub reachable: bool,
}

/// The data one step supplies; `None` keeps the current value.
#[derive(Clone, Copy, Debug)]
pub struct StepSummary {
    /// New expected returns.
    pub expected_returns: Option<VectorSummary>,
    /// New turnover anchor.
    pub previous_weights: Option<VectorSummary>,
    /// New tracking benchmark.
    pub benchmark_weights: Option<VectorSummary>,
    /// New budget.
    pub budget: Option<BudgetSummary>,
    /// New right-hand side of the user equality rows.
    pub equality_rhs: Option<VectorSummary>,
    /// New right-hand side of the inequality rows.
    pub inequality_rhs: Option<VectorSummary>,
}

/// Why a step was rejected.
#[derive(Clone, Debug, PartialEq, Eq)]
pub enum StepError {
    /// A supplied vector has the wrong length.
    Dimension(DimensionError),
    /// A supplied vector contains NaN or infinity.
    NonFinite(&'static str),
    /// The step changes something the base problem does not model.
    InvalidParameter(&'static str),
    /// The budget lies outside what the box constraints can reach.
    BudgetOutsideBounds,
}

/// Which parts of the workspace data an accepted step rebuilds.
#[derive(Clone, Copy, Debug, PartialEq, Eq, Structural)]
pub struct StepPlan {
    /// Recompute the linear cost (returns, anchor, or benchmark moved).
    pub rebuild_linear: bool,
    /// Move the anchor of the L1 term.
    pub update_l1_anchor: bool,
    /// Recompute the equality right-hand side (budget or user rows moved).
    pub rebuild_equality_rhs: bool,
    /// Replace the inequality right-hand side.
    pub update_inequality_rhs: bool,
}

/// Message for an anchor update on a problem without turnover terms.
pub const ANCHOR_NOT_MODELED: &'static str =
    "previous_weights updates require a base problem built with with_quadratic_turnover and/or with_l1_turnover; the L2 penalty and the L1 costs are part of the problem structure and stay fixed for the whole sequence";

/// Message for a benchmark update on a problem without tracking.
pub const BENCHMARK_NOT_MODELED: &'static str =
    "benchmark_weights updates require a base problem built with with_tracking_benchmark; switching between absolute-risk and tracking objectives changes what the sequence is solving";

/// Message for a budget update on a problem without a budget row.
pub const BUDGET_NOT_MODELED: &'static str =
    "budget updates require a base problem with a budget constraint; adding or removing the budget row changes the factored system";

/// Message for a non-finite budget.
pub const BUDGET_NOT_FINITE: &'static str = "budget must be finite when provided";

/// The verdict on one supplied vector: its length first, then finiteness.
pub open spec fn vector_verdict(
    field: &'static str,
    vector: VectorSummary,
    expected: usize,
) -> Option<StepError> {
    if vector.len != expected {
        Some(
            StepError::Dimension(DimensionError { field, expected, actual: vector.len }),
        )
    } else if !vector.finite {
        Some(StepError::NonFinite(field))
    } else {
        None
    }
}

/// The verdict on an optional vector that needs `modeled` to hold.
pub open spec fn optional_vector_verdict(
    field: &'static str,
    vector: Option<VectorSummary>,
    expected: usize,
    modeled: bool,
    not_modeled: &'static str,
) -> Option<StepError> {
    match vector {
        None => None,
        Some(v) => if !modeled {
            Some(StepError::InvalidParameter(not_modeled))
        } else {
            vector_verdict(field, v, expected)
        },
    }
}

/// The verdict on an optional budget.
pub open spec fn budget_verdict(budget: Option<BudgetSummary>, has_budget: bool) -> Option<
    StepError,
> {
    match budget {
        None => None,
        Some(b) => if !has_budget {
            Some(StepError::InvalidParameter(BUDGET_NOT_MODELED))
        } else if !b.finite {
            Some(StepError::InvalidParameter(BUDGET_NOT_FINITE))
        } else if !b.reachable {
            Some(StepError::BudgetOutsideBounds)
        } else {
            None
        },
    }
}

/// The checks of a step, one verdict per field in order: expected
/// returns, previous weights, benchmark, budget, equality and inequality
/// right-hand sides.
pub open spec fn step_checks(shape: SequenceShape, step: StepSummary) -> Seq<Option<StepError>> {
    seq![
        optional_vector_verdict("expected_returns", step.expected_returns, shape.dimension, true, ""),
        optional_vector_verdict(
            "previous_weights",
            step.previous_weights,
            shape.dimension,
            shape.has_anchor,
            ANCHOR_NOT_MODELED,
        ),
        optional_vector_verdict(
            "benchmark_weights",
            step.benchmark_weights,
            shape.dimension,
            shape.has_benchmark,
            BENCHMARK_NOT_MODELED,
        ),
        budget_verdict(step.budget, shape.has_budget),
        optional_vector_verdict(
            "equality_rhs",
            step.equality_rhs,
            shape.user_equality_rows,
            true,
            "",
        ),
        optional_vector_verdict(
            "inequality_rhs",
            step.inequality_rhs,
            shape.inequality_rows,
            true,
            "",
        ),
    ]
}

/// The first rejection of a step, checking the fields in order.
pub open spec fn step_rejection(shape: SequenceShape, step: StepSummary) -> Option<StepError> {
    first_verdict(step_checks(shape, step))
}

/// The first verdict that rejects, if any.
pub open spec fn first_verdict(verdicts: Seq<Option<StepError>>) -> Option<StepError>
    decreases verdicts.len(),
{
    if verdicts.len() == 0 {
        None
    } else if verdicts[0] is Some {
        verdicts[0]
    } else {
        first_verdict(verdicts.drop_first())
    }
}

/// The updates an accepted step triggers.
pub open spec fn step_updates(shape: SequenceShape, step: StepSummary) -> StepPlan {
    StepPlan {
        rebuild_linear: step.expected_returns is Some || step.previous_weights is Some
            || step.benchmark_weights is Some,
        update_l1_anchor: step.previous_weights is Some && shape.has_l1_turnover,
        rebuild_equality_rhs: step.budget is Some || step.equality_rhs is Some,
        update_inequality_rhs: step.inequality_rhs is Some,
    }
}

/// A supplied vector that fits: modeled by the base problem, of the
/// expected length, and finite. An absent vector always fits.
pub open spec fn fits(vector: Option<VectorSummary>, expected: usize, modeled: bool) -> bool {
    vector matches Some(v) ==> modeled && v.len == expected && v.finite
}

/// Every field a step supplies is one the base problem models, with the
/// right length and finite values; a budget is finite and reachable.
pub open spec fn step_acceptable(shape: SequenceShape, step: StepSummary) -> bool {
    &&& fits(step.expected_returns, shape.dimension, true)
    &&& fits(step.previous_weights, shape.dimension, shape.has_anchor)
    &&& fits(step.benchmark_weights, shape.dimension, shape.has_benchmark)
    &&& (step.budget matches Some(b) ==> shape.has_budget && b.finite && b.reachable)
    &&& fits(step.equality_rhs, shape.user_equality_rows, true)
    &&& fits(step.inequality_rhs, shape.inequality_rows, true)
}

/// When `vector` is supplied, `found` is the rejection its first failed
/// condition calls for: unmodeled, then wrongly sized, then not finite.
pub open spec fn vector_rejected_as(
    found: Option<StepError>,
    field: &'static str,
    vector: Option<VectorSummary>,
    expected: usize,
    modeled: bool,
    not_modeled: &'static str,
) -> bool {
    vector matches Some(v) ==> {
        &&& !modeled ==> found == Some(StepError::InvalidParameter(not_modeled))
        &&& (modeled && v.len != expected) ==> found == Some(
            StepError::Dimension(DimensionError { field, expected, actual: v.len }),
        )
        &&& (modeled && v.len == expected && !v.finite) ==> found == Some(
            StepError::NonFinite(field),
        )
    }
}

/// The rejections of a step, in field order: each field is judged only
/// once every earlier field fits.
pub open spec fn step_rejection_order(shape: SequenceShape, step: StepSummary) -> bool {
    let found = step_rejection(shape, step);
    let returns_ok = fits(step.expected_returns, shape.dimension, true);
    let anchor_ok = returns_ok && fits(step.previous_weights, shape.dimension, shape.has_anchor);
    let benchmark_ok = anchor_ok && fits(
        step.benchmark_weights,
        shape.dimension,
        shape.has_benchmark,
    );
    let budget_ok = benchmark_ok && (step.budget matches Some(b) ==> shape.has_budget && b.finite
        && b.reachable);
    let equalities_ok = budget_ok && fits(step.equality_rhs, shape.user_equality_rows, true);
    &&& vector_rejected_as(found, "expected_returns", step.expected_returns, shape.dimension, true, "")
    &&& returns_ok ==> vector_rejected_as(
        found,
        "previous_weights",
        step.previous_weights,
        shape.dimension,
        shape.has_anchor,
        ANCHOR_NOT_MODELED,
    )
    &&& anchor_ok ==> vector_rejected_as(
        found,
        "benchmark_weights",
        step.benchmark_weights,
        shape.dimension,
        shape.has_benchmark,
        BENCHMARK_NOT_MODELED,
    )
    &&& benchmark_ok ==> (step.budget matches Some(b) ==> {
        &&& !shape.has_budget ==> found == Some(StepError::InvalidParameter(BUDGET_NOT_MODELED))
        &&& (shape.has_budget && !b.finite) ==> found == Some(
            StepError::InvalidParameter(BUDGET_NOT_FINITE),
        )
        &&& (shape.has_budget && b.finite && !b.reachable) ==> found == Some(
            StepError::BudgetOutsideBounds,
        )
    })
    &&& budget_ok ==> vector_rejected_as(
        found,
        "equality_rhs",
        step.equality_rhs,
        shape.user_equality_rows,
        true,
        "",
    )
    &&& equalities_ok ==> vector_rejected_as(
        found,
        "inequality_rhs",
        step.inequality_rhs,
        shape.inequality_rows,
        true,
        "",
    )
}

/// A step is accepted exactly when everything it supplies fits the base
/// problem, and an accepted step rebuilds exactly what its new data
/// reaches: the linear cost when expected returns, the anchor or the
/// benchmark move; the L1 anchor when the anchor moves on a problem with
/// L1 costs; the equality right-hand side when the budget or the user rows
/// move; the inequality right-hand side when it moves. A rejection names
/// the first failed condition in field order.
pub proof fn lemma_step_plan_follows_supplied_data(shape: SequenceShape, step: StepSummary)
    ensures
        step_rejection(shape, step) is None <==> step_acceptable(shape, step),
        ({
            let plan = step_updates(shape, step);
            &&& plan.rebuild_linear == (step.expected_returns is Some || step.previous_weights is Some
                || step.benchmark_weights is Some)
            &&& plan.update_l1_anchor == (step.previous_weights is Some && shape.has_l1_turnover)
            &&& plan.rebuild_equality_rhs == (step.budget is Some || step.equality_rhs is Some)
            &&& plan.update_inequality_rhs == step.inequality_rhs is Some
        }),
        step_rejection_order(shape, step),
{
    reveal_with_fuel(first_verdict, 7);
    let checks = step_checks(shape, step);
    assert(checks.drop_first()[0] == checks[1]);
    assert(checks.drop_first().drop_first()[0] == checks[2]);
    assert(checks.drop_first().drop_first().drop_first()[0] == checks[3]);
    assert(checks.drop_first().drop_first().drop_first().drop_first()[0] == checks[4]);
    assert(checks.drop_first().drop_first().drop_first().drop_first().drop_first()[0] == checks[5]);
}

/// Checks a supplied vector: its length first, then that every entry is
/// finite.
pub fn check_vector(field: &'static str, vector: VectorSummary, expected: usize) -> (result: Result<
    (),
    StepError,
>)
    ensures
        match vector_verdict(field, vector, expected) {
            None => result is Ok,
            Some(error) => result == Err::<(), StepError>(error),
        },
{
    if vector.len != expected {
        return Err(StepError::Dimension(DimensionError { field, expected, actual: vector.len }));
    }
    if !vector.finite {
        return Err(StepError::NonFinite(field));
    }
    Ok(())
}

fn check_optional_vector(
    field: &'static str,
    vector: Option<VectorSummary>,
    expected: usize,
    modeled: bool,
    not_modeled: &'static str,
) -> (result: Result<(), StepError>)
    ensures
        match optional_vector_verdict(field, vector, expected, modeled, not_modeled) {
            None => result is Ok,
            Some(error) => result == Err::<(), StepError>(error),
        },
{
    match vector {
        None => Ok(()),
        Some(v) => {
            if !modeled {
                return Err(StepError::InvalidParameter(not_modeled));
            }
            check_vector(field, v, expected)
        },
    }
}

/// Validates a step against the sequence's base problem and, when it is
/// accepted, says which workspace data to rebuild.
///
/// The step is rejected with the first failing check, in field order; an
/// accepted step that supplies nothing plans no update.
pub fn plan_step(shape: &SequenceShape, step: &StepSummary) -> (result: Result<
    StepPlan,
    StepError,
>)
    ensures
        match step_rejection(*shape, *step) {
            Some(error) => result == Err::<StepPlan, StepError>(error),
            None => result == Ok::<StepPlan, StepError>(step_updates(*shape, *step)),
        },
        result is Ok <==> step_acceptable(*shape, *step),
        step_rejection_order(*shape, *step),
        result matches Ok(plan) ==> {
            &&& plan.rebuild_linear == (step.expected_returns is Some || step.previous_weights is Some
                || step.benchmark_weights is Some)
            &&& plan.update_l1_anchor == (step.previous_weights is Some && shape.has_l1_turnover)
            &&& plan.rebuild_equality_rhs == (step.budget is Some || step.equality_rhs is Some)
            &&& plan.update_inequality_rhs == step.inequality_rhs is Some
        },
{
    proof {
        lemma_step_plan_follows_supplied_data(*shape, *step);
    }
    let ghost checks = step_checks(*shape, *step);
    proof {
        assert(step_rejection(*shape, *step) == first_verdict(checks));
        reveal_with_fuel(first_verdict, 7);
        assert(checks.drop_first()[0] == checks[1]);
    }
    check_optional_vector("expected_returns", step.expected_returns, shape.dimension, true, "")?;
    check_optional_vector(
        "previous_weights",
        step.previous_weights,
        shape.dimension,
        shape.has_anchor,
        ANCHOR_NOT_MODELED,
    )?;
    check_optional_vector(
        "benchmark_weights",
        step.benchmark_weights,
        shape.dimension,
        shape.has_benchmark,
        BENCHMARK_NOT_MODELED,
    )?;
    match step.budget {
        None => {},
        Some(budget) => {
            if !shape.has_budget {
                return Err(StepError::InvalidParameter(BUDGET_NOT_MODELED));
            }
            if !budget.finite {
                return Err(StepError::InvalidParameter(BUDGET_NOT_FINITE));
            }
            if !budget.reachable {
                return Err(StepError::BudgetOutsideBounds);
            }
        },
    }
    check_optional_vector("equality_rhs", step.equality_rhs, shape.user_equality_rows, true, "")?;
    check_optional_vector(
        "inequality_rhs",
        step.inequality_rhs,
        shape.inequality_rows,
        true,
        "",
    )?;
    Ok(
        StepPlan {
            rebuild_linear: step.expected_returns.is_some() || step.previous_weights.is_some()
                || step.benchmark_weights.is_some(),
            update_l1_anchor: step.previous_weights.is_some() && shape.has_l1_turnover,
            rebuild_equality_rhs: step.budget.is_some() || step.equality_rhs.is_some(),
            update_inequality_rhs: step.inequality_rhs.is_some(),
        },
    )
}

/// A step that supplies nothing is accepted and rebuilds nothing: it
/// re-solves the current data.
pub proof fn lemma_empty_step_changes_nothing(shape: SequenceShape)
    ensures
        ({
            let empty = StepSummary {
                expected_returns: None,
                previous_weights: None,
                benchmark_weights: None,
                budget: None,
                equality_rhs: None,
                inequality_rhs: None,
            };
            &&& step_rejection(shape, empty) is None
            &&& step_updates(shape, empty) == StepPlan {
                rebuild_linear: false,
                update_l1_anchor: false,
                rebuild_equality_rhs: false,
                update_inequality_rhs: false,
            }
        }),
{
    reveal_with_fuel(first_verdict, 7);
}

/// The equality right-hand side of a portfolio: the budget (when the
/// problem has one) followed by the user rows.
pub fn combine_equality_rhs<T: Copy>(budget: Option<T>, user_rhs: &[T]) -> (combined: Vec<T>)
    ensures
        combined@ == match budget {
            Some(value) => seq![value] + user_rhs@,
            None => user_rhs@,
        },
{
    let mut combined: Vec<T> = Vec::new();
    if let Some(value) = budget {
        combined.push(value);
    }
    let ghost start = combined@;
    let mut i: usize = 0;
    while i < user_rhs.len()
        invariant
            i <= user_rhs@.len(),
            combined@ == start + user_rhs@.take(i as int),
        decreases user_rhs@.len() - i,
    {
        combined.push(user_rhs[i]);
        i = i + 1;
        assert(combined@ =~= start + user_rhs@.take(i as int));
    }
    assert(user_rhs@.take(user_rhs@.len() as int) =~= user_rhs@);
    assert(start + user_rhs@ =~= match budget {
        Some(value) => seq![value] + user_rhs@,
        None => user_rhs@,
    });
    combined
}

} // verus!
