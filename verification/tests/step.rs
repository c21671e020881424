use ledge::{
    check_vector, combine_equality_rhs, plan_step, BudgetSummary, DimensionError, SequenceShape, StepError,
    StepPlan, StepSummary, VectorSummary, ANCHOR_NOT_MODELED, BENCHMARK_NOT_MODELED,
    BUDGET_NOT_FINITE, BUDGET_NOT_MODELED,
};

fn shape() -> SequenceShape {
    SequenceShape {
        dimension: 3,
        has_anchor: true,
        has_benchmark: false,
        has_budget: true,
        has_l1_turnover: true,
        user_equality_rows: 1,
        inequality_rows: 2,
    }
}

fn nothing() -> StepSummary {
    StepSummary {
        expected_returns: None,
        previous_weights: None,
        benchmark_weights: None,
        budget: None,
        equality_rhs: None,
        inequality_rhs: None,
    }
}

fn vector(len: usize) -> Option<VectorSummary> {
    Some(VectorSummary { len, finite: true })
}

#[test]
fn empty_steps_plan_no_update() {
    let plan = plan_step(&shape(), &nothing()).unwrap();
    assert_eq!(
        plan,
        StepPlan {
            rebuild_linear: false,
            update_l1_anchor: false,
            rebuild_equality_rhs: false,
            update_inequality_rhs: false
        }
    );
}

#[test]
fn anchor_updates_move_the_l1_anchor_and_the_linear_cost() {
    let step = StepSummary { previous_weights: vector(3), budget: Some(BudgetSummary { finite: true, reachable: true }), ..nothing() };
    let plan = plan_step(&shape(), &step).unwrap();
    assert_eq!(
        plan,
        StepPlan {
            rebuild_linear: true,
            update_l1_anchor: true,
            rebuild_equality_rhs: true,
            update_inequality_rhs: false
        }
    );
}

#[test]
fn step_errors_follow_field_order() {
    let step = StepSummary {
        expected_returns: vector(2),
        benchmark_weights: vector(3),
        ..nothing()
    };
    assert_eq!(
        plan_step(&shape(), &step),
        Err(StepError::Dimension(DimensionError { field: "expected_returns", expected: 3, actual: 2 }))
    );
    let step = StepSummary { expected_returns: Some(VectorSummary { len: 3, finite: false }), ..nothing() };
    assert_eq!(plan_step(&shape(), &step), Err(StepError::NonFinite("expected_returns")));
    let step = StepSummary { benchmark_weights: vector(3), ..nothing() };
    assert_eq!(plan_step(&shape(), &step), Err(StepError::InvalidParameter(BENCHMARK_NOT_MODELED)));
}

#[test]
fn updates_need_the_matching_base_structure() {
    let bare = SequenceShape { has_anchor: false, has_budget: false, ..shape() };
    let step = StepSummary { previous_weights: vector(3), ..nothing() };
    assert_eq!(plan_step(&bare, &step), Err(StepError::InvalidParameter(ANCHOR_NOT_MODELED)));
    let step = StepSummary { budget: Some(BudgetSummary { finite: true, reachable: true }), ..nothing() };
    assert_eq!(plan_step(&bare, &step), Err(StepError::InvalidParameter(BUDGET_NOT_MODELED)));
}

#[test]
fn budgets_must_be_finite_and_reachable() {
    let step = StepSummary { budget: Some(BudgetSummary { finite: false, reachable: false }), ..nothing() };
    assert_eq!(plan_step(&shape(), &step), Err(StepError::InvalidParameter(BUDGET_NOT_FINITE)));
    let step = StepSummary { budget: Some(BudgetSummary { finite: true, reachable: false }), ..nothing() };
    assert_eq!(plan_step(&shape(), &step), Err(StepError::BudgetOutsideBounds));
}

#[test]
fn right_hand_sides_are_checked_against_their_rows() {
    let step = StepSummary { equality_rhs: vector(2), ..nothing() };
    assert_eq!(
        plan_step(&shape(), &step),
        Err(StepError::Dimension(DimensionError { field: "equality_rhs", expected: 1, actual: 2 }))
    );
    let step = StepSummary { inequality_rhs: Some(VectorSummary { len: 2, finite: false }), ..nothing() };
    assert_eq!(plan_step(&shape(), &step), Err(StepError::NonFinite("inequality_rhs")));
    let step = StepSummary { inequality_rhs: vector(2), ..nothing() };
    assert!(plan_step(&shape(), &step).unwrap().update_inequality_rhs);
}

#[test]
fn equality_targets_put_the_budget_first() {
    assert_eq!(combine_equality_rhs(Some(1.0), &[0.2, 0.3]), vec![1.0, 0.2, 0.3]);
    assert_eq!(combine_equality_rhs(None, &[0.2]), vec![0.2]);
    assert_eq!(combine_equality_rhs::<f64>(None, &[]), Vec::<f64>::new());
}

#[test]
fn vectors_are_checked_for_length_before_finiteness() {
    let short = VectorSummary { len: 2, finite: false };
    assert_eq!(
        check_vector("linear", short, 3),
        Err(StepError::Dimension(DimensionError { field: "linear", expected: 3, actual: 2 }))
    );
    let broken = VectorSummary { len: 3, finite: false };
    assert_eq!(check_vector("linear", broken, 3), Err(StepError::NonFinite("linear")));
    let good = VectorSummary { len: 3, finite: true };
    assert_eq!(check_vector("linear", good, 3), Ok(()));
}
