use ledge::{
    needs_diagnostics, rho_adaptation_due, seeds_warm_start, termination_check_due, AnchorChain,
    ChainWithoutAnchor, SolveStatus,
};

#[test]
fn termination_is_checked_on_cadence_and_on_the_last_iteration() {
    assert!(termination_check_due(10, 10, 100));
    assert!(!termination_check_due(11, 10, 100));
    assert!(termination_check_due(37, 10, 37));
}

#[test]
fn penalty_adaptation_skips_the_last_iteration() {
    assert!(rho_adaptation_due(true, 25, 25, 100));
    assert!(!rho_adaptation_due(true, 100, 25, 100));
    assert!(!rho_adaptation_due(false, 25, 25, 100));
    assert!(!rho_adaptation_due(true, 26, 25, 100));
}

#[test]
fn only_solved_and_unfinished_solves_seed_warm_starts() {
    assert!(seeds_warm_start(SolveStatus::Solved));
    assert!(seeds_warm_start(SolveStatus::MaxIterations));
    assert!(!seeds_warm_start(SolveStatus::NumericalFailure));
    assert!(!seeds_warm_start(SolveStatus::PrimalInfeasible));
    assert!(!seeds_warm_start(SolveStatus::DualInfeasible));
    assert!(!needs_diagnostics(SolveStatus::Solved));
    assert!(needs_diagnostics(SolveStatus::MaxIterations));
}

#[test]
fn chaining_requires_a_turnover_anchor() {
    assert!(matches!(AnchorChain::<Vec<f64>>::start(true, false), Err(ChainWithoutAnchor)));
    assert!(AnchorChain::<Vec<f64>>::start(false, false).is_ok());
}

#[test]
fn chained_anchors_follow_solved_dates_only() {
    let mut chain = AnchorChain::start(true, true).unwrap();
    assert_eq!(chain.anchor_for_step(false), None);
    chain.record(SolveStatus::Solved, vec![0.5, 0.5]);
    assert_eq!(chain.anchor_for_step(false), Some(&vec![0.5, 0.5]));
    chain.record(SolveStatus::MaxIterations, vec![0.9, 0.1]);
    assert_eq!(chain.anchor_for_step(false), Some(&vec![0.5, 0.5]));
    // Explicit previous weights on the step win over chaining.
    assert_eq!(chain.anchor_for_step(true), None);
}

#[test]
fn unchained_accounts_never_substitute_anchors() {
    let mut chain = AnchorChain::start(false, true).unwrap();
    chain.record(SolveStatus::Solved, vec![1.0]);
    assert_eq!(chain.anchor_for_step(false), None);
}

#[test]
fn chained_anchor_is_the_latest_solved_date() {
    let mut chain = AnchorChain::start(true, true).unwrap();
    chain.record(SolveStatus::MaxIterations, vec![0.2]);
    assert_eq!(chain.anchor_for_step(false), None);
    chain.record(SolveStatus::Solved, vec![0.3]);
    chain.record(SolveStatus::NumericalFailure, vec![f64::NAN]);
    chain.record(SolveStatus::Solved, vec![0.4]);
    chain.record(SolveStatus::PrimalInfeasible, vec![0.9]);
    assert_eq!(chain.anchor_for_step(false), Some(&vec![0.4]));
    assert_eq!(chain.anchor_for_step(true), None);
}
