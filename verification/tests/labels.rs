use ledge::{Formulation, Phase, SolveStatus, WarmStartSupport};

#[test]
fn formulation_and_phase_labels() {
    assert_eq!(Formulation::DenseQ.label(), "dense-Q");
    assert_eq!(Formulation::Lifted.label(), "lifted");
    assert_eq!(Phase::Setup.label(), "setup");
    assert_eq!(Phase::Cold.label(), "cold");
    assert_eq!(Phase::Roll.label(), "roll");
}

#[test]
fn warm_start_support_labels() {
    assert_eq!(WarmStartSupport::Full.label(), "primal + dual");
    assert_eq!(WarmStartSupport::PrimalOnly.label(), "primal only");
    assert_eq!(WarmStartSupport::Unsupported.label(), "unsupported");
}

#[test]
fn status_text() {
    assert_eq!(SolveStatus::Solved.as_str(), "solved");
    assert_eq!(SolveStatus::MaxIterations.to_string(), "maximum iterations reached");
    assert_eq!(SolveStatus::NumericalFailure.as_str(), "numerical failure");
    assert_eq!(SolveStatus::PrimalInfeasible.as_str(), "primal infeasible");
    assert_eq!(SolveStatus::DualInfeasible.as_str(), "dual infeasible");
}
