//! Small enumerations and their report labels.

use vstd::prelude::*;

verus! {

/// Which encoding external solvers receive in comparisons.
#[derive(Clone, Copy, Debug, PartialEq, Eq, Structural)]
pub enum Formulation {
    /// Materialized dense `Q`; no structure exploitation.
    DenseQ,
    /// Factor-lifted sparse form with `k` auxiliary variables.
    Lifted,
}

/// The label of a formulation in report rows.
pub open spec fn formulation_label(formulation: Formulation) -> Seq<char> {
    match formulation {
        Formulation::DenseQ => "dense-Q"@,
        Formulation::Lifted => "lifted"@,
    }
}

impl Formulation {
    /// Short label used in report rows.
    pub fn label(self) -> (label: &'static str)
        ensures
            label@ == formulation_label(self),
    {
        match self {
            Formulation::DenseQ => "dense-Q",
            Formulation::Lifted => "lifted",
        }
    }
}

/// Warm-start capability an adapter can honestly claim.
#[derive(Clone, Copy, Debug, PartialEq, Eq, Structural)]
pub enum WarmStartSupport {
    /// Primal and dual warm starts are used.
    Full,
    /// Only a primal warm start is used.
    PrimalOnly,
    /// The solver restarts from scratch on every solve.
    Unsupported,
}

/// The report label of a warm-start capability.
pub open spec fn warm_start_support_label(support: WarmStartSupport) -> Seq<char> {
    match support {
        WarmStartSupport::Full => "primal + dual"@,
        WarmStartSupport::PrimalOnly => "primal only"@,
        WarmStartSupport::Unsupported => "unsupported"@,
    }
}

impl WarmStartSupport {
    /// Human-readable label for reports.
    pub fn label(self) -> (label: &'static str)
        ensures
            label@ == warm_start_support_label(self),
    {
        match self {
            WarmStartSupport::Full => "primal + dual",
            WarmStartSupport::PrimalOnly => "primal only",
            WarmStartSupport::Unsupported => "unsupported",
        }
    }
}

/// Measurement phase labels used in comparison output.
#[derive(Clone, Copy, Debug, PartialEq, Eq, Structural)]
pub enum Phase {
    /// Conversion plus solver construction.
    Setup,
    /// First solve from the shared primal start.
    Cold,
    /// One rolling re-solve step.
    Roll,
}

/// The CSV label of a measurement phase.
pub open spec fn phase_label(phase: Phase) -> Seq<char> {
    match phase {
        Phase::Setup => "setup"@,
        Phase::Cold => "cold"@,
        Phase::Roll => "roll"@,
    }
}

impl Phase {
    /// Label used in the CSV output.
    pub fn label(self) -> (label: &'static str)
        ensures
            label@ == phase_label(self),
    {
        match self {
            Phase::Setup => "setup",
            Phase::Cold => "cold",
            Phase::Roll => "roll",
        }
    }
}

/// Solver termination status.
#[derive(Clone, Copy, Debug, PartialEq, Eq, Structural)]
pub enum SolveStatus {
    /// KKT residuals met the configured absolute/relative tolerances.
    Solved,
    /// The iteration budget was exhausted.
    MaxIterations,
    /// An iterate became NaN or infinite.
    NumericalFailure,
    /// The constraints admit no common point; a Farkas certificate is
    /// attached to the solution.
    PrimalInfeasible,
    /// The objective is unbounded below over the constraints; a descent-ray
    /// certificate is attached to the solution.
    DualInfeasible,
}

/// The human-readable text of a termination status.
pub open spec fn status_text(status: SolveStatus) -> Seq<char> {
    match status {
        SolveStatus::Solved => "solved"@,
        SolveStatus::MaxIterations => "maximum iterations reached"@,
        SolveStatus::NumericalFailure => "numerical failure"@,
        SolveStatus::PrimalInfeasible => "primal infeasible"@,
        SolveStatus::DualInfeasible => "dual infeasible"@,
    }
}

impl SolveStatus {
    /// Human-readable text of the status (what the status displays as).
    pub fn as_str(self) -> (text: &'static str)
        ensures
            text@ == status_text(self),
    {
        match self {
            SolveStatus::Solved => "solved",
            SolveStatus::MaxIterations => "maximum iterations reached",
            SolveStatus::NumericalFailure => "numerical failure",
            SolveStatus::PrimalInfeasible => "primal infeasible",
            SolveStatus::DualInfeasible => "dual infeasible",
        }
    }

    /// Returns the status text as an owned string.
    pub fn to_string(self) -> (text: String)
        ensures
            text@ == status_text(self),
    {
        String::from_str(self.as_str())
    }
}

} // verus!
