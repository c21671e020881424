use ledge::{select_hints, CertificateKind, DiagnosisSummary, HintKind, SolveStatus};

fn quiet(status: SolveStatus) -> DiagnosisSummary {
    DiagnosisSummary {
        status,
        audited_certificate: None,
        wide_spread: false,
        scaling_disabled: false,
        rho_at_limit: false,
        near_tolerance: false,
        primal_dominates: false,
        dual_dominates: false,
        rho_updates: 0,
    }
}

#[test]
fn budget_exhaustion_always_gets_advice() {
    assert_eq!(select_hints(&quiet(SolveStatus::MaxIterations)), vec![HintKind::FarFromTolerance]);
    let d = DiagnosisSummary { near_tolerance: true, primal_dominates: true, ..quiet(SolveStatus::MaxIterations) };
    assert_eq!(select_hints(&d), vec![HintKind::NearTolerance]);
    let d = DiagnosisSummary { primal_dominates: true, dual_dominates: true, ..quiet(SolveStatus::MaxIterations) };
    assert_eq!(select_hints(&d), vec![HintKind::PrimalDominates]);
    let d = DiagnosisSummary { dual_dominates: true, ..quiet(SolveStatus::MaxIterations) };
    assert_eq!(select_hints(&d), vec![HintKind::DualDominates]);
}

#[test]
fn solved_run_gets_no_budget_advice() {
    let d = DiagnosisSummary { near_tolerance: true, ..quiet(SolveStatus::Solved) };
    assert_eq!(select_hints(&d), vec![]);
}

#[test]
fn hints_come_in_fixed_order() {
    let d = DiagnosisSummary {
        audited_certificate: Some(CertificateKind::Dual),
        wide_spread: true,
        scaling_disabled: true,
        rho_at_limit: true,
        rho_updates: 11,
        ..quiet(SolveStatus::NumericalFailure)
    };
    assert_eq!(
        select_hints(&d),
        vec![
            HintKind::DualCertificate,
            HintKind::NumericalFailure,
            HintKind::WideSpreadUnscaled,
            HintKind::RhoAtLimit,
            HintKind::FrequentRetuning,
        ]
    );
    let d = DiagnosisSummary {
        audited_certificate: Some(CertificateKind::Primal),
        wide_spread: true,
        rho_updates: 10,
        ..quiet(SolveStatus::MaxIterations)
    };
    assert_eq!(
        select_hints(&d),
        vec![HintKind::PrimalCertificate, HintKind::WideSpreadScaled, HintKind::FarFromTolerance]
    );
}
