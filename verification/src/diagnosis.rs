//! Which tuning hints accompany a solve that stopped before convergence.
//!
//! Hints are heuristics ordered by likely relevance; they exist to make
//! `MaxIterations` actionable instead of a dead end. The numeric
//! comparisons behind them are made by the caller; this module decides
//! which hints apply and in what order.

use vstd::prelude::*;

use crate::labels::SolveStatus;

verus! {

/// Kind of infeasibility certificate whose independent audit succeeded.
#[derive(Clone, Copy, Debug, PartialEq, Eq, Structural)]
pub enum CertificateKind {
    /// A Farkas certificate of primal infeasibility.
    Primal,
    /// A descent ray proving dual infeasibility.
    Dual,
}

/// One tuning hint.
#[derive(Clone, Copy, Debug, PartialEq, Eq, Structural)]
pub enum HintKind {
    /// A Farkas certificate proves the constraints admit no common point.
    PrimalCertificate,
    /// A descent-ray certificate proves the objective unbounded below.
    DualCertificate,
    /// An iterate became non-finite.
    NumericalFailure,
    /// Coefficients span many orders of magnitude and scaling is disabled.
    WideSpreadUnscaled,
    /// Coefficients span many orders of magnitude even after scaling.
    WideSpreadScaled,
    /// The adaptive penalty finished pinned at its limit.
    RhoAtLimit,
    /// Residuals are within two orders of magnitude of tolerance.
    NearTolerance,
    /// The primal residual dominates.
    PrimalDominates,
    /// The dual residual dominates.
    DualDominates,
    /// Both residuals remain far from tolerance.
    FarFromTolerance,
    /// The penalty was re-tuned many times.
    FrequentRetuning,
}

/// What hint selection reads from a failed solve.
#[derive(Clone, Copy, Debug)]
pub struct DiagnosisSummary {
    /// Termination status.
    pub status: SolveStatus,
    /// The attached certificate, when its audit succeeded.
    pub audited_certificate: Option<CertificateKind>,
    /// Nonzero coefficients span more than six orders of magnitude.
    pub wide_spread: bool,
    /// Automatic scaling was disabled.
    pub scaling_disabled: bool,
    /// The final penalty sat at `minimum_rho` or `maximum_rho`.
    pub rho_at_limit: bool,
    /// Both residuals are within a factor 100 of their tolerances.
    pub near_tolerance: bool,
    /// The primal residual gap exceeds 100 times the dual one.
    pub primal_dominates: bool,
    /// The dual residual gap exceeds 100 times the primal one.
    pub dual_dominates: bool,
    /// Number of penalty changes.
    pub rho_updates: usize,
}

/// `seq![hint]` when `applies`, otherwise nothing.
pub open spec fn hint_if(applies: bool, hint: HintKind) -> Seq<HintKind> {
    if applies {
        seq![hint]
    } else {
        Seq::empty()
    }
}

/// The certificate hint, when an audited certificate is attached.
pub open spec fn certificate_hints(d: DiagnosisSummary) -> Seq<HintKind> {
    match d.audited_certificate {
        Some(CertificateKind::Primal) => seq![HintKind::PrimalCertificate],
        Some(CertificateKind::Dual) => seq![HintKind::DualCertificate],
        None => Seq::empty(),
    }
}

/// The coefficient-spread hint, when coefficients span too many decades.
pub open spec fn spread_hints(d: DiagnosisSummary) -> Seq<HintKind> {
    if !d.wide_spread {
        Seq::empty()
    } else if d.scaling_disabled {
        seq![HintKind::WideSpreadUnscaled]
    } else {
        seq![HintKind::WideSpreadScaled]
    }
}

/// The iteration-budget advice, given only when the budget ran out.
pub open spec fn budget_hints(d: DiagnosisSummary) -> Seq<HintKind> {
    if d.status != SolveStatus::MaxIterations {
        Seq::empty()
    } else if d.near_tolerance {
        seq![HintKind::NearTolerance]
    } else if d.primal_dominates {
        seq![HintKind::PrimalDominates]
    } else if d.dual_dominates {
        seq![HintKind::DualDominates]
    } else {
        seq![HintKind::FarFromTolerance]
    }
}

/// The hints that come before the iteration-budget advice.
pub open spec fn leading_hints(d: DiagnosisSummary) -> Seq<HintKind> {
    certificate_hints(d) + hint_if(d.status == SolveStatus::NumericalFailure, HintKind::NumericalFailure)
        + spread_hints(d) + hint_if(d.rho_at_limit, HintKind::RhoAtLimit)
}

/// The hints of a failed solve, in order: certificate, numerical failure,
/// coefficient spread, penalty at its limit, iteration-budget advice, and
/// frequent re-tuning.
pub open spec fn selected_hints(d: DiagnosisSummary) -> Seq<HintKind> {
    leading_hints(d) + budget_hints(d) + hint_if(d.rho_updates > 10, HintKind::FrequentRetuning)
}

fn push_certificate_hint(hints: &mut Vec<HintKind>, d: &DiagnosisSummary)
    ensures
        final(hints)@ == old(hints)@ + certificate_hints(*d),
{
    match d.audited_certificate {
        Some(CertificateKind::Primal) => hints.push(HintKind::PrimalCertificate),
        Some(CertificateKind::Dual) => hints.push(HintKind::DualCertificate),
        None => {},
    }
    assert(hints@ =~= old(hints)@ + certificate_hints(*d));
}

fn push_hint_if(hints: &mut Vec<HintKind>, applies: bool, hint: HintKind)
    ensures
        final(hints)@ == old(hints)@ + hint_if(applies, hint),
{
    if applies {
        hints.push(hint);
    }
    assert(hints@ =~= old(hints)@ + hint_if(applies, hint));
}

fn push_spread_hint(hints: &mut Vec<HintKind>, d: &DiagnosisSummary)
    ensures
        final(hints)@ == old(hints)@ + spread_hints(*d),
{
    if d.wide_spread {
        if d.scaling_disabled {
            hints.push(HintKind::WideSpreadUnscaled);
        } else {
            hints.push(HintKind::WideSpreadScaled);
        }
    }
    assert(hints@ =~= old(hints)@ + spread_hints(*d));
}

fn push_budget_hint(hints: &mut Vec<HintKind>, d: &DiagnosisSummary)
    ensures
        final(hints)@ == old(hints)@ + budget_hints(*d),
{
    if d.status == SolveStatus::MaxIterations {
        if d.near_tolerance {
            hints.push(HintKind::NearTolerance);
        } else if d.primal_dominates {
            hints.push(HintKind::PrimalDominates);
        } else if d.dual_dominates {
            hints.push(HintKind::DualDominates);
        } else {
            hints.push(HintKind::FarFromTolerance);
        }
    }
    assert(hints@ =~= old(hints)@ + budget_hints(*d));
}

/// Each hint is given exactly when its condition holds: a certificate hint
/// for the audited certificate's kind, the numerical-failure hint for a
/// numerical failure, a spread hint (naming whether scaling was on) for a
/// wide coefficient spread, the penalty hint when the penalty ended at a
/// limit, the re-tuning hint after more than ten penalty changes, and
/// budget advice only on an exhausted budget: near tolerance first, then a
/// dominating primal, then a dominating dual residual, else far from
/// tolerance.
pub proof fn lemma_hints_follow_the_diagnosis(d: DiagnosisSummary)
    ensures
        ({
            let hints = selected_hints(d);
            let budget_out = d.status == SolveStatus::MaxIterations;
            &&& hints.contains(HintKind::PrimalCertificate) == (d.audited_certificate == Some(
                CertificateKind::Primal,
            ))
            &&& hints.contains(HintKind::DualCertificate) == (d.audited_certificate == Some(
                CertificateKind::Dual,
            ))
            &&& hints.contains(HintKind::NumericalFailure) == (d.status
                == SolveStatus::NumericalFailure)
            &&& hints.contains(HintKind::WideSpreadUnscaled) == (d.wide_spread
                && d.scaling_disabled)
            &&& hints.contains(HintKind::WideSpreadScaled) == (d.wide_spread
                && !d.scaling_disabled)
            &&& hints.contains(HintKind::RhoAtLimit) == d.rho_at_limit
            &&& hints.contains(HintKind::FrequentRetuning) == (d.rho_updates > 10)
            &&& hints.contains(HintKind::NearTolerance) == (budget_out && d.near_tolerance)
            &&& hints.contains(HintKind::PrimalDominates) == (budget_out && !d.near_tolerance
                && d.primal_dominates)
            &&& hints.contains(HintKind::DualDominates) == (budget_out && !d.near_tolerance
                && !d.primal_dominates && d.dual_dominates)
            &&& hints.contains(HintKind::FarFromTolerance) == (budget_out && !d.near_tolerance
                && !d.primal_dominates && !d.dual_dominates)
        }),
{
    broadcast use vstd::seq_lib::group_seq_properties;

    let a = certificate_hints(d);
    let b = hint_if(d.status == SolveStatus::NumericalFailure, HintKind::NumericalFailure);
    let c = spread_hints(d);
    let e = hint_if(d.rho_at_limit, HintKind::RhoAtLimit);
    let f = budget_hints(d);
    let g = hint_if(d.rho_updates > 10, HintKind::FrequentRetuning);
    assert(selected_hints(d) == a + b + c + e + f + g);
    assert forall|h: HintKind| #[trigger] seq![h].contains(h) by {
        assert(seq![h][0] == h);
    }
    assert forall|h: HintKind, x: HintKind| h != x implies !(#[trigger] seq![h].contains(x)) by {}
}

/// Selects the tuning hints of a solve that stopped before convergence.
pub fn select_hints(diagnosis: &DiagnosisSummary) -> (hints: Vec<HintKind>)
    ensures
        hints@ == selected_hints(*diagnosis),
        hints@.contains(HintKind::RhoAtLimit) == diagnosis.rho_at_limit,
        hints@.contains(HintKind::FrequentRetuning) == (diagnosis.rho_updates > 10),
        hints@.contains(HintKind::NumericalFailure) == (diagnosis.status
            == SolveStatus::NumericalFailure),
{
    proof {
        lemma_hints_follow_the_diagnosis(*diagnosis);
    }
    let ghost d = *diagnosis;
    let mut hints: Vec<HintKind> = Vec::new();
    push_certificate_hint(&mut hints, diagnosis);
    push_hint_if(
        &mut hints,
        diagnosis.status == SolveStatus::NumericalFailure,
        HintKind::NumericalFailure,
    );
    push_spread_hint(&mut hints, diagnosis);
    push_hint_if(&mut hints, diagnosis.rho_at_limit, HintKind::RhoAtLimit);
    assert(hints@ =~= leading_hints(d));
    push_budget_hint(&mut hints, diagnosis);
    push_hint_if(&mut hints, diagnosis.rho_updates > 10, HintKind::FrequentRetuning);
    hints
}

/// Whether a hint is advice about the iteration budget.
pub open spec fn is_budget_advice(hint: HintKind) -> bool {
    hint == HintKind::NearTolerance || hint == HintKind::PrimalDominates || hint
        == HintKind::DualDominates || hint == HintKind::FarFromTolerance
}

/// No hint before the budget advice is budget advice.
proof fn lemma_leading_hints_not_budget(d: DiagnosisSummary)
    ensures
        forall|i: int|
            0 <= i < leading_hints(d).len() ==> !is_budget_advice(#[trigger] leading_hints(d)[i]),
{
    let a = certificate_hints(d);
    let b = hint_if(d.status == SolveStatus::NumericalFailure, HintKind::NumericalFailure);
    let c = spread_hints(d);
    let e = hint_if(d.rho_at_limit, HintKind::RhoAtLimit);
    assert forall|i: int| 0 <= i < leading_hints(d).len() implies !is_budget_advice(
        #[trigger] leading_hints(d)[i],
    ) by {
        let h = leading_hints(d);
        if i < a.len() {
            assert(h[i] == a[i]);
        } else if i < a.len() + b.len() {
            assert(h[i] == b[i - a.len()]);
        } else if i < a.len() + b.len() + c.len() {
            assert(h[i] == c[i - a.len() - b.len()]);
        } else {
            assert(h[i] == e[i - a.len() - b.len() - c.len()]);
        }
    }
}

/// A solve that exhausted its iteration budget always gets exactly one
/// piece of iteration-budget advice, and no other status gets any.
pub proof fn lemma_budget_advice_only_for_max_iterations(d: DiagnosisSummary)
    ensures
        d.status == SolveStatus::MaxIterations ==> exists|k: int|
            0 <= k < selected_hints(d).len() && is_budget_advice(
                #[trigger] selected_hints(d)[k],
            ) && forall|j: int|
                0 <= j < selected_hints(d).len() && j != k ==> !is_budget_advice(
                    #[trigger] selected_hints(d)[j],
                ),
        d.status != SolveStatus::MaxIterations ==> forall|k: int|
            0 <= k < selected_hints(d).len() ==> !is_budget_advice(
                #[trigger] selected_hints(d)[k],
            ),
{
    lemma_leading_hints_not_budget(d);
    let hints = selected_hints(d);
    let before = leading_hints(d);
    let budget = budget_hints(d);
    let after = hint_if(d.rho_updates > 10, HintKind::FrequentRetuning);
    let b = before.len() as int;
    assert forall|j: int| 0 <= j < hints.len() && j != b implies !is_budget_advice(
        #[trigger] hints[j],
    ) by {
        if j < b {
            assert(hints[j] == before[j]);
        } else if j >= b + budget.len() {
            assert(hints[j] == after[j - b - budget.len()]);
        } else {
            assert(budget.len() == 1);
        }
    }
    if d.status == SolveStatus::MaxIterations {
        assert(hints[b] == budget[0]);
        assert(is_budget_advice(hints[b]));
    } else {
        assert(budget.len() == 0);
        assert forall|k: int| 0 <= k < hints.len() implies !is_budget_advice(
            #[trigger] hints[k],
        ) by {
            if k < b {
                assert(hints[k] == before[k]);
            } else {
                assert(hints[k] == after[k - b]);
            }
        }
    }
}

} // verus!
