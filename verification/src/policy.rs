//! Decisions the solver loop and the rolling drivers take between numerical
//! steps: when to audit an iterate, when to re-tune the penalty, which
//! solves seed the next warm start, and where a chained account anchors its
//! turnover terms.

use vstd::prelude::*;

use crate::labels::SolveStatus;

verus! {

/// Whether iteration `iteration` (1-based) evaluates the termination
/// criteria: every `check_every` iterations and always on the last one.
pub fn termination_check_due(iteration: usize, check_every: usize, max_iterations: usize) -> (due:
    bool)
    requires
        check_every > 0,
    ensures
        due == (iteration % check_every == 0 || iteration == max_iterations),
{
    iteration % check_every == 0 || iteration == max_iterations
}

/// Whether iteration `iteration` (1-based) considers a penalty update:
/// only with adaptation enabled, every `interval` iterations, and never on
/// the last iteration (whose penalty would go unused).
pub fn rho_adaptation_due(
    adaptive: bool,
    iteration: usize,
    interval: usize,
    max_iterations: usize,
) -> (due: bool)
    requires
        interval > 0,
    ensures
        due == (adaptive && iteration % interval == 0 && iteration < max_iterations),
{
    adaptive && iteration % interval == 0 && iteration < max_iterations
}

/// Whether a solve with this status seeds the next date's warm start.
///
/// A numerical failure holds non-finite values, and an infeasible date's
/// multipliers diverge along the certificate ray; both restart the next
/// solve cold.
pub fn seeds_warm_start(status: SolveStatus) -> (seeds: bool)
    ensures
        seeds == (status == SolveStatus::Solved || status == SolveStatus::MaxIterations),
{
    match status {
        SolveStatus::Solved | SolveStatus::MaxIterations => true,
        _ => false,
    }
}

/// Whether a solve with this status is reported with convergence
/// diagnostics: every status except `Solved`.
pub fn needs_diagnostics(status: SolveStatus) -> (needed: bool)
    ensures
        needed == (status != SolveStatus::Solved),
{
    match status {
        SolveStatus::Solved => false,
        _ => true,
    }
}

/// A batch account asked to chain anchors when its problem has no turnover
/// term to move.
#[derive(Clone, Copy, Debug, PartialEq, Eq)]
pub struct ChainWithoutAnchor;

/// The weights of the latest `Solved` outcome in `outcomes`, if any date
/// reached `Solved`.
pub open spec fn latest_solved<W>(outcomes: Seq<(SolveStatus, W)>) -> Option<W>
    decreases outcomes.len(),
{
    if outcomes.len() == 0 {
        None
    } else if outcomes.last().0 == SolveStatus::Solved {
        Some(outcomes.last().1)
    } else {
        latest_solved(outcomes.drop_last())
    }
}

/// The anchor a chained account carries into the date after `outcomes` is
/// the solution of its latest `Solved` date: that date is `Solved` with
/// exactly those weights and no later date is `Solved`; with no `Solved`
/// date at all, there is no anchor.
pub proof fn latest_solved_is_last_solved_date<W>(outcomes: Seq<(SolveStatus, W)>)
    ensures
        latest_solved(outcomes) is None <==> (forall|k: int|
            0 <= k < outcomes.len() ==> #[trigger] outcomes[k].0 != SolveStatus::Solved),
        latest_solved(outcomes) is Some ==> exists|i: int|
            0 <= i < outcomes.len() && #[trigger] outcomes[i].0 == SolveStatus::Solved
                && outcomes[i].1 == latest_solved(outcomes)->0 && (forall|k: int|
                i < k < outcomes.len() ==> #[trigger] outcomes[k].0 != SolveStatus::Solved),
    decreases outcomes.len(),
{
    if outcomes.len() > 0 {
        let rest = outcomes.drop_last();
        latest_solved_is_last_solved_date(rest);
        let n = outcomes.len() - 1;
        if outcomes[n].0 == SolveStatus::Solved {
            assert(outcomes[n].0 == SolveStatus::Solved && outcomes[n].1 == latest_solved(
                outcomes,
            )->0);
        } else {
            assert forall|k: int| 0 <= k < rest.len() implies #[trigger] outcomes[k] == rest[k] by {}
            if latest_solved(rest) is Some {
                let i = choose|i: int|
                    0 <= i < rest.len() && #[trigger] rest[i].0 == SolveStatus::Solved
                        && rest[i].1 == latest_solved(rest)->0 && (forall|k: int|
                        i < k < rest.len() ==> #[trigger] rest[k].0 != SolveStatus::Solved);
                assert(outcomes[i] == rest[i]);
                assert forall|k: int| i < k < outcomes.len() implies #[trigger] outcomes[k].0
                    != SolveStatus::Solved by {
                    if k < rest.len() {
                        assert(rest[k].0 != SolveStatus::Solved);
                    }
                }
            } else {
                assert forall|k: int| 0 <= k < outcomes.len() implies #[trigger] outcomes[k].0
                    != SolveStatus::Solved by {
                    if k < rest.len() {
                        assert(rest[k].0 != SolveStatus::Solved);
                    }
                }
            }
        }
    }
}

/// Turnover-anchor chaining of one batch account across its dates.
///
/// With chaining on, every date after a `Solved` one anchors the turnover
/// terms at the weights of the latest `Solved` date — unless the step
/// supplies previous weights itself, which win. Dates that did not reach
/// `Solved` leave the anchor where it was, because the account did not
/// trade.
pub struct AnchorChain<W> {
    chain: bool,
    held: Option<W>,
    outcomes: Ghost<Seq<(SolveStatus, W)>>,
}

impl<W> AnchorChain<W> {
    /// The held weights are always those of the latest solved date of a
    /// chained account, and nothing for an unchained one.
    #[verifier::type_invariant]
    spec fn held_is_latest_solved(self) -> bool {
        self.held == if self.chain {
            latest_solved(self.outcomes@)
        } else {
            None
        }
    }

    /// Whether chaining is on.
    pub closed spec fn chaining(&self) -> bool {
        self.chain
    }

    /// The weights the account holds after its last solved date, if any.
    pub closed spec fn holding(&self) -> Option<W> {
        self.held
    }

    /// Every date recorded so far: its status and its solution weights.
    pub closed spec fn history(&self) -> Seq<(SolveStatus, W)> {
        self.outcomes@
    }

    /// Starts an account. Chaining needs a problem built with a turnover
    /// term, because otherwise there is no anchor to move.
    pub fn start(chain: bool, has_turnover_anchor: bool) -> (result: Result<
        Self,
        ChainWithoutAnchor,
    >)
        ensures
            chain && !has_turnover_anchor ==> result is Err,
            !(chain && !has_turnover_anchor) ==> (result matches Ok(state) && state.chaining()
                == chain && state.holding() is None && state.history() == Seq::<
                (SolveStatus, W),
            >::empty()),
    {
        if chain && !has_turnover_anchor {
            return Err(ChainWithoutAnchor);
        }
        Ok(AnchorChain { chain, held: None, outcomes: Ghost(Seq::empty()) })
    }

    /// The anchor to substitute into a step, or `None` to use the step as
    /// given: chaining must be on, the step must not carry its own previous
    /// weights, and some date must have been solved already. The anchor is
    /// the solution of the latest solved date recorded so far.
    pub fn anchor_for_step(&self, step_has_anchor: bool) -> (anchor: Option<&W>)
        ensures
            (self.chaining() && !step_has_anchor && self.holding() is Some) ==> anchor == Some(
                &self.holding()->0,
            ),
            !(self.chaining() && !step_has_anchor && self.holding() is Some) ==> anchor is None,
            (self.chaining() && !step_has_anchor) ==> (match latest_solved(self.history()) {
                Some(weights) => anchor == Some(&weights),
                None => anchor is None,
            }),
    {
        proof {
            use_type_invariant(self);
        }
        if self.chain && !step_has_anchor {
            match &self.held {
                Some(weights) => Some(weights),
                None => None,
            }
        } else {
            None
        }
    }

    /// Records the outcome of one date: a `Solved` date moves the held
    /// weights when chaining; anything else leaves them where they were.
    pub fn record(&mut self, status: SolveStatus, weights: W)
        ensures
            final(self).chaining() == old(self).chaining(),
            final(self).history() == old(self).history().push((status, weights)),
            (old(self).chaining() && status == SolveStatus::Solved) ==> final(self).holding()
                == Some(weights),
            !(old(self).chaining() && status == SolveStatus::Solved) ==> final(self).holding()
                == old(self).holding(),
            final(self).chaining() ==> final(self).holding() == latest_solved(
                final(self).history(),
            ),
    {
        proof {
            use_type_invariant(&*self);
        }
        let ghost pushed = self.outcomes@.push((status, weights));
        assert(pushed.drop_last() =~= self.outcomes@);
        if self.chain && status == SolveStatus::Solved {
            *self = AnchorChain { chain: true, held: Some(weights), outcomes: Ghost(pushed) };
        } else {
            self.outcomes = Ghost(pushed);
        }
    }
}

} // verus!
