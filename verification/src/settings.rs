//! Validation of scalar solver settings.
//!
//! The numeric conditions on each setting (finite, positive, inside an
//! interval) are evaluated by the caller; this module fixes the order in
//! which settings are checked and the message each rejection carries.

use vstd::prelude::*;

verus! {

/// What validation reads from the solver settings: the integer settings
/// themselves and, for every floating-point setting, whether its condition
/// holds.
#[derive(Clone, Copy, Debug)]
pub struct SettingsSummary {
    /// Maximum number of iterations.
    pub max_iterations: usize,
    /// `absolute_tolerance` is finite and positive.
    pub absolute_tolerance_ok: bool,
    /// `relative_tolerance` is finite and non-negative.
    pub relative_tolerance_ok: bool,
    /// `rho` is finite and positive.
    pub rho_ok: bool,
    /// `sigma` is finite and positive.
    pub sigma_ok: bool,
    /// Termination-check cadence.
    pub check_termination_every: usize,
    /// Penalty-adaptation cadence.
    pub adaptive_rho_interval: usize,
    /// `adaptive_rho_tolerance` is finite and greater than one.
    pub adaptive_rho_tolerance_ok: bool,
    /// `adaptive_rho_multiplier` is finite and greater than one.
    pub adaptive_rho_multiplier_ok: bool,
    /// `over_relaxation` is finite and strictly between zero and two.
    pub over_relaxation_ok: bool,
    /// `minimum_rho` is finite and positive.
    pub minimum_rho_ok: bool,
    /// `maximum_rho` is finite and at least `minimum_rho`.
    pub maximum_rho_ok: bool,
    /// `rho` lies between `minimum_rho` and `maximum_rho`.
    pub rho_in_range: bool,
    /// `infeasibility_tolerance` is finite and non-negative.
    pub infeasibility_tolerance_ok: bool,
    /// `polish_regularization` is finite and positive.
    pub polish_regularization_ok: bool,
}

/// The settings conditions in checking order, each with its rejection
/// message.
pub open spec fn settings_conditions(s: SettingsSummary) -> Seq<(bool, &'static str)> {
    seq![
        (s.max_iterations != 0, "max_iterations must be positive"),
        (s.absolute_tolerance_ok, "absolute_tolerance must be finite and positive"),
        (s.relative_tolerance_ok, "relative_tolerance must be finite and non-negative"),
        (s.rho_ok, "rho must be finite and positive"),
        (s.sigma_ok, "sigma must be finite and positive"),
        (s.check_termination_every != 0, "check_termination_every must be positive"),
        (s.adaptive_rho_interval != 0, "adaptive_rho_interval must be positive"),
        (s.adaptive_rho_tolerance_ok, "adaptive_rho_tolerance must be finite and greater than one"),
        (
            s.adaptive_rho_multiplier_ok,
            "adaptive_rho_multiplier must be finite and greater than one",
        ),
        (s.over_relaxation_ok, "over_relaxation must lie strictly between zero and two"),
        (s.minimum_rho_ok, "minimum_rho must be finite and positive"),
        (s.maximum_rho_ok, "maximum_rho must be finite and at least minimum_rho"),
        (s.rho_in_range, "rho must lie between minimum_rho and maximum_rho"),
        (s.infeasibility_tolerance_ok, "infeasibility_tolerance must be finite and non-negative"),
        (s.polish_regularization_ok, "polish_regularization must be finite and positive"),
    ]
}

/// The message of the first failed condition, if any.
pub open spec fn first_failed(conditions: Seq<(bool, &'static str)>) -> Option<&'static str>
    decreases conditions.len(),
{
    if conditions.len() == 0 {
        None
    } else if !conditions[0].0 {
        Some(conditions[0].1)
    } else {
        first_failed(conditions.drop_first())
    }
}

proof fn lemma_first_failed_step(conditions: Seq<(bool, &'static str)>, i: int)
    requires
        0 <= i < conditions.len(),
        forall|j: int| 0 <= j < i ==> (#[trigger] conditions[j]).0,
    ensures
        !conditions[i].0 ==> first_failed(conditions) == Some(conditions[i].1),
        conditions[i].0 ==> first_failed(conditions) == first_failed(conditions.skip(i + 1)),
    decreases i,
{
    if i > 0 {
        lemma_first_failed_step(conditions.drop_first(), i - 1);
        assert(conditions.drop_first().skip(i) =~= conditions.skip(i + 1));
    } else {
        assert(conditions.skip(1) =~= conditions.drop_first());
    }
}

/// Every setting satisfies its condition.
pub open spec fn settings_valid(s: SettingsSummary) -> bool {
    &&& s.max_iterations != 0
    &&& s.absolute_tolerance_ok
    &&& s.relative_tolerance_ok
    &&& s.rho_ok
    &&& s.sigma_ok
    &&& s.check_termination_every != 0
    &&& s.adaptive_rho_interval != 0
    &&& s.adaptive_rho_tolerance_ok
    &&& s.adaptive_rho_multiplier_ok
    &&& s.over_relaxation_ok
    &&& s.minimum_rho_ok
    &&& s.maximum_rho_ok
    &&& s.rho_in_range
    &&& s.infeasibility_tolerance_ok
    &&& s.polish_regularization_ok
}

/// Settings are accepted exactly when every setting satisfies its
/// condition; a zero iteration budget is the first thing reported, and a
/// penalty outside its range is reported once every setting it depends on
/// is valid.
pub proof fn lemma_settings_accepted_iff_valid(s: SettingsSummary)
    ensures
        first_failed(settings_conditions(s)) is None <==> settings_valid(s),
        s.max_iterations == 0 ==> first_failed(settings_conditions(s)) == Some(
            "max_iterations must be positive",
        ),
        s.max_iterations != 0 && s.absolute_tolerance_ok && s.relative_tolerance_ok && s.rho_ok && s.sigma_ok && s.check_termination_every != 0
            && s.adaptive_rho_interval != 0 && s.adaptive_rho_tolerance_ok
            && s.adaptive_rho_multiplier_ok && s.over_relaxation_ok && s.minimum_rho_ok
            && s.maximum_rho_ok && !s.rho_in_range ==> first_failed(settings_conditions(s))
            == Some("rho must lie between minimum_rho and maximum_rho"),
{
    reveal_with_fuel(first_failed, 16);
}

/// Validates scalar solver settings shared by every solve path, reporting
/// the first violated condition.
pub fn validate_settings(settings: &SettingsSummary) -> (result: Result<(), &'static str>)
    ensures
        match first_failed(settings_conditions(*settings)) {
            None => result is Ok,
            Some(message) => result == Err::<(), &'static str>(message),
        },
        result is Ok <==> settings_valid(*settings),
{
    proof {
        lemma_settings_accepted_iff_valid(*settings);
    }
    let conditions: [(bool, &'static str); 15] = [
        (settings.max_iterations != 0, "max_iterations must be positive"),
        (settings.absolute_tolerance_ok, "absolute_tolerance must be finite and positive"),
        (settings.relative_tolerance_ok, "relative_tolerance must be finite and non-negative"),
        (settings.rho_ok, "rho must be finite and positive"),
        (settings.sigma_ok, "sigma must be finite and positive"),
        (settings.check_termination_every != 0, "check_termination_every must be positive"),
        (settings.adaptive_rho_interval != 0, "adaptive_rho_interval must be positive"),
        (
            settings.adaptive_rho_tolerance_ok,
            "adaptive_rho_tolerance must be finite and greater than one",
        ),
        (
            settings.adaptive_rho_multiplier_ok,
            "adaptive_rho_multiplier must be finite and greater than one",
        ),
        (settings.over_relaxation_ok, "over_relaxation must lie strictly between zero and two"),
        (settings.minimum_rho_ok, "minimum_rho must be finite and positive"),
        (settings.maximum_rho_ok, "maximum_rho must be finite and at least minimum_rho"),
        (settings.rho_in_range, "rho must lie between minimum_rho and maximum_rho"),
        (
            settings.infeasibility_tolerance_ok,
            "infeasibility_tolerance must be finite and non-negative",
        ),
        (settings.polish_regularization_ok, "polish_regularization must be finite and positive"),
    ];
    let ghost all = settings_conditions(*settings);
    assert(conditions@ =~= all);
    let mut i: usize = 0;
    while i < 15
        invariant
            i <= 15,
            conditions@ == all,
            all == settings_conditions(*settings),
            all.len() == 15,
            forall|j: int| 0 <= j < i ==> (#[trigger] all[j]).0,
        decreases 15 - i,
    {
        let condition = conditions[i];
        let holds = condition.0;
        let message = condition.1;
        proof {
            assert(condition == conditions@[i as int]);
            lemma_first_failed_step(all, i as int);
        }
        if !holds {
            return Err(message);
        }
        i = i + 1;
    }
    proof {
        lemma_first_failed_step(all, 14);
        assert(all.skip(15).len() == 0);
    }
    Ok(())
}

} // verus!
