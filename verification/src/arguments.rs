//! Which optional arguments of a problem description go together.
//!
//! A problem described by optional arguments (as a scripting front end
//! passes them) is built in a fixed order: bounds, equality rows,
//! inequality rows, quadratic turnover, L1 turnover, the industry template
//! and the style template. Some arguments only mean something together;
//! the first broken pairing, in that order, rejects the description.

use vstd::prelude::*;

verus! {

/// Which optional arguments were supplied.
#[derive(Clone, Copy, Debug, PartialEq, Eq, Structural)]
pub struct ArgumentPresence {
    /// Per-asset lower bounds.
    pub lower_bounds: bool,
    /// Per-asset upper bounds.
    pub upper_bounds: bool,
    /// Equality constraint matrix.
    pub equality_matrix: bool,
    /// Equality right-hand side.
    pub equality_rhs: bool,
    /// Inequality constraint matrix.
    pub inequality_matrix: bool,
    /// Inequality right-hand side.
    pub inequality_rhs: bool,
    /// Previous weights (the turnover anchor).
    pub previous_weights: bool,
    /// Whether the quadratic turnover penalty is non-zero.
    pub turnover_penalty_nonzero: bool,
    /// L1 turnover costs.
    pub l1_turnover_costs: bool,
    /// Industry ids.
    pub industry_ids: bool,
    /// Industry targets.
    pub industry_targets: bool,
    /// Style exposure matrix.
    pub style_matrix: bool,
    /// Style lower bounds.
    pub style_lower: bool,
    /// Style upper bounds.
    pub style_upper: bool,
}

/// How the industry template is applied.
#[derive(Clone, Copy, Debug, PartialEq, Eq, Structural)]
pub enum IndustryTemplate {
    /// No industry template.
    Absent,
    /// Group exposures pinned at the supplied targets.
    Targets,
    /// Group exposures pinned at the benchmark's (or zero).
    Neutrality,
}

/// The builder steps a well-paired description asks for.
#[derive(Clone, Copy, Debug, PartialEq, Eq, Structural)]
pub struct BuildPlan {
    /// Apply per-asset bounds.
    pub bounds: bool,
    /// Add equality rows.
    pub equalities: bool,
    /// Add inequality rows.
    pub inequalities: bool,
    /// Add a quadratic turnover term at the previous weights.
    pub quadratic_turnover: bool,
    /// Add an L1 turnover term at the previous weights.
    pub l1_turnover: bool,
    /// The industry template.
    pub industry: IndustryTemplate,
    /// Add style bands.
    pub style_bounds: bool,
}

/// A broken pairing of optional arguments.
#[derive(Clone, Copy, Debug, PartialEq, Eq, Structural)]
pub enum PairingError {
    /// Only one of the two bound vectors was supplied.
    Bounds,
    /// Only one of the equality matrix and right-hand side was supplied.
    Equalities,
    /// Only one of the inequality matrix and right-hand side was supplied.
    Inequalities,
    /// A non-zero turnover penalty without previous weights.
    TurnoverWithoutAnchor,
    /// L1 turnover costs without previous weights.
    L1WithoutAnchor,
    /// Industry targets without industry ids.
    TargetsWithoutIds,
    /// Some but not all of the style matrix and bounds.
    Style,
}

/// The first broken pairing of `args`, in building order.
pub open spec fn pairing_error(args: ArgumentPresence) -> Option<PairingError> {
    if args.lower_bounds != args.upper_bounds {
        Some(PairingError::Bounds)
    } else if args.equality_matrix != args.equality_rhs {
        Some(PairingError::Equalities)
    } else if args.inequality_matrix != args.inequality_rhs {
        Some(PairingError::Inequalities)
    } else if !args.previous_weights && args.turnover_penalty_nonzero {
        Some(PairingError::TurnoverWithoutAnchor)
    } else if !args.previous_weights && args.l1_turnover_costs {
        Some(PairingError::L1WithoutAnchor)
    } else if !args.industry_ids && args.industry_targets {
        Some(PairingError::TargetsWithoutIds)
    } else if !(args.style_matrix == args.style_lower && args.style_lower == args.style_upper) {
        Some(PairingError::Style)
    } else {
        None
    }
}

/// The builder steps of a well-paired description.
pub open spec fn build_plan(args: ArgumentPresence) -> BuildPlan {
    BuildPlan {
        bounds: args.lower_bounds,
        equalities: args.equality_matrix,
        inequalities: args.inequality_matrix,
        quadratic_turnover: args.previous_weights,
        l1_turnover: args.l1_turnover_costs,
        industry: if !args.industry_ids {
            IndustryTemplate::Absent
        } else if args.industry_targets {
            IndustryTemplate::Targets
        } else {
            IndustryTemplate::Neutrality
        },
        style_bounds: args.style_matrix,
    }
}

/// Every pairing holds: both parts or neither of each pair, previous
/// weights under any turnover term, ids under targets, and all three style
/// parts or none.
pub open spec fn well_paired(args: ArgumentPresence) -> bool {
    &&& args.lower_bounds == args.upper_bounds
    &&& args.equality_matrix == args.equality_rhs
    &&& args.inequality_matrix == args.inequality_rhs
    &&& (args.turnover_penalty_nonzero ==> args.previous_weights)
    &&& (args.l1_turnover_costs ==> args.previous_weights)
    &&& (args.industry_targets ==> args.industry_ids)
    &&& args.style_matrix == args.style_lower
    &&& args.style_lower == args.style_upper
}

/// The rejections of a description, in building order: bounds, equality
/// rows, inequality rows, the quadratic and then the L1 turnover anchor,
/// the industry template, the style template.
pub open spec fn pairing_rejection_order(args: ArgumentPresence) -> bool {
    let found = pairing_error(args);
    let bounds_ok = args.lower_bounds == args.upper_bounds;
    let equalities_ok = bounds_ok && args.equality_matrix == args.equality_rhs;
    let inequalities_ok = equalities_ok && args.inequality_matrix == args.inequality_rhs;
    let quadratic_ok = inequalities_ok && (args.turnover_penalty_nonzero ==> args.previous_weights);
    let l1_ok = quadratic_ok && (args.l1_turnover_costs ==> args.previous_weights);
    let industry_ok = l1_ok && (args.industry_targets ==> args.industry_ids);
    &&& !bounds_ok ==> found == Some(PairingError::Bounds)
    &&& (bounds_ok && !equalities_ok) ==> found == Some(PairingError::Equalities)
    &&& (equalities_ok && !inequalities_ok) ==> found == Some(PairingError::Inequalities)
    &&& (inequalities_ok && !quadratic_ok) ==> found == Some(PairingError::TurnoverWithoutAnchor)
    &&& (quadratic_ok && !l1_ok) ==> found == Some(PairingError::L1WithoutAnchor)
    &&& (l1_ok && !industry_ok) ==> found == Some(PairingError::TargetsWithoutIds)
    &&& (industry_ok && !well_paired(args)) ==> found == Some(PairingError::Style)
}

/// A description is accepted exactly when every pairing holds, and an
/// accepted description builds every part it supplies and nothing else:
/// bounds, rows and style bands when supplied; the quadratic turnover term
/// whenever previous weights are supplied (a zero penalty included); the
/// L1 term whenever costs are supplied, whatever the quadratic penalty;
/// industry targets when targets come with ids, neutrality when ids come
/// alone. A rejection names a pairing that is broken.
pub proof fn lemma_plan_follows_arguments(args: ArgumentPresence)
    ensures
        pairing_error(args) is None <==> well_paired(args),
        pairing_error(args) matches Some(error) ==> match error {
            PairingError::Bounds => args.lower_bounds != args.upper_bounds,
            PairingError::Equalities => args.equality_matrix != args.equality_rhs,
            PairingError::Inequalities => args.inequality_matrix != args.inequality_rhs,
            PairingError::TurnoverWithoutAnchor => args.turnover_penalty_nonzero
                && !args.previous_weights,
            PairingError::L1WithoutAnchor => args.l1_turnover_costs && !args.previous_weights,
            PairingError::TargetsWithoutIds => args.industry_targets && !args.industry_ids,
            PairingError::Style => !(args.style_matrix == args.style_lower && args.style_lower
                == args.style_upper),
        },
        pairing_rejection_order(args),
        well_paired(args) ==> {
            let plan = build_plan(args);
            &&& plan.bounds == (args.lower_bounds && args.upper_bounds)
            &&& plan.equalities == (args.equality_matrix && args.equality_rhs)
            &&& plan.inequalities == (args.inequality_matrix && args.inequality_rhs)
            &&& plan.quadratic_turnover == args.previous_weights
            &&& plan.l1_turnover == args.l1_turnover_costs
            &&& (plan.industry == IndustryTemplate::Absent) == !args.industry_ids
            &&& (plan.industry == IndustryTemplate::Targets) == (args.industry_ids
                && args.industry_targets)
            &&& (plan.industry == IndustryTemplate::Neutrality) == (args.industry_ids
                && !args.industry_targets)
            &&& plan.style_bounds == (args.style_matrix && args.style_lower && args.style_upper)
        },
{
}

/// Checks how the optional arguments pair up and plans the builder steps:
/// the first broken pairing in building order, or the steps to take.
pub fn plan_build(args: ArgumentPresence) -> (result: Result<BuildPlan, PairingError>)
    ensures
        result == match pairing_error(args) {
            Some(error) => Err::<BuildPlan, PairingError>(error),
            None => Ok(build_plan(args)),
        },
        result is Ok <==> well_paired(args),
        pairing_rejection_order(args),
        result matches Ok(plan) ==> {
            &&& plan.bounds == (args.lower_bounds && args.upper_bounds)
            &&& plan.equalities == (args.equality_matrix && args.equality_rhs)
            &&& plan.inequalities == (args.inequality_matrix && args.inequality_rhs)
            &&& plan.quadratic_turnover == args.previous_weights
            &&& plan.l1_turnover == args.l1_turnover_costs
            &&& (plan.industry == IndustryTemplate::Absent) == !args.industry_ids
            &&& (plan.industry == IndustryTemplate::Targets) == (args.industry_ids
                && args.industry_targets)
            &&& (plan.industry == IndustryTemplate::Neutrality) == (args.industry_ids
                && !args.industry_targets)
            &&& plan.style_bounds == (args.style_matrix && args.style_lower && args.style_upper)
        },
{
    proof {
        lemma_plan_follows_arguments(args);
    }
    if args.lower_bounds != args.upper_bounds {
        return Err(PairingError::Bounds);
    }
    if args.equality_matrix != args.equality_rhs {
        return Err(PairingError::Equalities);
    }
    if args.inequality_matrix != args.inequality_rhs {
        return Err(PairingError::Inequalities);
    }
    if !args.previous_weights && args.turnover_penalty_nonzero {
        return Err(PairingError::TurnoverWithoutAnchor);
    }
    if !args.previous_weights && args.l1_turnover_costs {
        return Err(PairingError::L1WithoutAnchor);
    }
    if !args.industry_ids && args.industry_targets {
        return Err(PairingError::TargetsWithoutIds);
    }
    if !(args.style_matrix == args.style_lower && args.style_lower == args.style_upper) {
        return Err(PairingError::Style);
    }
    let industry = if !args.industry_ids {
        IndustryTemplate::Absent
    } else if args.industry_targets {
        IndustryTemplate::Targets
    } else {
        IndustryTemplate::Neutrality
    };
    Ok(
        BuildPlan {
            bounds: args.lower_bounds,
            equalities: args.equality_matrix,
            inequalities: args.inequality_matrix,
            quadratic_turnover: args.previous_weights,
            l1_turnover: args.l1_turnover_costs,
            industry,
            style_bounds: args.style_matrix,
        },
    )
}

/// The text of a broken pairing.
pub open spec fn pairing_error_text(error: PairingError) -> Seq<char> {
    match error {
        PairingError::Bounds => "lower_bounds and upper_bounds must be provided together"@,
        PairingError::Equalities => "equality_matrix and equality_rhs must be provided together"@,
        PairingError::Inequalities =>
            "inequality_matrix and inequality_rhs must be provided together"@,
        PairingError::TurnoverWithoutAnchor =>
            "previous_weights is required when turnover_penalty is non-zero"@,
        PairingError::L1WithoutAnchor =>
            "previous_weights is required when l1_turnover_costs is provided"@,
        PairingError::TargetsWithoutIds => "industry_targets requires industry_ids"@,
        PairingError::Style =>
            "style_matrix, style_lower, and style_upper must be provided together"@,
    }
}

impl PairingError {
    /// The error's text, as a user reads it.
    pub fn message(&self) -> (text: &'static str)
        ensures
            text@ == pairing_error_text(*self),
    {
        match self {
            PairingError::Bounds => "lower_bounds and upper_bounds must be provided together",
            PairingError::Equalities =>
                "equality_matrix and equality_rhs must be provided together",
            PairingError::Inequalities =>
                "inequality_matrix and inequality_rhs must be provided together",
            PairingError::TurnoverWithoutAnchor =>
                "previous_weights is required when turnover_penalty is non-zero",
            PairingError::L1WithoutAnchor =>
                "previous_weights is required when l1_turnover_costs is provided",
            PairingError::TargetsWithoutIds => "industry_targets requires industry_ids",
            PairingError::Style =>
                "style_matrix, style_lower, and style_upper must be provided together",
        }
    }
}

} // verus!
