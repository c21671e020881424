use ledge::{plan_build, ArgumentPresence, BuildPlan, IndustryTemplate, PairingError};

fn none() -> ArgumentPresence {
    ArgumentPresence {
        lower_bounds: false,
        upper_bounds: false,
        equality_matrix: false,
        equality_rhs: false,
        inequality_matrix: false,
        inequality_rhs: false,
        previous_weights: false,
        turnover_penalty_nonzero: false,
        l1_turnover_costs: false,
        industry_ids: false,
        industry_targets: false,
        style_matrix: false,
        style_lower: false,
        style_upper: false,
    }
}

#[test]
fn bare_description_plans_nothing() {
    assert_eq!(
        plan_build(none()),
        Ok(BuildPlan {
            bounds: false,
            equalities: false,
            inequalities: false,
            quadratic_turnover: false,
            l1_turnover: false,
            industry: IndustryTemplate::Absent,
            style_bounds: false,
        })
    );
}

#[test]
fn full_description_plans_every_step() {
    let args = ArgumentPresence {
        lower_bounds: true,
        upper_bounds: true,
        equality_matrix: true,
        equality_rhs: true,
        inequality_matrix: true,
        inequality_rhs: true,
        previous_weights: true,
        turnover_penalty_nonzero: true,
        l1_turnover_costs: true,
        industry_ids: true,
        industry_targets: true,
        style_matrix: true,
        style_lower: true,
        style_upper: true,
    };
    assert_eq!(
        plan_build(args),
        Ok(BuildPlan {
            bounds: true,
            equalities: true,
            inequalities: true,
            quadratic_turnover: true,
            l1_turnover: true,
            industry: IndustryTemplate::Targets,
            style_bounds: true,
        })
    );
    let neutral = ArgumentPresence { industry_targets: false, ..args };
    assert_eq!(plan_build(neutral).unwrap().industry, IndustryTemplate::Neutrality);
    // Previous weights with a zero penalty still add the quadratic term.
    let anchored = ArgumentPresence { previous_weights: true, ..none() };
    assert!(plan_build(anchored).unwrap().quadratic_turnover);
}

#[test]
fn every_broken_pairing_is_named() {
    let cases = [
        (ArgumentPresence { lower_bounds: true, ..none() }, PairingError::Bounds),
        (ArgumentPresence { upper_bounds: true, ..none() }, PairingError::Bounds),
        (ArgumentPresence { equality_rhs: true, ..none() }, PairingError::Equalities),
        (ArgumentPresence { inequality_matrix: true, ..none() }, PairingError::Inequalities),
        (
            ArgumentPresence { turnover_penalty_nonzero: true, ..none() },
            PairingError::TurnoverWithoutAnchor,
        ),
        (ArgumentPresence { l1_turnover_costs: true, ..none() }, PairingError::L1WithoutAnchor),
        (ArgumentPresence { industry_targets: true, ..none() }, PairingError::TargetsWithoutIds),
        (ArgumentPresence { style_matrix: true, style_lower: true, ..none() }, PairingError::Style),
        (ArgumentPresence { style_upper: true, ..none() }, PairingError::Style),
    ];
    for (args, error) in cases {
        assert_eq!(plan_build(args), Err(error));
    }
}

#[test]
fn the_first_broken_pairing_wins() {
    let args = ArgumentPresence {
        equality_matrix: true,
        industry_targets: true,
        style_lower: true,
        ..none()
    };
    assert_eq!(plan_build(args), Err(PairingError::Equalities));
    let args = ArgumentPresence { turnover_penalty_nonzero: true, l1_turnover_costs: true, ..none() };
    assert_eq!(plan_build(args), Err(PairingError::TurnoverWithoutAnchor));
}

#[test]
fn pairing_errors_read_as_the_front_end_words_them() {
    assert_eq!(
        PairingError::Bounds.message(),
        "lower_bounds and upper_bounds must be provided together"
    );
    assert_eq!(
        PairingError::TurnoverWithoutAnchor.message(),
        "previous_weights is required when turnover_penalty is non-zero"
    );
    assert_eq!(PairingError::TargetsWithoutIds.message(), "industry_targets requires industry_ids");
    assert_eq!(
        PairingError::Style.message(),
        "style_matrix, style_lower, and style_upper must be provided together"
    );
}
