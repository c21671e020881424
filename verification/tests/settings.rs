use ledge::{validate_settings, SettingsSummary};

fn good() -> SettingsSummary {
    SettingsSummary {
        max_iterations: 4000,
        absolute_tolerance_ok: true,
        relative_tolerance_ok: true,
        rho_ok: true,
        sigma_ok: true,
        check_termination_every: 25,
        adaptive_rho_interval: 25,
        adaptive_rho_tolerance_ok: true,
        adaptive_rho_multiplier_ok: true,
        over_relaxation_ok: true,
        minimum_rho_ok: true,
        maximum_rho_ok: true,
        rho_in_range: true,
        infeasibility_tolerance_ok: true,
        polish_regularization_ok: true,
    }
}

#[test]
fn default_like_settings_are_accepted() {
    assert_eq!(validate_settings(&good()), Ok(()));
}

#[test]
fn zero_iteration_budget_is_rejected() {
    let settings = SettingsSummary { max_iterations: 0, ..good() };
    assert_eq!(validate_settings(&settings), Err("max_iterations must be positive"));
}

#[test]
fn first_failed_setting_is_reported() {
    let settings = SettingsSummary {
        sigma_ok: false,
        rho_in_range: false,
        polish_regularization_ok: false,
        ..good()
    };
    assert_eq!(validate_settings(&settings), Err("sigma must be finite and positive"));
    let settings = SettingsSummary { rho_in_range: false, polish_regularization_ok: false, ..good() };
    assert_eq!(
        validate_settings(&settings),
        Err("rho must lie between minimum_rho and maximum_rho")
    );
    let settings = SettingsSummary { polish_regularization_ok: false, ..good() };
    assert_eq!(
        validate_settings(&settings),
        Err("polish_regularization must be finite and positive")
    );
    let settings = SettingsSummary { check_termination_every: 0, ..good() };
    assert_eq!(validate_settings(&settings), Err("check_termination_every must be positive"));
    let settings = SettingsSummary { over_relaxation_ok: false, ..good() };
    assert_eq!(
        validate_settings(&settings),
        Err("over_relaxation must lie strictly between zero and two")
    );
}
