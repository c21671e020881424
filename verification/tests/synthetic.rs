use ledge::{check_synthetic_dimensions, instance_name, FACTORS_OUT_OF_RANGE, NO_ASSETS};

#[test]
fn synthetic_dimensions_are_checked_in_order() {
    assert_eq!(check_synthetic_dimensions(0, 0), Err(NO_ASSETS));
    assert_eq!(check_synthetic_dimensions(10, 0), Err(FACTORS_OUT_OF_RANGE));
    assert_eq!(check_synthetic_dimensions(10, 11), Err(FACTORS_OUT_OF_RANGE));
    assert_eq!(check_synthetic_dimensions(10, 10), Ok(()));
    assert_eq!(NO_ASSETS, "assets must be positive");
}

#[test]
fn instance_names_carry_dimensions_and_seed() {
    assert_eq!(instance_name(100, 10, 42), "factor-n100-k10-s42");
    assert_eq!(instance_name(5000, 100, 11), "factor-n5000-k100-s11");
}
