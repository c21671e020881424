use ledge::{
    check_groups_populated, group_count, group_indicator_rows, validate_group_ids, DimensionError,
    TemplateError,
};

#[test]
fn group_ids_must_cover_every_asset() {
    let error = validate_group_ids("industries", &[0, 1], 3, None).unwrap_err();
    assert_eq!(
        error,
        TemplateError::Dimension(DimensionError { field: "industries", expected: 3, actual: 2 })
    );
    assert_eq!(validate_group_ids("industries", &[0, 5, 1], 3, None), Ok(()));
}

#[test]
fn group_ids_must_stay_below_the_target_count() {
    let error = validate_group_ids("groups", &[0, 3, 1, 4], 4, Some(2)).unwrap_err();
    assert_eq!(
        error,
        TemplateError::Template("groups contains id 3 but only 2 target(s) were supplied".to_owned())
    );
    assert_eq!(validate_group_ids("groups", &[0, 1, 1, 0], 4, Some(2)), Ok(()));
}

#[test]
fn group_count_is_the_largest_id_plus_one() {
    assert_eq!(group_count(&[]), 0);
    assert_eq!(group_count(&[0, 0]), 1);
    assert_eq!(group_count(&[2, 0, 1, 2]), 3);
}

#[test]
fn groups_without_members_are_rejected() {
    let error = check_groups_populated("industries", &[0, 2, 2, 0], 4).unwrap_err();
    assert_eq!(
        error,
        TemplateError::Template(
            "industries group 1 has no member assets; its row would read 0 = target".to_owned()
        )
    );
    assert_eq!(check_groups_populated("groups", &[1, 0, 1], 2), Ok(()));
}

#[test]
fn indicator_rows_mark_member_assets() {
    let rows = group_indicator_rows(&[1, 0, 1], 2, 3, 0.0, 1.0);
    assert_eq!(rows, vec![vec![0.0, 1.0, 0.0], vec![1.0, 0.0, 1.0]]);
}
