use ledge::{conversion_layout, epigraph_rows, ConversionLayout, Formulation};

#[test]
fn dense_layout_keeps_the_original_variables() {
    assert_eq!(
        conversion_layout(4, 2, Formulation::DenseQ, false),
        ConversionLayout {
            original_variables: 4,
            variables: 4,
            lifted_rows: 0,
            epigraph_offset: 4,
            epigraph_variables: 0,
            epigraph_rows: 0,
        }
    );
}

#[test]
fn lifted_layout_appends_factor_variables_and_rows() {
    assert_eq!(
        conversion_layout(4, 2, Formulation::Lifted, false),
        ConversionLayout {
            original_variables: 4,
            variables: 6,
            lifted_rows: 2,
            epigraph_offset: 6,
            epigraph_variables: 0,
            epigraph_rows: 0,
        }
    );
}

#[test]
fn l1_layout_appends_epigraph_variables_after_the_smooth_ones() {
    assert_eq!(
        conversion_layout(4, 2, Formulation::Lifted, true),
        ConversionLayout {
            original_variables: 4,
            variables: 10,
            lifted_rows: 2,
            epigraph_offset: 6,
            epigraph_variables: 4,
            epigraph_rows: 8,
        }
    );
    assert_eq!(conversion_layout(3, 5, Formulation::DenseQ, true).variables, 6);
}

#[test]
fn epigraph_rows_bound_each_asset_from_both_sides() {
    let rows = epigraph_rows(2, 5, 1i32, -1i32);
    assert_eq!(
        rows,
        vec![
            vec![(0, 1), (5, -1)],
            vec![(1, 1), (6, -1)],
            vec![(0, -1), (5, -1)],
            vec![(1, -1), (6, -1)],
        ]
    );
    assert!(epigraph_rows(0, 3, 1i32, -1i32).is_empty());
}
