use ledge::{csc_from_rows, SparseRow};

#[test]
fn csc_stacks_blocks_and_sorts_rows_per_column() {
    let equalities: Vec<SparseRow<f64>> = vec![vec![(0, 1.0), (1, 1.0), (2, 1.0)]];
    let inequalities: Vec<SparseRow<f64>> =
        vec![vec![(2, 4.0), (0, 2.0)], vec![(1, -1.0), (3, -1.0)]];
    let csc = csc_from_rows(4, &[&equalities, &inequalities]);
    assert_eq!(csc.rows, 3);
    assert_eq!(csc.cols, 4);
    assert_eq!(csc.indptr, vec![0, 2, 4, 6, 7]);
    assert_eq!(csc.indices, vec![0, 1, 0, 2, 0, 1, 2]);
    assert_eq!(csc.values, vec![1.0, 2.0, 1.0, -1.0, 1.0, 4.0, -1.0]);
}

#[test]
fn csc_of_no_rows_has_empty_columns() {
    let none: Vec<SparseRow<f64>> = Vec::new();
    let csc = csc_from_rows(3, &[&none]);
    assert_eq!(csc.rows, 0);
    assert_eq!(csc.indptr, vec![0, 0, 0, 0]);
    assert!(csc.indices.is_empty());
    assert!(csc.values.is_empty());
}
