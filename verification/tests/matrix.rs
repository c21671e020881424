use ledge::{append_constraint_rows, ConstraintError, DimensionError, LinearConstraints, Matrix, MatrixError};

#[test]
fn new_accepts_matching_data() {
    let matrix = Matrix::new(2, 3, vec![1.0, 2.0, 3.0, 4.0, 5.0, 6.0]).unwrap();
    assert_eq!(matrix.rows(), 2);
    assert_eq!(matrix.cols(), 3);
    assert_eq!(matrix.row(1), &[4.0, 5.0, 6.0]);
    assert_eq!(*matrix.get(0, 2), 3.0);
    assert_eq!(matrix.as_slice(), &[1.0, 2.0, 3.0, 4.0, 5.0, 6.0]);
}

#[test]
fn new_rejects_wrong_length() {
    let error = Matrix::new(2, 3, vec![1.0, 2.0]).unwrap_err();
    assert_eq!(
        error,
        MatrixError::InvalidShape { rows: 2, cols: 3, expected: 6, actual: 2 }
    );
}

#[test]
fn new_rejects_overflowing_dimensions() {
    let error = Matrix::<f64>::new(usize::MAX, 2, Vec::new()).unwrap_err();
    assert_eq!(error, MatrixError::DimensionsOverflow { rows: usize::MAX, cols: 2 });
}

#[test]
fn from_rows_stacks_rows_in_order() {
    let matrix = Matrix::from_rows(vec![vec![1, 2], vec![3, 4], vec![5, 6]]).unwrap();
    assert_eq!(matrix.rows(), 3);
    assert_eq!(matrix.cols(), 2);
    assert_eq!(matrix.as_slice(), &[1, 2, 3, 4, 5, 6]);
    assert_eq!(*matrix.get(2, 0), 5);
}

#[test]
fn from_rows_names_the_first_ragged_row() {
    let error = Matrix::from_rows(vec![vec![1.0, 2.0], vec![3.0], vec![4.0]]).unwrap_err();
    assert_eq!(error, MatrixError::RaggedRows { row: 1, expected: 2, actual: 1 });
}

#[test]
fn from_rows_without_rows_is_empty() {
    let matrix = Matrix::<f64>::from_rows(Vec::new()).unwrap();
    assert_eq!(matrix.rows(), 0);
    assert_eq!(matrix.cols(), 0);
    assert!(matrix.as_slice().is_empty());
}

#[test]
fn filled_and_set_update_one_entry() {
    let mut matrix = Matrix::filled(2, 2, 0.0);
    matrix.set(1, 0, 7.5);
    assert_eq!(matrix.as_slice(), &[0.0, 0.0, 7.5, 0.0]);
    let copy = matrix.clone();
    assert_eq!(copy.into_data(), vec![0.0, 0.0, 7.5, 0.0]);
}

#[test]
fn constraint_blocks_check_their_right_hand_side() {
    let matrix = Matrix::new(2, 1, vec![1.0, -1.0]).unwrap();
    let error = LinearConstraints::new(matrix, vec![0.5]).unwrap_err();
    assert_eq!(error, DimensionError { field: "constraints.rhs", expected: 2, actual: 1 });
    let empty = LinearConstraints::<f64>::empty(4);
    assert!(empty.is_empty());
    assert_eq!(empty.len(), 0);
    assert_eq!(empty.matrix.cols(), 4);
}

#[test]
fn appended_rows_follow_the_existing_rows() {
    let existing =
        LinearConstraints::new(Matrix::new(1, 2, vec![1.0, 1.0]).unwrap(), vec![1.0]).unwrap();
    let combined = append_constraint_rows(
        &existing,
        vec![vec![1.0, 0.0], vec![0.0, -1.0]],
        vec![0.6, -0.1],
    )
    .unwrap();
    assert_eq!(combined.len(), 3);
    assert_eq!(combined.matrix.rows(), 3);
    assert_eq!(combined.matrix.as_slice(), &[1.0, 1.0, 1.0, 0.0, 0.0, -1.0]);
    assert_eq!(combined.rhs, vec![1.0, 0.6, -0.1]);
}

#[test]
fn appended_rows_must_match_the_dimension() {
    let existing = LinearConstraints::<f64>::empty(2);
    let error = append_constraint_rows(&existing, vec![vec![1.0, 2.0, 3.0]], vec![0.0]).unwrap_err();
    assert_eq!(
        error,
        ConstraintError::Matrix(MatrixError::InvalidShape { rows: 1, cols: 2, expected: 2, actual: 3 })
    );
}

#[test]
fn appended_rows_need_one_target_each() {
    let existing = LinearConstraints::<f64>::empty(2);
    let error = append_constraint_rows(&existing, vec![vec![1.0, 2.0]], vec![0.0, 1.0]).unwrap_err();
    assert_eq!(
        error,
        ConstraintError::Dimension(DimensionError { field: "constraints.rhs", expected: 1, actual: 2 })
    );
}

#[test]
fn construction_errors_read_as_text() {
    let error = Matrix::new(2, 3, vec![1.0, 2.0]).unwrap_err();
    assert_eq!(error, MatrixError::InvalidShape { rows: 2, cols: 3, expected: 6, actual: 2 });
    assert!(error.message().contains("requires 6 values"));
    assert_eq!(error.message(), "matrix shape 2x3 requires 6 values, got 2");
    let error = Matrix::<f64>::new(usize::MAX, 2, vec![]).unwrap_err();
    assert_eq!(error, MatrixError::DimensionsOverflow { rows: usize::MAX, cols: 2 });
    assert_eq!(
        error.message(),
        format!("matrix dimensions {}x2 overflow the address space", usize::MAX)
    );
    let error = MatrixError::RaggedRows { row: 1, expected: 3, actual: 10 };
    assert_eq!(error.message(), "matrix row 1 has 10 columns; expected 3");
    let matrix = Matrix::new(2, 2, vec![1.0, 2.0, 3.0, 4.0]).unwrap();
    assert_eq!((matrix.rows(), matrix.cols()), (2, 2));
    assert_eq!(matrix.row(1), &[3.0, 4.0]);
}
