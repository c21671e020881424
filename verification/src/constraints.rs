//! Linear constraint blocks `matrix * x = rhs` or `matrix * x <= rhs`.

use vstd::prelude::*;

use crate::matrix::{concat_rows, push_all, Matrix, MatrixError};

verus! {

/// A vector or matrix dimension is inconsistent.
#[derive(Clone, Copy, Debug, PartialEq, Eq)]
pub struct DimensionError {
    /// Name of the invalid field.
    pub field: &'static str,
    /// Expected dimension.
    pub expected: usize,
    /// Actual dimension.
    pub actual: usize,
}

/// Why a constraint block could not be assembled.
#[derive(Clone, Debug, PartialEq, Eq)]
pub enum ConstraintError {
    /// The stacked rows do not form a matrix.
    Matrix(MatrixError),
    /// Row and right-hand-side counts differ.
    Dimension(DimensionError),
}

/// A block of constraints `matrix * x = rhs` or `matrix * x <= rhs`.
#[derive(Clone, Debug, PartialEq)]
pub struct LinearConstraints<T> {
    /// Constraint matrix.
    pub matrix: Matrix<T>,
    /// Right-hand side.
    pub rhs: Vec<T>,
}

impl<T> LinearConstraints<T> {
    /// Creates a constraint block, checking that there is one right-hand side
    /// per matrix row.
    pub fn new(matrix: Matrix<T>, rhs: Vec<T>) -> (result: Result<Self, DimensionError>)
        ensures
            matrix.nrows() != rhs@.len() ==> result == Err::<Self, DimensionError>(
                DimensionError {
                    field: "constraints.rhs",
                    expected: matrix.nrows() as usize,
                    actual: rhs@.len() as usize,
                },
            ),
            matrix.nrows() == rhs@.len() ==> (result matches Ok(block) && block.matrix == matrix
                && block.rhs == rhs),
    {
        let rows = matrix.rows();
        if rows != rhs.len() {
            return Err(DimensionError { field: "constraints.rhs", expected: rows, actual: rhs.len() });
        }
        Ok(LinearConstraints { matrix, rhs })
    }

    /// An empty block with the requested decision dimension.
    pub fn empty(dimension: usize) -> (block: Self)
        ensures
            block.matrix.nrows() == 0,
            block.matrix.ncols() == dimension,
            block.rhs@ == Seq::<T>::empty(),
    {
        LinearConstraints { matrix: Matrix::empty(dimension), rhs: Vec::new() }
    }

    /// Number of constraint rows (right-hand-side entries).
    pub fn len(&self) -> (count: usize)
        ensures
            count == self.rhs@.len(),
    {
        self.rhs.len()
    }

    /// Whether this block contains no rows.
    pub fn is_empty(&self) -> (empty: bool)
        ensures
            empty == (self.rhs@.len() == 0),
    {
        self.rhs.len() == 0
    }
}

/// Returns `existing` with `rows` and their right-hand sides appended.
///
/// The rows are stacked under the existing matrix, so template builders
/// never replace user-supplied constraint rows.
pub fn append_constraint_rows<T: Copy>(
    existing: &LinearConstraints<T>,
    rows: Vec<Vec<T>>,
    rhs: Vec<T>,
) -> (result: Result<LinearConstraints<T>, ConstraintError>)
    requires
        existing.rhs@.len() + rows@.len() <= usize::MAX,
        existing.rhs@.len() + rhs@.len() <= usize::MAX,
    ensures
        ({
            let dimension = existing.matrix.ncols();
            let total = existing.rhs@.len() + rows@.len();
            let data = existing.matrix@ + concat_rows(rows@);
            let stacked_rhs = existing.rhs@ + rhs@;
            if total * dimension > usize::MAX {
                result == Err::<LinearConstraints<T>, ConstraintError>(
                    ConstraintError::Matrix(
                        MatrixError::DimensionsOverflow {
                            rows: total as usize,
                            cols: dimension as usize,
                        },
                    ),
                )
            } else if data.len() != total * dimension {
                result == Err::<LinearConstraints<T>, ConstraintError>(
                    ConstraintError::Matrix(
                        MatrixError::InvalidShape {
                            rows: total as usize,
                            cols: dimension as usize,
                            expected: (total * dimension) as usize,
                            actual: data.len() as usize,
                        },
                    ),
                )
            } else if total != stacked_rhs.len() {
                result == Err::<LinearConstraints<T>, ConstraintError>(
                    ConstraintError::Dimension(
                        DimensionError {
                            field: "constraints.rhs",
                            expected: total as usize,
                            actual: stacked_rhs.len() as usize,
                        },
                    ),
                )
            } else {
                result matches Ok(block) && block.matrix.nrows() == total && block.matrix.ncols()
                    == dimension && block.matrix@ == data && block.rhs@ == stacked_rhs
            }
        }),
{
    let dimension = existing.matrix.cols();
    let total_rows = existing.len() + rows.len();
    let mut data: Vec<T> = Vec::new();
    push_all(&mut data, existing.matrix.as_slice());
    let mut r: usize = 0;
    while r < rows.len()
        invariant
            r <= rows@.len(),
            data@ == existing.matrix@ + concat_rows(rows@.take(r as int)),
        decreases rows@.len() - r,
    {
        push_all(&mut data, rows[r].as_slice());
        proof {
            crate::matrix::lemma_concat_rows_push(rows@, r as int);
        }
        r = r + 1;
    }
    proof {
        assert(rows@.take(rows@.len() as int) =~= rows@);
    }
    let matrix = match Matrix::new(total_rows, dimension, data) {
        Ok(matrix) => matrix,
        Err(error) => {
            return Err(ConstraintError::Matrix(error));
        },
    };
    let mut combined_rhs: Vec<T> = Vec::new();
    push_all(&mut combined_rhs, existing.rhs.as_slice());
    push_all(&mut combined_rhs, rhs.as_slice());
    match LinearConstraints::new(matrix, combined_rhs) {
        Ok(block) => Ok(block),
        Err(error) => Err(ConstraintError::Dimension(error)),
    }
}

} // verus!
