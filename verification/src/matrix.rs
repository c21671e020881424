//! A small row-major dense matrix used at the API boundary.
//!
//! The matrix is generic over its entries: shape checks, row access and row
//! appends do not depend on the number type the numerical kernel uses.

use vstd::prelude::*;

use crate::text::{decimal, push_decimal};

verus! {

/// Errors raised while constructing a [`Matrix`].
#[derive(Clone, Debug, PartialEq, Eq)]
pub enum MatrixError {
    /// The requested element count overflows `usize`.
    DimensionsOverflow {
        /// Requested row count.
        rows: usize,
        /// Requested column count.
        cols: usize,
    },
    /// The data length does not match `rows * cols`.
    InvalidShape {
        /// Requested row count.
        rows: usize,
        /// Requested column count.
        cols: usize,
        /// Required number of values.
        expected: usize,
        /// Supplied number of values.
        actual: usize,
    },
    /// Rows supplied to `from_rows` do not have equal lengths.
    RaggedRows {
        /// Zero-based row index.
        row: usize,
        /// Expected column count.
        expected: usize,
        /// Actual column count.
        actual: usize,
    },
}

/// The text of a matrix construction error.
pub open spec fn matrix_error_text(error: MatrixError) -> Seq<char> {
    match error {
        MatrixError::DimensionsOverflow { rows, cols } => "matrix dimensions "@ + decimal(
            rows as nat,
        ) + "x"@ + decimal(cols as nat) + " overflow the address space"@,
        MatrixError::InvalidShape { rows, cols, expected, actual } => "matrix shape "@ + decimal(
            rows as nat,
        ) + "x"@ + decimal(cols as nat) + " requires "@ + decimal(expected as nat)
            + " values, got "@ + decimal(actual as nat),
        MatrixError::RaggedRows { row, expected, actual } => "matrix row "@ + decimal(row as nat)
            + " has "@ + decimal(actual as nat) + " columns; expected "@ + decimal(
            expected as nat,
        ),
    }
}

impl MatrixError {
    /// The error's text, as a user reads it.
    pub fn message(&self) -> (text: String)
        ensures
            text@ == matrix_error_text(*self),
    {
        match self {
            MatrixError::DimensionsOverflow { rows, cols } => {
                let mut text = String::from_str("matrix dimensions ");
                push_decimal(&mut text, *rows as u64);
                text.append("x");
                push_decimal(&mut text, *cols as u64);
                text.append(" overflow the address space");
                assert(text@ =~= matrix_error_text(*self));
                text
            },
            MatrixError::InvalidShape { rows, cols, expected, actual } => {
                let mut text = String::from_str("matrix shape ");
                push_decimal(&mut text, *rows as u64);
                text.append("x");
                push_decimal(&mut text, *cols as u64);
                text.append(" requires ");
                push_decimal(&mut text, *expected as u64);
                text.append(" values, got ");
                push_decimal(&mut text, *actual as u64);
                assert(text@ =~= matrix_error_text(*self));
                text
            },
            MatrixError::RaggedRows { row, expected, actual } => {
                let mut text = String::from_str("matrix row ");
                push_decimal(&mut text, *row as u64);
                text.append(" has ");
                push_decimal(&mut text, *actual as u64);
                text.append(" columns; expected ");
                push_decimal(&mut text, *expected as u64);
                assert(text@ =~= matrix_error_text(*self));
                text
            },
        }
    }
}

/// A contiguous row-major dense matrix.
///
/// The storage always holds exactly `rows * cols` entries.
#[derive(Debug, PartialEq)]
pub struct Matrix<T> {
    rows: usize,
    cols: usize,
    data: Vec<T>,
}

/// The entries of `rows`, concatenated in order.
pub open spec fn concat_rows<T>(rows: Seq<Vec<T>>) -> Seq<T> {
    rows.map_values(|row: Vec<T>| row@).flatten_alt()
}

/// Index of the first row whose length differs from `cols`, if any.
pub open spec fn first_ragged_row<T>(rows: Seq<Vec<T>>, cols: nat) -> Option<int> {
    if exists|i: int| 0 <= i < rows.len() && rows[i]@.len() != cols {
        Some(choose|i: int| {
            &&& 0 <= i < rows.len()
            &&& rows[i]@.len() != cols
            &&& forall|j: int| 0 <= j < i ==> rows[j]@.len() == cols
        })
    } else {
        None
    }
}

pub(crate) proof fn lemma_concat_rows_push<T>(rows: Seq<Vec<T>>, i: int)
    requires
        0 <= i < rows.len(),
    ensures
        concat_rows(rows.take(i + 1)) == concat_rows(rows.take(i)) + rows[i]@,
{
    let mapped = rows.take(i + 1).map_values(|row: Vec<T>| row@);
    assert(mapped.drop_last() =~= rows.take(i).map_values(|row: Vec<T>| row@));
}

proof fn lemma_concat_rows_uniform_len<T>(rows: Seq<Vec<T>>, cols: nat)
    requires
        forall|j: int| 0 <= j < rows.len() ==> rows[j]@.len() == cols,
    ensures
        concat_rows(rows).len() == rows.len() * cols,
    decreases rows.len(),
{
    if rows.len() > 0 {
        let n = rows.len() as int;
        let prefix = rows.take(n - 1);
        assert forall|j: int| 0 <= j < prefix.len() implies prefix[j]@.len() == cols by {
            assert(prefix[j] == rows[j]);
        }
        lemma_concat_rows_uniform_len(prefix, cols);
        lemma_concat_rows_push(rows, n - 1);
        assert(rows.take(n) =~= rows);
        assert(concat_rows(rows).len() == prefix.len() * cols + cols);
        assert((n - 1) * cols + cols == n * cols) by (nonlinear_arith);
        assert(rows.len() * cols == n * cols);
    } else {
        assert(rows.map_values(|row: Vec<T>| row@).len() == 0);
    }
}

/// In the row-major storage of equally long rows, row `i` starts at offset
/// `i * cols`: entry `(i, j)` of a matrix built from nested rows is entry
/// `j` of row `i`.
pub proof fn lemma_concat_rows_offset<T>(rows: Seq<Vec<T>>, cols: nat, i: int, j: int)
    requires
        forall|r: int| 0 <= r < rows.len() ==> rows[r]@.len() == cols,
        0 <= i < rows.len(),
        0 <= j < cols,
    ensures
        i * cols + j < concat_rows(rows).len(),
        concat_rows(rows)[i * cols + j] == rows[i]@[j],
    decreases rows.len(),
{
    let n = rows.len() as int;
    lemma_concat_rows_push(rows, n - 1);
    assert(rows.take(n) =~= rows);
    lemma_concat_rows_uniform_len(rows.take(n - 1), cols);
    assert(i * cols + j < n * cols) by (nonlinear_arith)
        requires
            0 <= i < n,
            0 <= j < cols,
    ;
    lemma_concat_rows_uniform_len(rows, cols);
    if i < n - 1 {
        lemma_concat_rows_offset(rows.take(n - 1), cols, i, j);
        assert(i * cols + j < (n - 1) * cols) by (nonlinear_arith)
            requires
                0 <= i < n - 1,
                0 <= j < cols,
        ;
    } else {
        assert(i * cols + j - (n - 1) * cols == j) by (nonlinear_arith)
            requires
                i == n - 1,
        ;
    }
}

impl<T> Matrix<T> {
    #[verifier::type_invariant]
    spec fn shape_holds(self) -> bool {
        self.data@.len() == self.rows * self.cols
    }

    /// Number of rows.
    pub closed spec fn nrows(&self) -> nat {
        self.rows as nat
    }

    /// Number of columns.
    pub closed spec fn ncols(&self) -> nat {
        self.cols as nat
    }

    /// Row-major entry `(row, col)`.
    pub open spec fn entry(&self, row: int, col: int) -> T {
        self@[row * self.ncols() + col]
    }

    /// Builds a matrix from row-major data.
    ///
    /// Fails with [`MatrixError::DimensionsOverflow`] if `rows * cols`
    /// overflows, or [`MatrixError::InvalidShape`] when the data length is
    /// wrong.
    pub fn new(rows: usize, cols: usize, data: Vec<T>) -> (result: Result<Self, MatrixError>)
        ensures
            rows * cols > usize::MAX ==> result == Err::<Self, MatrixError>(
                MatrixError::DimensionsOverflow { rows, cols },
            ),
            rows * cols <= usize::MAX && data@.len() != rows * cols ==> result == Err::<
                Self,
                MatrixError,
            >(
                MatrixError::InvalidShape {
                    rows,
                    cols,
                    expected: (rows * cols) as usize,
                    actual: data@.len() as usize,
                },
            ),
            rows * cols <= usize::MAX && data@.len() == rows * cols ==> (result matches Ok(m)
                && m.nrows() == rows && m.ncols() == cols && m@ == data@),
    {
        let expected = match rows.checked_mul(cols) {
            Some(expected) => expected,
            None => {
                return Err(MatrixError::DimensionsOverflow { rows, cols });
            },
        };
        if data.len() != expected {
            return Err(MatrixError::InvalidShape { rows, cols, expected, actual: data.len() });
        }
        Ok(Matrix { rows, cols, data })
    }

    /// A matrix with no rows and `cols` columns.
    pub fn empty(cols: usize) -> (matrix: Self)
        ensures
            matrix.nrows() == 0,
            matrix.ncols() == cols,
            matrix@ == Seq::<T>::empty(),
    {
        Matrix { rows: 0, cols, data: Vec::new() }
    }

    /// Number of rows.
    pub fn rows(&self) -> (rows: usize)
        ensures
            rows == self.nrows(),
            self@.len() == self.nrows() * self.ncols(),
    {
        proof {
            use_type_invariant(self);
        }
        self.rows
    }

    /// Number of columns.
    pub fn cols(&self) -> (cols: usize)
        ensures
            cols == self.ncols(),
            self@.len() == self.nrows() * self.ncols(),
    {
        proof {
            use_type_invariant(self);
        }
        self.cols
    }

    /// Row-major backing storage.
    pub fn as_slice(&self) -> (entries: &[T])
        ensures
            entries@ == self@,
            self@.len() == self.nrows() * self.ncols(),
    {
        proof {
            use_type_invariant(self);
        }
        self.data.as_slice()
    }

    /// Returns the row-major storage, consuming the matrix.
    pub fn into_data(self) -> (entries: Vec<T>)
        ensures
            entries@ == self@,
            entries@.len() == self.nrows() * self.ncols(),
    {
        proof {
            use_type_invariant(&self);
        }
        self.data
    }

    /// Returns one row.
    pub fn row(&self, row: usize) -> (entries: &[T])
        requires
            row < self.nrows(),
        ensures
            entries@ == self@.subrange(
                row * self.ncols() as int,
                row * self.ncols() + self.ncols() as int,
            ),
    {
        proof {
            use_type_invariant(self);
            assert(row * self.cols + self.cols <= self.rows * self.cols) by (nonlinear_arith)
                requires
                    row < self.rows,
            ;
        }
        let length = self.data.len();
        assert(row * self.cols + self.cols <= length);
        let start = row * self.cols;
        &self.data.as_slice()[start..start + self.cols]
    }

    /// The entry at row-major position `row * cols + col`.
    pub fn get(&self, row: usize, col: usize) -> (entry: &T)
        requires
            row * self.ncols() + col < self.nrows() * self.ncols(),
        ensures
            *entry == self.entry(row as int, col as int),
    {
        proof {
            use_type_invariant(self);
        }
        let length = self.data.len();
        assert(row * self.cols + col < length);
        &self.data[row * self.cols + col]
    }

    /// Replaces the entry at row-major position `row * cols + col`.
    pub fn set(&mut self, row: usize, col: usize, value: T)
        requires
            row * old(self).ncols() + col < old(self).nrows() * old(self).ncols(),
        ensures
            final(self).nrows() == old(self).nrows(),
            final(self).ncols() == old(self).ncols(),
            final(self)@ == old(self)@.update(row * old(self).ncols() + col, value),
    {
        proof {
            use_type_invariant(&*self);
        }
        let length = self.data.len();
        assert(row * self.cols + col < length);
        let index = row * self.cols + col;
        let mut taken = Matrix { rows: 0, cols: 0, data: Vec::new() };
        std::mem::swap(self, &mut taken);
        proof {
            use_type_invariant(&taken);
        }
        let Matrix { rows, cols, mut data } = taken;
        data.set(index, value);
        *self = Matrix { rows, cols, data };
    }
}

/// Appends copies of `entries` to `target`.
pub fn push_all<T: Copy>(target: &mut Vec<T>, entries: &[T])
    ensures
        final(target)@ == old(target)@ + entries@,
{
    let mut i: usize = 0;
    while i < entries.len()
        invariant
            i <= entries@.len(),
            target@ == old(target)@ + entries@.take(i as int),
        decreases entries@.len() - i,
    {
        target.push(entries[i]);
        i = i + 1;
        assert(target@ =~= old(target)@ + entries@.take(i as int));
    }
    assert(entries@.take(i as int) =~= entries@);
}

impl<T: Copy> Matrix<T> {
    /// Returns a `rows`-by-`cols` matrix with every entry equal to `value`.
    pub fn filled(rows: usize, cols: usize, value: T) -> (matrix: Self)
        requires
            rows * cols <= usize::MAX,
        ensures
            matrix.nrows() == rows,
            matrix.ncols() == cols,
            matrix@ == Seq::new((rows * cols) as nat, |i: int| value),
    {
        let count = rows * cols;
        let mut data: Vec<T> = Vec::new();
        let mut i: usize = 0;
        while i < count
            invariant
                i <= count,
                data@ == Seq::new(i as nat, |j: int| value),
            decreases count - i,
        {
            data.push(value);
            i = i + 1;
            assert(data@ =~= Seq::new(i as nat, |j: int| value));
        }
        Matrix { rows, cols, data }
    }

    /// Builds a matrix from nested rows; the column count is the length of
    /// the first row (zero for no rows).
    ///
    /// Fails with [`MatrixError::RaggedRows`] naming the first row whose
    /// length differs from the first row's.
    pub fn from_rows(rows: Vec<Vec<T>>) -> (result: Result<Self, MatrixError>)
        ensures
            ({
                let cols: nat = if rows@.len() == 0 {
                    0
                } else {
                    rows@[0]@.len()
                };
                match first_ragged_row(rows@, cols) {
                    Some(i) => result == Err::<Self, MatrixError>(
                        MatrixError::RaggedRows {
                            row: i as usize,
                            expected: cols as usize,
                            actual: rows@[i]@.len() as usize,
                        },
                    ),
                    None => (result matches Ok(m) && m.nrows() == rows@.len() && m.ncols()
                        == cols && m@ == concat_rows(rows@)),
                }
            }),
    {
        let row_count = rows.len();
        let cols = if row_count == 0 {
            0
        } else {
            rows[0].len()
        };
        let mut data: Vec<T> = Vec::new();
        let mut r: usize = 0;
        while r < row_count
            invariant
                row_count == rows@.len(),
                r <= row_count,
                cols == (if row_count == 0 {
                    0
                } else {
                    rows@[0]@.len()
                }),
                forall|j: int| 0 <= j < r ==> rows@[j]@.len() == cols,
                data@ == concat_rows(rows@.take(r as int)),
            decreases row_count - r,
        {
            let row = &rows[r];
            if row.len() != cols {
                proof {
                    let i = r as int;
                    assert(0 <= i < rows@.len() && rows@[i]@.len() != cols);
                    let c = choose|k: int|
                        {
                            &&& 0 <= k < rows@.len()
                            &&& rows@[k]@.len() != cols
                            &&& forall|j: int| 0 <= j < k ==> rows@[j]@.len() == cols
                        };
                    assert(c == i) by {
                        if c < i {
                        } else if c > i {
                            assert(rows@[i]@.len() == cols);
                        }
                    }
                }
                return Err(MatrixError::RaggedRows { row: r, expected: cols, actual: row.len() });
            }
            let mut c: usize = 0;
            let ghost before = data@;
            while c < cols
                invariant
                    c <= cols,
                    row@.len() == cols,
                    data@ == before + row@.take(c as int),
                decreases cols - c,
            {
                data.push(row[c]);
                c = c + 1;
                assert(data@ =~= before + row@.take(c as int));
            }
            proof {
                assert(row@.take(cols as int) =~= row@);
                lemma_concat_rows_push(rows@, r as int);
            }
            r = r + 1;
        }
        proof {
            assert(rows@.take(row_count as int) =~= rows@);
            assert(first_ragged_row(rows@, cols as nat) is None);
            lemma_concat_rows_uniform_len(rows@, cols as nat);
        }
        Ok(Matrix { rows: row_count, cols, data })
    }
}

impl<T: Clone> Clone for Matrix<T> {
    /// Clones the matrix entry by entry.
    fn clone(&self) -> (copy: Self)
        ensures
            copy.nrows() == self.nrows(),
            copy.ncols() == self.ncols(),
            copy@.len() == self@.len(),
            forall|i: int| 0 <= i < self@.len() ==> cloned(#[trigger] self@[i], copy@[i]),
    {
        proof {
            use_type_invariant(self);
        }
        Matrix { rows: self.rows, cols: self.cols, data: self.data.clone() }
    }
}

impl<T> View for Matrix<T> {
    type V = Seq<T>;

    /// The row-major entries.
    closed spec fn view(&self) -> Seq<T> {
        self.data@
    }
}

} // verus!
