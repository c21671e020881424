//! Compressed-sparse-column assembly from stacked sparse rows.
//!
//! External QP solvers take their constraint matrices in CSC form; the
//! comparison harness describes constraints as blocks of sparse rows and
//! assembles them here. Only the layout is computed, so the entries stay
//! generic.

use vstd::prelude::*;

verus! {

/// One sparse row as `(column, coefficient)` pairs.
pub type SparseRow<T> = Vec<(usize, T)>;

/// Minimal compressed-sparse-column matrix with sorted row indices.
#[derive(Clone, Debug, PartialEq)]
pub struct CscData<T> {
    /// Number of rows.
    pub rows: usize,
    /// Number of columns.
    pub cols: usize,
    /// Column offsets into `indices`/`values`; length `cols + 1`.
    pub indptr: Vec<usize>,
    /// Row index of each stored entry.
    pub indices: Vec<usize>,
    /// Value of each stored entry.
    pub values: Vec<T>,
}

/// The rows of all blocks, stacked in order.
pub open spec fn stacked_rows<T>(blocks: Seq<&[SparseRow<T>]>) -> Seq<SparseRow<T>> {
    blocks.map_values(|block: &[SparseRow<T>]| block@).flatten_alt()
}

/// The `(row, value)` pairs that row `row` places in column `col`, in the
/// row's own order.
pub open spec fn row_entries_in_column<T>(row: int, entries: Seq<(usize, T)>, col: int) -> Seq<
    (usize, T),
>
    decreases entries.len(),
{
    if entries.len() == 0 {
        Seq::empty()
    } else {
        let last = entries.last();
        let earlier = row_entries_in_column(row, entries.drop_last(), col);
        if last.0 == col {
            earlier.push((row as usize, last.1))
        } else {
            earlier
        }
    }
}

/// The `(row, value)` pairs of column `col`, scanning the rows top to
/// bottom.
pub open spec fn column_entries<T>(rows: Seq<SparseRow<T>>, col: int) -> Seq<(usize, T)>
    decreases rows.len(),
{
    if rows.len() == 0 {
        Seq::empty()
    } else {
        column_entries(rows.drop_last(), col) + row_entries_in_column(
            rows.len() - 1,
            rows.last()@,
            col,
        )
    }
}

/// The stored `(row, value)` pairs of column `col` of a CSC layout.
pub open spec fn csc_column<T>(
    indptr: Seq<usize>,
    indices: Seq<usize>,
    values: Seq<T>,
    col: int,
) -> Seq<(usize, T)> {
    Seq::new(
        (indptr[col + 1] - indptr[col]) as nat,
        |k: int| (indices[indptr[col] + k], values[indptr[col] + k]),
    )
}

/// Every column index of every row is below `cols`.
pub open spec fn columns_in_range<T>(rows: Seq<SparseRow<T>>, cols: nat) -> bool {
    forall|i: int, k: int|
        0 <= i < rows.len() && 0 <= k < rows[i]@.len() ==> (#[trigger] rows[i]@[k]).0 < cols
}

/// Row indices never decrease along `entries`.
pub open spec fn rows_ascend<T>(entries: Seq<(usize, T)>) -> bool {
    forall|k1: int, k2: int|
        0 <= k1 <= k2 < entries.len() ==> (#[trigger] entries[k1]).0 <= (#[trigger] entries[k2]).0
}

/// Scanning rows top to bottom lists each column's entries with ascending
/// row indices, and every listed row exists.
pub proof fn lemma_column_rows_ascend<T>(rows: Seq<SparseRow<T>>, col: int)
    requires
        rows.len() <= usize::MAX + 1,
    ensures
        rows_ascend(column_entries(rows, col)),
        forall|k: int|
            0 <= k < column_entries(rows, col).len() ==> (#[trigger] column_entries(rows, col)[k]).0
                < rows.len(),
{
    lemma_column_entries_bounded(rows, col);
}

proof fn lemma_row_entries_rows<T>(row: int, entries: Seq<(usize, T)>, col: int)
    requires
        0 <= row <= usize::MAX,
    ensures
        forall|k: int|
            0 <= k < row_entries_in_column(row, entries, col).len() ==> (#[trigger] row_entries_in_column(
                row,
                entries,
                col,
            )[k]).0 == row,
    decreases entries.len(),
{
    if entries.len() > 0 {
        lemma_row_entries_rows(row, entries.drop_last(), col);
        let earlier = row_entries_in_column(row, entries.drop_last(), col);
        if entries.last().0 == col {
            assert((row as usize) as int == row);
            assert forall|k: int|
                0 <= k < row_entries_in_column(row, entries, col).len() implies (
            #[trigger] row_entries_in_column(row, entries, col)[k]).0 == row by {
                if k < earlier.len() {
                    assert(row_entries_in_column(row, entries, col)[k] == earlier[k]);
                }
            }
        }
    }
}

proof fn lemma_column_entries_bounded<T>(rows: Seq<SparseRow<T>>, col: int)
    requires
        rows.len() <= usize::MAX + 1,
    ensures
        forall|k: int|
            0 <= k < column_entries(rows, col).len() ==> (#[trigger] column_entries(rows, col)[k]).0
                < rows.len(),
        forall|k1: int, k2: int|
            0 <= k1 <= k2 < column_entries(rows, col).len() ==> (#[trigger] column_entries(
                rows,
                col,
            )[k1]).0 <= (#[trigger] column_entries(rows, col)[k2]).0,
    decreases rows.len(),
{
    if rows.len() > 0 {
        let n = rows.len() as int;
        lemma_column_entries_bounded(rows.drop_last(), col);
        lemma_row_entries_rows(n - 1, rows.last()@, col);
        let earlier = column_entries(rows.drop_last(), col);
        let tail = row_entries_in_column(n - 1, rows.last()@, col);
        assert(column_entries(rows, col) == earlier + tail);
        assert forall|k: int| 0 <= k < column_entries(rows, col).len() implies (
        #[trigger] column_entries(rows, col)[k]).0 < rows.len() by {
            if k >= earlier.len() {
                assert(column_entries(rows, col)[k] == tail[k - earlier.len()]);
            }
        }
        assert forall|k1: int, k2: int|
            0 <= k1 <= k2 < column_entries(rows, col).len() implies (#[trigger] column_entries(
            rows,
            col,
        )[k1]).0 <= (#[trigger] column_entries(rows, col)[k2]).0 by {
            if k2 >= earlier.len() {
                assert(column_entries(rows, col)[k2] == tail[k2 - earlier.len()]);
                if k1 >= earlier.len() {
                    assert(column_entries(rows, col)[k1] == tail[k1 - earlier.len()]);
                }
            }
        }
    }
}

proof fn lemma_stacked_rows_push<T>(blocks: Seq<&[SparseRow<T>]>, b: int)
    requires
        0 <= b < blocks.len(),
    ensures
        stacked_rows(blocks.take(b + 1)) == stacked_rows(blocks.take(b)) + blocks[b]@,
{
    let mapped = blocks.take(b + 1).map_values(|block: &[SparseRow<T>]| block@);
    assert(mapped.drop_last() =~= blocks.take(b).map_values(|block: &[SparseRow<T>]| block@));
}

/// Collects references to the rows of all blocks, in stacking order.
fn stack_blocks<'a, T>(row_blocks: &[&'a [SparseRow<T>]]) -> (stacked: Vec<&'a SparseRow<T>>)
    ensures
        stacked@.map_values(|row: &SparseRow<T>| *row) == stacked_rows(row_blocks@),
{
    let mut stacked: Vec<&'a SparseRow<T>> = Vec::new();
    let mut b: usize = 0;
    while b < row_blocks.len()
        invariant
            b <= row_blocks@.len(),
            stacked@.map_values(|row: &SparseRow<T>| *row) == stacked_rows(
                row_blocks@.take(b as int),
            ),
        decreases row_blocks@.len() - b,
    {
        let block: &'a [SparseRow<T>] = row_blocks[b];
        let ghost before = stacked@;
        let mut r: usize = 0;
        while r < block.len()
            invariant
                r <= block@.len(),
                stacked@ == before + block@.take(r as int).map_values(|row: SparseRow<T>| &row),
            decreases block@.len() - r,
        {
            stacked.push(&block[r]);
            r = r + 1;
            assert(stacked@ =~= before + block@.take(r as int).map_values(
                |row: SparseRow<T>| &row,
            ));
        }
        proof {
            lemma_stacked_rows_push(row_blocks@, b as int);
            assert(block@.take(r as int) =~= block@);
            assert(stacked@.map_values(|row: &SparseRow<T>| *row) =~= before.map_values(
                |row: &SparseRow<T>| *row,
            ) + block@);
        }
        b = b + 1;
    }
    proof {
        assert(row_blocks@.take(row_blocks@.len() as int) =~= row_blocks@);
    }
    stacked
}

/// Builds a CSC matrix with `cols` columns from stacked blocks of sparse
/// rows.
///
/// Global row numbers continue across blocks. Within each column the
/// entries keep the order in which they appear scanning the rows top to
/// bottom, so row indices ascend.
pub fn csc_from_rows<T: Copy>(cols: usize, row_blocks: &[&[SparseRow<T>]]) -> (csc: CscData<T>)
    requires
        columns_in_range(stacked_rows(row_blocks@), cols as nat),
        stacked_rows(row_blocks@).len() <= usize::MAX,
    ensures
        csc.rows == stacked_rows(row_blocks@).len(),
        csc.cols == cols,
        csc.indptr@.len() == cols + 1,
        csc.indptr@[0] == 0,
        csc.indices@.len() == csc.indptr@[cols as int],
        csc.values@.len() == csc.indptr@[cols as int],
        forall|c: int| 0 <= c < cols ==> #[trigger] csc.indptr@[c] <= csc.indptr@[c + 1],
        forall|c: int|
            0 <= c < cols ==> #[trigger] csc_column(csc.indptr@, csc.indices@, csc.values@, c)
                == column_entries(stacked_rows(row_blocks@), c),
        forall|c: int|
            0 <= c < cols ==> rows_ascend(
                #[trigger] csc_column(csc.indptr@, csc.indices@, csc.values@, c),
            ),
{
    let stacked = stack_blocks(row_blocks);
    let ghost rows_view = stacked_rows(row_blocks@);
    let row_count = stacked.len();
    assert(stacked@.len() == rows_view.len()) by {
        assert(stacked@.map_values(|row: &SparseRow<T>| *row).len() == stacked@.len());
    }
    assert forall|i: int| 0 <= i < row_count implies *stacked@[i] == rows_view[i] by {
        assert(stacked@.map_values(|row: &SparseRow<T>| *row)[i] == *stacked@[i]);
    }

    // One bucket per column, filled row by row.
    let mut buckets: Vec<Vec<(usize, T)>> = Vec::new();
    let mut c: usize = 0;
    while c < cols
        invariant
            c <= cols,
            buckets@.len() == c,
            forall|j: int| 0 <= j < c ==> (#[trigger] buckets@[j])@ == Seq::<(usize, T)>::empty(),
        decreases cols - c,
    {
        buckets.push(Vec::new());
        c = c + 1;
    }
    proof {
        assert forall|j: int| 0 <= j < cols implies (#[trigger] buckets@[j])@ == column_entries(
            rows_view.take(0),
            j,
        ) by {
            assert(rows_view.take(0).len() == 0);
        }
    }

    let mut i: usize = 0;
    while i < row_count
        invariant
            i <= row_count,
            row_count == rows_view.len(),
            row_count == stacked@.len(),
            rows_view == stacked_rows(row_blocks@),
            forall|r: int| 0 <= r < row_count ==> *stacked@[r] == rows_view[r],
            columns_in_range(rows_view, cols as nat),
            buckets@.len() == cols,
            forall|j: int|
                0 <= j < cols ==> (#[trigger] buckets@[j])@ == column_entries(
                    rows_view.take(i as int),
                    j,
                ),
        decreases row_count - i,
    {
        let row: &SparseRow<T> = stacked[i];
        let ghost before = buckets@;
        let mut e: usize = 0;
        while e < row.len()
            invariant
                e <= row@.len(),
                i < row_count,
                row_count == rows_view.len(),
                *row == rows_view[i as int],
                columns_in_range(rows_view, cols as nat),
                buckets@.len() == cols,
                forall|j: int|
                    0 <= j < cols ==> (#[trigger] buckets@[j])@ == before[j]@
                        + row_entries_in_column(i as int, row@.take(e as int), j),
            decreases row@.len() - e,
        {
            let (column, value) = row[e];
            assert(row@.take(e as int + 1).drop_last() =~= row@.take(e as int));
            assert(rows_view[i as int]@[e as int] == row@[e as int]);
            let mut bucket: Vec<(usize, T)> = Vec::new();
            buckets.set_and_swap(column, &mut bucket);
            bucket.push((i, value));
            buckets.set(column, bucket);
            e = e + 1;
        }
        proof {
            assert(row@.take(e as int) =~= row@);
            let next = rows_view.take(i + 1);
            assert(next.drop_last() =~= rows_view.take(i as int));
            assert(next.last() == rows_view[i as int]);
        }
        i = i + 1;
    }
    proof {
        assert(rows_view.take(row_count as int) =~= rows_view);
    }

    // Concatenate the buckets column by column.
    let mut indptr: Vec<usize> = Vec::new();
    let mut indices: Vec<usize> = Vec::new();
    let mut values: Vec<T> = Vec::new();
    indptr.push(0);
    let mut c: usize = 0;
    while c < cols
        invariant
            c <= cols,
            buckets@.len() == cols,
            forall|j: int| 0 <= j < cols ==> (#[trigger] buckets@[j])@ == column_entries(rows_view, j),
            indptr@.len() == c + 1,
            indptr@[0] == 0,
            indices@.len() == indptr@[c as int],
            values@.len() == indptr@[c as int],
            forall|j: int| 0 <= j < c ==> #[trigger] indptr@[j] <= indptr@[j + 1],
            forall|j: int|
                0 <= j < c ==> #[trigger] csc_column(indptr@, indices@, values@, j)
                    == column_entries(rows_view, j),
        decreases cols - c,
    {
        let bucket = &buckets[c];
        let ghost old_indptr = indptr@;
        let ghost old_indices = indices@;
        let ghost old_values = values@;
        let mut k: usize = 0;
        while k < bucket.len()
            invariant
                k <= bucket@.len(),
                indices@.len() == old_indices.len() + k,
                values@.len() == old_values.len() + k,
                forall|m: int| 0 <= m < old_indices.len() ==> indices@[m] == old_indices[m],
                forall|m: int| 0 <= m < old_values.len() ==> values@[m] == old_values[m],
                forall|m: int|
                    0 <= m < k ==> (#[trigger] indices@[old_indices.len() + m], values@[old_indices.len()
                        + m]) == bucket@[m],
                old_indices.len() == old_values.len(),
            decreases bucket@.len() - k,
        {
            let (row, value) = bucket[k];
            indices.push(row);
            values.push(value);
            k = k + 1;
        }
        let filled = values.len();
        indptr.push(filled);
        proof {
            assert forall|j: int| 0 <= j < c implies #[trigger] csc_column(
                indptr@,
                indices@,
                values@,
                j,
            ) == column_entries(rows_view, j) by {
                assert(indptr@[j] == old_indptr[j] && indptr@[j + 1] == old_indptr[j + 1]);
                assert(old_indptr[j + 1] <= old_indptr[c as int]) by {
                    assert forall|a: int, b: int| 0 <= a <= b <= c implies old_indptr[a]
                        <= old_indptr[b] by {
                        lemma_monotone(old_indptr, a, b);
                    }
                }
                assert(csc_column(indptr@, indices@, values@, j) =~= csc_column(
                    old_indptr,
                    old_indices,
                    old_values,
                    j,
                ));
            }
            assert(csc_column(indptr@, indices@, values@, c as int) =~= bucket@);
        }
        c = c + 1;
    }
    proof {
        assert forall|col: int| 0 <= col < cols implies rows_ascend(
            #[trigger] csc_column(indptr@, indices@, values@, col),
        ) by {
            lemma_column_rows_ascend(rows_view, col);
        }
    }
    CscData { rows: row_count, cols, indptr, indices, values }
}

proof fn lemma_monotone(s: Seq<usize>, a: int, b: int)
    requires
        0 <= a <= b < s.len(),
        forall|j: int| 0 <= j < b ==> #[trigger] s[j] <= s[j + 1],
    ensures
        s[a] <= s[b],
    decreases b - a,
{
    if a < b {
        lemma_monotone(s, a, b - 1);
        assert(s[b - 1] <= s[b]);
    }
}

} // verus!
