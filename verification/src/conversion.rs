//! Variable and row layout of the general QP forms handed to external
//! solvers.
//!
//! The dense formulation keeps the `n` original variables. The lifted one
//! adds `k` auxiliary variables `y = G' x` and `k` trailing equality rows
//! `G' x - y = 0`. An L1 term adds, after every smooth variable, `n`
//! epigraph variables `t` and `2n` trailing inequality rows: the upper rows
//! `x_i - t_i <= a_i` for every asset, then the lower rows
//! `-x_i - t_i <= -a_i`.

use vstd::prelude::*;

use crate::csc::SparseRow;
use crate::labels::Formulation;

verus! {

/// Where the blocks of a converted problem sit.
#[derive(Clone, Copy, Debug, PartialEq, Eq, Structural)]
pub struct ConversionLayout {
    /// Variables of the original problem.
    pub original_variables: usize,
    /// Variables the external solver sees.
    pub variables: usize,
    /// Trailing lifted rows among the equality rows.
    pub lifted_rows: usize,
    /// Index of the first epigraph variable (`variables` without an L1 term).
    pub epigraph_offset: usize,
    /// Trailing epigraph variables.
    pub epigraph_variables: usize,
    /// Trailing epigraph rows among the inequality rows.
    pub epigraph_rows: usize,
}

/// The layout of a problem with `n` variables and `k` factors.
pub open spec fn layout_of(n: nat, k: nat, formulation: Formulation, has_l1: bool) -> ConversionLayout {
    let smooth = match formulation {
        Formulation::DenseQ => n,
        Formulation::Lifted => n + k,
    };
    ConversionLayout {
        original_variables: n as usize,
        variables: (if has_l1 { smooth + n } else { smooth }) as usize,
        lifted_rows: (match formulation {
            Formulation::DenseQ => 0,
            Formulation::Lifted => k,
        }) as usize,
        epigraph_offset: smooth as usize,
        epigraph_variables: (if has_l1 { n } else { 0 }) as usize,
        epigraph_rows: (if has_l1 { 2 * n } else { 0 }) as usize,
    }
}

/// The blocks of a converted problem tile its variables: the original
/// variables come first, the lifted factor variables (one per lifted row,
/// `k` of them in the lifted form, none in the dense one) follow, and the
/// epigraph block (one variable per asset with an L1 term, none without)
/// closes the variables, with two epigraph rows per epigraph variable.
pub proof fn lemma_layout_tiles_the_variables(n: nat, k: nat, formulation: Formulation, has_l1: bool)
    requires
        2 * n + k <= usize::MAX,
    ensures
        ({
            let layout = layout_of(n, k, formulation, has_l1);
            &&& layout.original_variables == n
            &&& layout.lifted_rows == (if formulation == Formulation::Lifted {
                k
            } else {
                0
            })
            &&& layout.epigraph_offset == n + layout.lifted_rows
            &&& layout.epigraph_variables == (if has_l1 {
                n
            } else {
                0
            })
            &&& layout.variables == layout.epigraph_offset + layout.epigraph_variables
            &&& layout.epigraph_rows == 2 * layout.epigraph_variables
        }),
{
}

/// The layout of a problem with `n` variables and `k` factors.
pub fn conversion_layout(n: usize, k: usize, formulation: Formulation, has_l1: bool) -> (layout:
    ConversionLayout)
    requires
        2 * n + k <= usize::MAX,
    ensures
        layout == layout_of(n as nat, k as nat, formulation, has_l1),
        layout.original_variables == n,
        layout.lifted_rows == (if formulation == Formulation::Lifted {
            k
        } else {
            0
        }),
        layout.epigraph_offset == n + layout.lifted_rows,
        layout.epigraph_variables == (if has_l1 {
            n
        } else {
            0
        }),
        layout.variables == layout.epigraph_offset + layout.epigraph_variables,
        layout.epigraph_rows == 2 * layout.epigraph_variables,
{
    proof {
        lemma_layout_tiles_the_variables(n as nat, k as nat, formulation, has_l1);
    }
    let (smooth, lifted_rows) = match formulation {
        Formulation::DenseQ => (n, 0),
        Formulation::Lifted => (n + k, k),
    };
    if has_l1 {
        ConversionLayout {
            original_variables: n,
            variables: smooth + n,
            lifted_rows,
            epigraph_offset: smooth,
            epigraph_variables: n,
            epigraph_rows: 2 * n,
        }
    } else {
        ConversionLayout {
            original_variables: n,
            variables: smooth,
            lifted_rows,
            epigraph_offset: smooth,
            epigraph_variables: 0,
            epigraph_rows: 0,
        }
    }
}

/// Epigraph row `r` of `n` assets whose `t` block starts at `offset`:
/// `x_r - t_r` for `r < n`, then `-x_i - t_i` for `i = r - n`.
pub open spec fn epigraph_row<T>(n: int, offset: int, r: int, one: T, minus_one: T) -> Seq<(usize, T)> {
    if r < n {
        seq![(r as usize, one), ((offset + r) as usize, minus_one)]
    } else {
        let asset = r - n;
        seq![(asset as usize, minus_one), ((offset + asset) as usize, minus_one)]
    }
}

/// The `2n` epigraph rows of `n` assets whose `t` block starts at `offset`,
/// with unit coefficients `one` and `minus_one`.
pub fn epigraph_rows<T: Copy>(n: usize, offset: usize, one: T, minus_one: T) -> (rows: Vec<
    SparseRow<T>,
>)
    requires
        offset + n <= usize::MAX,
        2 * n <= usize::MAX,
    ensures
        rows@.len() == 2 * n,
        forall|r: int|
            0 <= r < 2 * n ==> (#[trigger] rows@[r])@ == epigraph_row(
                n as int,
                offset as int,
                r,
                one,
                minus_one,
            ),
{
    let mut rows: Vec<SparseRow<T>> = Vec::new();
    let mut asset: usize = 0;
    while asset < n
        invariant
            asset <= n,
            offset + n <= usize::MAX,
            rows@.len() == asset,
            forall|r: int|
                0 <= r < asset ==> (#[trigger] rows@[r])@ == epigraph_row(
                    n as int,
                    offset as int,
                    r,
                    one,
                    minus_one,
                ),
        decreases n - asset,
    {
        let row = vec![(asset, one), (offset + asset, minus_one)];
        proof {
            assert(row@ == epigraph_row(n as int, offset as int, asset as int, one, minus_one));
        }
        rows.push(row);
        asset = asset + 1;
    }
    let mut asset: usize = 0;
    while asset < n
        invariant
            asset <= n,
            offset + n <= usize::MAX,
            2 * n <= usize::MAX,
            rows@.len() == n + asset,
            forall|r: int|
                0 <= r < n + asset ==> (#[trigger] rows@[r])@ == epigraph_row(
                    n as int,
                    offset as int,
                    r,
                    one,
                    minus_one,
                ),
        decreases n - asset,
    {
        let row = vec![(asset, minus_one), (offset + asset, minus_one)];
        proof {
            assert(row@ == epigraph_row(n as int, offset as int, n + asset, one, minus_one));
        }
        rows.push(row);
        asset = asset + 1;
    }
    rows
}

} // verus!
