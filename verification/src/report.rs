//! Aggregation keys of comparison reports.
//!
//! A report has one row per (instance, solver) pair, in the order in which
//! the pair first appears among the samples.

use vstd::prelude::*;

verus! {

/// Whether `keys[i]` names a pair that no earlier key names.
pub open spec fn first_of_its_pair(keys: Seq<(String, String)>, i: int) -> bool {
    forall|j: int| 0 <= j < i ==> !((#[trigger] keys[j]).0@ == keys[i].0@ && keys[j].1@ == keys[i].1@)
}

/// The positions among the first `n` keys where a pair appears for the
/// first time, ascending.
pub open spec fn first_positions(keys: Seq<(String, String)>, n: int) -> Seq<usize>
    decreases n,
{
    if n <= 0 {
        Seq::empty()
    } else if first_of_its_pair(keys, n - 1) {
        first_positions(keys, n - 1).push((n - 1) as usize)
    } else {
        first_positions(keys, n - 1)
    }
}

/// The positions of the keys that name an (instance, solver) pair for the
/// first time, in order of appearance.
pub fn first_appearances(keys: &[(String, String)]) -> (positions: Vec<usize>)
    ensures
        positions@ == first_positions(keys@, keys@.len() as int),
{
    let mut positions: Vec<usize> = Vec::new();
    let mut i: usize = 0;
    while i < keys.len()
        invariant
            i <= keys@.len(),
            positions@ == first_positions(keys@, i as int),
        decreases keys@.len() - i,
    {
        let mut first = true;
        let mut j: usize = 0;
        while j < i
            invariant
                j <= i < keys@.len(),
                first == forall|m: int|
                    0 <= m < j ==> !((#[trigger] keys@[m]).0@ == keys@[i as int].0@ && keys@[m].1@
                        == keys@[i as int].1@),
            decreases i - j,
        {
            let same_instance = keys[j].0 == keys[i].0;
            let same_solver = keys[j].1 == keys[i].1;
            if same_instance && same_solver {
                first = false;
            }
            j = j + 1;
        }
        if first {
            positions.push(i);
        }
        i = i + 1;
    }
    positions
}

} // verus!
