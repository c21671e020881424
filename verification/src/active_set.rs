//! Active-set bookkeeping for solution polishing.
//!
//! Polishing guesses which constraints hold with equality at a solved
//! iterate, treats them as equalities, and solves the resulting KKT system
//! directly. The guess itself is combinatorial: active inequality rows,
//! pinned variables with the side they are pinned to, and the assumed trade
//! direction of every variable under an L1 term.

use vstd::multiset::Multiset;
use vstd::prelude::*;

verus! {

/// Which value a pinned variable is held at.
#[derive(Clone, Copy, Debug, PartialEq, Eq, Structural)]
pub enum Side {
    /// Held at its lower bound.
    Lower,
    /// Held at its upper bound.
    Upper,
    /// L1 no-trade pin: the variable sits on the kink of the L1 term and is
    /// held at its anchor.
    Anchor,
}

/// A pinned variable: its index and the side it is held at.
pub type Pin = (usize, Side);

/// Constraint rows treated as equalities by one polishing pass.
#[derive(Clone, Debug)]
pub struct ActiveSet {
    /// Active inequality row indices, ascending.
    pub inequalities: Vec<usize>,
    /// Pinned variables — active bounds and L1 no-trade anchors — with the
    /// pinned side, ascending by index.
    pub bounds: Vec<Pin>,
    /// Assumed L1 trade direction per variable (`1` above the anchor, `-1`
    /// below, `0` on the kink); empty when the problem has no L1 term.
    pub l1_signs: Vec<i8>,
}

/// Whether some pin in `pins` holds variable `index`.
pub open spec fn is_pinned(pins: Seq<Pin>, index: int) -> bool {
    exists|k: int| 0 <= k < pins.len() && (#[trigger] pins[k]).0 == index
}

/// `pins` followed by an anchor pin for every no-trade variable (`sign ==
/// 0`) that is not pinned yet, in variable order.
pub open spec fn with_anchor_pins(pins: Seq<Pin>, signs: Seq<i8>) -> Seq<Pin>
    decreases signs.len(),
{
    if signs.len() == 0 {
        pins
    } else {
        let index = signs.len() - 1;
        let earlier = with_anchor_pins(pins, signs.drop_last());
        if signs.last() == 0 && !is_pinned(earlier, index) {
            earlier.push((index as usize, Side::Anchor))
        } else {
            earlier
        }
    }
}

/// Inserts `pin` behind every element of `sorted` whose index is not larger,
/// scanning from the back.
spec fn insert_by_index(sorted: Seq<Pin>, pin: Pin) -> Seq<Pin>
    decreases sorted.len(),
{
    if sorted.len() == 0 {
        seq![pin]
    } else if sorted.last().0 <= pin.0 {
        sorted.push(pin)
    } else {
        insert_by_index(sorted.drop_last(), pin).push(sorted.last())
    }
}

/// Stable sort of `pins` by variable index (insertion sort).
spec fn sort_by_index(pins: Seq<Pin>) -> Seq<Pin>
    decreases pins.len(),
{
    if pins.len() == 0 {
        Seq::empty()
    } else {
        insert_by_index(sort_by_index(pins.drop_last()), pins.last())
    }
}

/// Pins are listed in non-decreasing index order.
pub open spec fn sorted_by_index(pins: Seq<Pin>) -> bool {
    forall|a: int, b: int| 0 <= a <= b < pins.len() ==> (#[trigger] pins[a]).0 <= (#[trigger] pins[b]).0
}

proof fn lemma_insert_by_index_split(sorted: Seq<Pin>, pin: Pin, j: int)
    requires
        0 <= j <= sorted.len(),
        forall|k: int| j <= k < sorted.len() ==> (#[trigger] sorted[k]).0 > pin.0,
    ensures
        insert_by_index(sorted, pin) == insert_by_index(sorted.take(j), pin) + sorted.skip(j),
    decreases sorted.len() - j,
{
    if j < sorted.len() {
        let n = sorted.len() as int;
        assert(sorted.last() == sorted[n - 1]);
        lemma_insert_by_index_split(sorted.drop_last(), pin, j);
        assert(sorted.drop_last().take(j) =~= sorted.take(j));
        assert(sorted.drop_last().skip(j).push(sorted.last()) =~= sorted.skip(j));
        assert(insert_by_index(sorted, pin) == insert_by_index(sorted.drop_last(), pin).push(
            sorted.last(),
        ));
        assert((insert_by_index(sorted.take(j), pin) + sorted.drop_last().skip(j)).push(
            sorted.last(),
        ) =~= insert_by_index(sorted.take(j), pin) + sorted.skip(j));
    } else {
        assert(sorted.skip(j) =~= Seq::<Pin>::empty());
        assert(sorted.take(j) =~= sorted);
        assert(insert_by_index(sorted, pin) + Seq::<Pin>::empty() =~= insert_by_index(sorted, pin));
    }
}

proof fn lemma_insert_by_index_sorted(sorted: Seq<Pin>, pin: Pin)
    requires
        sorted_by_index(sorted),
    ensures
        sorted_by_index(insert_by_index(sorted, pin)),
        insert_by_index(sorted, pin).len() == sorted.len() + 1,
        insert_by_index(sorted, pin).to_multiset() == sorted.to_multiset().insert(pin),
    decreases sorted.len(),
{
    broadcast use vstd::seq_lib::group_to_multiset_ensures;

    if sorted.len() == 0 {
        assert(seq![pin].to_multiset() =~= Multiset::<Pin>::empty().insert(pin)) by {
            assert(seq![pin] =~= Seq::<Pin>::empty().push(pin));
        }
    } else if sorted.last().0 <= pin.0 {
    } else {
        let prefix = sorted.drop_last();
        lemma_insert_by_index_sorted(prefix, pin);
        let inner = insert_by_index(prefix, pin);
        let last = sorted.last();
        assert(sorted =~= prefix.push(last));
        assert forall|a: int, b: int|
            0 <= a <= b < inner.push(last).len() implies (#[trigger] inner.push(last)[a]).0 <= (
        #[trigger] inner.push(last)[b]).0 by {
            if b == inner.len() {
                if a < inner.len() {
                    let x = inner[a];
                    assert(inner.to_multiset().count(x) > 0);
                    assert(prefix.to_multiset().insert(pin).count(x) > 0);
                    if x != pin {
                        assert(prefix.to_multiset().count(x) > 0);
                        let k = choose|k: int| 0 <= k < prefix.len() && prefix[k] == x;
                        assert(sorted[k] == prefix[k]);
                        assert(sorted[sorted.len() - 1] == last);
                    }
                }
            }
        }
        assert(inner.push(last).to_multiset() =~= sorted.to_multiset().insert(pin));
    }
}

proof fn lemma_sort_by_index_sorted(pins: Seq<Pin>)
    ensures
        sorted_by_index(sort_by_index(pins)),
        sort_by_index(pins).len() == pins.len(),
        sort_by_index(pins).to_multiset() == pins.to_multiset(),
    decreases pins.len(),
{
    broadcast use vstd::seq_lib::group_to_multiset_ensures;

    if pins.len() > 0 {
        lemma_sort_by_index_sorted(pins.drop_last());
        lemma_insert_by_index_sorted(sort_by_index(pins.drop_last()), pins.last());
        assert(pins =~= pins.drop_last().push(pins.last()));
    }
}

/// The pins in `pins` that hold variable `index`, in their order.
pub open spec fn pins_of(pins: Seq<Pin>, index: int) -> Seq<Pin>
    decreases pins.len(),
{
    if pins.len() == 0 {
        Seq::empty()
    } else if pins.last().0 == index {
        pins_of(pins.drop_last(), index).push(pins.last())
    } else {
        pins_of(pins.drop_last(), index)
    }
}

/// `result` is `input` sorted by variable index, stably: ordered by index,
/// and the pins of every variable appear in the order `input` lists them.
pub open spec fn stably_sorted_by_index(result: Seq<Pin>, input: Seq<Pin>) -> bool {
    &&& sorted_by_index(result)
    &&& forall|index: int| #[trigger] pins_of(result, index) == pins_of(input, index)
}

proof fn lemma_pins_of_push(pins: Seq<Pin>, pin: Pin, index: int)
    ensures
        pins_of(pins.push(pin), index) == if pin.0 == index {
            pins_of(pins, index).push(pin)
        } else {
            pins_of(pins, index)
        },
{
    assert(pins.push(pin).drop_last() =~= pins);
}

proof fn lemma_insert_by_index_stable(sorted: Seq<Pin>, pin: Pin, index: int)
    ensures
        pins_of(insert_by_index(sorted, pin), index) == pins_of(sorted.push(pin), index),
    decreases sorted.len(),
{
    if sorted.len() == 0 {
        assert(seq![pin] =~= sorted.push(pin));
    } else if sorted.last().0 <= pin.0 {
    } else {
        let prefix = sorted.drop_last();
        let last = sorted.last();
        lemma_insert_by_index_stable(prefix, pin, index);
        lemma_pins_of_push(insert_by_index(prefix, pin), last, index);
        lemma_pins_of_push(prefix, pin, index);
        assert(sorted =~= prefix.push(last));
        lemma_pins_of_push(prefix, last, index);
        lemma_pins_of_push(sorted, pin, index);
    }
}

proof fn lemma_sort_by_index_stable(pins: Seq<Pin>, index: int)
    ensures
        pins_of(sort_by_index(pins), index) == pins_of(pins, index),
    decreases pins.len(),
{
    if pins.len() > 0 {
        let prefix = pins.drop_last();
        let last = pins.last();
        lemma_sort_by_index_stable(prefix, index);
        lemma_insert_by_index_stable(sort_by_index(prefix), last, index);
        lemma_pins_of_push(sort_by_index(prefix), last, index);
        assert(pins =~= prefix.push(last));
        lemma_pins_of_push(prefix, last, index);
    }
}

/// No variable is held by two pins.
pub open spec fn distinct_indices(pins: Seq<Pin>) -> bool {
    forall|a: int, b: int| 0 <= a < b < pins.len() ==> (#[trigger] pins[a]).0 != (#[trigger] pins[b]).0
}

proof fn lemma_insert_by_index_distinct(sorted: Seq<Pin>, pin: Pin)
    requires
        distinct_indices(sorted),
        !is_pinned(sorted, pin.0 as int),
    ensures
        distinct_indices(insert_by_index(sorted, pin)),
        forall|i: int| #[trigger]
            is_pinned(insert_by_index(sorted, pin), i) <==> (is_pinned(sorted, i) || i == pin.0),
    decreases sorted.len(),
{
    let result = insert_by_index(sorted, pin);
    if sorted.len() == 0 {
        assert forall|i: int| #[trigger] is_pinned(result, i) <==> (is_pinned(sorted, i) || i == pin.0) by {
            if i == pin.0 {
                assert(result[0].0 == i);
            }
        }
    } else if sorted.last().0 <= pin.0 {
        assert forall|a: int, b: int| 0 <= a < b < result.len() implies (#[trigger] result[a]).0
            != (#[trigger] result[b]).0 by {
            if b == sorted.len() {
                assert(result[a] == sorted[a]);
                assert(is_pinned(sorted, result[a].0 as int));
            } else {
                assert(result[a] == sorted[a] && result[b] == sorted[b]);
            }
        }
        assert forall|i: int| #[trigger] is_pinned(result, i) <==> (is_pinned(sorted, i) || i == pin.0) by {
            if is_pinned(sorted, i) {
                let k = choose|k: int| 0 <= k < sorted.len() && (#[trigger] sorted[k]).0 == i;
                assert(result[k] == sorted[k]);
            }
            if i == pin.0 {
                assert(result[sorted.len() as int] == pin);
            }
            if is_pinned(result, i) {
                let k = choose|k: int| 0 <= k < result.len() && (#[trigger] result[k]).0 == i;
                if k < sorted.len() {
                    assert(result[k] == sorted[k]);
                }
            }
        }
    } else {
        let prefix = sorted.drop_last();
        let last = sorted.last();
        let n = sorted.len() as int;
        assert(sorted[n - 1] == last);
        assert forall|a: int, b: int| 0 <= a < b < prefix.len() implies (#[trigger] prefix[a]).0
            != (#[trigger] prefix[b]).0 by {
            assert(prefix[a] == sorted[a] && prefix[b] == sorted[b]);
        }
        if is_pinned(prefix, pin.0 as int) {
            let k = choose|k: int| 0 <= k < prefix.len() && (#[trigger] prefix[k]).0 == pin.0;
            assert(sorted[k] == prefix[k]);
        }
        lemma_insert_by_index_distinct(prefix, pin);
        let inner = insert_by_index(prefix, pin);
        assert(result == inner.push(last));
        assert(!is_pinned(prefix, last.0 as int)) by {
            if is_pinned(prefix, last.0 as int) {
                let k = choose|k: int| 0 <= k < prefix.len() && (#[trigger] prefix[k]).0 == last.0;
                assert(sorted[k] == prefix[k]);
            }
        }
        assert(!is_pinned(inner, last.0 as int));
        assert forall|a: int, b: int| 0 <= a < b < result.len() implies (#[trigger] result[a]).0
            != (#[trigger] result[b]).0 by {
            if b == inner.len() {
                assert(result[a] == inner[a]);
                assert(is_pinned(inner, inner[a].0 as int));
            } else {
                assert(result[a] == inner[a] && result[b] == inner[b]);
            }
        }
        assert forall|i: int| #[trigger] is_pinned(result, i) <==> (is_pinned(sorted, i) || i == pin.0) by {
            assert(is_pinned(inner, i) <==> (is_pinned(prefix, i) || i == pin.0));
            if is_pinned(inner, i) {
                let k = choose|k: int| 0 <= k < inner.len() && (#[trigger] inner[k]).0 == i;
                assert(result[k] == inner[k]);
            }
            if is_pinned(prefix, i) {
                let k = choose|k: int| 0 <= k < prefix.len() && (#[trigger] prefix[k]).0 == i;
                assert(sorted[k] == prefix[k]);
            }
            if i == last.0 {
                assert(result[inner.len() as int] == last);
                assert(is_pinned(sorted, i));
            }
            if is_pinned(result, i) {
                let k = choose|k: int| 0 <= k < result.len() && (#[trigger] result[k]).0 == i;
                if k < inner.len() {
                    assert(result[k] == inner[k]);
                } else {
                    assert(sorted[n - 1].0 == i);
                }
            }
            if is_pinned(sorted, i) {
                let k = choose|k: int| 0 <= k < sorted.len() && (#[trigger] sorted[k]).0 == i;
                if k < n - 1 {
                    assert(prefix[k] == sorted[k]);
                }
            }
        }
    }
}

proof fn lemma_sort_by_index_distinct(pins: Seq<Pin>)
    requires
        distinct_indices(pins),
    ensures
        distinct_indices(sort_by_index(pins)),
        forall|i: int| #[trigger] is_pinned(sort_by_index(pins), i) <==> is_pinned(pins, i),
    decreases pins.len(),
{
    if pins.len() > 0 {
        let prefix = pins.drop_last();
        let last = pins.last();
        let n = pins.len() as int;
        assert(pins[n - 1] == last);
        assert forall|a: int, b: int| 0 <= a < b < prefix.len() implies (#[trigger] prefix[a]).0
            != (#[trigger] prefix[b]).0 by {
            assert(prefix[a] == pins[a] && prefix[b] == pins[b]);
        }
        lemma_sort_by_index_distinct(prefix);
        let sorted = sort_by_index(prefix);
        assert(!is_pinned(sorted, last.0 as int)) by {
            if is_pinned(prefix, last.0 as int) {
                let k = choose|k: int| 0 <= k < prefix.len() && (#[trigger] prefix[k]).0 == last.0;
                assert(pins[k] == prefix[k]);
            }
        }
        lemma_insert_by_index_distinct(sorted, last);
        assert forall|i: int| #[trigger] is_pinned(sort_by_index(pins), i) <==> is_pinned(pins, i) by {
            if is_pinned(prefix, i) {
                let k = choose|k: int| 0 <= k < prefix.len() && (#[trigger] prefix[k]).0 == i;
                assert(pins[k] == prefix[k]);
            }
            if is_pinned(pins, i) {
                let k = choose|k: int| 0 <= k < pins.len() && (#[trigger] pins[k]).0 == i;
                if k < n - 1 {
                    assert(prefix[k] == pins[k]);
                }
            }
        }
    }
}

proof fn lemma_with_anchor_pins_distinct(pins: Seq<Pin>, signs: Seq<i8>)
    requires
        distinct_indices(pins),
        signs.len() <= usize::MAX + 1,
    ensures
        distinct_indices(with_anchor_pins(pins, signs)),
    decreases signs.len(),
{
    if signs.len() > 0 {
        let n = signs.len() as int;
        lemma_with_anchor_pins_distinct(pins, signs.drop_last());
        let earlier = with_anchor_pins(pins, signs.drop_last());
        if signs.last() == 0 && !is_pinned(earlier, n - 1) {
            let pushed = earlier.push(((n - 1) as usize, Side::Anchor));
            assert forall|a: int, b: int| 0 <= a < b < pushed.len() implies (#[trigger] pushed[a]).0
                != (#[trigger] pushed[b]).0 by {
                assert(pushed[a] == earlier[a]);
                if b < earlier.len() {
                    assert(pushed[b] == earlier[b]);
                } else if pushed[a].0 == pushed[b].0 {
                    assert(pushed[b].0 == n - 1);
                    assert(earlier[a].0 == n - 1);
                    assert(is_pinned(earlier, n - 1));
                }
            }
        }
    }
}

/// Inserts `pin` into `sorted`, behind every pin whose index is not larger.
fn insert_pin(sorted: &mut Vec<Pin>, pin: Pin)
    ensures
        final(sorted)@ == insert_by_index(old(sorted)@, pin),
{
    let mut j = sorted.len();
    while j > 0 && sorted[j - 1].0 > pin.0
        invariant
            j <= sorted@.len(),
            sorted@ == old(sorted)@,
            forall|k: int| j <= k < sorted@.len() ==> (#[trigger] sorted@[k]).0 > pin.0,
        decreases j,
    {
        j = j - 1;
    }
    proof {
        lemma_insert_by_index_split(sorted@, pin, j as int);
        let prefix = sorted@.take(j as int);
        if j > 0 {
            assert(prefix.last() == sorted@[j - 1]);
        }
        assert(insert_by_index(prefix, pin) == prefix.push(pin));
        assert(prefix.push(pin) + sorted@.skip(j as int) =~= sorted@.insert(j as int, pin));
    }
    sorted.insert(j, pin);
}

/// Pins every no-trade variable (`sign == 0`) at its anchor, unless a bound
/// pin already holds it, then orders the pins by variable index (stably).
///
/// A doubly pinned variable would split one multiplier across two rows
/// arbitrarily, which is why existing pins take precedence: when no
/// variable starts out doubly pinned, none ends up so.
pub fn add_anchor_pins(bounds: &mut Vec<Pin>, l1_signs: &[i8])
    ensures
        stably_sorted_by_index(final(bounds)@, with_anchor_pins(old(bounds)@, l1_signs@)),
        final(bounds)@.to_multiset() == with_anchor_pins(old(bounds)@, l1_signs@).to_multiset(),
        distinct_indices(old(bounds)@) ==> distinct_indices(final(bounds)@),
{
    let mut index: usize = 0;
    while index < l1_signs.len()
        invariant
            index <= l1_signs@.len(),
            bounds@ == with_anchor_pins(old(bounds)@, l1_signs@.take(index as int)),
        decreases l1_signs@.len() - index,
    {
        let ghost earlier = bounds@;
        let mut pinned = false;
        let mut k: usize = 0;
        while k < bounds.len()
            invariant
                k <= bounds@.len(),
                bounds@ == earlier,
                pinned == exists|m: int| 0 <= m < k && (#[trigger] bounds@[m]).0 == index,
            decreases bounds@.len() - k,
        {
            if bounds[k].0 == index {
                pinned = true;
            }
            k = k + 1;
        }
        proof {
            assert(pinned == is_pinned(earlier, index as int));
            let next = l1_signs@.take(index + 1);
            assert(next.drop_last() =~= l1_signs@.take(index as int));
            assert(next.last() == l1_signs@[index as int]);
        }
        if l1_signs[index] == 0 && !pinned {
            bounds.push((index, Side::Anchor));
        }
        index = index + 1;
    }
    proof {
        assert(l1_signs@.take(l1_signs@.len() as int) =~= l1_signs@);
    }
    let ghost unsorted = bounds@;
    let mut sorted: Vec<Pin> = Vec::new();
    let mut i: usize = 0;
    while i < bounds.len()
        invariant
            bounds@ == unsorted,
            i <= unsorted.len(),
            sorted@ == sort_by_index(unsorted.take(i as int)),
        decreases unsorted.len() - i,
    {
        insert_pin(&mut sorted, bounds[i]);
        proof {
            let next = unsorted.take(i + 1);
            assert(next.drop_last() =~= unsorted.take(i as int));
            assert(next.last() == unsorted[i as int]);
        }
        i = i + 1;
    }
    proof {
        assert(unsorted.take(unsorted.len() as int) =~= unsorted);
        lemma_sort_by_index_sorted(unsorted);
        assert forall|index: int| #[trigger] pins_of(sorted@, index) == pins_of(unsorted, index) by {
            lemma_sort_by_index_stable(unsorted, index);
        }
        if distinct_indices(old(bounds)@) {
            lemma_with_anchor_pins_distinct(old(bounds)@, l1_signs@);
            lemma_sort_by_index_distinct(unsorted);
        }
    }
    *bounds = sorted;
}

/// Every no-trade variable ends up pinned (by an existing pin or by a new
/// anchor pin), and no variable that trades gains a new pin.
pub proof fn lemma_no_trade_variables_are_pinned(pins: Seq<Pin>, signs: Seq<i8>, index: int)
    requires
        0 <= index < signs.len(),
        signs.len() <= usize::MAX + 1,
    ensures
        signs[index] == 0 ==> is_pinned(with_anchor_pins(pins, signs), index),
        signs[index] != 0 ==> (is_pinned(with_anchor_pins(pins, signs), index) <==> is_pinned(
            pins,
            index,
        )),
    decreases signs.len(),
{
    let n = signs.len() as int;
    let earlier = with_anchor_pins(pins, signs.drop_last());
    if index < n - 1 {
        lemma_no_trade_variables_are_pinned(pins, signs.drop_last(), index);
        assert(signs.drop_last()[index] == signs[index]);
        if signs.last() == 0 && !is_pinned(earlier, n - 1) {
            let pushed = earlier.push(((n - 1) as usize, Side::Anchor));
            if is_pinned(earlier, index) {
                let k = choose|k: int| 0 <= k < earlier.len() && (#[trigger] earlier[k]).0 == index;
                assert(pushed[k] == earlier[k]);
            }
            if is_pinned(pushed, index) {
                let k = choose|k: int| 0 <= k < pushed.len() && (#[trigger] pushed[k]).0 == index;
                if k < earlier.len() {
                    assert(pushed[k] == earlier[k]);
                }
            }
        }
    } else {
        lemma_pins_only_grow_above(pins, signs.drop_last(), index);
        if signs.last() == 0 && !is_pinned(earlier, n - 1) {
            let pushed = earlier.push(((n - 1) as usize, Side::Anchor));
            assert(pushed[pushed.len() - 1].0 == index);
        }
    }
}

/// Anchor pins added for a prefix of the signs only name variables inside
/// that prefix, so later variables are pinned exactly when they were
/// pinned before.
proof fn lemma_pins_only_grow_above(pins: Seq<Pin>, signs: Seq<i8>, index: int)
    requires
        index >= signs.len(),
        signs.len() <= usize::MAX + 1,
    ensures
        is_pinned(with_anchor_pins(pins, signs), index) <==> is_pinned(pins, index),
    decreases signs.len(),
{
    if signs.len() > 0 {
        let n = signs.len() as int;
        lemma_pins_only_grow_above(pins, signs.drop_last(), index);
        let earlier = with_anchor_pins(pins, signs.drop_last());
        if signs.last() == 0 && !is_pinned(earlier, n - 1) {
            let pushed = earlier.push(((n - 1) as usize, Side::Anchor));
            if is_pinned(earlier, index) {
                let k = choose|k: int| 0 <= k < earlier.len() && (#[trigger] earlier[k]).0 == index;
                assert(pushed[k] == earlier[k]);
            }
            if is_pinned(pushed, index) {
                let k = choose|k: int| 0 <= k < pushed.len() && (#[trigger] pushed[k]).0 == index;
                if k < earlier.len() {
                    assert(pushed[k] == earlier[k]);
                } else {
                    assert(pushed[k].0 == n - 1);
                }
            }
        }
    }
}

/// The side a variable is pinned to by the initial active-set guess, from
/// whether it sits on its lower and upper bound with a multiplier that does
/// not point away: a fixed variable (on both) takes the side its
/// multiplier points at.
pub open spec fn guessed_side_of(at_lower: bool, at_upper: bool, multiplier_positive: bool) -> Option<Side> {
    if at_lower && at_upper {
        Some(if multiplier_positive { Side::Upper } else { Side::Lower })
    } else if at_upper {
        Some(Side::Upper)
    } else if at_lower {
        Some(Side::Lower)
    } else {
        None
    }
}

/// The side a variable is pinned to by the initial active-set guess.
pub fn guessed_side(at_lower: bool, at_upper: bool, multiplier_positive: bool) -> (side: Option<Side>)
    ensures
        side == guessed_side_of(at_lower, at_upper, multiplier_positive),
{
    match (at_lower, at_upper) {
        (false, true) => Some(Side::Upper),
        (true, false) => Some(Side::Lower),
        (true, true) => Some(if multiplier_positive { Side::Upper } else { Side::Lower }),
        (false, false) => None,
    }
}

/// The assumed L1 trade direction of a variable in the next polishing
/// pass: a variable on the kink (`0`) starts trading toward the side its
/// implied multiplier escaped `[-c_i, c_i]` to; a trading variable that
/// crossed its anchor is pinned back onto the kink.
pub open spec fn refined_sign_of(previous: i8, escaped_above: bool, escaped_below: bool, crossed: bool) -> i8 {
    if previous == 0 {
        if escaped_above {
            1i8
        } else if escaped_below {
            -1i8
        } else {
            0i8
        }
    } else if crossed {
        0i8
    } else {
        previous
    }
}

/// The assumed L1 trade direction of a variable in the next polishing pass.
pub fn refined_sign(previous: i8, escaped_above: bool, escaped_below: bool, crossed: bool) -> (sign: i8)
    ensures
        sign == refined_sign_of(previous, escaped_above, escaped_below, crossed),
{
    if previous == 0 {
        if escaped_above {
            1
        } else if escaped_below {
            -1
        } else {
            0
        }
    } else if crossed {
        0
    } else {
        previous
    }
}

} // verus!
