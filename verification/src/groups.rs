//! Group bookkeeping for the industry-neutrality and group-target
//! constraint templates.
//!
//! `groups[i]` is the zero-based group id of asset `i`. Each group becomes
//! one equality row pinning the summed weights of its member assets.

use vstd::prelude::*;

use crate::constraints::DimensionError;
use crate::text::{decimal, push_decimal};

verus! {

/// Why a constraint template's group data was rejected.
#[derive(Clone, Debug, PartialEq, Eq)]
pub enum TemplateError {
    /// The per-asset group vector has the wrong length.
    Dimension(DimensionError),
    /// The group data is inconsistent; the text says how.
    Template(String),
}

/// Index of the first asset whose group id is at least `count`.
pub open spec fn first_out_of_range(groups: Seq<usize>, count: nat) -> Option<int>
    decreases groups.len(),
{
    if groups.len() == 0 {
        None
    } else {
        match first_out_of_range(groups.drop_last(), count) {
            Some(i) => Some(i),
            None => if groups.last() >= count {
                Some(groups.len() - 1)
            } else {
                None
            },
        }
    }
}

/// The first out-of-range id is an id of at least `count` with only
/// in-range ids before it; with none, every id is below `count`.
pub proof fn lemma_first_out_of_range_is_first(groups: Seq<usize>, count: nat)
    ensures
        first_out_of_range(groups, count) is None <==> forall|a: int|
            0 <= a < groups.len() ==> #[trigger] groups[a] < count,
        first_out_of_range(groups, count) matches Some(i) ==> {
            &&& 0 <= i < groups.len()
            &&& groups[i] >= count
            &&& forall|a: int| 0 <= a < i ==> #[trigger] groups[a] < count
        },
    decreases groups.len(),
{
    if groups.len() > 0 {
        let prefix = groups.drop_last();
        lemma_first_out_of_range_is_first(prefix, count);
        assert forall|a: int| 0 <= a < prefix.len() implies prefix[a] == groups[a] by {}
        if first_out_of_range(prefix, count) is None && groups.last() < count {
            assert forall|a: int| 0 <= a < groups.len() implies #[trigger] groups[a] < count by {
                if a < prefix.len() {
                    assert(prefix[a] == groups[a]);
                }
            }
        }
    }
}

/// Whether some asset belongs to group `group`.
pub open spec fn has_member(groups: Seq<usize>, group: int) -> bool {
    exists|a: int| 0 <= a < groups.len() && groups[a] == group
}

/// The smallest group id below `count` without member assets.
pub open spec fn first_empty_group(groups: Seq<usize>, count: nat) -> Option<int> {
    if exists|g: int| 0 <= g < count && !has_member(groups, g) {
        Some(
            choose|g: int|
                0 <= g < count && !has_member(groups, g) && forall|h: int|
                    0 <= h < g ==> has_member(groups, h),
        )
    } else {
        None
    }
}

/// Entry `a` of the indicator row of group `g`.
pub open spec fn indicator<T>(groups: Seq<usize>, g: int, a: int, zero: T, one: T) -> T {
    if a < groups.len() && groups[a] == g {
        one
    } else {
        zero
    }
}

/// Text of an out-of-range group id.
pub open spec fn out_of_range_text(field: Seq<char>, id: nat, count: nat) -> Seq<char> {
    field + " contains id "@ + decimal(id) + " but only "@ + decimal(count)
        + " target(s) were supplied"@
}

/// Text of a group without member assets.
pub open spec fn empty_group_text(field: Seq<char>, group: nat) -> Seq<char> {
    field + " group "@ + decimal(group) + " has no member assets; its row would read 0 = target"@
}

proof fn lemma_first_out_of_range_prefix(groups: Seq<usize>, count: nat, n: int)
    requires
        0 <= n <= groups.len(),
    ensures
        first_out_of_range(groups.take(n), count) is Some ==> first_out_of_range(groups, count)
            == first_out_of_range(groups.take(n), count),
        first_out_of_range(groups.take(n), count) is None <==> forall|a: int|
            0 <= a < n ==> groups[a] < count,
    decreases groups.len() - n,
{
    lemma_first_out_of_range_none(groups.take(n), count);
    assert forall|a: int| 0 <= a < n implies groups.take(n)[a] == groups[a] by {}
    if n < groups.len() {
        lemma_first_out_of_range_prefix(groups.drop_last(), count, n);
        assert(groups.drop_last().take(n) =~= groups.take(n));
    } else {
        assert(groups.take(n) =~= groups);
    }
}

proof fn lemma_first_out_of_range_none(groups: Seq<usize>, count: nat)
    ensures
        first_out_of_range(groups, count) is None <==> forall|a: int|
            0 <= a < groups.len() ==> groups[a] < count,
    decreases groups.len(),
{
    if groups.len() > 0 {
        let n = groups.len() as int;
        let earlier = groups.drop_last();
        lemma_first_out_of_range_none(earlier, count);
        assert forall|a: int| 0 <= a < n - 1 implies earlier[a] == groups[a] by {}
        if first_out_of_range(earlier, count) is Some {
            let a = choose|a: int| 0 <= a < n - 1 && !(earlier[a] < count);
            assert(!(groups[a] < count));
        } else if groups[n - 1] < count {
            assert forall|a: int| 0 <= a < n implies groups[a] < count by {
                if a < n - 1 {
                    assert(earlier[a] < count);
                }
            }
        }
    }
}

/// Checks per-asset group ids: right length and, when the group count is
/// fixed by an explicit target vector, ids within range.
pub fn validate_group_ids(
    field: &'static str,
    groups: &[usize],
    dimension: usize,
    group_count: Option<usize>,
) -> (result: Result<(), TemplateError>)
    ensures
        groups@.len() != dimension ==> result == Err::<(), TemplateError>(
            TemplateError::Dimension(
                DimensionError { field, expected: dimension, actual: groups@.len() as usize },
            ),
        ),
        groups@.len() == dimension ==> match group_count {
            None => result is Ok,
            Some(count) => match first_out_of_range(groups@, count as nat) {
                None => result is Ok,
                Some(i) => (result matches Err(TemplateError::Template(text)) && text@
                    == out_of_range_text(field@, groups@[i] as nat, count as nat)),
            },
        },
        result is Ok <==> (groups@.len() == dimension && (group_count matches Some(count)
            ==> forall|a: int| 0 <= a < groups@.len() ==> #[trigger] groups@[a] < count)),
{
    proof {
        if let Some(count) = group_count {
            lemma_first_out_of_range_is_first(groups@, count as nat);
        }
    }
    if groups.len() != dimension {
        return Err(
            TemplateError::Dimension(DimensionError { field, expected: dimension, actual: groups.len() }),
        );
    }
    if let Some(count) = group_count {
        let mut i: usize = 0;
        while i < groups.len()
            invariant
                i <= groups@.len(),
                groups@.len() == dimension,
                group_count == Some(count),
                first_out_of_range(groups@.take(i as int), count as nat) is None,
            decreases groups@.len() - i,
        {
            proof {
                let next = groups@.take(i + 1);
                assert(next.drop_last() =~= groups@.take(i as int));
                lemma_first_out_of_range_prefix(groups@, count as nat, i + 1);
            }
            if groups[i] >= count {
                proof {
                    let next = groups@.take(i + 1);
                    assert(next.last() == groups@[i as int]);
                    assert(first_out_of_range(next, count as nat) == Some(i as int));
                }
                let mut text = String::from_str(field);
                proof {
                    reveal_strlit(" contains id ");
                    reveal_strlit(" but only ");
                    reveal_strlit(" target(s) were supplied");
                }
                text.append(" contains id ");
                push_decimal(&mut text, groups[i] as u64);
                text.append(" but only ");
                push_decimal(&mut text, count as u64);
                text.append(" target(s) were supplied");
                assert(text@ =~= out_of_range_text(field@, groups@[i as int] as nat, count as nat));
                return Err(TemplateError::Template(text));
            }
            i = i + 1;
        }
        proof {
            assert(groups@.take(groups@.len() as int) =~= groups@);
        }
    }
    Ok(())
}

/// Number of groups implied by zero-based ids: the largest id plus one, or
/// zero without assets.
pub fn group_count(groups: &[usize]) -> (count: usize)
    requires
        forall|a: int| 0 <= a < groups@.len() ==> groups@[a] < usize::MAX,
    ensures
        forall|a: int| 0 <= a < groups@.len() ==> groups@[a] < count,
        groups@.len() == 0 ==> count == 0,
        groups@.len() > 0 ==> exists|a: int| 0 <= a < groups@.len() && groups@[a] + 1 == count,
{
    let mut count: usize = 0;
    let mut i: usize = 0;
    while i < groups.len()
        invariant
            i <= groups@.len(),
            forall|a: int| 0 <= a < groups@.len() ==> groups@[a] < usize::MAX,
            forall|a: int| 0 <= a < i ==> groups@[a] < count,
            i == 0 ==> count == 0,
            i > 0 ==> exists|a: int| 0 <= a < i && groups@[a] + 1 == count,
        decreases groups@.len() - i,
    {
        if groups[i] + 1 > count {
            count = groups[i] + 1;
        }
        i = i + 1;
    }
    count
}

/// Rejects a group without member assets, naming the smallest such group:
/// its row would read `0 = target`.
pub fn check_groups_populated(field: &'static str, groups: &[usize], count: usize) -> (result:
    Result<(), TemplateError>)
    requires
        forall|a: int| 0 <= a < groups@.len() ==> groups@[a] < count,
    ensures
        match first_empty_group(groups@, count as nat) {
            None => result is Ok,
            Some(g) => (result matches Err(TemplateError::Template(text)) && text@ == empty_group_text(
                field@,
                g as nat,
            )),
        },
{
    let mut populated: Vec<bool> = Vec::new();
    let mut g: usize = 0;
    while g < count
        invariant
            g <= count,
            populated@.len() == g,
            forall|h: int| 0 <= h < g ==> !populated@[h],
        decreases count - g,
    {
        populated.push(false);
        g = g + 1;
    }
    let mut a: usize = 0;
    while a < groups.len()
        invariant
            a <= groups@.len(),
            populated@.len() == count,
            forall|b: int| 0 <= b < groups@.len() ==> groups@[b] < count,
            forall|h: int|
                0 <= h < count ==> (populated@[h] <==> exists|b: int|
                    0 <= b < a && groups@[b] == h),
        decreases groups@.len() - a,
    {
        populated.set(groups[a], true);
        proof {
            assert forall|h: int| 0 <= h < count implies (populated@[h] <==> exists|b: int|
                0 <= b < a + 1 && groups@[b] == h) by {
                if h == groups@[a as int] {
                    assert(0 <= a < a + 1 && groups@[a as int] == h);
                } else if populated@[h] {
                    let b = choose|b: int| 0 <= b < a && groups@[b] == h;
                    assert(0 <= b < a + 1 && groups@[b] == h);
                }
            }
        }
        a = a + 1;
    }
    let mut g: usize = 0;
    while g < count
        invariant
            g <= count,
            populated@.len() == count,
            forall|h: int| 0 <= h < count ==> (populated@[h] <==> has_member(groups@, h)),
            forall|h: int| 0 <= h < g ==> has_member(groups@, h),
        decreases count - g,
    {
        if !populated[g] {
            proof {
                let chosen = choose|c: int|
                    0 <= c < count && !has_member(groups@, c) && forall|h: int|
                        0 <= h < c ==> has_member(groups@, h);
                assert(0 <= g < count && !has_member(groups@, g as int) && forall|h: int|
                    0 <= h < g ==> has_member(groups@, h));
                assert(chosen == g) by {
                    if chosen < g {
                        assert(has_member(groups@, chosen));
                    } else if chosen > g {
                        assert(has_member(groups@, g as int));
                    }
                }
            }
            let mut text = String::from_str(field);
            proof {
                reveal_strlit(" group ");
                reveal_strlit(" has no member assets; its row would read 0 = target");
            }
            text.append(" group ");
            push_decimal(&mut text, g as u64);
            text.append(" has no member assets; its row would read 0 = target");
            assert(text@ =~= empty_group_text(field@, g as nat));
            return Err(TemplateError::Template(text));
        }
        g = g + 1;
    }
    Ok(())
}

/// One row per group with `one` at the member assets and `zero` elsewhere.
pub fn group_indicator_rows<T: Copy>(
    groups: &[usize],
    count: usize,
    dimension: usize,
    zero: T,
    one: T,
) -> (rows: Vec<Vec<T>>)
    ensures
        rows@.len() == count,
        forall|g: int| 0 <= g < count ==> (#[trigger] rows@[g])@.len() == dimension,
        forall|g: int, a: int|
            0 <= g < count && 0 <= a < dimension ==> #[trigger] rows@[g]@[a] == indicator(groups@, g, a, zero, one),
{
    let mut rows: Vec<Vec<T>> = Vec::new();
    let mut g: usize = 0;
    while g < count
        invariant
            g <= count,
            rows@.len() == g,
            forall|h: int| 0 <= h < g ==> (#[trigger] rows@[h])@.len() == dimension,
            forall|h: int, a: int|
                0 <= h < g && 0 <= a < dimension ==> #[trigger] rows@[h]@[a] == indicator(groups@, h, a, zero, one),
        decreases count - g,
    {
        let mut row: Vec<T> = Vec::new();
        let mut a: usize = 0;
        while a < dimension
            invariant
                a <= dimension,
                row@.len() == a,
                forall|b: int|
                    0 <= b < a ==> row@[b] == indicator(groups@, g as int, b, zero, one),
            decreases dimension - a,
        {
            let value = if a < groups.len() && groups[a] == g {
                one
            } else {
                zero
            };
            let ghost before = row@;
            row.push(value);
            proof {
                assert forall|b: int| 0 <= b < a + 1 implies row@[b] == indicator(groups@, g as int, b, zero, one) by {
                    if b < a {
                        assert(row@[b] == before[b]);
                    }
                }
            }
            a = a + 1;
        }
        let ghost before = rows@;
        rows.push(row);
        proof {
            assert forall|h: int, a: int|
                0 <= h < g + 1 && 0 <= a < dimension implies #[trigger] rows@[h]@[a] == indicator(groups@, h, a, zero, one) by {
                if h < g {
                    assert(rows@[h] == before[h]);
                }
            }
            assert forall|h: int| 0 <= h < g + 1 implies (#[trigger] rows@[h])@.len() == dimension by {
                if h < g {
                    assert(rows@[h] == before[h]);
                }
            }
        }
        g = g + 1;
    }
    rows
}

} // verus!
