//! Penalty-keyed cache of reduced factorizations.
//!
//! The adaptive-penalty policy of the solver visits a ladder of penalties and
//! every penalty needs its own reduced factorization. A workspace keeps the
//! factorizations it built in a small most-recently-used-first table keyed by
//! the exact bit pattern of the penalty, so a ladder that is replayed on
//! every solve is factored once per workspace.

use vstd::prelude::*;

verus! {

/// Reduced factorizations kept per workspace. The adaptive ladder of a
/// well-scaled solve visits a handful of penalties; pathological ladders
/// simply fall back to least-recently-used rebuilding.
pub const FACTORIZATION_CACHE_CAPACITY: usize = 16;

/// Most-recently-used-first table of values keyed by penalty bits.
///
/// The front entry is the one in use. Keys are distinct, the table is never
/// empty, and it never holds more than [`FACTORIZATION_CACHE_CAPACITY`]
/// entries.
#[derive(Debug)]
pub struct FactorizationCache<V> {
    front: (u64, V),
    rest: Vec<(u64, V)>,
}

/// Whether `key` is one of the keys of `entries`.
pub open spec fn has_key<V>(entries: Seq<(u64, V)>, key: u64) -> bool {
    exists|i: int| 0 <= i < entries.len() && (#[trigger] entries[i]).0 == key
}

/// The table after moving entry `i` to the front.
pub open spec fn moved_to_front<V>(entries: Seq<(u64, V)>, i: int) -> Seq<(u64, V)> {
    seq![entries[i]] + entries.remove(i)
}

/// The entries that stay behind a newly inserted front entry: all of them
/// while there is room, otherwise all but the least recently used.
pub open spec fn survivors<V>(entries: Seq<(u64, V)>) -> Seq<(u64, V)> {
    if entries.len() < FACTORIZATION_CACHE_CAPACITY {
        entries
    } else {
        entries.take(FACTORIZATION_CACHE_CAPACITY - 1)
    }
}

/// The well-formedness condition of a cache table.
pub open spec fn table_ok<V>(entries: Seq<(u64, V)>) -> bool {
    &&& 1 <= entries.len() <= FACTORIZATION_CACHE_CAPACITY
    &&& forall|i: int, j: int|
        0 <= i < j < entries.len() ==> (#[trigger] entries[i]).0 != (#[trigger] entries[j]).0
}

/// After ensuring `key`, the table holds `key` in front and still holds
/// every key that was among the most recently used
/// `FACTORIZATION_CACHE_CAPACITY - 1` entries before: a hit only reorders
/// the table, and a miss evicts at most the least recently used entry.
pub proof fn lemma_recent_keys_survive<V>(before: Seq<(u64, V)>, after: Seq<(u64, V)>, key: u64)
    requires
        table_ok(before),
        (exists|i: int| 0 <= i < before.len() && before[i].0 == key && after == moved_to_front(before, i))
            || (after.len() > 0 && after[0].0 == key && after.drop_first() == survivors(before)),
    ensures
        after[0].0 == key,
        forall|j: int|
            0 <= j < before.len() && j < FACTORIZATION_CACHE_CAPACITY - 1 ==> has_key(
                after,
                #[trigger] before[j].0,
            ),
{
    if exists|i: int| 0 <= i < before.len() && before[i].0 == key && after == moved_to_front(before, i) {
        let i = choose|i: int| 0 <= i < before.len() && before[i].0 == key && after == moved_to_front(before, i);
        assert forall|j: int|
            0 <= j < before.len() && j < FACTORIZATION_CACHE_CAPACITY - 1 implies has_key(
            after,
            #[trigger] before[j].0,
        ) by {
            if j == i {
                assert(after[0] == before[j]);
            } else if j < i {
                assert(after[j + 1] == before[j]);
            } else {
                assert(after[j] == before[j]);
            }
        }
    } else {
        assert forall|j: int|
            0 <= j < before.len() && j < FACTORIZATION_CACHE_CAPACITY - 1 implies has_key(
            after,
            #[trigger] before[j].0,
        ) by {
            assert(after.drop_first()[j] == before[j]);
            assert(after[j + 1] == before[j]);
        }
    }
}

impl<V> View for FactorizationCache<V> {
    type V = Seq<(u64, V)>;

    /// Entries, most recently used first.
    closed spec fn view(&self) -> Seq<(u64, V)> {
        seq![self.front] + self.rest@
    }
}

impl<V> FactorizationCache<V> {
    /// The table invariant holds of every cache.
    #[verifier::type_invariant]
    spec fn entries_form_a_table(self) -> bool {
        table_ok(seq![self.front] + self.rest@)
    }

    /// A cache holding the first factorization.
    pub fn new(key: u64, value: V) -> (cache: Self)
        ensures
            table_ok(cache@),
            cache@ == seq![(key, value)],
    {
        let cache = FactorizationCache { front: (key, value), rest: Vec::new() };
        assert(cache@ =~= seq![(key, value)]);
        cache
    }

    /// The value in use (the most recently used entry).
    pub fn current(&self) -> (value: &V)
        ensures
            *value == self@[0].1,
    {
        &self.front.1
    }

    /// The key of the value in use.
    pub fn current_key(&self) -> (key: u64)
        ensures
            key == self@[0].0,
    {
        self.front.0
    }

    /// Number of cached entries.
    pub fn len(&self) -> (count: usize)
        ensures
            count == self@.len(),
    {
        proof {
            use_type_invariant(self);
        }
        self.rest.len() + 1
    }

    /// Moves the entry for `key` to the front, building it with `build` on a
    /// miss and evicting the least recently used entry beyond capacity.
    ///
    /// Returns `Ok(true)` when a value was built, `Ok(false)` on a hit, and
    /// the builder's error (leaving the table unchanged) when building
    /// fails.
    pub fn ensure<E, F: FnOnce() -> Result<V, E>>(&mut self, key: u64, build: F) -> (result:
        Result<bool, E>)
        requires
            call_requires(build, ()),
        ensures
            table_ok(old(self)@),
            table_ok(final(self)@),
            has_key(old(self)@, key) ==> result == Ok::<bool, E>(false) && exists|i: int|
                0 <= i < old(self)@.len() && old(self)@[i].0 == key && final(self)@ == moved_to_front(
                    old(self)@,
                    i,
                ),
            !has_key(old(self)@, key) ==> match result {
                Ok(built) => {
                    &&& built
                    &&& final(self)@[0].0 == key
                    &&& call_ensures(build, (), Ok::<V, E>(final(self)@[0].1))
                    &&& final(self)@.drop_first() == survivors(old(self)@)
                },
                Err(error) => {
                    &&& call_ensures(build, (), Err::<V, E>(error))
                    &&& final(self)@ == old(self)@
                },
            },
    {
        proof {
            use_type_invariant(&*self);
        }
        let ghost before = self@;
        if self.front.0 == key {
            assert(moved_to_front(before, 0) =~= before);
            return Ok(false);
        }
        let mut i: usize = 0;
        while i < self.rest.len()
            invariant
                i <= self.rest@.len(),
                self@ == before,
                before == old(self)@,
                before == seq![self.front] + self.rest@,
                table_ok(before),
                self.front.0 != key,
                forall|j: int| 0 <= j < i ==> (#[trigger] self.rest@[j]).0 != key,
            decreases self.rest@.len() - i,
        {
            if self.rest[i].0 == key {
                let mut rest: Vec<(u64, V)> = Vec::new();
                std::mem::swap(&mut self.rest, &mut rest);
                let ghost taken = rest@;
                let mut entry = rest.remove(i);
                std::mem::swap(&mut self.front, &mut entry);
                rest.insert(0, entry);
                proof {
                    let moved = moved_to_front(before, i + 1);
                    assert(before[i + 1] == taken[i as int]);
                    assert(before[0] == entry);
                    assert(seq![self.front] + rest@ =~= moved);
                    let removed = before.remove(i + 1);
                    assert forall|a: int, b: int| 0 <= a < b < moved.len() implies (
                    #[trigger] moved[a]).0 != (#[trigger] moved[b]).0 by {
                        let k = i + 1;
                        if a == 0 {
                            assert(moved[b] == removed[b - 1]);
                            if b - 1 < k {
                                assert(removed[b - 1] == before[b - 1]);
                            } else {
                                assert(removed[b - 1] == before[b]);
                            }
                        } else {
                            assert(moved[a] == removed[a - 1] && moved[b] == removed[b - 1]);
                            let sa = if a - 1 < k {
                                a - 1
                            } else {
                                a
                            };
                            let sb = if b - 1 < k {
                                b - 1
                            } else {
                                b
                            };
                            assert(removed[a - 1] == before[sa] && removed[b - 1] == before[sb]);
                            assert(sa < sb);
                        }
                    }
                }
                self.rest = rest;
                assert(before[i + 1].0 == key);
                return Ok(false);
            }
            i = i + 1;
        }
        proof {
            assert forall|j: int| 0 <= j < before.len() implies (#[trigger] before[j]).0 != key by {
                if j > 0 {
                    assert(before[j] == self.rest@[j - 1]);
                }
            }
        }
        match build() {
            Ok(value) => {
                proof {
                    let next = seq![(key, value)] + self.rest@;
                    assert forall|a: int, b: int| 0 <= a < b < next.len() implies (
                    #[trigger] next[a]).0 != (#[trigger] next[b]).0 by {
                        assert(next[b] == before[b]);
                        if a > 0 {
                            assert(next[a] == before[a]);
                        }
                    }
                }
                let mut entry = (key, value);
                std::mem::swap(&mut self.front, &mut entry);
                let mut rest: Vec<(u64, V)> = Vec::new();
                std::mem::swap(&mut self.rest, &mut rest);
                rest.insert(0, entry);
                rest.truncate(FACTORIZATION_CACHE_CAPACITY - 1);
                proof {
                    assert(rest@ =~= survivors(before));
                    let next = seq![self.front] + rest@;
                    assert forall|a: int, b: int| 0 <= a < b < next.len() implies (
                    #[trigger] next[a]).0 != (#[trigger] next[b]).0 by {
                        assert(next[b] == before[b - 1]);
                        if a > 0 {
                            assert(next[a] == before[a - 1]);
                        }
                    }
                    assert(next.drop_first() =~= rest@);
                }
                self.rest = rest;
                Ok(true)
            },
            Err(error) => Err(error),
        }
    }
}

} // verus!
