//! Ordered lookups on the packets that wait for playback and on the sequence numbers that were
//! given up as lost.

use std::collections::{BTreeMap, BTreeSet};
use vstd::prelude::*;

verus! {

/// `k` is the lowest number of `keys`.
pub open spec fn is_lowest(keys: Set<u32>, k: u32) -> bool {
    keys.contains(k) && forall|j: u32| #[trigger] keys.contains(j) ==> k <= j
}

/// `k` is the highest number of `keys`.
pub open spec fn is_highest(keys: Set<u32>, k: u32) -> bool {
    keys.contains(k) && forall|j: u32| #[trigger] keys.contains(j) ==> j <= k
}

/// The lowest number of `keys`, if there is any.
pub open spec fn lowest(keys: Set<u32>) -> Option<u32> {
    if exists|k: u32| is_lowest(keys, k) {
        Some(choose|k: u32| is_lowest(keys, k))
    } else {
        None
    }
}

/// The highest number of `keys`, if there is any.
pub open spec fn highest(keys: Set<u32>) -> Option<u32> {
    if exists|k: u32| is_highest(keys, k) {
        Some(choose|k: u32| is_highest(keys, k))
    } else {
        None
    }
}

/// A number that no number of `keys` undercuts is the lowest.
pub proof fn lemma_lowest(keys: Set<u32>, k: u32)
    requires
        is_lowest(keys, k),
    ensures
        lowest(keys) == Some(k),
{
    let j = choose|j: u32| is_lowest(keys, j);
    assert(is_lowest(keys, j));
}

/// A number that no number of `keys` exceeds is the highest.
pub proof fn lemma_highest(keys: Set<u32>, k: u32)
    requires
        is_highest(keys, k),
    ensures
        highest(keys) == Some(k),
{
    let j = choose|j: u32| is_highest(keys, j);
    assert(is_highest(keys, j));
}

/// Nothing is lowest or highest in an empty set.
pub proof fn lemma_no_bounds(keys: Set<u32>)
    requires
        forall|j: u32| !keys.contains(j),
    ensures
        lowest(keys) is None,
        highest(keys) is None,
{
}

/// A finite set that is not empty has a lowest number.
pub proof fn lemma_has_lowest(keys: Set<u32>)
    requires
        keys.finite(),
        keys.len() > 0,
    ensures
        lowest(keys) matches Some(k) && is_lowest(keys, k),
    decreases keys.len(),
{
    let k = keys.choose();
    assert(keys.contains(k));
    let rest = keys.remove(k);
    if rest.len() == 0 {
        assert(is_lowest(keys, k)) by {
            assert forall|j: u32| #[trigger] keys.contains(j) implies k <= j by {
                if j != k {
                    assert(rest.contains(j));
                }
            }
        }
        lemma_lowest(keys, k);
    } else {
        lemma_has_lowest(rest);
        let low = lowest(rest)->Some_0;
        let least = if low < k {
            low
        } else {
            k
        };
        assert forall|j: u32| #[trigger] keys.contains(j) implies least <= j by {
            if j != k {
                assert(rest.contains(j));
            }
        }
        assert(is_lowest(keys, least));
        lemma_lowest(keys, least);
    }
}

/// A finite set that is not empty has a highest number.
pub proof fn lemma_has_highest(keys: Set<u32>)
    requires
        keys.finite(),
        keys.len() > 0,
    ensures
        highest(keys) matches Some(k) && is_highest(keys, k),
    decreases keys.len(),
{
    let k = keys.choose();
    assert(keys.contains(k));
    let rest = keys.remove(k);
    if rest.len() == 0 {
        assert(is_highest(keys, k)) by {
            assert forall|j: u32| #[trigger] keys.contains(j) implies j <= k by {
                if j != k {
                    assert(rest.contains(j));
                }
            }
        }
        lemma_highest(keys, k);
    } else {
        lemma_has_highest(rest);
        let high = highest(rest)->Some_0;
        let most = if high > k {
            high
        } else {
            k
        };
        assert forall|j: u32| #[trigger] keys.contains(j) implies j <= most by {
            if j != k {
                assert(rest.contains(j));
            }
        }
        assert(is_highest(keys, most));
        lemma_highest(keys, most);
    }
}

/// The first and the last sequence number that wait in `packets`.
pub fn sequence_bounds(packets: &BTreeMap<u32, Vec<u8>>) -> (bounds: Option<(u32, u32)>)
    ensures
        match bounds {
            Some((first, last)) => {
                &&& is_lowest(packets@.dom(), first)
                &&& is_highest(packets@.dom(), last)
                &&& lowest(packets@.dom()) == Some(first)
                &&& highest(packets@.dom()) == Some(last)
            },
            None => {
                &&& packets@.dom() == Set::<u32>::empty()
                &&& lowest(packets@.dom()) is None
                &&& highest(packets@.dom()) is None
            },
        },
{
    let ghost all = vstd::std_specs::iter::IteratorSpec::remaining(&packets.keys());
    let mut bounds: Option<(u32, u32)> = None;
    for k in it: packets.keys()
        invariant
            it.seq().unref().to_set() == packets@.dom(),
            it.seq() == all,
            bounds is None <==> it.index() == 0,
            bounds matches Some((first, last)) ==> {
                &&& packets@.dom().contains(first)
                &&& packets@.dom().contains(last)
                &&& forall|i: int| 0 <= i < it.index() ==> first <= *(#[trigger] it.seq()[i]) <= last
            },
    {
        assert(it.seq().unref()[it.index() as int] == *k);
        assert(it.seq().unref().to_set().contains(*k));
        bounds = match bounds {
            None => Some((*k, *k)),
            Some((first, last)) => Some(
                (if *k < first {
                    *k
                } else {
                    first
                }, if *k > last {
                    *k
                } else {
                    last
                }),
            ),
        };
    }
    proof {
        assert forall|j: u32| #[trigger] packets@.dom().contains(j) implies bounds matches Some(
            (first, last),
        ) && first <= j <= last by {
            assert(all.unref().to_set().contains(j));
            let i = choose|i: int| 0 <= i < all.unref().len() && all.unref()[i] == j;
            assert(*all[i] == j);
        }
        match bounds {
            Some((first, last)) => {
                lemma_lowest(packets@.dom(), first);
                lemma_highest(packets@.dom(), last);
            },
            None => {
                assert(packets@.dom() =~= Set::empty());
                lemma_no_bounds(packets@.dom());
            },
        }
    }
    bounds
}

/// Drops every packet that comes before `limit`.
pub fn drop_packets_before(packets: &mut BTreeMap<u32, Vec<u8>>, limit: u32)
    ensures
        final(packets)@ == old(packets)@.restrict(Set::new(|k: u32| k >= limit)),
{
    let mut stale: Vec<u32> = Vec::new();
    for k in it: packets.keys()
        invariant
            it.seq().unref().to_set() == packets@.dom(),
            forall|i: int| 0 <= i < stale@.len() ==> #[trigger] stale@[i] < limit,
            forall|i: int|
                0 <= i < it.index() && *(#[trigger] it.seq()[i]) < limit ==> stale@.contains(
                    *it.seq()[i],
                ),
    {
        let ghost before = stale@;
        if *k < limit {
            stale.push(*k);
            assert(stale@[before.len() as int] == *k);
            assert forall|i: int|
                0 <= i < it.index() && *(#[trigger] it.seq()[i]) < limit implies stale@.contains(
                *it.seq()[i],
            ) by {
                let j = choose|j: int| 0 <= j < before.len() && before[j] == *it.seq()[i];
                assert(stale@[j] == *it.seq()[i]);
            }
        }
    }
    let ghost all = packets@;
    let mut n: usize = 0;
    while n < stale.len()
        invariant
            n <= stale@.len(),
            forall|i: int| 0 <= i < stale@.len() ==> #[trigger] stale@[i] < limit,
            packets@ == all.remove_keys(stale@.take(n as int).to_set()),
        decreases stale@.len() - n,
    {
        packets.remove(&stale[n]);
        assert(stale@.take(n + 1) =~= stale@.take(n as int).push(stale@[n as int]));
        assert(stale@.take(n + 1).to_set() =~= stale@.take(n as int).to_set().insert(
            stale@[n as int],
        )) by {
            broadcast use vstd::seq_lib::group_seq_properties;

        }
        assert(packets@ =~= all.remove_keys(stale@.take(n + 1).to_set()));
        n = n + 1;
    }
    assert(stale@.take(n as int) =~= stale@);
    assert(packets@ =~= all.restrict(Set::new(|k: u32| k >= limit)));
}

/// Forgets every lost sequence number below `limit`.
pub fn drop_lost_before(lost: &mut BTreeSet<u32>, limit: u32)
    ensures
        final(lost)@ == old(lost)@.filter(|k: u32| k >= limit),
{
    let mut stale: Vec<u32> = Vec::new();
    for k in it: lost.iter()
        invariant
            it.seq().unref().to_set() == lost@,
            forall|i: int| 0 <= i < stale@.len() ==> #[trigger] stale@[i] < limit,
            forall|i: int|
                0 <= i < it.index() && *(#[trigger] it.seq()[i]) < limit ==> stale@.contains(
                    *it.seq()[i],
                ),
    {
        let ghost before = stale@;
        if *k < limit {
            stale.push(*k);
            assert(stale@[before.len() as int] == *k);
            assert forall|i: int|
                0 <= i < it.index() && *(#[trigger] it.seq()[i]) < limit implies stale@.contains(
                *it.seq()[i],
            ) by {
                let j = choose|j: int| 0 <= j < before.len() && before[j] == *it.seq()[i];
                assert(stale@[j] == *it.seq()[i]);
            }
        }
    }
    let ghost all = lost@;
    let mut n: usize = 0;
    while n < stale.len()
        invariant
            n <= stale@.len(),
            forall|i: int| 0 <= i < stale@.len() ==> #[trigger] stale@[i] < limit,
            lost@ == all.difference(stale@.take(n as int).to_set()),
        decreases stale@.len() - n,
    {
        lost.remove(&stale[n]);
        assert(stale@.take(n + 1) =~= stale@.take(n as int).push(stale@[n as int]));
        assert(stale@.take(n + 1).to_set() =~= stale@.take(n as int).to_set().insert(
            stale@[n as int],
        )) by {
            broadcast use vstd::seq_lib::group_seq_properties;

        }
        assert(lost@ =~= all.difference(stale@.take(n + 1).to_set()));
        n = n + 1;
    }
    assert(stale@.take(n as int) =~= stale@);
    assert(lost@ =~= all.filter(|k: u32| k >= limit));
}

} // verus!
