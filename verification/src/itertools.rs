//! Grouping of keyed values.

use std::collections::HashMap;
use vstd::prelude::*;

verus! {

broadcast use vstd::std_specs::hash::group_hash_axioms;

/// The values that `pairs` holds under `key`, in the order of `pairs`.
pub open spec fn grouped<V>(pairs: Seq<(usize, V)>, key: usize) -> Seq<V>
    decreases pairs.len(),
{
    if pairs.len() == 0 {
        Seq::empty()
    } else {
        let rest = grouped(pairs.drop_last(), key);
        if pairs.last().0 == key {
            rest.push(pairs.last().1)
        } else {
            rest
        }
    }
}

/// Every value grouped under `key` comes from a pair with that key.
pub proof fn lemma_grouped_from_pairs<V>(pairs: Seq<(usize, V)>, key: usize)
    ensures
        forall|i: int|
            0 <= i < grouped(pairs, key).len() ==> exists|k: int|
                0 <= k < pairs.len() && #[trigger] pairs[k] == (key, #[trigger] grouped(pairs, key)[i]),
    decreases pairs.len(),
{
    if pairs.len() > 0 {
        let rest = pairs.drop_last();
        lemma_grouped_from_pairs(rest, key);
        assert forall|i: int| 0 <= i < grouped(pairs, key).len() implies exists|k: int|
            0 <= k < pairs.len() && #[trigger] pairs[k] == (key, #[trigger] grouped(pairs, key)[i]) by {
            if i < grouped(rest, key).len() {
                let k = choose|k: int|
                    0 <= k < rest.len() && #[trigger] rest[k] == (key, grouped(rest, key)[i]);
                assert(pairs[k] == rest[k]);
            } else {
                assert(pairs[pairs.len() - 1] == (key, grouped(pairs, key)[i]));
            }
        }
    }
}

/// Returns a map from each key of `pairs` to the values that `pairs` holds
/// under it, in the order of `pairs`.
pub fn into_group_map<V>(pairs: Vec<(usize, V)>) -> (lookup: HashMap<usize, Vec<V>>)
    ensures
        forall|key: usize| #[trigger] lookup@.contains_key(key) <==> grouped(pairs@, key).len() > 0,
        forall|key: usize| #[trigger]
            lookup@.contains_key(key) ==> lookup@[key]@ == grouped(pairs@, key),
{
    let mut lookup: HashMap<usize, Vec<V>> = HashMap::new();
    let ghost all = pairs@;
    for pair in iter: pairs.into_iter()
        invariant
            iter.seq() == all,
            forall|key: usize| #[trigger]
                lookup@.contains_key(key) <==> grouped(all.take(iter.index() as int), key).len() > 0,
            forall|key: usize| #[trigger]
                lookup@.contains_key(key) ==> lookup@[key]@ == grouped(
                    all.take(iter.index() as int),
                    key,
                ),
    {
        let ghost done = iter.index() as int;
        let ghost before = lookup@;
        let (key, value) = pair;
        let mut bucket = match lookup.remove(&key) {
            Some(bucket) => bucket,
            None => Vec::new(),
        };
        bucket.push(value);
        lookup.insert(key, bucket);
        proof {
            assert(all.take(done + 1).drop_last() == all.take(done));
            assert(all.take(done + 1).last() == all[done]);
            assert(before.contains_key(key) || grouped(all.take(done), key) =~= Seq::<V>::empty());
            assert forall|other: usize| other != key implies (#[trigger] lookup@.contains_key(other)
                <==> before.contains_key(other)) by {}
        }
    }
    assert(all.take(all.len() as int) == all);
    lookup
}

/// Grouping as a method of what yields keyed values.
pub trait Itertools<V>: Sized {
    /// The pairs of key and value that `self` yields, in order.
    spec fn pairs(self) -> Seq<(usize, V)>;

    /// Returns a map from each key to the values that `self` yields under
    /// it, in the order in which it yields them.
    fn into_group_map(self) -> (lookup: HashMap<usize, Vec<V>>)
        ensures
            forall|key: usize| #[trigger]
                lookup@.contains_key(key) <==> grouped(self.pairs(), key).len() > 0,
            forall|key: usize| #[trigger]
                lookup@.contains_key(key) ==> lookup@[key]@ == grouped(self.pairs(), key),
    ;
}

impl<V> Itertools<V> for Vec<(usize, V)> {
    open spec fn pairs(self) -> Seq<(usize, V)> {
        self@
    }

    fn into_group_map(self) -> (lookup: HashMap<usize, Vec<V>>) {
        into_group_map(self)
    }
}

} // verus!
