//! Walking ordered maps.

use std::collections::BTreeMap;
use vstd::prelude::*;
use vstd::std_specs::btree::*;

verus! {

/// The entries of a map in the order of their keys.
pub open spec fn in_key_order(entries: Seq<(u64, u64)>, m: Map<u64, u64>) -> bool {
    &&& forall|i: int, j: int| 0 <= i < j < entries.len() ==> (#[trigger] entries[i]).0 < (
    #[trigger] entries[j]).0
    &&& forall|i: int|
        0 <= i < entries.len() ==> m.contains_key((#[trigger] entries[i]).0) && m[entries[i].0]
            == entries[i].1
    &&& forall|k: u64| #[trigger]
        m.contains_key(k) ==> exists|i: int| 0 <= i < entries.len() && (#[trigger] entries[i]).0
            == k
}

/// The entries of `m` in the order of their keys.
pub fn entries_of(m: &BTreeMap<u64, u64>) -> (v: Vec<(u64, u64)>)
    ensures
        in_key_order(v@, m@),
{
    broadcast use group_btree_axioms;

    let mut v: Vec<(u64, u64)> = Vec::new();
    let iter = m.iter();
    let ghost listed = vstd::std_specs::iter::IteratorSpec::remaining(&iter);
    let ghost keys = listed.map_values(|kv: (&u64, &u64)| *kv.0);
    assert(increasing_seq(keys));
    for kv in it: iter
        invariant
            it.seq() == listed,
            v@.len() == it.index(),
            forall|i: int|
                0 <= i < v@.len() ==> (#[trigger] v@[i]).0 == *listed[i].0 && v@[i].1
                    == *listed[i].1,
    {
        v.push((*kv.0, *kv.1));
    }
    assert forall|i: int, j: int| 0 <= i < j < v@.len() implies (#[trigger] v@[i]).0 < (
    #[trigger] v@[j]).0 by {
        assert(keys[i] == v@[i].0 && keys[j] == v@[j].0);
        assert(vstd::std_specs::cmp::OrdSpec::cmp_spec(&keys[i], &keys[j]) is Less);
    }
    assert forall|i: int| 0 <= i < v@.len() implies m@.contains_key((#[trigger] v@[i]).0)
        && m@[v@[i].0] == v@[i].1 by {
        assert(m@.contains_key(*listed[i].0));
    }
    assert forall|k: u64| #[trigger] m@.contains_key(k) implies exists|i: int|
        0 <= i < v@.len() && (#[trigger] v@[i]).0 == k by {
        assert(listed.contains((&k, &m@[k])));
        let i = choose|i: int| 0 <= i < listed.len() && listed[i] == (&k, &m@[k]);
        assert(v@[i].0 == k);
    }
    v
}

/// Puts `value` at `key`, in place of what was there.
pub fn put(m: &mut BTreeMap<u64, u64>, key: u64, value: u64)
    ensures
        final(m)@ == old(m)@.insert(key, value),
{
    broadcast use group_btree_axioms;

    m.insert(key, value);
}

} // verus!
