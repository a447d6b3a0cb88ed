//! Walking the keys of an ordered map in their order.

use std::collections::BTreeMap;
use vstd::prelude::*;
use vstd::std_specs::cmp::OrdSpec;
use vstd::std_specs::iter::IteratorSpec;

verus! {

/// Whether each element is smaller than the ones after it.
pub open spec fn strictly_increasing(s: Seq<u64>) -> bool {
    forall|i: int, j: int| 0 <= i < j < s.len() ==> s[i] < s[j]
}

/// Whether `keys` are the keys of a map with domain `dom`, each once and in
/// increasing order.
pub open spec fn is_sorted_keys(keys: Seq<u64>, dom: Set<u64>) -> bool {
    &&& strictly_increasing(keys)
    &&& forall|k: u64| keys.contains(k) <==> dom.contains(k)
}

proof fn lemma_increasing(s: Seq<u64>)
    requires
        vstd::std_specs::btree::increasing_seq(s),
    ensures
        strictly_increasing(s),
{
    broadcast use vstd::std_specs::btree::group_btree_axioms;
    broadcast use vstd::laws_cmp::group_laws_cmp;

    assert forall|i: int, j: int| 0 <= i < j < s.len() implies s[i] < s[j] by {
        assert(s[i].cmp_spec(&s[j]) is Less);
    }
}

/// The keys of a map, in increasing order.
pub fn sorted_keys<V>(m: &BTreeMap<u64, V>) -> (keys: Vec<u64>)
    ensures
        is_sorted_keys(keys@, m@.dom()),
{
    broadcast use vstd::std_specs::btree::group_btree_axioms;

    let mut keys: Vec<u64> = Vec::new();
    for kv in it: m.iter()
        invariant
            it.seq() == vstd::std_specs::btree::spec_btree_map_iter(m).remaining(),
            vstd::std_specs::btree::increasing_seq(it.seq().map_values(|kv: (&u64, &V)| *kv.0)),
            keys@.len() == it.index(),
            forall|i: int| 0 <= i < keys@.len() ==> keys@[i] == *(#[trigger] it.seq()[i]).0,
    {
        let (k, _v) = kv;
        keys.push(*k);
    }
    proof {
        let r = vstd::std_specs::btree::spec_btree_map_iter(m).remaining();
        let ks = r.map_values(|kv: (&u64, &V)| *kv.0);
        assert(keys@ =~= ks);
        lemma_increasing(ks);
        assert forall|k: u64| keys@.contains(k) <==> m@.contains_key(k) by {
            if m@.contains_key(k) {
                assert(r.contains((&k, &m@[k])));
                let i = choose|i: int| 0 <= i < r.len() && r[i] == (&k, &m@[k]);
                assert(keys@[i] == k);
            }
            if keys@.contains(k) {
                let i = choose|i: int| 0 <= i < keys@.len() && keys@[i] == k;
                assert(m@.contains_key(*r[i].0));
            }
        }
    }
    keys
}

/// Whether each element is smaller than the ones after it, for 32-bit keys.
pub open spec fn strictly_increasing_u32(s: Seq<u32>) -> bool {
    forall|i: int, j: int| 0 <= i < j < s.len() ==> s[i] < s[j]
}

/// Whether `keys` are the 32-bit keys of a map with domain `dom`, each once
/// and in increasing order.
pub open spec fn is_sorted_keys_u32(keys: Seq<u32>, dom: Set<u32>) -> bool {
    &&& strictly_increasing_u32(keys)
    &&& forall|k: u32| keys.contains(k) <==> dom.contains(k)
}

proof fn lemma_increasing_u32(s: Seq<u32>)
    requires
        vstd::std_specs::btree::increasing_seq(s),
    ensures
        strictly_increasing_u32(s),
{
    broadcast use vstd::std_specs::btree::group_btree_axioms;
    broadcast use vstd::laws_cmp::group_laws_cmp;

    assert forall|i: int, j: int| 0 <= i < j < s.len() implies s[i] < s[j] by {
        assert(s[i].cmp_spec(&s[j]) is Less);
    }
}

/// The 32-bit keys of a map, in increasing order.
pub fn sorted_keys_u32<V>(m: &BTreeMap<u32, V>) -> (keys: Vec<u32>)
    ensures
        is_sorted_keys_u32(keys@, m@.dom()),
{
    broadcast use vstd::std_specs::btree::group_btree_axioms;

    let mut keys: Vec<u32> = Vec::new();
    for kv in it: m.iter()
        invariant
            it.seq() == vstd::std_specs::btree::spec_btree_map_iter(m).remaining(),
            vstd::std_specs::btree::increasing_seq(it.seq().map_values(|kv: (&u32, &V)| *kv.0)),
            keys@.len() == it.index(),
            forall|i: int| 0 <= i < keys@.len() ==> keys@[i] == *(#[trigger] it.seq()[i]).0,
    {
        let (k, _v) = kv;
        keys.push(*k);
    }
    proof {
        let r = vstd::std_specs::btree::spec_btree_map_iter(m).remaining();
        let ks = r.map_values(|kv: (&u32, &V)| *kv.0);
        assert(keys@ =~= ks);
        lemma_increasing_u32(ks);
        assert forall|k: u32| keys@.contains(k) <==> m@.contains_key(k) by {
            if m@.contains_key(k) {
                assert(r.contains((&k, &m@[k])));
                let i = choose|i: int| 0 <= i < r.len() && r[i] == (&k, &m@[k]);
                assert(keys@[i] == k);
            }
            if keys@.contains(k) {
                let i = choose|i: int| 0 <= i < keys@.len() && keys@[i] == k;
                assert(m@.contains_key(*r[i].0));
            }
        }
    }
    keys
}

} // verus!
