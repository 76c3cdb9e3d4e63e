use vstd::prelude::*;
use std::collections::BTreeMap;
use vstd::std_specs::cmp::OrdSpec;
use vstd::std_specs::iter::IteratorSpec;

verus! {

proof fn lemma_increasing_keys(s: Seq<&u32>)
    requires
        vstd::std_specs::btree::increasing_seq(s),
    ensures
        forall|i: int, j: int| 0 <= i < j < s.len() ==> *s[i] < *s[j],
{
    broadcast use vstd::laws_cmp::group_laws_cmp;

    assert(vstd::laws_cmp::obeys_cmp::<u32>());
    assert(vstd::laws_cmp::obeys_cmp::<&u32>());
    vstd::std_specs::btree::axiom_increasing_seq_meaning(s);
    assert forall|i: int, j: int| 0 <= i < j < s.len() implies *s[i] < *s[j] by {
        assert(OrdSpec::cmp_spec(&s[i], &s[j]) is Less);
    }
}

/// Whether `s` lists its elements in strictly increasing order.
pub open spec fn strictly_increasing(s: Seq<u32>) -> bool {
    forall|i: int, j: int| 0 <= i < j < s.len() ==> s[i] < s[j]
}

/// The keys of `m` in increasing order.
pub fn sorted_keys<V>(m: &BTreeMap<u32, V>) -> (ids: Vec<u32>)
    ensures
        strictly_increasing(ids@),
        forall|k: u32| ids@.contains(k) <==> m@.contains_key(k),
{
    let mut v: Vec<u32> = Vec::new();
    let ghost s = vstd::std_specs::btree::spec_keys_iter(m).remaining();
    for k in it: m.keys()
        invariant
            it.seq() == s,
            v@ == s.take(it.index()).map_values(|x: &u32| *x),
    {
        v.push(*k);
    }
    proof {
        assert(v@ =~= s.map_values(|x: &u32| *x));
        lemma_increasing_keys(s);
        assert(s.unref().to_set() == m@.dom());
        assert forall|k: u32| v@.contains(k) <==> m@.contains_key(k) by {
            if v@.contains(k) {
                let i = choose|i: int| 0 <= i < v@.len() && v@[i] == k;
                assert(s.unref()[i] == k);
                assert(s.unref().to_set().contains(k));
            }
            if m@.contains_key(k) {
                assert(s.unref().to_set().contains(k));
                let i = choose|i: int| 0 <= i < s.unref().len() && s.unref()[i] == k;
                assert(v@[i] == k);
            }
        }
    }
    v
}

proof fn lemma_increasing_keys_u64(s: Seq<&u64>)
    requires
        vstd::std_specs::btree::increasing_seq(s),
    ensures
        forall|i: int, j: int| 0 <= i < j < s.len() ==> *s[i] < *s[j],
{
    broadcast use vstd::laws_cmp::group_laws_cmp;

    assert(vstd::laws_cmp::obeys_cmp::<u64>());
    assert(vstd::laws_cmp::obeys_cmp::<&u64>());
    vstd::std_specs::btree::axiom_increasing_seq_meaning(s);
    assert forall|i: int, j: int| 0 <= i < j < s.len() implies *s[i] < *s[j] by {
        assert(OrdSpec::cmp_spec(&s[i], &s[j]) is Less);
    }
}

/// The keys of `m` in increasing order.
pub fn sorted_keys_u64<V>(m: &BTreeMap<u64, V>) -> (ids: Vec<u64>)
    ensures
        forall|i: int, j: int| 0 <= i < j < ids@.len() ==> ids@[i] < ids@[j],
        forall|k: u64| ids@.contains(k) <==> m@.contains_key(k),
{
    let mut v: Vec<u64> = Vec::new();
    let ghost s = vstd::std_specs::btree::spec_keys_iter(m).remaining();
    for k in it: m.keys()
        invariant
            it.seq() == s,
            v@ == s.take(it.index()).map_values(|x: &u64| *x),
    {
        v.push(*k);
    }
    proof {
        assert(v@ =~= s.map_values(|x: &u64| *x));
        lemma_increasing_keys_u64(s);
        assert(s.unref().to_set() == m@.dom());
        assert forall|k: u64| v@.contains(k) <==> m@.contains_key(k) by {
            if v@.contains(k) {
                let i = choose|i: int| 0 <= i < v@.len() && v@[i] == k;
                assert(s.unref()[i] == k);
                assert(s.unref().to_set().contains(k));
            }
            if m@.contains_key(k) {
                assert(s.unref().to_set().contains(k));
                let i = choose|i: int| 0 <= i < s.unref().len() && s.unref()[i] == k;
                assert(v@[i] == k);
            }
        }
    }
    v
}

/// The number of entries of `m`.
pub fn key_count<V>(m: &BTreeMap<u64, V>) -> (n: usize)
    ensures
        n == m@.len(),
{
    broadcast use vstd::std_specs::btree::group_btree_axioms;
    broadcast use vstd::laws_cmp::group_laws_cmp;

    assert(vstd::laws_cmp::obeys_cmp::<u64>());
    m.len()
}

/// The value stored under `k`, for writing in place (`BTreeMap::get_mut`). What is written
/// through the returned reference is what the map holds under `k` afterwards; no other entry
/// changes.
#[verifier::external_body]
pub(crate) fn value_mut<'a, V>(m: &'a mut BTreeMap<u32, V>, k: u32) -> (r: &'a mut V)
    requires
        old(m)@.contains_key(k),
    ensures
        *r == old(m)@[k],
        final(m)@ == old(m)@.insert(k, *final(r)),
{
    m.get_mut(&k).unwrap()
}

} // verus!
