//! The keys of a `BTreeMap` in the order in which it holds them.

use vstd::prelude::*;
use std::collections::BTreeMap;
use vstd::std_specs::btree::{increasing_seq, spec_keys_iter};
use vstd::std_specs::cmp::OrdSpec;
use vstd::laws_cmp::obeys_cmp;
use vstd::std_specs::iter::IteratorSpec;

verus! {

/// The keys of a map, in increasing order.
pub fn keys_in_order<V>(m: &BTreeMap<u64, V>) -> (r: Vec<u64>)
    ensures
        forall|k: u64| m@.contains_key(k) <==> r@.contains(k),
        forall|i: int, j: int| 0 <= i < j < r@.len() ==> r@[i] < r@[j],
{
    let ghost s = spec_keys_iter(m).remaining();
    let mut r: Vec<u64> = Vec::new();
    for k in it: m.keys()
        invariant
            it.seq() == s,
            r@.len() == it.index(),
            forall|i: int| 0 <= i < it.index() ==> r@[i] == *s[i],
    {
        r.push(*k);
    }
    proof {
        assert(r@.len() == s.len());
        assert(r@ =~= s.unref());
        assert(obeys_cmp::<u64>());
        assert(obeys_cmp::<&u64>());
        assert(increasing_seq(s));
        assert forall|i: int, j: int| 0 <= i < j < r@.len() implies r@[i] < r@[j] by {
            vstd::std_specs::btree::axiom_increasing_seq_meaning::<&u64>(s);
            assert(OrdSpec::cmp_spec(&s[i], &s[j]) is Less);
        }
    }
    r
}

} // verus!
