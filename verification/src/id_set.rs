use std::collections::HashSet;
use vstd::prelude::*;
use vstd::std_specs::hash::spec_hash_keys_iter;
use vstd::std_specs::iter::IteratorSpec;

verus! {

/// The set of the ids in `v`.
pub fn id_set_from(v: &Vec<i64>) -> (s: HashSet<i64>)
    ensures
        s@ == v@.to_set(),
{
    let mut s: HashSet<i64> = HashSet::new();
    let mut i: usize = 0;
    while i < v.len()
        invariant
            i <= v@.len(),
            s@ == v@.subrange(0, i as int).to_set(),
        decreases v.len() - i,
    {
        s.insert(v[i]);
        proof {
            v@.subrange(0, i as int).lemma_push_to_set_commute(v@[i as int]);
            assert(v@.subrange(0, i as int).push(v@[i as int]) =~= v@.subrange(0, i + 1));
        }
        i = i + 1;
    }
    assert(v@.subrange(0, v@.len() as int) =~= v@);
    s
}

/// The ids of `s`, each once, in the set's own order.
pub fn ids_in_order(s: &HashSet<i64>) -> (v: Vec<i64>)
    ensures
        v@.to_set() == s@,
        v@.no_duplicates(),
{
    let mut v: Vec<i64> = Vec::new();
    let ghost total = spec_hash_keys_iter(s).remaining();
    assert(total.unref().to_set() == s@);
    for x in it: s.iter()
        invariant
            it.seq() == total,
            v@.len() == it.index(),
            v@ == total.unref().take(it.index()),
        ensures
            v@.len() == total.len(),
            v@ == total.unref().take(v@.len() as int),
    {
        v.push(*x);
        assert(v@ =~= total.unref().take(it.index() + 1));
    }
    assert(v@ =~= total.unref());
    assert(total.unref().no_duplicates()) by {
        assert forall|i: int, j: int|
            0 <= i < total.len() && 0 <= j < total.len() && i != j implies total.unref()[i]
            != total.unref()[j] by {
            assert(total[i] != total[j]);
        }
    }
    v
}

} // verus!
