//! The hash-set shape: a deduplicating container.  Mapping visits every
//! element once, in unspecified order; every distinct produced value
//! appears exactly once in the result.

use vstd::prelude::*;

use vstd::std_specs::hash::builds_valid_hashers;
use vstd::std_specs::hash::obeys_key_model;

verus! {

broadcast use vstd::std_specs::hash::group_hash_axioms;

/// Map the elements of a hash set.  Some traversal order `ks` of the
/// elements exists such that the result holds exactly the set of values
/// produced for it, duplicates collapsed.
pub fn set_fmap<A, B, F: Fn(&A) -> B>(s: &std::collections::HashSet<A>, f: F) -> (r:
    std::collections::HashSet<B>) where A: core::cmp::Eq + core::hash::Hash, B: core::cmp::Eq
    + core::hash::Hash
    requires
        obeys_key_model::<A>(),
        obeys_key_model::<B>(),
        builds_valid_hashers::<std::hash::RandomState>(),
        forall|a: &A| call_requires(f, (a,)),
    ensures
        exists|ks: Seq<A>, vm: Seq<B>|
            {
                &&& ks.no_duplicates()
                &&& ks.to_set() == s@
                &&& vm.len() == ks.len()
                &&& (forall|i: int| 0 <= i < vm.len() ==> call_ensures(f, (&ks[i],), #[trigger] vm[i]))
                &&& r@ == vm.to_set()
            },
{
    let mut r: std::collections::HashSet<B> = std::collections::HashSet::new();
    let ghost mut ks: Seq<A> = Seq::empty();
    let ghost mut vm: Seq<B> = Seq::empty();
    let keys = s.iter();
    let ghost full: Seq<&A> = vstd::std_specs::iter::IteratorSpec::remaining(&keys);
    proof {
        assert(vm.to_set() =~= r@);
    }
    for x in it: keys
        invariant
            obeys_key_model::<B>(),
            builds_valid_hashers::<std::hash::RandomState>(),
            forall|a: &A| call_requires(f, (a,)),
            it.seq() == full,
            full.unref().to_set() == s@,
            full.unref().no_duplicates(),
            ks.len() == it.index(),
            forall|i: int| 0 <= i < ks.len() ==> ks[i] == *it.seq()[i],
            vm.len() == ks.len(),
            forall|i: int| 0 <= i < vm.len() ==> call_ensures(f, (&ks[i],), #[trigger] vm[i]),
            r@ == vm.to_set(),
    {
        let y = f(x);
        r.insert(y);
        proof {
            broadcast use vstd::seq_lib::group_seq_properties;

            let ghost vm_prev = vm;
            ks = ks.push(*x);
            vm = vm.push(y);
            assert(x == it.seq()[ks.len() - 1]);
            assert(forall|i: int| 0 <= i < ks.len() ==> ks[i] == *it.seq()[i]);
            assert forall|e: B| vm.to_set().contains(e) implies vm_prev.to_set().insert(
                y,
            ).contains(e) by {
                let j = choose|j: int| 0 <= j < vm.len() && vm[j] == e;
                if j < vm_prev.len() {
                    assert(vm_prev[j] == e);
                }
            }
            assert forall|e: B| vm_prev.to_set().insert(y).contains(e) implies vm.to_set().contains(
                e,
            ) by {
                if e == y {
                    assert(vm[vm.len() - 1] == e);
                } else {
                    let j = choose|j: int| 0 <= j < vm_prev.len() && vm_prev[j] == e;
                    assert(vm[j] == e);
                }
            }
            assert(vm.to_set() =~= vm_prev.to_set().insert(y));
        }
    }
    proof {
        assert(ks =~= full.unref());
        assert(ks.to_set() == s@);
        assert(ks.no_duplicates());
    }
    r
}

} // verus!
