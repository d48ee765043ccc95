//! Observation masks: a random partition of the 64 sample positions of a
//! block into known and unknown subsets, drawn as a uniformly random
//! permutation of the indices. The corruption simulator and the recovery
//! solver each draw their own, unrelated mask.

use rand::seq::SliceRandom;
use vstd::prelude::*;

verus! {

use vstd::seq_lib::group_to_multiset_ensures;

/// `p` lists each of the positions `0..n` exactly once.
pub open spec fn is_index_permutation(p: Seq<usize>, n: nat) -> bool {
    &&& p.len() == n
    &&& forall|i: int| 0 <= i < p.len() ==> (#[trigger] p[i]) < n
    &&& p.no_duplicates()
    &&& forall|v: usize| v < n ==> p.contains(v)
}

/// Relies on rand's `SliceRandom::shuffle` (with `rand::thread_rng`): it
/// rearranges the slice in place, so the multiset of elements is kept.
/// Which arrangement comes back is random; nothing more is assumed.
#[verifier::external_body]
fn shuffle(v: &mut Vec<usize>)
    ensures
        final(v)@.len() == old(v)@.len(),
        final(v)@.to_multiset() == old(v)@.to_multiset(),
{
    v.shuffle(&mut rand::thread_rng());
}

/// Draws a uniformly random permutation of the 64 block positions.
pub fn draw_permutation() -> (p: Vec<usize>)
    ensures
        is_index_permutation(p@, 64),
{
    let mut v: Vec<usize> = Vec::new();
    let mut i: usize = 0;
    while i < 64
        invariant
            i <= 64,
            v@.len() == i,
            forall|k: int| 0 <= k < i ==> (#[trigger] v@[k]) as int == k,
        decreases 64 - i,
    {
        v.push(i);
        i += 1;
    }
    let ghost identity = v@;
    shuffle(&mut v);
    proof {
        broadcast use group_to_multiset_ensures;

        assert(identity.no_duplicates());
        identity.lemma_multiset_has_no_duplicates();
        assert forall|x: usize| v@.to_multiset().contains(x) implies v@.to_multiset().count(x)
            == 1 by {
            assert(identity.to_multiset().count(x) > 0);
            assert(identity.contains(x));
        }
        v@.lemma_multiset_has_no_duplicates_conv();
        assert forall|i: int| 0 <= i < v@.len() implies (#[trigger] v@[i]) < 64 by {
            assert(v@.contains(v@[i]));
            assert(v@.to_multiset().count(v@[i]) > 0);
            assert(identity.to_multiset().count(v@[i]) > 0);
            assert(identity.contains(v@[i]));
            let w = choose|w: int| 0 <= w < identity.len() && identity[w] == v@[i];
            assert(identity[w] as int == w);
        }
        assert forall|x: usize| x < 64 implies v@.contains(x) by {
            assert(identity[x as int] == x);
            assert(identity.contains(x));
            assert(identity.to_multiset().count(x) > 0);
            assert(v@.to_multiset().count(x) > 0);
        }
    }
    v
}

} // verus!
