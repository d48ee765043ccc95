//! Corruption simulator: keeps a random subset of a block's samples and
//! zeroes the rest, producing the partial-observability visualization. Its
//! output is an artifact only; recovery draws its own, unrelated mask.

use vstd::prelude::*;

use crate::codec::PixelBlock;
use crate::mask::draw_permutation;
use crate::mask::is_index_permutation;

verus! {

/// `out` is `block` corrupted under some mask: a permutation of the 64
/// positions exists whose first `samples` positions keep the block's own
/// values while the remaining positions are zero.
pub open spec fn corrupted_from(out: Seq<u8>, block: Seq<u8>, samples: int) -> bool {
    exists|perm: Seq<usize>|
        is_index_permutation(perm, 64) && (forall|j: int|
            0 <= j < samples ==> out[(#[trigger] perm[j]) as int] == block[perm[j] as int]) && (
        forall|j: int| samples <= j < 64 ==> out[(#[trigger] perm[j]) as int] == 0)
}

/// Zeroes the samples at the positions `perm[keep..]`; the positions
/// `perm[..keep]` retain their original value.
pub fn corrupt_block_with(block: &PixelBlock, perm: &Vec<usize>, keep: usize) -> (r: PixelBlock)
    requires
        block.wf(),
        is_index_permutation(perm@, 64),
        keep <= 64,
    ensures
        r.wf(),
        forall|j: int| 0 <= j < keep ==> r@[(#[trigger] perm@[j]) as int] == block@[perm@[j] as int],
        forall|j: int| keep <= j < 64 ==> r@[(#[trigger] perm@[j]) as int] == 0,
{
    let mut samples: Vec<u8> = block.samples.clone();
    let mut j: usize = keep;
    while j < 64
        invariant
            keep <= j <= 64,
            block.wf(),
            is_index_permutation(perm@, 64),
            samples@.len() == 64,
            forall|k: int|
                0 <= k < 64 && !(keep <= k < j) ==> samples@[(#[trigger] perm@[k]) as int]
                    == block@[perm@[k] as int],
            forall|k: int| keep <= k < j ==> samples@[(#[trigger] perm@[k]) as int] == 0,
        decreases 64 - j,
    {
        let pos: usize = perm[j];
        samples[pos] = 0;
        j += 1;
    }
    PixelBlock { samples }
}

/// Corrupts one block: draws a uniformly random permutation of the 64
/// positions, keeps the first `samples` of them and zeroes the remainder.
/// Pure with respect to the input block.
pub fn corrupt_block(block: &PixelBlock, samples: usize) -> (r: PixelBlock)
    requires
        block.wf(),
        samples <= 64,
    ensures
        r.wf(),
        forall|i: int| 0 <= i < 64 ==> #[trigger] r@[i] == block@[i] || r@[i] == 0,
        samples == 64 ==> r@ == block@,
        samples == 0 ==> forall|i: int| 0 <= i < 64 ==> #[trigger] r@[i] == 0,
        corrupted_from(r@, block@, samples as int),
{
    let perm = draw_permutation();
    let r = corrupt_block_with(block, &perm, samples);
    proof {
        assert forall|i: int|
            0 <= i < 64 implies #[trigger] r@[i] == block@[i] || r@[i] == 0 by {
            assert(perm@.contains(i as usize));
            let w = choose|w: int| 0 <= w < perm@.len() && perm@[w] == i as usize;
            if w < samples {
                assert(r@[perm@[w] as int] == block@[perm@[w] as int]);
            } else {
                assert(r@[perm@[w] as int] == 0);
            }
        }
        if samples == 64 {
            assert forall|i: int| 0 <= i < 64 implies r@[i] == block@[i] by {
                assert(perm@.contains(i as usize));
                let w = choose|w: int| 0 <= w < perm@.len() && perm@[w] == i as usize;
                assert(r@[perm@[w] as int] == block@[perm@[w] as int]);
            }
            assert(r@ =~= block@);
        }
        if samples == 0 {
            assert forall|i: int| 0 <= i < 64 implies #[trigger] r@[i] == 0 by {
                assert(perm@.contains(i as usize));
                let w = choose|w: int| 0 <= w < perm@.len() && perm@[w] == i as usize;
                assert(r@[perm@[w] as int] == 0);
            }
        }
        assert(is_index_permutation(perm@, 64) && (forall|j: int|
            0 <= j < samples ==> r@[(#[trigger] perm@[j]) as int] == block@[perm@[j] as int]) && (
        forall|j: int| samples <= j < 64 ==> r@[(#[trigger] perm@[j]) as int] == 0));
        assert(corrupted_from(r@, block@, samples as int));
    }
    r
}

} // verus!
