//! Block codec: splits a flattened single-channel pixel buffer into
//! consecutive 64-sample blocks and reassembles them. The split is a linear
//! re-chunking of raster order, not a spatial 8x8 tiling.

use vstd::prelude::*;

use crate::RecoveryError;

verus! {

use vstd::arithmetic::div_mod::lemma_fundamental_div_mod;
use vstd::arithmetic::div_mod::lemma_fundamental_div_mod_converse;

/// One unit of corruption and recovery: exactly 64 pixel samples in raster
/// order, each an intensity in 0..=255.
#[derive(Debug, Clone)]
pub struct PixelBlock {
    pub samples: Vec<u8>,
}

impl PixelBlock {
    /// Invariant of every block the codec produces or consumes.
    pub open spec fn wf(self) -> bool {
        self.samples.len() == 64
    }
}

impl View for PixelBlock {
    type V = Seq<u8>;

    open spec fn view(&self) -> Seq<u8> {
        self.samples@
    }
}

/// The blocks that decomposition produces: consecutive, non-overlapping
/// 64-sample runs of the buffer, in order.
pub open spec fn decompose_spec(image: Seq<u8>) -> Seq<Seq<u8>> {
    Seq::new((image.len() / 64) as nat, |b: int| image.subrange(b * 64, b * 64 + 64))
}

/// The buffer that reassembly produces: the concatenation of the blocks.
pub open spec fn reassemble_spec(blocks: Seq<Seq<u8>>) -> Seq<u8> {
    Seq::new((blocks.len() * 64) as nat, |i: int| blocks[i / 64][i % 64])
}

/// Reassembling the decomposition of a whole-block buffer gives the buffer
/// back unchanged.
pub proof fn lemma_block_round_trip(image: Seq<u8>)
    requires
        image.len() % 64 == 0,
    ensures
        reassemble_spec(decompose_spec(image)) == image,
{
    let blocks = decompose_spec(image);
    let out = reassemble_spec(blocks);
    lemma_fundamental_div_mod(image.len() as int, 64);
    assert(out.len() == image.len());
    assert forall|i: int| 0 <= i < out.len() implies out[i] == image[i] by {
        lemma_fundamental_div_mod(i, 64);
        assert(0 <= i / 64 < blocks.len());
        assert(out[i] == blocks[i / 64][i % 64]);
        assert(blocks[i / 64] == image.subrange((i / 64) * 64, (i / 64) * 64 + 64));
    }
    assert(out =~= image);
}

/// Splits `image`, a flattened `width` x `height` single-channel buffer,
/// into consecutive 64-sample blocks. Rejects a buffer that does not have
/// the announced size or whose size is not a whole number of blocks.
pub fn to_blocks(image: &Vec<u8>, width: usize, height: usize) -> (r: Result<
    Vec<PixelBlock>,
    RecoveryError,
>)
    requires
        width * height <= usize::MAX,
    ensures
        r is Ok <==> (image@.len() == width * height && (width * height) % 64 == 0),
        r matches Ok(blocks) ==> {
            &&& blocks@.map_values(|b: PixelBlock| b@) == decompose_spec(image@)
            &&& blocks@.len() == (width * height) / 64
            &&& forall|b: int| 0 <= b < blocks@.len() ==> (#[trigger] blocks@[b]).wf()
        },
        r matches Err(e) ==> e == RecoveryError::SizeMismatch,
{
    let total: usize = width * height;
    if image.len() != total || total % 64 != 0 {
        return Err(RecoveryError::SizeMismatch);
    }
    proof {
        lemma_fundamental_div_mod(total as int, 64);
    }
    let n_blocks: usize = total / 64;
    let mut blocks: Vec<PixelBlock> = Vec::new();
    let mut b: usize = 0;
    while b < n_blocks
        invariant
            b <= n_blocks,
            total == width * height,
            total as int == 64 * (n_blocks as int),
            image@.len() == total,
            blocks@.len() == b,
            forall|bb: int| 0 <= bb < b ==> (#[trigger] blocks@[bb]).wf(),
            forall|bb: int| 0 <= bb < b ==> (#[trigger] blocks@[bb])@ == image@.subrange(
                bb * 64,
                bb * 64 + 64,
            ),
        decreases n_blocks - b,
    {
        let mut samples: Vec<u8> = Vec::new();
        let mut j: usize = 0;
        while j < 64
            invariant
                j <= 64,
                b < n_blocks,
                total as int == 64 * (n_blocks as int),
                image@.len() == total,
                samples@.len() == j,
                forall|k: int| 0 <= k < j ==> samples@[k] == image@[b * 64 + k],
            decreases 64 - j,
        {
            let idx: usize = b * 64 + j;
            samples.push(image[idx]);
            j += 1;
        }
        proof {
            assert(samples@ =~= image@.subrange(b as int * 64, b as int * 64 + 64));
        }
        blocks.push(PixelBlock { samples });
        b += 1;
    }
    proof {
        assert(blocks@.map_values(|blk: PixelBlock| blk@) =~= decompose_spec(image@));
    }
    Ok(blocks)
}

/// Concatenates the blocks back into a flat buffer, in block order.
pub fn blocks_to_image(blocks: &Vec<PixelBlock>) -> (r: Vec<u8>)
    requires
        forall|b: int| 0 <= b < blocks@.len() ==> (#[trigger] blocks@[b]).wf(),
        blocks@.len() * 64 <= usize::MAX,
    ensures
        r@ == reassemble_spec(blocks@.map_values(|b: PixelBlock| b@)),
        r@.len() == blocks@.len() * 64,
{
    let n_blocks: usize = blocks.len();
    let mut raw: Vec<u8> = Vec::new();
    let mut b: usize = 0;
    while b < n_blocks
        invariant
            b <= n_blocks,
            n_blocks == blocks@.len(),
            n_blocks * 64 <= usize::MAX,
            forall|bb: int| 0 <= bb < n_blocks ==> (#[trigger] blocks@[bb]).wf(),
            raw@.len() == b * 64,
            forall|i: int| 0 <= i < b * 64 ==> raw@[i] == blocks@[i / 64]@[i % 64],
        decreases n_blocks - b,
    {
        let mut j: usize = 0;
        while j < 64
            invariant
                j <= 64,
                b < n_blocks,
                n_blocks == blocks@.len(),
                n_blocks * 64 <= usize::MAX,
                forall|bb: int| 0 <= bb < n_blocks ==> (#[trigger] blocks@[bb]).wf(),
                raw@.len() == b * 64 + j,
                forall|i: int| 0 <= i < b * 64 + j ==> raw@[i] == blocks@[i / 64]@[i % 64],
            decreases 64 - j,
        {
            raw.push(blocks[b].samples[j]);
            proof {
                lemma_fundamental_div_mod_converse(
                    b as int * 64 + j as int,
                    64,
                    b as int,
                    j as int,
                );
            }
            j += 1;
        }
        b += 1;
    }
    proof {
        assert(raw@ =~= reassemble_spec(blocks@.map_values(|b: PixelBlock| b@)));
    }
    raw
}

} // verus!
