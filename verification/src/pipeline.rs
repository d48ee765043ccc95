//! The per-image compute steps of the pipeline: decompose a buffer into
//! blocks, corrupt or recover every block, and reassemble. Loading,
//! resizing and persisting the surrounding raster images is the caller's
//! business.

use vstd::prelude::*;

use crate::codec::blocks_to_image;
use crate::codec::to_blocks;
use crate::codec::PixelBlock;
use crate::corrupt::corrupt_block;
use crate::corrupt::corrupted_from;
use crate::dct::BasisMatrix;
use crate::recovery::keeps_known_positions;
use crate::recovery::recover_block;
use crate::recovery::SparseSolver;
use crate::RecoveryError;

verus! {

use vstd::arithmetic::div_mod::lemma_fundamental_div_mod;
use vstd::arithmetic::div_mod::lemma_fundamental_div_mod_converse;

/// Corrupts a whole image: every 64-sample block keeps `samples` randomly
/// chosen samples and loses the rest to zero. Every output sample is the
/// corresponding input sample or zero; keeping all 64 gives the image
/// back unchanged, and keeping none zeroes it, whatever masks were drawn.
pub fn corrupt_image(image: &Vec<u8>, width: usize, height: usize, samples: usize) -> (r: Result<
    Vec<u8>,
    RecoveryError,
>)
    requires
        width * height <= usize::MAX,
        samples <= 64,
    ensures
        r is Ok <==> (image@.len() == width * height && (width * height) % 64 == 0),
        r matches Ok(out) ==> {
            &&& out@.len() == image@.len()
            &&& forall|i: int| 0 <= i < out@.len() ==> #[trigger] out@[i] == image@[i] || out@[i]
                == 0
            &&& samples == 64 ==> out@ == image@
            &&& samples == 0 ==> forall|i: int| 0 <= i < out@.len() ==> #[trigger] out@[i] == 0
            &&& forall|bb: int|
                0 <= bb < image@.len() / 64 ==> #[trigger] corrupted_from(
                    out@.subrange(bb * 64, bb * 64 + 64),
                    image@.subrange(bb * 64, bb * 64 + 64),
                    samples as int,
                )
        },
        r matches Err(e) ==> e == RecoveryError::SizeMismatch,
{
    let blocks = match to_blocks(image, width, height) {
        Ok(blocks) => blocks,
        Err(e) => {
            return Err(e);
        },
    };
    let n = blocks.len();
    let mut corrupted: Vec<PixelBlock> = Vec::new();
    let mut b: usize = 0;
    while b < n
        invariant
            b <= n,
            samples <= 64,
            n == blocks@.len(),
            forall|bb: int| 0 <= bb < n ==> (#[trigger] blocks@[bb]).wf(),
            corrupted@.len() == b,
            forall|bb: int| 0 <= bb < b ==> (#[trigger] corrupted@[bb]).wf(),
            forall|bb: int, j: int|
                0 <= bb < b && 0 <= j < 64 ==> #[trigger] corrupted@[bb]@[j] == blocks@[bb]@[j]
                    || corrupted@[bb]@[j] == 0,
            samples == 64 ==> forall|bb: int| 0 <= bb < b ==> (#[trigger] corrupted@[bb])@
                == blocks@[bb]@,
            samples == 0 ==> forall|bb: int, j: int|
                0 <= bb < b && 0 <= j < 64 ==> #[trigger] corrupted@[bb]@[j] == 0,
            forall|bb: int|
                0 <= bb < b ==> #[trigger] corrupted_from(
                    corrupted@[bb]@,
                    blocks@[bb]@,
                    samples as int,
                ),
        decreases n - b,
    {
        let c = corrupt_block(&blocks[b], samples);
        corrupted.push(c);
        b += 1;
    }
    let out = blocks_to_image(&corrupted);
    proof {
        lemma_blockwise_to_pointwise(
            image@,
            blocks@,
            corrupted@,
            out@,
            width * height,
            samples as int,
        );
        assert forall|bb: int| 0 <= bb < image@.len() / 64 implies #[trigger] corrupted_from(
            out@.subrange(bb * 64, bb * 64 + 64),
            image@.subrange(bb * 64, bb * 64 + 64),
            samples as int,
        ) by {
            lemma_block_slices(image@, blocks@, corrupted@, out@, width * height, bb);
        }
    }
    Ok(out)
}

/// Recovers a whole image: every block is refit independently on its own
/// randomly drawn known positions and the fixed basis. The dimensions are
/// kept; with every position known the image comes back unchanged,
/// whatever the solver did.
pub fn recover_image<S: SparseSolver>(
    image: &Vec<u8>,
    width: usize,
    height: usize,
    s: usize,
    lambda_bits: u64,
    t: &BasisMatrix,
    solver: &mut S,
) -> (r: Result<Vec<u8>, RecoveryError>)
    requires
        width * height <= usize::MAX,
        s <= 64,
        t.wf(),
    ensures
        r is Ok <==> (image@.len() == width * height && (width * height) % 64 == 0),
        r matches Ok(out) ==> {
            &&& out@.len() == image@.len()
            &&& s == 64 ==> out@ == image@
            &&& forall|bb: int|
                0 <= bb < image@.len() / 64 ==> #[trigger] keeps_known_positions(
                    out@.subrange(bb * 64, bb * 64 + 64),
                    image@.subrange(bb * 64, bb * 64 + 64),
                    s as int,
                )
        },
        r matches Err(e) ==> e == RecoveryError::SizeMismatch,
{
    let blocks = match to_blocks(image, width, height) {
        Ok(blocks) => blocks,
        Err(e) => {
            return Err(e);
        },
    };
    let n = blocks.len();
    let mut recovered: Vec<PixelBlock> = Vec::new();
    let mut b: usize = 0;
    while b < n
        invariant
            b <= n,
            s <= 64,
            t.wf(),
            n == blocks@.len(),
            forall|bb: int| 0 <= bb < n ==> (#[trigger] blocks@[bb]).wf(),
            recovered@.len() == b,
            forall|bb: int| 0 <= bb < b ==> (#[trigger] recovered@[bb]).wf(),
            s == 64 ==> forall|bb: int| 0 <= bb < b ==> (#[trigger] recovered@[bb])@
                == blocks@[bb]@,
            forall|bb: int|
                0 <= bb < b ==> #[trigger] keeps_known_positions(
                    recovered@[bb]@,
                    blocks@[bb]@,
                    s as int,
                ),
        decreases n - b,
    {
        let rec = recover_block(&blocks[b], s, lambda_bits, t, solver);
        recovered.push(rec);
        b += 1;
    }
    let out = blocks_to_image(&recovered);
    proof {
        if s == 64 {
            lemma_equal_blocks_reassemble(image@, blocks@, recovered@, out@, width * height);
        }
        lemma_fundamental_div_mod((width * height) as int, 64);
        assert forall|bb: int| 0 <= bb < image@.len() / 64 implies #[trigger] keeps_known_positions(
            out@.subrange(bb * 64, bb * 64 + 64),
            image@.subrange(bb * 64, bb * 64 + 64),
            s as int,
        ) by {
            lemma_block_slices(image@, blocks@, recovered@, out@, width * height, bb);
        }
    }
    Ok(out)
}

/// Carries the per-block sample relation of corruption over to the flat
/// reassembled buffer.
proof fn lemma_blockwise_to_pointwise(
    image: Seq<u8>,
    blocks: Seq<PixelBlock>,
    corrupted: Seq<PixelBlock>,
    out: Seq<u8>,
    total: int,
    samples: int,
)
    requires
        image.len() == total,
        total % 64 == 0,
        blocks.map_values(|b: PixelBlock| b@) == crate::codec::decompose_spec(image),
        blocks.len() == total / 64,
        forall|bb: int| 0 <= bb < blocks.len() ==> (#[trigger] blocks[bb]).wf(),
        corrupted.len() == blocks.len(),
        forall|bb: int| 0 <= bb < corrupted.len() ==> (#[trigger] corrupted[bb]).wf(),
        forall|bb: int, j: int|
            0 <= bb < corrupted.len() && 0 <= j < 64 ==> #[trigger] corrupted[bb]@[j]
                == blocks[bb]@[j] || corrupted[bb]@[j] == 0,
        samples == 64 ==> forall|bb: int|
            0 <= bb < corrupted.len() ==> (#[trigger] corrupted[bb])@ == blocks[bb]@,
        samples == 0 ==> forall|bb: int, j: int|
            0 <= bb < corrupted.len() && 0 <= j < 64 ==> #[trigger] corrupted[bb]@[j] == 0,
        out == crate::codec::reassemble_spec(corrupted.map_values(|b: PixelBlock| b@)),
    ensures
        out.len() == image.len(),
        forall|i: int| 0 <= i < out.len() ==> #[trigger] out[i] == image[i] || out[i] == 0,
        samples == 64 ==> out == image,
        samples == 0 ==> forall|i: int| 0 <= i < out.len() ==> #[trigger] out[i] == 0,
{
    lemma_fundamental_div_mod(total, 64);
    assert(out.len() == image.len());
    assert forall|i: int| 0 <= i < out.len() implies #[trigger] out[i] == image[i] || out[i]
        == 0 by {
        lemma_out_index(image, blocks, corrupted, out, total, i);
    }
    if samples == 64 {
        assert forall|i: int| 0 <= i < out.len() implies #[trigger] out[i] == image[i] by {
            lemma_out_index(image, blocks, corrupted, out, total, i);
            assert(corrupted[i / 64]@ == blocks[i / 64]@);
        }
        assert(out =~= image);
    }
    if samples == 0 {
        assert forall|i: int| 0 <= i < out.len() implies #[trigger] out[i] == 0 by {
            lemma_out_index(image, blocks, corrupted, out, total, i);
        }
    }
}

/// Relates the reassembled sample at flat position `i` to the block
/// samples it came from and to the original image.
proof fn lemma_out_index(
    image: Seq<u8>,
    blocks: Seq<PixelBlock>,
    corrupted: Seq<PixelBlock>,
    out: Seq<u8>,
    total: int,
    i: int,
)
    requires
        image.len() == total,
        total % 64 == 0,
        blocks.map_values(|b: PixelBlock| b@) == crate::codec::decompose_spec(image),
        blocks.len() == total / 64,
        corrupted.len() == blocks.len(),
        forall|bb: int| 0 <= bb < corrupted.len() ==> (#[trigger] corrupted[bb]).wf(),
        out == crate::codec::reassemble_spec(corrupted.map_values(|b: PixelBlock| b@)),
        0 <= i < total,
    ensures
        out[i] == corrupted[i / 64]@[i % 64],
        image[i] == blocks[i / 64]@[i % 64],
        0 <= i / 64 < blocks.len(),
        0 <= i % 64 < 64,
{
    lemma_fundamental_div_mod(total, 64);
    lemma_fundamental_div_mod(i, 64);
    assert(0 <= i / 64 < blocks.len());
    assert(out[i] == corrupted.map_values(|b: PixelBlock| b@)[i / 64][i % 64]);
    assert(blocks.map_values(|b: PixelBlock| b@)[i / 64] == crate::codec::decompose_spec(
        image,
    )[i / 64]);
    assert(blocks[i / 64]@ == image.subrange((i / 64) * 64, (i / 64) * 64 + 64));
    assert(image[i] == image.subrange((i / 64) * 64, (i / 64) * 64 + 64)[i % 64]);
}

/// The 64-sample slice of the reassembled buffer at block `bb` is block
/// `bb` of the processed sequence, and the matching slice of the source
/// image is source block `bb`.
proof fn lemma_block_slices(
    image: Seq<u8>,
    blocks: Seq<PixelBlock>,
    processed: Seq<PixelBlock>,
    out: Seq<u8>,
    total: int,
    bb: int,
)
    requires
        image.len() == total,
        total % 64 == 0,
        blocks.map_values(|b: PixelBlock| b@) == crate::codec::decompose_spec(image),
        blocks.len() == total / 64,
        processed.len() == blocks.len(),
        forall|pb: int| 0 <= pb < processed.len() ==> (#[trigger] processed[pb]).wf(),
        out == crate::codec::reassemble_spec(processed.map_values(|b: PixelBlock| b@)),
        0 <= bb < blocks.len(),
    ensures
        out.subrange(bb * 64, bb * 64 + 64) == processed[bb]@,
        image.subrange(bb * 64, bb * 64 + 64) == blocks[bb]@,
{
    lemma_fundamental_div_mod(total, 64);
    assert(blocks.map_values(|b: PixelBlock| b@)[bb] == blocks[bb]@);
    assert(image.subrange(bb * 64, bb * 64 + 64) == blocks[bb]@);
    assert(out.len() == processed.len() * 64);
    assert forall|p: int| 0 <= p < 64 implies out.subrange(bb * 64, bb * 64 + 64)[p]
        == processed[bb]@[p] by {
        let i = bb * 64 + p;
        lemma_fundamental_div_mod_converse(i, 64, bb, p);
        lemma_out_index(image, blocks, processed, out, total, i);
    }
    assert(out.subrange(bb * 64, bb * 64 + 64) =~= processed[bb]@);
}

/// When every recovered block equals its source block, the reassembled
/// buffer is the original image.
proof fn lemma_equal_blocks_reassemble(
    image: Seq<u8>,
    blocks: Seq<PixelBlock>,
    recovered: Seq<PixelBlock>,
    out: Seq<u8>,
    total: int,
)
    requires
        image.len() == total,
        total % 64 == 0,
        blocks.map_values(|b: PixelBlock| b@) == crate::codec::decompose_spec(image),
        blocks.len() == total / 64,
        recovered.len() == blocks.len(),
        forall|bb: int| 0 <= bb < recovered.len() ==> (#[trigger] recovered[bb]).wf(),
        forall|bb: int| 0 <= bb < recovered.len() ==> (#[trigger] recovered[bb])@ == blocks[bb]@,
        out == crate::codec::reassemble_spec(recovered.map_values(|b: PixelBlock| b@)),
    ensures
        out == image,
{
    lemma_fundamental_div_mod(total, 64);
    assert forall|i: int| 0 <= i < out.len() implies #[trigger] out[i] == image[i] by {
        lemma_out_index(image, blocks, recovered, out, total, i);
        assert(recovered[i / 64]@ == blocks[i / 64]@);
    }
    assert(out =~= image);
}

} // verus!
