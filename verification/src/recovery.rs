//! Sparse per-block recovery: draws a fresh random observation mask,
//! hands the basis rows and samples at the known positions to a pluggable
//! sparse-regression capability, and substitutes the returned predictions
//! at the unknown positions. A solver failure falls back to the input
//! block unchanged; it never aborts the pipeline.

use vstd::prelude::*;

use crate::codec::PixelBlock;
use crate::dct::BasisMatrix;
use crate::mask::draw_permutation;
use crate::mask::is_index_permutation;

verus! {

/// The sparse-regression capability recovery fits per block: an
/// L1-regularized linear model from a 64-length coefficient row to a
/// scalar pixel value. Rows arrive as IEEE-754 double bit patterns;
/// `lambda_bits` is the regularization strength, encoded the same way.
/// A conforming solver returns one pixel value per prediction row, each
/// clamped to 0..=255, or `None` when fitting or prediction fails
/// numerically. Nothing is assumed of the result: recovery is proved for
/// every value a solver may return.
pub trait SparseSolver {
    fn fit_predict(
        &mut self,
        train_rows: &Vec<Vec<u64>>,
        targets: &Vec<u8>,
        predict_rows: &Vec<Vec<u64>>,
        lambda_bits: u64,
    ) -> Option<Vec<u8>>;
}

/// A solver that always reports failure; recovery through it is the
/// identity fallback.
pub struct FallbackSolver;

impl SparseSolver for FallbackSolver {
    fn fit_predict(
        &mut self,
        _train_rows: &Vec<Vec<u64>>,
        _targets: &Vec<u8>,
        _predict_rows: &Vec<Vec<u64>>,
        _lambda_bits: u64,
    ) -> Option<Vec<u8>> {
        None
    }
}

/// Builds the recovered block from the drawn permutation and the solver's
/// predictions: positions `perm[..s]` keep the input block's samples, and
/// positions `perm[s..]` take the predictions in order. When the solver
/// failed, or returned the wrong number of predictions, the input block
/// comes back unchanged.
pub fn recover_block_with(
    block: &PixelBlock,
    perm: &Vec<usize>,
    s: usize,
    predictions: Option<Vec<u8>>,
) -> (r: PixelBlock)
    requires
        block.wf(),
        is_index_permutation(perm@, 64),
        s <= 64,
    ensures
        r.wf(),
        forall|j: int| 0 <= j < s ==> r@[(#[trigger] perm@[j]) as int] == block@[perm@[j] as int],
        (predictions matches Some(p) && p@.len() == 64 - s) ==> forall|k: int|
            s <= k < 64 ==> r@[(#[trigger] perm@[k]) as int] == predictions->Some_0@[k - s],
        (predictions matches Some(p) ==> p@.len() != 64 - s) ==> r@ == block@,
        s == 64 ==> r@ == block@,
{
    let r = match predictions {
        Some(p) => {
            if p.len() == 64 - s {
                let mut samples: Vec<u8> = block.samples.clone();
                let mut k: usize = s;
                while k < 64
                    invariant
                        s <= k <= 64,
                        block.wf(),
                        is_index_permutation(perm@, 64),
                        p@.len() == 64 - s,
                        samples@.len() == 64,
                        forall|w: int|
                            0 <= w < 64 && !(s <= w < k) ==> samples@[(#[trigger] perm@[w]) as int]
                                == block@[perm@[w] as int],
                        forall|w: int|
                            s <= w < k ==> samples@[(#[trigger] perm@[w]) as int] == p@[w - s],
                    decreases 64 - k,
                {
                    let pos: usize = perm[k];
                    samples[pos] = p[k - s];
                    k += 1;
                }
                PixelBlock { samples }
            } else {
                PixelBlock { samples: block.samples.clone() }
            }
        },
        None => PixelBlock { samples: block.samples.clone() },
    };
    proof {
        if s == 64 {
            assert forall|i: int| 0 <= i < 64 implies r@[i] == block@[i] by {
                assert(perm@.contains(i as usize));
                let w = choose|w: int| 0 <= w < perm@.len() && perm@[w] == i as usize;
                assert(r@[perm@[w] as int] == block@[perm@[w] as int]);
            }
            assert(r@ =~= block@);
        }
    }
    r
}

/// `out` keeps the known samples of `block` under some drawn mask: a
/// permutation of the 64 positions exists whose first `s` positions carry
/// the block's own values in `out`.
pub open spec fn keeps_known_positions(out: Seq<u8>, block: Seq<u8>, s: int) -> bool {
    exists|perm: Seq<usize>|
        is_index_permutation(perm, 64) && (forall|j: int|
            0 <= j < s ==> out[(#[trigger] perm[j]) as int] == block[perm[j] as int])
}

/// The training design matrix: the basis rows at the first `s` drawn
/// positions, each row the full 64-length coefficient vector.
pub fn training_rows(t: &BasisMatrix, perm: &Vec<usize>, s: usize) -> (rows: Vec<Vec<u64>>)
    requires
        t.wf(),
        is_index_permutation(perm@, 64),
        s <= 64,
    ensures
        rows@.len() == s,
        forall|j: int|
            0 <= j < s ==> (#[trigger] rows@[j])@ == t@.subrange(
                (perm@[j] as int) * 64,
                (perm@[j] as int) * 64 + 64,
            ),
{
    let mut rows: Vec<Vec<u64>> = Vec::new();
    let mut j: usize = 0;
    while j < s
        invariant
            j <= s <= 64,
            t.wf(),
            is_index_permutation(perm@, 64),
            rows@.len() == j,
            forall|jj: int|
                0 <= jj < j ==> (#[trigger] rows@[jj])@ == t@.subrange(
                    (perm@[jj] as int) * 64,
                    (perm@[jj] as int) * 64 + 64,
                ),
        decreases s - j,
    {
        rows.push(t.row(perm[j]));
        j += 1;
    }
    rows
}

/// The training targets: the block's samples at the first `s` drawn
/// positions, in the same order as the training rows.
pub fn training_targets(block: &PixelBlock, perm: &Vec<usize>, s: usize) -> (targets: Vec<u8>)
    requires
        block.wf(),
        is_index_permutation(perm@, 64),
        s <= 64,
    ensures
        targets@.len() == s,
        forall|j: int| 0 <= j < s ==> #[trigger] targets@[j] == block@[perm@[j] as int],
{
    let mut targets: Vec<u8> = Vec::new();
    let mut j: usize = 0;
    while j < s
        invariant
            j <= s <= 64,
            block.wf(),
            is_index_permutation(perm@, 64),
            targets@.len() == j,
            forall|jj: int| 0 <= jj < j ==> #[trigger] targets@[jj] == block@[perm@[jj] as int],
        decreases s - j,
    {
        targets.push(block.samples[perm[j]]);
        j += 1;
    }
    targets
}

/// The prediction design matrix: the basis rows at the remaining drawn
/// positions `perm[s..]`, in order.
pub fn prediction_rows(t: &BasisMatrix, perm: &Vec<usize>, s: usize) -> (rows: Vec<Vec<u64>>)
    requires
        t.wf(),
        is_index_permutation(perm@, 64),
        s <= 64,
    ensures
        rows@.len() == 64 - s,
        forall|k: int|
            0 <= k < 64 - s ==> (#[trigger] rows@[k])@ == t@.subrange(
                (perm@[s + k] as int) * 64,
                (perm@[s + k] as int) * 64 + 64,
            ),
{
    let mut rows: Vec<Vec<u64>> = Vec::new();
    let mut k: usize = s;
    while k < 64
        invariant
            s <= k <= 64,
            t.wf(),
            is_index_permutation(perm@, 64),
            rows@.len() == k - s,
            forall|kk: int|
                0 <= kk < k - s ==> (#[trigger] rows@[kk])@ == t@.subrange(
                    (perm@[s + kk] as int) * 64,
                    (perm@[s + kk] as int) * 64 + 64,
                ),
        decreases 64 - k,
    {
        rows.push(t.row(perm[k]));
        k += 1;
    }
    rows
}

/// Recovers one block: draws a fresh, independent random permutation of
/// the 64 positions, fits the solver on the basis rows and block samples
/// at the first `s` positions, and predicts the samples at the remainder.
/// Every sample of the result lies in 0..=255, the samples at the drawn
/// known positions are the input's own, and with every position known the
/// input comes back unchanged, whatever the solver did.
pub fn recover_block<S: SparseSolver>(
    block: &PixelBlock,
    s: usize,
    lambda_bits: u64,
    t: &BasisMatrix,
    solver: &mut S,
) -> (r: PixelBlock)
    requires
        block.wf(),
        t.wf(),
        s <= 64,
    ensures
        r.wf(),
        forall|i: int| 0 <= i < 64 ==> 0 <= #[trigger] r@[i] <= 255,
        s == 64 ==> r@ == block@,
        keeps_known_positions(r@, block@, s as int),
{
    let perm = draw_permutation();
    let train_rows = training_rows(t, &perm, s);
    let targets = training_targets(block, &perm, s);
    let predict_rows = prediction_rows(t, &perm, s);
    let predictions = solver.fit_predict(&train_rows, &targets, &predict_rows, lambda_bits);
    let r = recover_block_with(block, &perm, s, predictions);
    proof {
        assert(is_index_permutation(perm@, 64) && (forall|j: int|
            0 <= j < s ==> r@[(#[trigger] perm@[j]) as int] == block@[perm@[j] as int]));
        assert(keeps_known_positions(r@, block@, s as int));
    }
    r
}

} // verus!
