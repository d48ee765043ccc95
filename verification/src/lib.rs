//! Verified core of an image-recovery pipeline: a fixed cosine transform
//! basis, a block codec over single-channel pixel buffers, a corruption
//! simulator, a sparse per-block recovery solver, and the small image
//! transformations that surround them.
//!
//! Pixel samples are integers in 0..=255 throughout. The entries of the
//! transform basis are carried as IEEE-754 double-precision bit patterns
//! (`u64`); the solver that consumes them is a capability the caller
//! plugs in, so no floating-point arithmetic happens in this crate.

use vstd::prelude::*;

pub mod codec;
pub mod corrupt;
pub mod dct;
pub mod image;
pub mod mask;
pub mod pipeline;
pub mod recovery;
pub mod transformations;

verus! {

/// Error taxonomy of the pipeline's verified core. A per-block solver
/// failure is recovered locally by the identity fallback and never
/// surfaces; I/O failures belong to the unverified shell around the
/// library and never reach it.
#[derive(Debug, Clone, Copy, PartialEq, Eq, Structural)]
pub enum RecoveryError {
    /// A buffer handed to the block codec does not have the announced
    /// dimensions, or its length is not a whole number of blocks.
    SizeMismatch,
}

} // verus!
