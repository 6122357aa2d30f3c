//! Consensus parameters of the accumulator.

use vstd::prelude::*;

verus! {

/// Degree bound for the per-block polynomial (maximum roots per block).
pub const DEGREE_N: usize = 4096;

/// Number of polynomial coefficients committed (degree + 1).
pub const NUM_COEFFICIENTS: usize = DEGREE_N + 1;

/// Chunk size for the fixed-base tables used by the commitment basis.
pub const CHUNK: usize = 256;

/// Number of chunks needed to cover all coefficients.
pub const NUM_CHUNKS: usize = (NUM_COEFFICIENTS + CHUNK - 1) / CHUNK;

/// Tree height of the rolling nullifier window's accumulator.
pub const ACCUM_HEIGHT: usize = 32;

/// Node arity of the window's compression step.
pub const NODE_ARITY: usize = 2;

} // verus!
