//! Cryptographic accumulator core for a shielded-transaction protocol.
//!
//! Tracks per-block nullifier sets through polynomial (vector Pedersen)
//! commitments over the Pasta curve cycle: a block's nullifier tags become
//! the roots of a monic polynomial, the coefficient vector is committed to a
//! curve point against a deterministically derived basis, and a running
//! accumulator point is chained block by block through domain-separated
//! hashing.

pub mod params;
pub mod fields;
pub mod points;
pub mod bytes;
pub mod hashing;
pub mod basis;
pub mod poly;
pub mod fft;
pub mod msm;
pub mod types;
pub mod digests;
pub mod window;
pub mod record;
pub mod wallet;
pub mod block;
pub mod publisher;
pub mod mempool;
pub mod pcd_types;
pub mod aggregate;
pub mod codec;
