//! Parameters of the WOTS+ instantiation.
//!
//! The scheme is parameterized over the hash output width `N` and the
//! Winternitz base `W`.  This crate instantiates the SHA2-256 family:
//! `N = 32`, `W = 16`.  The derived lengths `L1`, `L2` and `LEN` follow
//! from `N` and `W` (`L1 = ceil(8N / LOG_W)`,
//! `L2 = floor(log2(L1 * (W - 1)) / LOG_W) + 1`, `LEN = L1 + L2`) and must
//! be kept consistent with them.

use vstd::prelude::*;

verus! {

/// The message length as well as the length of a private key, public key,
/// or signature element, in bytes.
pub const N: usize = 32;

/// The Winternitz parameter: each digit lies in `[0, W - 1]` and each hash
/// chain is `W - 1` steps long.
pub const W: usize = 16;

/// log2(W): the number of bits per base-`W` digit.
pub const LOG_W: usize = 4;

/// The number of base-`W` digits covering the message: `ceil(8 * N / LOG_W)`.
pub const L1: usize = 64;

/// The number of base-`W` digits covering the checksum:
/// `floor(log2(L1 * (W - 1)) / LOG_W) + 1`.
pub const L2: usize = 3;

/// The number of N-byte string elements in a WOTS+ private key, public key,
/// and signature.
pub const LEN: usize = L1 + L2;

} // verus!
