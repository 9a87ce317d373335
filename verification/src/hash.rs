//! Hash core: the two domain-separated keyed functions `PRF` and `F`,
//! both built from one opaque cryptographic hash, plus the fixed-width
//! big-endian integer-to-bytes conversion they and the address fields share.

use vstd::prelude::*;

use crate::params::N;

verus! {

/// The domain-separation padding value for `F`.
pub const PADDING_F: usize = 0;

/// The domain-separation padding value for `PRF`.
pub const PADDING_PRF: usize = 3;

/// The SHA-256 digest of a byte sequence.  The digest is a pure function of
/// the input bytes; its definition is left to the outside hash
/// implementation and nothing here states what its value is.
pub uninterp spec fn sha256_of(input: Seq<u8>) -> Seq<u8>;

/// Relies on sha2::Sha256 (through `digest::Digest::digest`): a 32-byte
/// digest determined by the input bytes alone.
#[verifier::external_body]
fn core_hash(input: &Vec<u8>) -> (r: Vec<u8>)
    ensures
        r@ == sha256_of(input@),
        r@.len() == 32,
{
    let digest = <sha2::Sha256 as sha2::Digest>::digest(input.as_slice());
    digest.as_slice().to_vec()
}

/// The low `len` bytes of `v`, most significant byte first.
pub open spec fn be_bytes(v: nat, len: nat) -> Seq<u8>
    decreases len,
{
    if len == 0 {
        Seq::empty()
    } else {
        be_bytes(v / 256, (len - 1) as nat).push((v % 256) as u8)
    }
}

/// Serializes `input` into `len` bytes, most significant byte first; the
/// bytes above the width are dropped.
pub fn byte_array(len: usize, input: usize) -> (r: Vec<u8>)
    ensures
        r@ == be_bytes(input as nat, len as nat),
        r@.len() == len,
{
    let mut out: Vec<u8> = Vec::new();
    let mut j: usize = 0;
    while j < len
        invariant
            j <= len,
            out@.len() == j,
        decreases len - j,
    {
        out.push(0u8);
        j += 1;
    }
    let mut inp = input;
    let mut i = len;
    while i > 0
        invariant
            i <= len,
            out@.len() == len,
            be_bytes(input as nat, len as nat) == be_bytes(inp as nat, i as nat) + out@.subrange(
                i as int,
                len as int,
            ),
        decreases i,
    {
        let ghost prev = out@;
        let ghost prev_inp = inp as nat;
        i -= 1;
        out.set(i, (inp % 256) as u8);
        inp = inp / 256;
        proof {
            assert(out@.subrange(i as int, len as int) =~= seq![(prev_inp % 256) as u8]
                + prev.subrange(i + 1, len as int));
            assert(be_bytes(prev_inp, (i + 1) as nat) == be_bytes(prev_inp / 256, i as nat).push(
                (prev_inp % 256) as u8,
            ));
            assert(be_bytes(inp as nat, i as nat) + out@.subrange(i as int, len as int)
                =~= be_bytes(prev_inp, (i + 1) as nat) + prev.subrange(i + 1, len as int));
        }
    }
    proof {
        assert(out@ =~= be_bytes(inp as nat, 0) + out@.subrange(0, len as int));
    }
    out
}

/// What `PRF(key, input)` is: the opaque hash of the `PRF` padding block,
/// the key, and the input, concatenated.
pub open spec fn prf_spec(key: Seq<u8>, input: Seq<u8>) -> Seq<u8> {
    sha256_of(be_bytes(PADDING_PRF as nat, N as nat) + key + input)
}

/// What `F(key, input)` is: the opaque hash of the `F` padding block,
/// the key, and the input, concatenated.
pub open spec fn f_spec(key: Seq<u8>, input: Seq<u8>) -> Seq<u8> {
    sha256_of(be_bytes(PADDING_F as nat, N as nat) + key + input)
}

/// Pseudorandom function PRF(key, input), for a key of `N` bytes and a
/// 32-byte input.
pub fn prf(key: &Vec<u8>, input: &Vec<u8>) -> (r: Vec<u8>)
    requires
        key@.len() == N,
        input@.len() == 32,
    ensures
        r@ == prf_spec(key@, input@),
        r@.len() == N,
{
    let mut buf = byte_array(N, PADDING_PRF);
    buf.extend_from_slice(key.as_slice());
    buf.extend_from_slice(input.as_slice());
    proof {
        assert(buf@ =~= be_bytes(PADDING_PRF as nat, N as nat) + key@ + input@);
    }
    core_hash(&buf)
}

/// Keyed hash function F(key, input), for a key and an input of `N` bytes.
pub fn hash_f(key: &Vec<u8>, input: &Vec<u8>) -> (r: Vec<u8>)
    requires
        key@.len() == N,
        input@.len() == N,
    ensures
        r@ == f_spec(key@, input@),
        r@.len() == N,
{
    let mut buf = byte_array(N, PADDING_F);
    buf.extend_from_slice(key.as_slice());
    buf.extend_from_slice(input.as_slice());
    proof {
        assert(buf@ =~= be_bytes(PADDING_F as nat, N as nat) + key@ + input@);
    }
    core_hash(&buf)
}

} // verus!
