//! The laws that tie the operations together: chain composition, the
//! sign/verify round trip, determinism of key generation, and injectivity of
//! the digit encoding.

use vstd::prelude::*;

use crate::hash::be_bytes;
use crate::model::{
    base_w_seq, chain_spec, checksum, chunk_of, concat_digits, digit_at, keygen_chunk, keygen_ok,
    lemma_chain_append, lemma_digits_in_range, lemma_equal_chunks, sign_chunk, sign_ok,
    verify_chunk, verify_ok,
};
use crate::params::{L1, LEN, N, W};

verus! {

/// Chain composition: walking a chain `a` steps from its start and then `b`
/// steps from where that ended equals walking it `a + b` steps, whenever
/// `a + b <= W - 1`.
pub proof fn lemma_chain_composition(
    v: Seq<u8>,
    steps_a: nat,
    steps_b: nat,
    ps: Seq<u8>,
    adrs: Seq<u8>,
)
    requires
        steps_a + steps_b <= W - 1,
    ensures
        chain_spec(chain_spec(v, 0, steps_a, ps, adrs), steps_a, steps_b, ps, adrs) == chain_spec(
            v,
            0,
            (steps_a + steps_b) as nat,
            ps,
            adrs,
        ),
{
    lemma_chain_append(v, 0, steps_a, steps_b, ps, adrs);
}

/// Round trip: the public key reconstructed from a signature of `msg` equals
/// the public key generated from the secret key the signature was made with,
/// chain-value array for chain-value array.  Signing walks each chain to its
/// digit and reconstruction walks the remaining steps, together always
/// exactly `W - 1` steps: the same as key generation.
pub proof fn lemma_sign_verify_round_trip(
    seed: Seq<u8>,
    ps: Seq<u8>,
    adrs: Seq<u8>,
    msg: Seq<u8>,
    sig_inner: Seq<u8>,
    pk_gen: Seq<u8>,
    pk_rec: Seq<u8>,
)
    requires
        msg.len() == N,
        sign_ok(sig_inner, seed, ps, adrs, msg),
        keygen_ok(pk_gen, seed, ps, adrs),
        verify_ok(pk_rec, sig_inner, ps, adrs, msg),
    ensures
        pk_rec == pk_gen,
{
    lemma_digits_in_range(msg);
    assert forall|i: int| 0 <= i < LEN implies #[trigger] chunk_of(pk_rec, i) == chunk_of(
        pk_gen,
        i,
    ) by {
        let d = concat_digits(msg)[i] as nat;
        let start = crate::model::secret_chunk(seed, i);
        let a_i = crate::model::with_chain(adrs, i as u32);
        assert(chunk_of(sig_inner, i) == chain_spec(start, 0, d, ps, a_i));
        assert(chunk_of(pk_rec, i) == verify_chunk(chunk_of(sig_inner, i), ps, adrs, msg, i));
        lemma_chain_append(start, 0, d, ((W - 1) - d) as nat, ps, a_i);
        assert(chunk_of(pk_rec, i) == chain_spec(start, 0, (W - 1) as nat, ps, a_i));
        assert(chunk_of(pk_gen, i) == keygen_chunk(seed, ps, adrs, i));
    }
    lemma_equal_chunks(pk_rec, pk_gen);
}

/// Determinism: the public key is a function of the secret seed, the public
/// seed and the address alone, so two key generations from identical inputs
/// yield byte-identical chain-value arrays.
pub proof fn lemma_keygen_deterministic(
    seed: Seq<u8>,
    ps: Seq<u8>,
    adrs: Seq<u8>,
    pk1: Seq<u8>,
    pk2: Seq<u8>,
)
    requires
        keygen_ok(pk1, seed, ps, adrs),
        keygen_ok(pk2, seed, ps, adrs),
    ensures
        pk1 == pk2,
{
    lemma_equal_chunks(pk1, pk2);
}

/// Distinct messages of the proper width have distinct digit sequences: a
/// change to any message bit changes some base-`W` digit.  (Whether the
/// signature bytes then change as well depends on the hash function and is
/// not stated here.)
pub proof fn lemma_distinct_messages_distinct_digits(m1: Seq<u8>, m2: Seq<u8>)
    requires
        m1.len() == N,
        m2.len() == N,
        m1 != m2,
    ensures
        concat_digits(m1) != concat_digits(m2),
{
    assert(exists|k: int| 0 <= k < N && m1[k] != m2[k]) by {
        if forall|k: int| 0 <= k < N ==> m1[k] == m2[k] {
            assert(m1 =~= m2);
        }
    }
    let k = choose|k: int| 0 <= k < N && m1[k] != m2[k];
    let a = m1[k];
    let b = m2[k];
    assert(a == 16 * (a / 16) + a % 16);
    assert(b == 16 * (b / 16) + b % 16);
    lemma_digits_in_range(m1);
    lemma_digits_in_range(m2);
    if a / 16 != b / 16 {
        assert(digit_at(m1, 2 * k) != digit_at(m2, 2 * k));
        assert(concat_digits(m1)[2 * k] != concat_digits(m2)[2 * k]);
    } else {
        assert(digit_at(m1, 2 * k + 1) != digit_at(m2, 2 * k + 1));
        assert(concat_digits(m1)[2 * k + 1] != concat_digits(m2)[2 * k + 1]);
    }
}

} // verus!
