//! The mathematical model of the scheme: what the digit encoder, the chain
//! function and the three key/signature operations compute, as functions on
//! byte sequences.

use vstd::prelude::*;

use crate::hash::{be_bytes, f_spec, prf_spec};
use crate::params::{L1, L2, LEN, N, W};

verus! {

/// `a` with its 4-byte field at byte offset `off` overwritten by the
/// big-endian encoding of `v`; every other byte is kept.
pub open spec fn set_field(a: Seq<u8>, off: int, v: u32) -> Seq<u8> {
    a.subrange(0, off) + be_bytes(v as nat, 4) + a.subrange(off + 4, a.len() as int)
}

/// `a` with the chain field (bytes 20..24) set to `v`.
pub open spec fn with_chain(a: Seq<u8>, v: u32) -> Seq<u8> {
    set_field(a, 20, v)
}

/// The bytewise XOR of two sequences of equal length.
pub open spec fn xor_bytes(a: Seq<u8>, b: Seq<u8>) -> Seq<u8> {
    Seq::new(a.len(), |k: int| a[k] ^ b[k])
}

/// One step of the Winternitz chain at chain position `i`: the step key and
/// the step mask are both derived from `(ps, a)` with the hash field set to
/// `i` and the keymask field telling the two calls apart; the value is
/// masked and fed through `F`.
pub open spec fn chain_step(v: Seq<u8>, i: nat, ps: Seq<u8>, a: Seq<u8>) -> Seq<u8> {
    let key = prf_spec(ps, set_field(set_field(a, 24, i as u32), 28, 0));
    let mask = prf_spec(ps, set_field(set_field(a, 24, i as u32), 28, 1));
    f_spec(key, xor_bytes(v, mask))
}

/// The chain value after walking `steps` steps from `v`, the step indices
/// running over `[start, start + steps)`; an index at or past `W` performs
/// no step.
pub open spec fn chain_spec(v: Seq<u8>, start: nat, steps: nat, ps: Seq<u8>, a: Seq<u8>) -> Seq<u8>
    decreases steps,
{
    if steps == 0 {
        v
    } else if start < W {
        chain_spec(chain_step(v, start, ps, a), start + 1, (steps - 1) as nat, ps, a)
    } else {
        v
    }
}

/// The `j`-th base-16 digit of a byte sequence: the high nibble of a byte
/// comes before its low nibble.
pub open spec fn digit_at(input: Seq<u8>, j: int) -> u8 {
    if j % 2 == 0 {
        input[j / 2] / 16
    } else {
        input[j / 2] % 16
    }
}

/// The first `n` base-16 digits of a byte sequence.
pub open spec fn base_w_seq(input: Seq<u8>, n: nat) -> Seq<u8> {
    Seq::new(n, |j: int| digit_at(input, j))
}

/// The checksum of a digit sequence: the sum of `W - 1 - digit` over it.
pub open spec fn checksum(digits: Seq<u8>) -> int
    decreases digits.len(),
{
    if digits.len() == 0 {
        0
    } else {
        checksum(digits.drop_last()) + (W - 1 - digits.last())
    }
}

/// The full digit sequence of a message: its `L1` base-`W` digits, followed
/// by the `L2` digits of the checksum.  The checksum is shifted left so that
/// its digit boundary aligns to a byte boundary (for `L2 * LOG_W = 12` bits
/// that is a shift by 4, i.e. a factor of 16) before it is serialized into
/// 2 big-endian bytes.
pub open spec fn concat_digits(msg: Seq<u8>) -> Seq<u8> {
    let msg_digits = base_w_seq(msg, L1 as nat);
    let csum_bytes = be_bytes((checksum(msg_digits) * 16) as nat, 2);
    msg_digits + base_w_seq(csum_bytes, L2 as nat)
}

/// The `i`-th secret chain-start value: `PRF` of the secret seed and a
/// 32-byte counter block whose last byte is `i`.
pub open spec fn secret_chunk(seed: Seq<u8>, i: int) -> Seq<u8> {
    prf_spec(seed, be_bytes(i as nat, 32))
}

/// The `i`-th public-key chain value generated from a secret seed: the
/// `i`-th secret value walked the full `W - 1` steps.
pub open spec fn keygen_chunk(seed: Seq<u8>, ps: Seq<u8>, a: Seq<u8>, i: int) -> Seq<u8> {
    chain_spec(secret_chunk(seed, i), 0, (W - 1) as nat, ps, with_chain(a, i as u32))
}

/// The `i`-th signature chain value: the `i`-th secret value walked as many
/// steps as the message's `i`-th digit.
pub open spec fn sign_chunk(seed: Seq<u8>, ps: Seq<u8>, a: Seq<u8>, msg: Seq<u8>, i: int) -> Seq<
    u8,
> {
    chain_spec(
        secret_chunk(seed, i),
        0,
        concat_digits(msg)[i] as nat,
        ps,
        with_chain(a, i as u32),
    )
}

/// The `i`-th reconstructed public-key chain value: the `i`-th signature
/// value walked the remaining `W - 1 - digit` steps.
pub open spec fn verify_chunk(
    sig_chunk: Seq<u8>,
    ps: Seq<u8>,
    a: Seq<u8>,
    msg: Seq<u8>,
    i: int,
) -> Seq<u8> {
    let d = concat_digits(msg)[i] as nat;
    chain_spec(sig_chunk, d, ((W - 1) - d) as nat, ps, with_chain(a, i as u32))
}

/// The `i`-th `N`-byte chunk of a concatenated chain-value array.
pub open spec fn chunk_of(inner: Seq<u8>, i: int) -> Seq<u8> {
    inner.subrange(N as int * i, N as int * i + N as int)
}

/// `inner` is the chain-value array of the public key generated from
/// `(seed, ps, a)`.
pub open spec fn keygen_ok(inner: Seq<u8>, seed: Seq<u8>, ps: Seq<u8>, a: Seq<u8>) -> bool {
    &&& inner.len() == N * LEN
    &&& forall|i: int| 0 <= i < LEN ==> #[trigger] chunk_of(inner, i) == keygen_chunk(seed, ps, a, i)
}

/// `inner` is the chain-value array of the signature of `msg` under
/// `(seed, ps, a)`.
pub open spec fn sign_ok(
    inner: Seq<u8>,
    seed: Seq<u8>,
    ps: Seq<u8>,
    a: Seq<u8>,
    msg: Seq<u8>,
) -> bool {
    &&& inner.len() == N * LEN
    &&& forall|i: int|
        0 <= i < LEN ==> #[trigger] chunk_of(inner, i) == sign_chunk(seed, ps, a, msg, i)
}

/// `inner` is the chain-value array of the public key reconstructed from a
/// signature array `sig_inner` and the message `msg`.
pub open spec fn verify_ok(
    inner: Seq<u8>,
    sig_inner: Seq<u8>,
    ps: Seq<u8>,
    a: Seq<u8>,
    msg: Seq<u8>,
) -> bool {
    &&& inner.len() == N * LEN
    &&& forall|i: int|
        0 <= i < LEN ==> #[trigger] chunk_of(inner, i) == verify_chunk(
            chunk_of(sig_inner, i),
            ps,
            a,
            msg,
            i,
        )
}

/// Walking one more step appends one application of `chain_step` at index
/// `s + k` (or none, past the end of the chain).
pub proof fn lemma_chain_snoc(v: Seq<u8>, s: nat, k: nat, ps: Seq<u8>, a: Seq<u8>)
    ensures
        s + k < W ==> chain_spec(v, s, (k + 1) as nat, ps, a) == chain_step(
            chain_spec(v, s, k, ps, a),
            (s + k) as nat,
            ps,
            a,
        ),
        s + k >= W ==> chain_spec(v, s, (k + 1) as nat, ps, a) == chain_spec(v, s, k, ps, a),
    decreases k,
{
    if k == 0 {
        if s < W {
            assert(chain_spec(v, s, 1, ps, a) == chain_spec(
                chain_step(v, s, ps, a),
                (s + 1) as nat,
                0,
                ps,
                a,
            ));
            assert(chain_spec(chain_step(v, s, ps, a), (s + 1) as nat, 0, ps, a) == chain_step(
                v,
                s,
                ps,
                a,
            ));
        }
    } else if s < W {
        lemma_chain_snoc(chain_step(v, s, ps, a), (s + 1) as nat, (k - 1) as nat, ps, a);
        assert(chain_spec(v, s, (k + 1) as nat, ps, a) == chain_spec(
            chain_step(v, s, ps, a),
            (s + 1) as nat,
            k,
            ps,
            a,
        ));
        assert(chain_spec(v, s, k, ps, a) == chain_spec(
            chain_step(v, s, ps, a),
            (s + 1) as nat,
            (k - 1) as nat,
            ps,
            a,
        ));
    }
}

/// Walking `a` steps and then `b` steps from where they ended equals walking
/// `a + b` steps.
pub proof fn lemma_chain_append(v: Seq<u8>, s: nat, steps_a: nat, steps_b: nat, ps: Seq<u8>, a: Seq<u8>)
    ensures
        chain_spec(chain_spec(v, s, steps_a, ps, a), (s + steps_a) as nat, steps_b, ps, a)
            == chain_spec(v, s, (steps_a + steps_b) as nat, ps, a),
    decreases steps_a,
{
    if steps_a == 0 {
    } else if s < W {
        lemma_chain_append(
            chain_step(v, s, ps, a),
            (s + 1) as nat,
            (steps_a - 1) as nat,
            steps_b,
            ps,
            a,
        );
    } else {
        assert(chain_spec(v, s, steps_a, ps, a) == v);
        assert(chain_spec(v, (s + steps_a) as nat, steps_b, ps, a) == v);
        assert(chain_spec(v, s, (steps_a + steps_b) as nat, ps, a) == v);
    }
}

/// Every digit of the encoder output is in `[0, W - 1]`, and there are
/// exactly `LEN` of them.
pub proof fn lemma_digits_in_range(msg: Seq<u8>)
    ensures
        concat_digits(msg).len() == LEN,
        forall|i: int| 0 <= i < LEN ==> #[trigger] concat_digits(msg)[i] < W,
{
    assert forall|i: int| 0 <= i < LEN implies #[trigger] concat_digits(msg)[i] < W by {
        let digits = concat_digits(msg);
        if i < L1 {
            assert(digits[i] == digit_at(msg, i));
        } else {
            let csum_bytes = be_bytes((checksum(base_w_seq(msg, L1 as nat)) * 16) as nat, 2);
            assert(digits[i] == digit_at(csum_bytes, i - L1));
        }
    }
}

/// Two byte sequences of `LEN` chunks of `N` bytes with equal chunks are
/// equal.
pub proof fn lemma_equal_chunks(x: Seq<u8>, y: Seq<u8>)
    requires
        x.len() == N * LEN,
        y.len() == N * LEN,
        forall|i: int| 0 <= i < LEN ==> #[trigger] chunk_of(x, i) == chunk_of(y, i),
    ensures
        x == y,
{
    assert forall|j: int| 0 <= j < N * LEN implies x[j] == y[j] by {
        let i = j / (N as int);
        vstd::arithmetic::div_mod::lemma_fundamental_div_mod(j, N as int);
        assert(0 <= i < LEN);
        assert(chunk_of(x, i)[j - N as int * i] == x[j]);
        assert(chunk_of(y, i)[j - N as int * i] == y[j]);
    }
    assert(x =~= y);
}

} // verus!
