//! Winternitz One Time Signature Scheme (W-OTS+)
//!
//! A hash-based one-time signature primitive: a signer derives a public key
//! from a secret seed, signs exactly one `N`-byte message digest under that
//! key, and a verifier recomputes the claimed public key from the signature
//! and the message, comparing it against the known-good public key.

mod hash;
mod laws;
mod model;
mod params;

pub use laws::{
    lemma_chain_composition, lemma_distinct_messages_distinct_digits, lemma_keygen_deterministic,
    lemma_sign_verify_round_trip,
};
pub use model::lemma_digits_in_range;

pub use hash::{be_bytes, byte_array, f_spec, hash_f, prf, prf_spec, sha256_of};
pub use model::{
    base_w_seq, chain_spec, chain_step, checksum, chunk_of, concat_digits, digit_at, keygen_chunk,
    keygen_ok, secret_chunk, set_field, sign_chunk, sign_ok, verify_chunk, verify_ok, with_chain,
    xor_bytes,
};
pub use params::{L1, L2, LEN, LOG_W, N, W};

use vstd::pervasive::VecAdditionalExecFns;
use vstd::prelude::*;

verus! {

/// Relies on rand::random: 32 bytes drawn from the thread-local random
/// number generator; nothing is promised of their values.
#[verifier::external_body]
fn random_bytes() -> (r: Vec<u8>)
    ensures
        r@.len() == 32,
{
    let bytes: [u8; 32] = rand::random();
    bytes.to_vec()
}

/// A fresh vector holding the same bytes.
fn copy_bytes(v: &Vec<u8>) -> (r: Vec<u8>)
    ensures
        r@ == v@,
{
    let mut r: Vec<u8> = Vec::new();
    r.extend_from_slice(v.as_slice());
    proof {
        assert(r@ =~= v@);
    }
    r
}

/// A fresh vector holding `count` bytes of `v` starting at `start`.
fn sub_bytes(v: &Vec<u8>, start: usize, count: usize) -> (r: Vec<u8>)
    requires
        start + count <= v@.len(),
    ensures
        r@ == v@.subrange(start as int, start as int + count as int),
{
    let mut r: Vec<u8> = Vec::new();
    let vlen = v.len();
    let mut t: usize = 0;
    while t < count
        invariant
            t <= count,
            start + count <= vlen,
            vlen == v@.len(),
            r@ == v@.subrange(start as int, start as int + t as int),
        decreases count - t,
    {
        r.push(v[start + t]);
        proof {
            assert(r@ =~= v@.subrange(start as int, start as int + t as int + 1));
        }
        t += 1;
    }
    r
}

/// The key seed for both secret key and public key.
pub struct Seed {
    /// The `N` raw bytes of the seed.
    pub bytes: Vec<u8>,
}

impl View for Seed {
    type V = Seq<u8>;

    open spec fn view(&self) -> Seq<u8> {
        self.bytes@
    }
}

impl Seed {
    /// A seed is well formed when it holds exactly `N` bytes.
    pub open spec fn wf(&self) -> bool {
        self.bytes@.len() == N
    }

    /// Generate a random seed.
    pub fn new() -> (r: Self)
        ensures
            r.wf(),
    {
        Seed { bytes: random_bytes() }
    }
}

impl Clone for Seed {
    fn clone(&self) -> (r: Self)
        ensures
            r@ == self@,
    {
        Seed { bytes: copy_bytes(&self.bytes) }
    }
}

impl Default for Seed {
    /// The all-zero seed.
    fn default() -> (r: Self)
        ensures
            r.wf(),
            r@ == be_bytes(0, N as nat),
    {
        Seed { bytes: byte_array(N, 0) }
    }
}

/// The address to randomize each hash function call to prevent multi-target
/// attacks on the used hash function.
///
/// Bytes 20..24, 24..28 and 28..32 are the big-endian `chain`, `hash` and
/// `keymask` fields; bytes 0..20 are reserved for higher-level context and
/// are never reinterpreted here.
pub struct Adrs {
    /// The 32 raw bytes of the address.
    pub bytes: Vec<u8>,
}

impl View for Adrs {
    type V = Seq<u8>;

    open spec fn view(&self) -> Seq<u8> {
        self.bytes@
    }
}

impl Adrs {
    /// An address is well formed when it holds exactly 32 bytes.
    pub open spec fn wf(&self) -> bool {
        self.bytes@.len() == 32
    }

    /// Generate a random address.
    pub fn new() -> (r: Self)
        ensures
            r.wf(),
    {
        Adrs { bytes: random_bytes() }
    }

    /// Overwrite the 4-byte field at byte offset `off` with the big-endian
    /// encoding of `b`, leaving every other byte as it was.
    fn set_word(&mut self, off: usize, b: u32)
        requires
            old(self).wf(),
            off + 4 <= 32,
        ensures
            final(self).wf(),
            final(self)@ == set_field(old(self)@, off as int, b),
    {
        let field = byte_array(4, b as usize);
        proof {
            assert(b as usize as nat == b as nat);
        }
        self.bytes.set(off, field[0]);
        self.bytes.set(off + 1, field[1]);
        self.bytes.set(off + 2, field[2]);
        self.bytes.set(off + 3, field[3]);
        proof {
            assert(self.bytes@ =~= set_field(old(self)@, off as int, b));
        }
    }

    /// Set the chain field of a WOTS+ address to the given value.
    pub fn set_chain(&mut self, b: u32)
        requires
            old(self).wf(),
        ensures
            final(self).wf(),
            final(self)@ == with_chain(old(self)@, b),
            forall|k: int| 0 <= k < 32 && !(20 <= k < 24) ==> final(self)@[k] == old(self)@[k],
    {
        self.set_word(20, b);
    }

    /// Set the hash field of a WOTS+ address to the given value.
    pub fn set_hash(&mut self, b: u32)
        requires
            old(self).wf(),
        ensures
            final(self).wf(),
            final(self)@ == set_field(old(self)@, 24, b),
            forall|k: int| 0 <= k < 32 && !(24 <= k < 28) ==> final(self)@[k] == old(self)@[k],
    {
        self.set_word(24, b);
    }

    /// Set the keymask field of a WOTS+ address to the given value.
    pub fn set_keymask(&mut self, b: u32)
        requires
            old(self).wf(),
        ensures
            final(self).wf(),
            final(self)@ == set_field(old(self)@, 28, b),
            forall|k: int| 0 <= k < 28 ==> final(self)@[k] == old(self)@[k],
    {
        self.set_word(28, b);
    }
}

impl Clone for Adrs {
    fn clone(&self) -> (r: Self)
        ensures
            r@ == self@,
    {
        Adrs { bytes: copy_bytes(&self.bytes) }
    }
}

impl Default for Adrs {
    /// The all-zero address.
    fn default() -> (r: Self)
        ensures
            r.wf(),
            r@ == be_bytes(0, 32),
    {
        Adrs { bytes: byte_array(32, 0) }
    }
}

/// WOTS+ private key that hasn't been expanded yet.  It contains a seed to
/// derive the chain-start values from and an address for the key pair.
pub struct SecKey {
    /// The secret seed.
    pub seed: Seed,
    /// The domain-separation address of this key pair.
    pub address: Adrs,
}

impl SecKey {
    /// A secret key is well formed when its seed and address are.
    pub open spec fn wf(&self) -> bool {
        self.seed.wf() && self.address.wf()
    }

    /// Generate a random secret key.
    pub fn new() -> (r: Self)
        ensures
            r.wf(),
    {
        SecKey { seed: Seed::new(), address: Adrs::new() }
    }

    /// Set the seed of the secret key.
    pub fn set_seed(&mut self, seed: Seed)
        ensures
            final(self).seed == seed,
            final(self).address == old(self).address,
    {
        self.seed = seed;
    }

    /// Set the address of the secret key.
    pub fn set_address(&mut self, address: Adrs)
        ensures
            final(self).address == address,
            final(self).seed == old(self).seed,
    {
        self.address = address;
    }

    /// Takes an `N`-byte message and the seed for the public key, and
    /// computes the signature: for each digit of the message encoding, the
    /// corresponding secret chain-start value walked that many steps.
    pub fn sign(&self, pub_seed: &Seed, msg: &Vec<u8>) -> (sig: Signature)
        requires
            self.wf(),
            pub_seed.wf(),
            msg@.len() == N,
        ensures
            sig.wf(),
            sig.pub_seed@ == pub_seed@,
            sig.address@ == self.address@,
            sign_ok(sig.inner@, self.seed@, pub_seed@, self.address@, msg@),
    {
        let lengths = concatenation(msg);
        let mut inner: Vec<u8> = Vec::new();
        let mut address = self.address.clone();
        let mut i: usize = 0;
        while i < LEN
            invariant
                i <= LEN,
                inner@.len() == N * i,
                forall|k: int|
                    0 <= k < i ==> #[trigger] chunk_of(inner@, k) == sign_chunk(
                        self.seed@,
                        pub_seed@,
                        self.address@,
                        msg@,
                        k,
                    ),
                lengths@ == concat_digits(msg@),
                lengths@.len() == LEN,
                forall|t: int| 0 <= t < LEN ==> lengths@[t] < W,
                address.wf(),
                address@.subrange(0, 20) == self.address@.subrange(0, 20),
                address@.subrange(24, 32) == self.address@.subrange(24, 32),
                self.wf(),
                pub_seed.wf(),
                msg@.len() == N,
            decreases LEN - i,
        {
            let ctr = byte_array(32, i);
            address.set_chain(i as u32);
            proof {
                assert(address@ =~= with_chain(self.address@, i as u32));
            }
            let sk_i = prf(&self.seed.bytes, &ctr);
            let mut chunk = chain(&sk_i, 0, lengths[i] as usize, pub_seed, &address);
            let ghost prev = inner@;
            inner.append(&mut chunk);
            proof {
                assert forall|k: int| 0 <= k < i + 1 implies #[trigger] chunk_of(inner@, k)
                    == sign_chunk(self.seed@, pub_seed@, self.address@, msg@, k) by {
                    if k < i {
                        assert(chunk_of(inner@, k) =~= chunk_of(prev, k));
                    } else {
                        assert(chunk_of(inner@, k) =~= chain_spec(
                            secret_chunk(self.seed@, k),
                            0,
                            lengths@[k] as nat,
                            pub_seed@,
                            with_chain(self.address@, k as u32),
                        ));
                    }
                }
            }
            i += 1;
        }
        Signature { inner, pub_seed: pub_seed.clone(), address: self.address.clone() }
    }
}

impl Clone for SecKey {
    fn clone(&self) -> (r: Self)
        ensures
            r.seed@ == self.seed@,
            r.address@ == self.address@,
    {
        SecKey { seed: self.seed.clone(), address: self.address.clone() }
    }
}

impl Default for SecKey {
    /// The secret key with the all-zero seed and the all-zero address.
    fn default() -> (r: Self)
        ensures
            r.wf(),
            r.seed@ == be_bytes(0, N as nat),
            r.address@ == be_bytes(0, 32),
    {
        SecKey { seed: Seed::default(), address: Adrs::default() }
    }
}

/// WOTS+ signature: one intermediate value per hash chain, revealing as many
/// steps of each chain as the message's digits dictate.
pub struct Signature {
    /// The `LEN` concatenated `N`-byte chain values, in ascending position
    /// order.
    pub inner: Vec<u8>,
    /// The public seed the signature was produced under.
    pub pub_seed: Seed,
    /// The domain-separation address of the key pair.
    pub address: Adrs,
}

impl Signature {
    /// A signature is well formed when it holds `LEN` chain values of `N`
    /// bytes and its seed and address are well formed.
    pub open spec fn wf(&self) -> bool {
        self.inner@.len() == N * LEN && self.pub_seed.wf() && self.address.wf()
    }
}

impl Clone for Signature {
    fn clone(&self) -> (r: Self)
        ensures
            r.inner@ == self.inner@,
            r.pub_seed@ == self.pub_seed@,
            r.address@ == self.address@,
    {
        Signature {
            inner: copy_bytes(&self.inner),
            pub_seed: self.pub_seed.clone(),
            address: self.address.clone(),
        }
    }
}

/// WOTS+ public key: the terminal value of every hash chain.
pub struct PubKey {
    /// The `LEN` concatenated `N`-byte chain values, in ascending position
    /// order.
    pub inner: Vec<u8>,
    /// The public seed the key was derived under.
    pub pub_seed: Seed,
    /// The domain-separation address of the key pair.
    pub address: Adrs,
}

impl PubKey {
    /// A public key is well formed when it holds `LEN` chain values of `N`
    /// bytes and its seed and address are well formed.
    pub open spec fn wf(&self) -> bool {
        self.inner@.len() == N * LEN && self.pub_seed.wf() && self.address.wf()
    }

    /// WOTS+ public key generation: expands the secret key into the `LEN`
    /// secret chain-start values and walks each chain the full `W - 1`
    /// steps.  `pub_seed` is used to derive the per-step keys and bitmasks.
    pub fn from_seckey(seckey: &SecKey, pub_seed: &Seed) -> (r: Self)
        requires
            seckey.wf(),
            pub_seed.wf(),
        ensures
            r.wf(),
            r.pub_seed@ == pub_seed@,
            r.address@ == seckey.address@,
            keygen_ok(r.inner@, seckey.seed@, pub_seed@, seckey.address@),
    {
        let mut inner: Vec<u8> = Vec::new();
        let mut address = seckey.address.clone();
        let mut i: usize = 0;
        while i < LEN
            invariant
                i <= LEN,
                inner@.len() == N * i,
                forall|k: int|
                    0 <= k < i ==> #[trigger] chunk_of(inner@, k) == keygen_chunk(
                        seckey.seed@,
                        pub_seed@,
                        seckey.address@,
                        k,
                    ),
                address.wf(),
                address@.subrange(0, 20) == seckey.address@.subrange(0, 20),
                address@.subrange(24, 32) == seckey.address@.subrange(24, 32),
                seckey.wf(),
                pub_seed.wf(),
            decreases LEN - i,
        {
            let ctr = byte_array(32, i);
            address.set_chain(i as u32);
            proof {
                assert(address@ =~= with_chain(seckey.address@, i as u32));
            }
            let sk_i = prf(&seckey.seed.bytes, &ctr);
            let mut chunk = chain(&sk_i, 0, W - 1, pub_seed, &address);
            let ghost prev = inner@;
            inner.append(&mut chunk);
            proof {
                assert forall|k: int| 0 <= k < i + 1 implies #[trigger] chunk_of(inner@, k)
                    == keygen_chunk(seckey.seed@, pub_seed@, seckey.address@, k) by {
                    if k < i {
                        assert(chunk_of(inner@, k) =~= chunk_of(prev, k));
                    } else {
                        assert(chunk_of(inner@, k) =~= chain_spec(
                            secret_chunk(seckey.seed@, k),
                            0,
                            (W - 1) as nat,
                            pub_seed@,
                            with_chain(seckey.address@, k as u32),
                        ));
                    }
                }
            }
            i += 1;
        }
        PubKey { inner, pub_seed: pub_seed.clone(), address: seckey.address.clone() }
    }

    /// Takes a WOTS+ signature and an `N`-byte message and recomputes the
    /// public key, completing each chain to its terminal value.  The
    /// signature is valid exactly when the result equals the trusted public
    /// key.
    pub fn from_signature(sig: &Signature, msg: &Vec<u8>) -> (r: Self)
        requires
            sig.wf(),
            msg@.len() == N,
        ensures
            r.wf(),
            r.pub_seed@ == sig.pub_seed@,
            r.address@ == sig.address@,
            verify_ok(r.inner@, sig.inner@, sig.pub_seed@, sig.address@, msg@),
    {
        let lengths = concatenation(msg);
        let mut inner: Vec<u8> = Vec::new();
        let mut address = sig.address.clone();
        let mut i: usize = 0;
        while i < LEN
            invariant
                i <= LEN,
                inner@.len() == N * i,
                forall|k: int|
                    0 <= k < i ==> #[trigger] chunk_of(inner@, k) == verify_chunk(
                        chunk_of(sig.inner@, k),
                        sig.pub_seed@,
                        sig.address@,
                        msg@,
                        k,
                    ),
                lengths@ == concat_digits(msg@),
                lengths@.len() == LEN,
                forall|t: int| 0 <= t < LEN ==> lengths@[t] < W,
                address.wf(),
                address@.subrange(0, 20) == sig.address@.subrange(0, 20),
                address@.subrange(24, 32) == sig.address@.subrange(24, 32),
                sig.wf(),
                msg@.len() == N,
            decreases LEN - i,
        {
            let n = lengths[i] as usize;
            address.set_chain(i as u32);
            proof {
                assert(address@ =~= with_chain(sig.address@, i as u32));
            }
            let sig_chunk = sub_bytes(&sig.inner, N * i, N);
            proof {
                assert(sig_chunk@ == chunk_of(sig.inner@, i as int));
            }
            let mut chunk = chain(&sig_chunk, n, W - 1 - n, &sig.pub_seed, &address);
            let ghost prev = inner@;
            inner.append(&mut chunk);
            proof {
                assert forall|k: int| 0 <= k < i + 1 implies #[trigger] chunk_of(inner@, k)
                    == verify_chunk(
                    chunk_of(sig.inner@, k),
                    sig.pub_seed@,
                    sig.address@,
                    msg@,
                    k,
                ) by {
                    if k < i {
                        assert(chunk_of(inner@, k) =~= chunk_of(prev, k));
                    } else {
                        assert(chunk_of(inner@, k) =~= chain_spec(
                            chunk_of(sig.inner@, k),
                            lengths@[k] as nat,
                            ((W - 1) - lengths@[k] as int) as nat,
                            sig.pub_seed@,
                            with_chain(sig.address@, k as u32),
                        ));
                    }
                }
            }
            i += 1;
        }
        PubKey { inner, pub_seed: sig.pub_seed.clone(), address: sig.address.clone() }
    }
}

impl Clone for PubKey {
    fn clone(&self) -> (r: Self)
        ensures
            r.inner@ == self.inner@,
            r.pub_seed@ == self.pub_seed@,
            r.address@ == self.address@,
    {
        PubKey {
            inner: copy_bytes(&self.inner),
            pub_seed: self.pub_seed.clone(),
            address: self.address.clone(),
        }
    }
}

/// Interprets an array of bytes as `digits` integers in base `W`, most
/// significant bits of each byte first.  This only works because `LOG_W`
/// divides 8: each digit is one nibble.
pub fn base_w(input: &Vec<u8>, digits: usize) -> (r: Vec<u8>)
    requires
        digits <= 2 * input@.len(),
    ensures
        r@ == base_w_seq(input@, digits as nat),
        r@.len() == digits,
        forall|t: int| 0 <= t < digits ==> r@[t] < W,
{
    let mut out: Vec<u8> = Vec::new();
    let mut j: usize = 0;
    while j < digits
        invariant
            j <= digits,
            digits <= 2 * input@.len(),
            out@.len() == j,
            forall|t: int| 0 <= t < j ==> out@[t] == digit_at(input@, t),
            forall|t: int| 0 <= t < j ==> out@[t] < W,
        decreases digits - j,
    {
        let b = input[j / 2];
        let d = if j % 2 == 0 {
            b / 16
        } else {
            b % 16
        };
        out.push(d);
        j += 1;
    }
    proof {
        assert(out@ =~= base_w_seq(input@, digits as nat));
    }
    out
}

/// Concatenation of the base-`W` representations of the message and of its
/// checksum: exactly `LEN` digits, each in `[0, W - 1]`.
pub fn concatenation(msg: &Vec<u8>) -> (r: Vec<u8>)
    requires
        msg@.len() == N,
    ensures
        r@ == concat_digits(msg@),
        r@.len() == LEN,
        forall|i: int| 0 <= i < LEN ==> r@[i] < W,
{
    // Base-`W` representation of the message.
    let mut output = base_w(msg, L1);

    // The checksum over the message digits.
    let mut csum: usize = 0;
    let mut j: usize = 0;
    while j < L1
        invariant
            j <= L1,
            output@ == base_w_seq(msg@, L1 as nat),
            output@.len() == L1,
            forall|t: int| 0 <= t < L1 ==> output@[t] < W,
            csum == checksum(output@.take(j as int)),
            csum <= 15 * j,
        decreases L1 - j,
    {
        proof {
            assert(output@.take(j + 1).drop_last() =~= output@.take(j as int));
        }
        csum = csum + (W - 1 - output[j] as usize);
        j += 1;
    }
    proof {
        assert(output@.take(L1 as int) =~= output@);
    }

    // Shift the checksum so its digit boundary aligns to a byte boundary,
    // then serialize it big-endian and append its digits.
    let csum_shifted = csum * 16;
    let csum_bytes = byte_array(2, csum_shifted);
    let mut csum_digits = base_w(&csum_bytes, L2);
    output.append(&mut csum_digits);
    proof {
        assert(output@ =~= concat_digits(msg@));
        model::lemma_digits_in_range(msg@);
    }
    output
}

/// Computes the chaining function: interprets `input` as the `start`-th
/// value of the chain identified by `address` and walks it `steps` steps
/// forward.  A step index at or past `W` performs no step, so chaining past
/// the end of the chain silently does fewer steps than asked; callers keep
/// `start + steps <= W`.
pub fn chain(input: &Vec<u8>, start: usize, steps: usize, pub_seed: &Seed, address: &Adrs) -> (r:
    Vec<u8>)
    requires
        input@.len() == N,
        pub_seed.wf(),
        address.wf(),
        start + steps <= usize::MAX,
    ensures
        r@ == chain_spec(input@, start as nat, steps as nat, pub_seed@, address@),
        r@.len() == N,
{
    let mut output = copy_bytes(input);
    let mut adrs = address.clone();
    let mut i = start;
    while i < start + steps
        invariant
            start <= i <= start + steps,
            start + steps <= usize::MAX,
            output@ == chain_spec(input@, start as nat, (i - start) as nat, pub_seed@, address@),
            output@.len() == N,
            adrs.wf(),
            adrs@.subrange(0, 24) == address@.subrange(0, 24),
            input@.len() == N,
            pub_seed.wf(),
            address.wf(),
        decreases start + steps - i,
    {
        proof {
            model::lemma_chain_snoc(
                input@,
                start as nat,
                (i - start) as nat,
                pub_seed@,
                address@,
            );
        }
        if i < W {
            adrs.set_hash(i as u32);
            adrs.set_keymask(0);
            proof {
                assert(adrs@ =~= set_field(set_field(address@, 24, i as u32), 28, 0));
            }
            let key = prf(&pub_seed.bytes, &adrs.bytes);
            adrs.set_keymask(1);
            proof {
                assert(adrs@ =~= set_field(set_field(address@, 24, i as u32), 28, 1));
            }
            let mask = prf(&pub_seed.bytes, &adrs.bytes);
            let mut masked: Vec<u8> = Vec::new();
            let mut t: usize = 0;
            while t < N
                invariant
                    t <= N,
                    output@.len() == N,
                    mask@.len() == N,
                    masked@.len() == t,
                    forall|k: int| 0 <= k < t ==> masked@[k] == (output@[k] ^ mask@[k]),
                decreases N - t,
            {
                masked.push(output[t] ^ mask[t]);
                t += 1;
            }
            proof {
                assert(masked@ =~= xor_bytes(output@, mask@));
            }
            output = hash_f(&key, &masked);
            proof {
                assert(adrs@.subrange(0, 24) =~= address@.subrange(0, 24));
            }
        }
        i += 1;
    }
    output
}

} // verus!
