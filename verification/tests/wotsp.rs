use wotsp::{base_w, byte_array, chain, concatenation, hash_f, prf};
use wotsp::{Adrs, PubKey, SecKey, Seed, Signature};
use wotsp::{L1, L2, LEN, N, W};

#[test]
fn same_key() {
    let mut sk = SecKey::default();
    sk.set_seed(Seed::new());
    let pub_seed = Seed::default();
    let pk = PubKey::from_seckey(&sk, &pub_seed);
    let msg: Vec<u8> = rand::random::<[u8; 32]>().to_vec();
    let sig = sk.sign(&pub_seed, &msg);
    let pk2 = PubKey::from_signature(&sig, &msg);

    for i in 0..N * LEN {
        assert_eq!(pk.inner[i], pk2.inner[i]);
    }
}

#[test]
fn verification_positive_all_zero() {
    let sk = SecKey::default();
    let pub_seed = Seed::default();
    let msg = vec![0u8; N];
    let pk = PubKey::from_seckey(&sk, &pub_seed);
    let sig = sk.sign(&pub_seed, &msg);
    let pk2 = PubKey::from_signature(&sig, &msg);
    assert_eq!(pk.inner, pk2.inner);
    assert_eq!(pk.pub_seed.bytes, pk2.pub_seed.bytes);
    assert_eq!(pk.address.bytes, pk2.address.bytes);
}

#[test]
fn verification_negative_corrupted_signature() {
    let mut sk = SecKey::default();
    sk.set_seed(Seed::new());
    sk.set_address(Adrs::new());
    let pub_seed = Seed::new();
    let msg = vec![0u8; N];
    let pk = PubKey::from_seckey(&sk, &pub_seed);
    let sig = sk.sign(&pub_seed, &msg);

    // Corrupt one byte of the signature's first chain value.
    let mut corrupted = Signature {
        inner: sig.inner.clone(),
        pub_seed: sig.pub_seed.clone(),
        address: sig.address.clone(),
    };
    corrupted.inner[0] ^= 0x01;

    let pk2 = PubKey::from_signature(&corrupted, &msg);
    assert_ne!(pk.inner, pk2.inner);
}

#[test]
fn keygen_is_deterministic() {
    let mut sk = SecKey::default();
    sk.set_seed(Seed::new());
    sk.set_address(Adrs::new());
    let pub_seed = Seed::new();
    let pk1 = PubKey::from_seckey(&sk, &pub_seed);
    let pk2 = PubKey::from_seckey(&sk, &pub_seed);
    assert_eq!(pk1.inner, pk2.inner);
}

#[test]
fn chain_composes_over_step_ranges() {
    let pub_seed = Seed::new();
    let address = Adrs::new();
    let v: Vec<u8> = rand::random::<[u8; 32]>().to_vec();
    for a in [0usize, 1, 5, 15] {
        let b = (W - 1) - a;
        let first = chain(&v, 0, a, &pub_seed, &address);
        let second = chain(&first, a, b, &pub_seed, &address);
        let whole = chain(&v, 0, a + b, &pub_seed, &address);
        assert_eq!(second, whole);
    }
}

#[test]
fn digits_are_in_range_and_len_is_len() {
    let msg: Vec<u8> = rand::random::<[u8; 32]>().to_vec();
    let digits = concatenation(&msg);
    assert_eq!(digits.len(), LEN);
    assert_eq!(LEN, L1 + L2);
    for d in digits {
        assert!((d as usize) < W);
    }
}

#[test]
fn concatenation_of_zero_message() {
    let msg = vec![0u8; N];
    let digits = concatenation(&msg);
    // 64 zero digits; checksum 64 * 15 = 960, shifted left 4 = 15360 =
    // 0x3C00, whose first three nibbles are 3, 12, 0.
    let mut expected = vec![0u8; L1];
    expected.extend_from_slice(&[3, 12, 0]);
    assert_eq!(digits, expected);
}

#[test]
fn concatenation_exact_digits_and_checksum() {
    let mut msg = vec![0u8; N];
    msg[0] = 0xAB;
    let digits = concatenation(&msg);
    assert_eq!(digits[0], 10);
    assert_eq!(digits[1], 11);
    // checksum = (15-10) + (15-11) + 62 * 15 = 939; 939 << 4 = 15024 =
    // 0x3AB0, whose first three nibbles are 3, 10, 11.
    assert_eq!(&digits[L1..], &[3, 10, 11]);
}

#[test]
fn byte_array_is_big_endian() {
    assert_eq!(byte_array(4, 0x01020304), vec![1, 2, 3, 4]);
    assert_eq!(byte_array(2, 15360), vec![0x3C, 0x00]);
    assert_eq!(byte_array(4, 3), vec![0, 0, 0, 3]);
    // Bytes above the width are dropped.
    assert_eq!(byte_array(1, 0x01FF), vec![0xFF]);
    assert_eq!(byte_array(0, 7), Vec::<u8>::new());
}

#[test]
fn base_w_unpacks_nibbles_high_first() {
    assert_eq!(base_w(&vec![0xAB, 0xCD], 4), vec![10, 11, 12, 13]);
    assert_eq!(base_w(&vec![0xAB, 0xCD], 3), vec![10, 11, 12]);
    assert_eq!(base_w(&vec![0x0F], 2), vec![0, 15]);
}

#[test]
fn address_fields_are_isolated() {
    let mut adrs = Adrs::new();
    let before = adrs.bytes.clone();

    adrs.set_chain(0x01020304);
    assert_eq!(&adrs.bytes[0..20], &before[0..20]);
    assert_eq!(&adrs.bytes[20..24], &[1, 2, 3, 4]);
    assert_eq!(&adrs.bytes[24..32], &before[24..32]);

    adrs.set_hash(0xA0B0C0D0);
    assert_eq!(&adrs.bytes[0..20], &before[0..20]);
    assert_eq!(&adrs.bytes[20..24], &[1, 2, 3, 4]);
    assert_eq!(&adrs.bytes[24..28], &[0xA0, 0xB0, 0xC0, 0xD0]);
    assert_eq!(&adrs.bytes[28..32], &before[28..32]);

    adrs.set_keymask(1);
    assert_eq!(&adrs.bytes[0..20], &before[0..20]);
    assert_eq!(&adrs.bytes[20..24], &[1, 2, 3, 4]);
    assert_eq!(&adrs.bytes[24..28], &[0xA0, 0xB0, 0xC0, 0xD0]);
    assert_eq!(&adrs.bytes[28..32], &[0, 0, 0, 1]);
}

#[test]
fn bit_flip_changes_digits_and_signature() {
    let m1 = vec![0u8; N];
    let mut m2 = vec![0u8; N];
    m2[7] ^= 0x10; // flip one bit

    let d1 = concatenation(&m1);
    let d2 = concatenation(&m2);
    assert_ne!(d1, d2);

    let mut sk = SecKey::default();
    sk.set_seed(Seed::new());
    let pub_seed = Seed::new();
    let s1 = sk.sign(&pub_seed, &m1);
    let s2 = sk.sign(&pub_seed, &m2);
    assert_ne!(s1.inner, s2.inner);
}

#[test]
fn prf_and_f_transform_their_input() {
    let key = vec![0u8; N];
    let input = vec![0u8; 32];
    let out = prf(&key, &input);
    assert_eq!(out.len(), N);
    assert_ne!(out, input);

    let out_f = hash_f(&key, &input);
    assert_eq!(out_f.len(), N);
    assert_ne!(out_f, input);
    // Domain separation: PRF and F pad differently, so they disagree on the
    // same (key, input).
    assert_ne!(out, out_f);
}

#[test]
fn fresh_seeds_and_addresses_are_wide_enough() {
    let seed = Seed::new();
    assert_eq!(seed.bytes.len(), N);
    let adrs = Adrs::new();
    assert_eq!(adrs.bytes.len(), 32);
    let sk = SecKey::new();
    assert_eq!(sk.seed.bytes.len(), N);
    assert_eq!(sk.address.bytes.len(), 32);
}

#[test]
fn public_key_depends_on_the_seed() {
    // If the hash core handed values through unchanged, every chain would
    // collapse; the generated key must not be the all-zero array.
    let sk = SecKey::default();
    let pub_seed = Seed::default();
    let pk = PubKey::from_seckey(&sk, &pub_seed);
    assert_eq!(pk.inner.len(), N * LEN);
    assert!(pk.inner.iter().any(|&b| b != 0));

    // And a different secret seed gives a different public key.
    let mut sk2 = SecKey::default();
    sk2.set_seed(Seed::new());
    let pk2 = PubKey::from_seckey(&sk2, &pub_seed);
    assert_ne!(pk.inner, pk2.inner);
}
