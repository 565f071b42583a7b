use curve25519_dalek::constants::ED25519_BASEPOINT_POINT;
use curve25519_dalek::edwards::{CompressedEdwardsY, EdwardsPoint};
use curve25519_dalek::scalar::Scalar;
use mpc_core::hash::{concat_bytes, hash_to_scalar};
use mpc_core::point::{decode_point, encode_point};
use mpc_core::scalar::{decode_scalar, encode_scalar};
use mpc_core::{FinalSignature, KeyShare, MpcCore, MpcError, NonceShare, PartialSignature};
use sha2::{Digest, Sha512};

const ORDER_BYTES: [u8; 32] = [
    0xed, 0xd3, 0xf5, 0x5c, 0x1a, 0x63, 0x12, 0x58, 0xd6, 0x9c, 0xf7, 0xa2, 0xde, 0xf9, 0xde, 0x14,
    0x00, 0x00, 0x00, 0x00, 0x00, 0x00, 0x00, 0x00, 0x00, 0x00, 0x00, 0x00, 0x00, 0x00, 0x00, 0x10,
];

fn malformed() -> MpcError {
    MpcError::MalformedInput { at: None }
}

fn scalar_bytes(v: u64) -> Vec<u8> {
    Scalar::from(v).to_bytes().to_vec()
}

fn seed(b: u8) -> [u8; 64] {
    let mut s = [0u8; 64];
    for (i, x) in s.iter_mut().enumerate() {
        *x = b.wrapping_mul(31).wrapping_add(i as u8);
    }
    s
}

fn point(bytes: &[u8]) -> EdwardsPoint {
    CompressedEdwardsY(bytes.try_into().unwrap()).decompress().unwrap()
}

fn scalar(bytes: &[u8]) -> Scalar {
    Scalar::from_canonical_bytes(bytes.try_into().unwrap()).unwrap()
}

fn share(v: u64) -> KeyShare {
    KeyShare { share: scalar_bytes(v) }
}

fn nonce(v: u64) -> NonceShare {
    let r = Scalar::from(v);
    NonceShare {
        nonce: r.to_bytes().to_vec(),
        commitment: EdwardsPoint::mul_base(&r).compress().to_bytes().to_vec(),
    }
}

fn partial(x: u64, r: u64, c: u64) -> PartialSignature {
    MpcCore::partial_sign(&share(x), &nonce(r), scalar_bytes(c)).unwrap()
}

#[test]
fn scalar_round_trip() {
    let x = Scalar::from(123456789u64) * Scalar::from(987654321u64);
    let bytes = x.to_bytes();
    let d = decode_scalar(&bytes).unwrap();
    assert_eq!(encode_scalar(&d), bytes.to_vec());
    let mut top = ORDER_BYTES;
    top[0] -= 1;
    assert_eq!(encode_scalar(&decode_scalar(&top).unwrap()), top.to_vec());
}

#[test]
fn point_round_trip() {
    let b = ED25519_BASEPOINT_POINT.compress().to_bytes();
    assert_eq!(encode_point(&decode_point(&b).unwrap()), b.to_vec());
    let id = [1u8].iter().chain([0u8; 31].iter()).copied().collect::<Vec<u8>>();
    assert_eq!(encode_point(&decode_point(&id).unwrap()), id);
}

#[test]
fn wrong_lengths_are_malformed() {
    for len in [0usize, 31, 33] {
        let b = vec![0u8; len];
        assert_eq!(decode_scalar(&b), Err(malformed()));
        assert_eq!(decode_point(&b), Err(malformed()));
        assert_eq!(
            MpcCore::compute_challenge(b.clone(), vec![0u8; 32], b"m".to_vec()).err(),
            Some(malformed())
        );
        assert_eq!(
            MpcCore::compute_challenge(vec![0u8; 32], b.clone(), b"m".to_vec()).err(),
            Some(malformed())
        );
        assert_eq!(
            MpcCore::partial_sign(&share(1), &nonce(2), b.clone()).err(),
            Some(malformed())
        );
        assert_eq!(
            MpcCore::partial_sign(&KeyShare { share: b.clone() }, &nonce(2), scalar_bytes(3)).err(),
            Some(malformed())
        );
        let bad_nonce = NonceShare { nonce: b.clone(), commitment: nonce(2).commitment };
        assert_eq!(
            MpcCore::partial_sign(&share(1), &bad_nonce, scalar_bytes(3)).err(),
            Some(malformed())
        );
    }
}

#[test]
fn non_canonical_scalars_are_rejected() {
    assert_eq!(decode_scalar(&ORDER_BYTES), Err(malformed()));
    let mut above = ORDER_BYTES;
    above[0] += 1;
    assert_eq!(decode_scalar(&above), Err(malformed()));
    assert_eq!(decode_scalar(&[0xffu8; 32]), Err(malformed()));
    assert_eq!(
        MpcCore::partial_sign(&share(1), &nonce(2), ORDER_BYTES.to_vec()).err(),
        Some(malformed())
    );
}

#[test]
fn non_canonical_point_encoding_is_rejected() {
    // y = p, the field modulus, names the same point as y = 0.
    let mut p = [0xffu8; 32];
    p[0] = 0xed;
    p[31] = 0x7f;
    assert_eq!(decode_point(&p), Err(malformed()));
    assert!(decode_point(&[0u8; 32]).is_ok());
}

#[test]
fn concat_bytes_keeps_order() {
    let a: &[u8] = &[1, 2];
    let b: &[u8] = &[];
    let c: &[u8] = &[3];
    assert_eq!(concat_bytes(&[a, b, c]), vec![1, 2, 3]);
    assert_eq!(concat_bytes(&[]), Vec::<u8>::new());
}

#[test]
fn hash_to_scalar_reduces_digest() {
    let h: [u8; 64] = Sha512::digest(b"abc").into();
    assert_eq!(hash_to_scalar(b"abc"), Scalar::from_bytes_mod_order_wide(&h).to_bytes());
}

#[test]
fn challenge_hashes_transcript_in_order() {
    let r = ED25519_BASEPOINT_POINT.compress().to_bytes().to_vec();
    let a = EdwardsPoint::mul_base(&Scalar::from(7u64)).compress().to_bytes().to_vec();
    let m = b"test".to_vec();
    let c = MpcCore::compute_challenge(r.clone(), a.clone(), m.clone()).unwrap();
    let mut t = r.clone();
    t.extend_from_slice(&a);
    t.extend_from_slice(&m);
    let h: [u8; 64] = Sha512::digest(&t).into();
    assert_eq!(c, Scalar::from_bytes_mod_order_wide(&h).to_bytes().to_vec());
    let swapped = MpcCore::compute_challenge(a, r, m).unwrap();
    assert_ne!(c, swapped);
}

#[test]
fn partial_sign_formula() {
    let p = partial(5, 11, 3);
    assert_eq!(p.s_i, scalar_bytes(26));
    assert_eq!(p.R_i, nonce(11).commitment);
    let x = Scalar::from(u64::MAX) * Scalar::from(u64::MAX);
    let c = Scalar::from(0x1234_5678_9abc_def0u64) * x;
    let key = KeyShare { share: x.to_bytes().to_vec() };
    let p = MpcCore::partial_sign(&key, &nonce(9), c.to_bytes().to_vec()).unwrap();
    assert_eq!(p.s_i, (Scalar::from(9u64) + c * x).to_bytes().to_vec());
}

#[test]
fn partial_sign_is_deterministic() {
    assert_eq!(partial(4, 8, 15).s_i, partial(4, 8, 15).s_i);
}

#[test]
fn combine_empty_is_identity() {
    let f = MpcCore::combine_signatures(vec![]).unwrap();
    let mut id = vec![0u8; 32];
    id[0] = 1;
    assert_eq!(f.R, id);
    assert_eq!(f.s, vec![0u8; 32]);
}

#[test]
fn combine_is_additive() {
    let sig1 = partial(5, 11, 3);
    let sig2 = partial(6, 13, 3);
    let f = MpcCore::combine_signatures(vec![sig1.clone(), sig2.clone()]).unwrap();
    assert_eq!(f.s, (scalar(&sig1.s_i) + scalar(&sig2.s_i)).to_bytes().to_vec());
    assert_eq!(f.s, scalar_bytes(11 + 13 + 3 * (5 + 6)));
    assert_eq!(f.R, (point(&sig1.R_i) + point(&sig2.R_i)).compress().to_bytes().to_vec());
}

#[test]
fn combine_ignores_order() {
    let ps = vec![partial(1, 2, 9), partial(3, 4, 9), partial(5, 6, 9)];
    let a = MpcCore::combine_signatures(ps.clone()).unwrap();
    let b = MpcCore::combine_signatures(vec![ps[2].clone(), ps[0].clone(), ps[1].clone()]).unwrap();
    assert_eq!(a.R, b.R);
    assert_eq!(a.s, b.s);
}

#[test]
fn combine_wraps_modulo_order() {
    let mut top = ORDER_BYTES;
    top[0] -= 1;
    let sig1 = PartialSignature { s_i: top.to_vec(), R_i: nonce(1).commitment };
    let sig2 = PartialSignature { s_i: scalar_bytes(2), R_i: nonce(2).commitment };
    let f = MpcCore::combine_signatures(vec![sig1, sig2]).unwrap();
    assert_eq!(f.s, scalar_bytes(1));
    assert_eq!(f.R, nonce(3).commitment);
}

#[test]
fn combine_names_first_bad_partial() {
    let good = partial(1, 2, 3);
    let short = PartialSignature { s_i: vec![0u8; 31], R_i: good.R_i.clone() };
    let big = PartialSignature { s_i: ORDER_BYTES.to_vec(), R_i: good.R_i.clone() };
    let mut bad_point = [0xffu8; 32];
    bad_point[0] = 0xed;
    bad_point[31] = 0x7f;
    let off_curve = PartialSignature { s_i: good.s_i.clone(), R_i: bad_point.to_vec() };
    let long_point = PartialSignature { s_i: good.s_i.clone(), R_i: vec![0u8; 33] };
    let r = MpcCore::combine_signatures(vec![good.clone(), short, big.clone()]);
    assert_eq!(r.err(), Some(MpcError::MalformedInput { at: Some(1) }));
    let r = MpcCore::combine_signatures(vec![big, good.clone()]);
    assert_eq!(r.err(), Some(MpcError::MalformedInput { at: Some(0) }));
    let r = MpcCore::combine_signatures(vec![good.clone(), good.clone(), off_curve]);
    assert_eq!(r.err(), Some(MpcError::MalformedInput { at: Some(2) }));
    let r = MpcCore::combine_signatures(vec![long_point]);
    assert_eq!(r.err(), Some(MpcError::MalformedInput { at: Some(0) }));
}

#[test]
fn shares_from_entropy() {
    let w = seed(7);
    let k = MpcCore::key_share_from_entropy(&w);
    assert_eq!(k.share, Scalar::from_bytes_mod_order_wide(&w).to_bytes().to_vec());
    let n = MpcCore::nonce_share_from_entropy(&seed(8));
    let r = Scalar::from_bytes_mod_order_wide(&seed(8));
    assert_eq!(n.nonce, r.to_bytes().to_vec());
    assert_eq!(n.commitment, EdwardsPoint::mul_base(&r).compress().to_bytes().to_vec());
}

#[test]
fn generated_shares_are_canonical() {
    let k = MpcCore::generate_key_share().unwrap();
    assert!(decode_scalar(&k.share).is_ok());
    let n = MpcCore::generate_nonce_share().unwrap();
    assert!(decode_scalar(&n.nonce).is_ok());
    assert_eq!(
        n.commitment,
        EdwardsPoint::mul_base(&scalar(&n.nonce)).compress().to_bytes().to_vec()
    );
    assert_ne!(k.share, MpcCore::generate_key_share().unwrap().share);
}

fn check_signature(f: &FinalSignature, public_key: &[u8], message: &[u8]) {
    let c = MpcCore::compute_challenge(f.R.clone(), public_key.to_vec(), message.to_vec()).unwrap();
    let lhs = EdwardsPoint::mul_base(&scalar(&f.s));
    let rhs = point(&f.R) + scalar(&c) * point(public_key);
    assert_eq!(lhs, rhs);
}

fn two_party_signature(k1: KeyShare, k2: KeyShare, n1: NonceShare, n2: NonceShare) {
    let x = scalar(&k1.share) + scalar(&k2.share);
    let a = EdwardsPoint::mul_base(&x).compress().to_bytes().to_vec();
    let big_r = (point(&n1.commitment) + point(&n2.commitment)).compress().to_bytes().to_vec();
    let m = b"test".to_vec();
    let c = MpcCore::compute_challenge(big_r.clone(), a.clone(), m.clone()).unwrap();
    let sig1 = MpcCore::partial_sign(&k1, &n1, c.clone()).unwrap();
    let sig2 = MpcCore::partial_sign(&k2, &n2, c).unwrap();
    let f = MpcCore::combine_signatures(vec![sig1, sig2]).unwrap();
    assert_eq!(f.R, big_r);
    check_signature(&f, &a, &m);
}

#[test]
fn end_to_end_signature_verifies() {
    two_party_signature(
        MpcCore::generate_key_share().unwrap(),
        MpcCore::generate_key_share().unwrap(),
        MpcCore::generate_nonce_share().unwrap(),
        MpcCore::generate_nonce_share().unwrap(),
    );
}

#[test]
fn end_to_end_signature_from_fixed_entropy() {
    two_party_signature(
        MpcCore::key_share_from_entropy(&seed(1)),
        MpcCore::key_share_from_entropy(&seed(2)),
        MpcCore::nonce_share_from_entropy(&seed(3)),
        MpcCore::nonce_share_from_entropy(&seed(4)),
    );
}
