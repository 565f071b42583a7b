use curve25519_dalek::scalar::Scalar;
use crate::bytes::{to_array32, to_vec32};
use crate::types::MpcError;
use vstd::prelude::*;

verus! {

/// The prime order of the Ed25519 base point's subgroup.
pub open spec fn group_order() -> nat {
    7237005577332262213973186563042994240857116359379907606001950938285454250989nat
}

/// The integer that a byte string denotes, read little-endian.
pub open spec fn le_value(b: Seq<u8>) -> nat
    decreases b.len(),
{
    if b.len() == 0 {
        0
    } else {
        b[0] as nat + 256 * le_value(b.drop_first())
    }
}

/// A canonical scalar encoding: 32 bytes whose value is reduced modulo the group order.
pub open spec fn scalar_valid(b: Seq<u8>) -> bool {
    b.len() == 32 && le_value(b) < group_order()
}

/// Relies on `Scalar::from_canonical_bytes`: it succeeds exactly on encodings below the group order.
#[verifier::external_body]
fn scalar_is_canonical(b: &[u8; 32]) -> (r: bool)
    ensures
        r == (le_value(b@) < group_order()),
{
    bool::from(Scalar::from_canonical_bytes(*b).is_some())
}

/// Relies on `Scalar + Scalar` and `Scalar::to_bytes`: the sum modulo the group order, encoded canonically.
#[verifier::external_body]
pub(crate) fn scalar_add(a: &[u8; 32], b: &[u8; 32]) -> (r: [u8; 32])
    requires
        le_value(a@) < group_order(),
        le_value(b@) < group_order(),
    ensures
        le_value(r@) == (le_value(a@) + le_value(b@)) % group_order(),
{
    (Scalar::from_bytes_mod_order(*a) + Scalar::from_bytes_mod_order(*b)).to_bytes()
}

/// Relies on `Scalar * Scalar` and `Scalar::to_bytes`: the product modulo the group order, encoded canonically.
#[verifier::external_body]
pub(crate) fn scalar_mul(a: &[u8; 32], b: &[u8; 32]) -> (r: [u8; 32])
    requires
        le_value(a@) < group_order(),
        le_value(b@) < group_order(),
    ensures
        le_value(r@) == (le_value(a@) * le_value(b@)) % group_order(),
{
    (Scalar::from_bytes_mod_order(*a) * Scalar::from_bytes_mod_order(*b)).to_bytes()
}

/// Relies on `Scalar::from_bytes_mod_order_wide`: a 64-byte value reduced modulo the group order.
#[verifier::external_body]
pub(crate) fn scalar_from_wide(h: &[u8; 64]) -> (r: [u8; 32])
    ensures
        le_value(r@) == le_value(h@) % group_order(),
{
    Scalar::from_bytes_mod_order_wide(h).to_bytes()
}

} // verus!

verus! {

/// The scalar that a byte string decodes to, if it is a canonical encoding.
pub open spec fn decoded_scalar(b: Seq<u8>) -> Option<Seq<u8>> {
    if scalar_valid(b) {
        Some(b)
    } else {
        None
    }
}

/// Decodes a canonical 32-byte scalar; anything else is malformed.
pub fn decode_scalar(bytes: &[u8]) -> (r: Result<[u8; 32], MpcError>)
    ensures
        r is Ok <==> scalar_valid(bytes@),
        match r {
            Ok(s) => decoded_scalar(bytes@) == Some(s@),
            Err(e) => decoded_scalar(bytes@) is None && e == (MpcError::MalformedInput { at: None }),
        },
{
    if bytes.len() != 32 {
        return Err(MpcError::MalformedInput { at: None });
    }
    let a = to_array32(bytes);
    if scalar_is_canonical(&a) {
        Ok(a)
    } else {
        Err(MpcError::MalformedInput { at: None })
    }
}

/// Encodes a scalar as its 32 canonical bytes.
pub fn encode_scalar(s: &[u8; 32]) -> (r: Vec<u8>)
    ensures
        r@ == s@,
{
    to_vec32(s)
}

} // verus!
