use crate::bytes::{equal32, to_array32, to_vec32};
use crate::scalar::{group_order, le_value};
use crate::types::MpcError;
use curve25519_dalek::edwards::{CompressedEdwardsY, EdwardsPoint};
use curve25519_dalek::scalar::Scalar;
use vstd::multiset::Multiset;
use vstd::prelude::*;

verus! {

/// What decompressing a 32-byte string and compressing the point again gives, if it
/// decompresses at all.
pub uninterp spec fn recompressed_of(b: Seq<u8>) -> Option<Seq<u8>>;

/// The compressed encoding of `s * G` for the Ed25519 base point `G`.
pub uninterp spec fn base_mul_of(s: Seq<u8>) -> Seq<u8>;

/// The compressed encoding of the sum of a non-empty collection of points, each given by its
/// compressed encoding. Point addition is commutative and associative, so the sum depends on
/// the collection alone and not on the order of its elements.
pub uninterp spec fn point_sum_of(points: Multiset<Seq<u8>>) -> Seq<u8>;

/// The compressed encoding of the identity point: the y-coordinate one.
pub open spec fn identity_encoding() -> Seq<u8> {
    Seq::new(32, |i: int| if i == 0 { 1u8 } else { 0u8 })
}

/// The sum of a collection of points; the identity for the empty one.
pub open spec fn point_total(points: Multiset<Seq<u8>>) -> Seq<u8> {
    if points.len() == 0 {
        identity_encoding()
    } else {
        point_sum_of(points)
    }
}

/// A valid point encoding: 32 bytes that decompress to a curve point whose compressed
/// encoding is these same bytes.
pub open spec fn point_valid(b: Seq<u8>) -> bool {
    b.len() == 32 && recompressed_of(b) == Some(b)
}

/// The collection of points that an array of encodings holds.
pub open spec fn point_multiset(pts: Seq<[u8; 32]>) -> Multiset<Seq<u8>> {
    pts.map_values(|p: [u8; 32]| p@).to_multiset()
}

/// Relies on `CompressedEdwardsY::decompress` and `EdwardsPoint::compress`.
#[verifier::external_body]
fn recompress(b: &[u8; 32]) -> (r: Option<[u8; 32]>)
    ensures
        r is None <==> recompressed_of(b@) is None,
        r matches Some(c) ==> recompressed_of(b@) == Some(c@),
{
    match CompressedEdwardsY(*b).decompress() {
        Some(p) => Some(p.compress().to_bytes()),
        None => None,
    }
}

/// Relies on `EdwardsPoint::mul_base` and `EdwardsPoint::compress`: the commitment to a scalar.
#[verifier::external_body]
pub(crate) fn base_mul(s: &[u8; 32]) -> (r: [u8; 32])
    requires
        le_value(s@) < group_order(),
    ensures
        r@ == base_mul_of(s@),
{
    EdwardsPoint::mul_base(&Scalar::from_bytes_mod_order(*s)).compress().to_bytes()
}

/// Relies on `Sum for EdwardsPoint`, a fold of point additions that starts from the identity,
/// and on `EdwardsPoint::compress`.
#[verifier::external_body]
pub(crate) fn sum_points(pts: &Vec<[u8; 32]>) -> (r: [u8; 32])
    requires
        forall|i: int| 0 <= i < pts@.len() ==> point_valid(#[trigger] pts@[i]@),
    ensures
        pts@.len() == 0 ==> r@ == identity_encoding(),
        pts@.len() > 0 ==> r@ == point_sum_of(point_multiset(pts@)),
{
    pts.iter().map(|p| CompressedEdwardsY(*p).decompress().unwrap()).sum::<EdwardsPoint>().compress().to_bytes()
}

/// The point that a byte string decodes to, if it is a valid encoding.
pub open spec fn decoded_point(b: Seq<u8>) -> Option<Seq<u8>> {
    if point_valid(b) {
        Some(b)
    } else {
        None
    }
}

/// Decodes a compressed point, rejecting a wrong length, bytes that name no curve point, and
/// encodings other than the canonical one of their point.
pub fn decode_point(bytes: &[u8]) -> (r: Result<[u8; 32], MpcError>)
    ensures
        r is Ok <==> point_valid(bytes@),
        match r {
            Ok(p) => decoded_point(bytes@) == Some(p@),
            Err(e) => decoded_point(bytes@) is None && e == (MpcError::MalformedInput { at: None }),
        },
{
    if bytes.len() != 32 {
        return Err(MpcError::MalformedInput { at: None });
    }
    let a = to_array32(bytes);
    match recompress(&a) {
        Some(c) => {
            if equal32(&c, &a) {
                Ok(a)
            } else {
                Err(MpcError::MalformedInput { at: None })
            }
        },
        None => Err(MpcError::MalformedInput { at: None }),
    }
}

/// Encodes a point as its 32 compressed bytes.
pub fn encode_point(p: &[u8; 32]) -> (r: Vec<u8>)
    ensures
        r@ == p@,
{
    to_vec32(p)
}

} // verus!
