use crate::scalar::{group_order, le_value, scalar_from_wide};
use sha2::{Digest, Sha512};
use vstd::prelude::*;

verus! {

/// The SHA-512 digest of a byte string.
pub uninterp spec fn sha512_of(m: Seq<u8>) -> Seq<u8>;

/// Relies on `Sha512::digest`: the 64-byte digest of the input.
#[verifier::external_body]
fn sha512(m: &[u8]) -> (r: [u8; 64])
    ensures
        r@ == sha512_of(m@),
{
    Sha512::digest(m).into()
}

/// The bytes of several parts laid end to end, in order.
pub open spec fn joined(parts: Seq<&[u8]>) -> Seq<u8> {
    parts.map_values(|p: &[u8]| p@).flatten()
}

/// Lays several byte strings end to end.
pub fn concat_bytes(parts: &[&[u8]]) -> (r: Vec<u8>)
    ensures
        r@ == joined(parts@),
{
    let mut out: Vec<u8> = Vec::new();
    let mut i: usize = 0;
    while i < parts.len()
        invariant
            i <= parts@.len(),
            out@ == joined(parts@.subrange(0, i as int)),
        decreases parts@.len() - i,
    {
        let p: &[u8] = parts[i];
        proof {
            let pre = parts@.subrange(0, i as int).map_values(|q: &[u8]| q@);
            assert(parts@.subrange(0, i as int + 1).map_values(|q: &[u8]| q@) =~= pre.push(p@));
            pre.lemma_flatten_push(p@);
        }
        out.extend_from_slice(p);
        i = i + 1;
    }
    assert(parts@.subrange(0, i as int) =~= parts@);
    out
}

/// The scalar that a transcript hashes to: its SHA-512 digest reduced modulo the group order.
pub open spec fn hashed_scalar(bytes: Seq<u8>) -> nat {
    le_value(sha512_of(bytes)) % group_order()
}

/// Hashes a transcript to a scalar.
pub fn hash_to_scalar(bytes: &[u8]) -> (r: [u8; 32])
    ensures
        le_value(r@) == hashed_scalar(bytes@),
{
    let h = sha512(bytes);
    scalar_from_wide(&h)
}

} // verus!
