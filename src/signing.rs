use crate::bytes::to_vec32;
use crate::hash::{concat_bytes, hash_to_scalar, hashed_scalar};
use crate::point::{base_mul, base_mul_of, decode_point, point_total, point_valid, sum_points};
use crate::scalar::{decode_scalar, group_order, le_value, scalar_add, scalar_from_wide, scalar_mul, scalar_valid};
use crate::types::{FinalSignature, KeyShare, MpcError, NonceShare, PartialSignature};
use rand::RngCore;
use vstd::arithmetic::div_mod::{lemma_add_mod_noop, lemma_small_mod};
use vstd::prelude::*;
use vstd::seq_lib::to_multiset_len;

verus! {

/// Relies on `OsRng::try_fill_bytes` of rand: 64 bytes from the operating system's secure
/// source, or nothing where that source cannot be read.
#[verifier::external_body]
fn os_random_wide() -> (r: Option<[u8; 64]>) {
    let mut buf = [0u8; 64];
    match rand::rngs::OsRng.try_fill_bytes(&mut buf) {
        Ok(()) => Some(buf),
        Err(_) => None,
    }
}

/// The Fiat-Shamir challenge for aggregated commitment `r`, public key `a` and message `m`.
pub open spec fn challenge_of(r: Seq<u8>, a: Seq<u8>, m: Seq<u8>) -> nat {
    hashed_scalar(r + a + m)
}

/// The value of `r_i + c * x_i` modulo the group order.
pub open spec fn partial_value(key: Seq<u8>, nonce: Seq<u8>, c: Seq<u8>) -> nat {
    (le_value(nonce) + le_value(c) * le_value(key)) % group_order()
}

/// `p` is the partial signature for key share `key`, nonce `nonce` with commitment
/// `commitment`, and challenge `c`.
pub open spec fn signs(key: Seq<u8>, nonce: Seq<u8>, commitment: Seq<u8>, c: Seq<u8>, p: PartialSignature) -> bool {
    &&& p.s_i@.len() == 32
    &&& le_value(p.s_i@) == partial_value(key, nonce, c)
    &&& p.R_i@ == commitment
}

/// A partial signature whose scalar and point both decode.
pub open spec fn partial_valid(p: PartialSignature) -> bool {
    scalar_valid(p.s_i@) && point_valid(p.R_i@)
}

/// Every partial signature of the sequence decodes.
pub open spec fn partials_valid(ps: Seq<PartialSignature>) -> bool {
    forall|i: int| 0 <= i < ps.len() ==> partial_valid(#[trigger] ps[i])
}

/// The sum of a sequence of naturals.
pub open spec fn sum_of(xs: Seq<nat>) -> nat
    decreases xs.len(),
{
    if xs.len() == 0 {
        0
    } else {
        sum_of(xs.drop_last()) + xs.last()
    }
}

/// The scalar values of the partial signatures, in order.
pub open spec fn partial_scalars(ps: Seq<PartialSignature>) -> Seq<nat> {
    ps.map_values(|p: PartialSignature| le_value(p.s_i@))
}

/// The commitments of the partial signatures, in order.
pub open spec fn partial_points(ps: Seq<PartialSignature>) -> Seq<Seq<u8>> {
    ps.map_values(|p: PartialSignature| p.R_i@)
}

/// `s = sum of s_i` modulo the group order.
pub open spec fn combined_scalar(ps: Seq<PartialSignature>) -> nat {
    sum_of(partial_scalars(ps)) % group_order()
}

/// `R = sum of R_i`.
pub open spec fn combined_point(ps: Seq<PartialSignature>) -> Seq<u8> {
    point_total(partial_points(ps).to_multiset())
}

/// The entry point of the signing core. Every operation is a pure function of its arguments,
/// except the two generators, which read the operating system's secure random source.
pub struct MpcCore;

impl MpcCore {
    /// The key share that 64 bytes of entropy give: their value reduced modulo the group order.
    pub fn key_share_from_entropy(wide: &[u8; 64]) -> (k: KeyShare)
        ensures
            k.share@.len() == 32,
            le_value(k.share@) == le_value(wide@) % group_order(),
    {
        let x = scalar_from_wide(wide);
        KeyShare { share: to_vec32(&x) }
    }

    /// The nonce share that 64 bytes of entropy give, with its commitment `r_i * G`.
    pub fn nonce_share_from_entropy(wide: &[u8; 64]) -> (n: NonceShare)
        ensures
            n.nonce@.len() == 32,
            le_value(n.nonce@) == le_value(wide@) % group_order(),
            n.commitment@ == base_mul_of(n.nonce@),
    {
        let r = scalar_from_wide(wide);
        let big_r = base_mul(&r);
        NonceShare { nonce: to_vec32(&r), commitment: to_vec32(&big_r) }
    }

    /// Draws a fresh key share from the operating system's secure random source.
    pub fn generate_key_share() -> (r: Result<KeyShare, MpcError>)
        ensures
            match r {
                Ok(k) => scalar_valid(k.share@),
                Err(e) => e == MpcError::EntropySourceUnavailable,
            },
    {
        match os_random_wide() {
            Some(wide) => Ok(Self::key_share_from_entropy(&wide)),
            None => Err(MpcError::EntropySourceUnavailable),
        }
    }

    /// Draws a fresh nonce share from the operating system's secure random source.
    pub fn generate_nonce_share() -> (r: Result<NonceShare, MpcError>)
        ensures
            match r {
                Ok(n) => scalar_valid(n.nonce@) && n.commitment@ == base_mul_of(n.nonce@),
                Err(e) => e == MpcError::EntropySourceUnavailable,
            },
    {
        match os_random_wide() {
            Some(wide) => Ok(Self::nonce_share_from_entropy(&wide)),
            None => Err(MpcError::EntropySourceUnavailable),
        }
    }

    /// The challenge `c = H(R || A || m)`. `R` and `A` must be 32 bytes long.
    #[allow(non_snake_case)]
    pub fn compute_challenge(R: Vec<u8>, public_key: Vec<u8>, message: Vec<u8>) -> (r: Result<Vec<u8>, MpcError>)
        ensures
            r is Ok <==> (R@.len() == 32 && public_key@.len() == 32),
            match r {
                Ok(c) => c@.len() == 32 && le_value(c@) == challenge_of(R@, public_key@, message@),
                Err(e) => e == (MpcError::MalformedInput { at: None }),
            },
    {
        if R.len() != 32 || public_key.len() != 32 {
            return Err(MpcError::MalformedInput { at: None });
        }
        let parts: [&[u8]; 3] = [R.as_slice(), public_key.as_slice(), message.as_slice()];
        let bytes = concat_bytes(&parts);
        proof {
            let ps = parts@.map_values(|p: &[u8]| p@);
            assert(ps =~= seq![R@, public_key@, message@]);
            assert(seq![R@, public_key@].push(message@) =~= seq![R@, public_key@, message@]);
            assert(seq![R@].push(public_key@) =~= seq![R@, public_key@]);
            seq![R@, public_key@].lemma_flatten_push(message@);
            seq![R@].lemma_flatten_push(public_key@);
            Seq::<Seq<u8>>::empty().lemma_flatten_push(R@);
            assert(Seq::<Seq<u8>>::empty().push(R@) =~= seq![R@]);
            assert(bytes@ =~= R@ + public_key@ + message@);
        }
        let c = hash_to_scalar(bytes.as_slice());
        Ok(to_vec32(&c))
    }
    /// The partial signature `s_i = r_i + c * x_i` modulo the group order, carrying the nonce's
    /// commitment. The key share, the nonce and the challenge must be canonical scalars.
    pub fn partial_sign(key_share: &KeyShare, nonce_share: &NonceShare, challenge: Vec<u8>) -> (r: Result<PartialSignature, MpcError>)
        ensures
            r is Ok <==> (scalar_valid(key_share.share@) && scalar_valid(nonce_share.nonce@) && scalar_valid(challenge@)),
            match r {
                Ok(p) => signs(key_share.share@, nonce_share.nonce@, nonce_share.commitment@, challenge@, p),
                Err(e) => e == (MpcError::MalformedInput { at: None }),
            },
    {
        let xi = match decode_scalar(key_share.share.as_slice()) {
            Ok(x) => x,
            Err(e) => return Err(e),
        };
        let ri = match decode_scalar(nonce_share.nonce.as_slice()) {
            Ok(x) => x,
            Err(e) => return Err(e),
        };
        let c = match decode_scalar(challenge.as_slice()) {
            Ok(x) => x,
            Err(e) => return Err(e),
        };
        let cx = scalar_mul(&c, &xi);
        let si = scalar_add(&ri, &cx);
        proof {
            let l = group_order();
            let v = le_value(c@) * le_value(xi@);
            lemma_small_mod(le_value(ri@), l);
            lemma_add_mod_noop(le_value(ri@) as int, v as int, l as int);
        }
        Ok(PartialSignature { s_i: to_vec32(&si), R_i: nonce_share.commitment.clone() })
    }

    /// Sums the partial signatures: `R` is the sum of the commitments and `s` the sum of the
    /// scalars modulo the group order. The first partial signature that does not decode makes
    /// the whole combination fail, naming its position.
    pub fn combine_signatures(partials: Vec<PartialSignature>) -> (r: Result<FinalSignature, MpcError>)
        ensures
            r is Ok <==> partials_valid(partials@),
            match r {
                Ok(f) => {
                    &&& f.s@.len() == 32
                    &&& le_value(f.s@) == combined_scalar(partials@)
                    &&& f.R@ == combined_point(partials@)
                },
                Err(e) => match e {
                    MpcError::MalformedInput { at: Some(i) } => {
                        &&& i < partials@.len()
                        &&& !partial_valid(partials@[i as int])
                        &&& forall|j: int| 0 <= j < i ==> partial_valid(#[trigger] partials@[j])
                    },
                    _ => false,
                },
            },
    {
        let mut points: Vec<[u8; 32]> = Vec::new();
        let mut s: [u8; 32] = [0u8; 32];
        let mut i: usize = 0;
        proof {
            assert(forall|j: int| 0 <= j < 32 ==> s@[j] == 0);
            lemma_zero_value(s@, 32);
            assert(s@.subrange(0, 32) =~= s@);
        }
        while i < partials.len()
            invariant
                i <= partials@.len(),
                partials_valid(partials@.subrange(0, i as int)),
                points@.map_values(|p: [u8; 32]| p@) == partial_points(partials@.subrange(0, i as int)),
                le_value(s@) == sum_of(partial_scalars(partials@.subrange(0, i as int))) % group_order(),
            decreases partials@.len() - i,
        {
            let p = &partials[i];
            let si = match decode_scalar(p.s_i.as_slice()) {
                Ok(x) => x,
                Err(_) => {
                    assert(forall|j: int| 0 <= j < i ==> partials@.subrange(0, i as int)[j] == partials@[j]);
                    return Err(MpcError::MalformedInput { at: Some(i) });
                },
            };
            let big_ri = match decode_point(p.R_i.as_slice()) {
                Ok(x) => x,
                Err(_) => {
                    assert(forall|j: int| 0 <= j < i ==> partials@.subrange(0, i as int)[j] == partials@[j]);
                    return Err(MpcError::MalformedInput { at: Some(i) });
                },
            };
            let ghost old_s = le_value(s@);
            let ghost pre = partials@.subrange(0, i as int);
            let ghost next = partials@.subrange(0, i as int + 1);
            s = scalar_add(&s, &si);
            points.push(big_ri);
            proof {
                assert(next =~= pre.push(*p));
                assert(partial_scalars(next) =~= partial_scalars(pre).push(le_value(si@)));
                assert(partial_scalars(next).drop_last() =~= partial_scalars(pre));
                assert(partial_points(next) =~= partial_points(pre).push(big_ri@));
                assert(points@.map_values(|q: [u8; 32]| q@) =~= partial_points(next));
                lemma_small_mod(le_value(si@), group_order());
                lemma_add_mod_noop(sum_of(partial_scalars(pre)) as int, le_value(si@) as int, group_order() as int);
                assert(partials_valid(next)) by {
                    assert forall|j: int| 0 <= j < next.len() implies partial_valid(#[trigger] next[j]) by {
                        if j < i {
                            assert(next[j] == pre[j]);
                        }
                    }
                }
            }
            i = i + 1;
        }
        proof {
            assert(partials@.subrange(0, i as int) =~= partials@);
            assert forall|k: int| 0 <= k < points@.len() implies point_valid(#[trigger] points@[k]@) by {
                assert(points@.map_values(|q: [u8; 32]| q@)[k] == points@[k]@);
            }
        }
        let big_r = sum_points(&points);
        proof {
            to_multiset_len(points@.map_values(|q: [u8; 32]| q@));
        }
        Ok(FinalSignature { R: to_vec32(&big_r), s: to_vec32(&s) })
    }
}

/// The value of any suffix of an all-zero encoding is zero.
proof fn lemma_zero_value(s: Seq<u8>, k: nat)
    requires
        k <= s.len(),
        forall|j: int| 0 <= j < s.len() ==> s[j] == 0,
    ensures
        le_value(s.subrange(s.len() - k, s.len() as int)) == 0,
    decreases k,
{
    if k > 0 {
        let t = s.subrange(s.len() - k, s.len() as int);
        lemma_zero_value(s, (k - 1) as nat);
        assert(t.drop_first() =~= s.subrange(s.len() - (k - 1), s.len() as int));
    }
}

} // verus!
