use crate::point::{decoded_point, identity_encoding, point_sum_of, point_valid};
use crate::scalar::{decoded_scalar, group_order, le_value, scalar_valid};
use crate::signing::{
    combined_point, combined_scalar, partial_points, partial_scalars, partial_valid, partials_valid, signs, sum_of,
};
use crate::types::PartialSignature;
use vstd::arithmetic::div_mod::lemma_add_mod_noop;
use vstd::arithmetic::mul::lemma_mul_is_distributive_add;
use vstd::multiset::Multiset;
use vstd::prelude::*;
use vstd::seq_lib::{to_multiset_build, to_multiset_contains, to_multiset_len, to_multiset_remove};

verus! {

broadcast use vstd::multiset::group_multiset_axioms;

/// Where `b` is a permutation of `a`, finds in `b` the last element of `a`; what is left of
/// `b` is a permutation of what is left of `a`.
proof fn lemma_match_last<A>(a: Seq<A>, b: Seq<A>) -> (j: int)
    requires
        a.len() > 0,
        a.to_multiset() == b.to_multiset(),
    ensures
        0 <= j < b.len(),
        b[j] == a.last(),
        b.remove(j).to_multiset() == a.drop_last().to_multiset(),
{
    let x = a.last();
    let a2 = a.drop_last();
    assert(a2.push(x) =~= a);
    to_multiset_build(a2, x);
    to_multiset_contains(b, x);
    let j = choose|j: int| 0 <= j < b.len() && b[j] == x;
    to_multiset_remove(b, j);
    assert(a2.to_multiset().insert(x).remove(x) =~= a2.to_multiset());
    j
}

/// Mapping a function over two permutations of each other gives permutations of each other.
proof fn lemma_map_permutation<A, B>(a: Seq<A>, b: Seq<A>, f: spec_fn(A) -> B)
    requires
        a.to_multiset() == b.to_multiset(),
    ensures
        a.map_values(f).to_multiset() == b.map_values(f).to_multiset(),
    decreases a.len(),
{
    if a.len() == 0 {
        to_multiset_len(a);
        to_multiset_len(b);
        assert(a.map_values(f) =~= b.map_values(f));
    } else {
        let j = lemma_match_last(a, b);
        let a2 = a.drop_last();
        let b2 = b.remove(j);
        lemma_map_permutation(a2, b2, f);
        let fx = f(a.last());
        assert(a.map_values(f) =~= a2.map_values(f).push(fx));
        to_multiset_build(a2.map_values(f), fx);
        let bm = b.map_values(f);
        assert(bm.remove(j) =~= b2.map_values(f));
        to_multiset_remove(bm, j);
        to_multiset_contains(bm, fx);
        assert(bm.contains(fx)) by {
            assert(bm[j] == fx);
        }
        assert(bm.to_multiset().remove(fx).insert(fx) =~= bm.to_multiset());
    }
}

/// Removing one element from a sum leaves the sum of the rest.
proof fn lemma_sum_remove(xs: Seq<nat>, j: int)
    requires
        0 <= j < xs.len(),
    ensures
        sum_of(xs) == sum_of(xs.remove(j)) + xs[j],
    decreases xs.len(),
{
    if j == xs.len() - 1 {
        assert(xs.remove(j) =~= xs.drop_last());
    } else {
        lemma_sum_remove(xs.drop_last(), j);
        assert(xs.remove(j).drop_last() =~= xs.drop_last().remove(j));
    }
}

/// A sum does not depend on the order of its terms.
proof fn lemma_sum_permutation(a: Seq<nat>, b: Seq<nat>)
    requires
        a.to_multiset() == b.to_multiset(),
    ensures
        sum_of(a) == sum_of(b),
    decreases a.len(),
{
    if a.len() == 0 {
        to_multiset_len(a);
        to_multiset_len(b);
    } else {
        let j = lemma_match_last(a, b);
        lemma_sum_permutation(a.drop_last(), b.remove(j));
        lemma_sum_remove(b, j);
    }
}

/// Every element of a permutation of `a` is valid where every element of `a` is.
proof fn lemma_valid_permutation(a: Seq<PartialSignature>, b: Seq<PartialSignature>)
    requires
        a.to_multiset() == b.to_multiset(),
        partials_valid(a),
    ensures
        partials_valid(b),
{
    assert forall|i: int| 0 <= i < b.len() implies partial_valid(#[trigger] b[i]) by {
        to_multiset_contains(b, b[i]);
        to_multiset_contains(a, b[i]);
        assert(b.contains(b[i]));
    }
}

/// Combining partial signatures does not depend on their order: any permutation of them is
/// accepted or refused alike, and gives the same `R` and the same `s`.
pub proof fn lemma_combine_order_independent(ps: Seq<PartialSignature>, qs: Seq<PartialSignature>)
    requires
        ps.to_multiset() == qs.to_multiset(),
    ensures
        partials_valid(ps) == partials_valid(qs),
        combined_scalar(ps) == combined_scalar(qs),
        combined_point(ps) == combined_point(qs),
{
    if partials_valid(ps) {
        lemma_valid_permutation(ps, qs);
    }
    if partials_valid(qs) {
        lemma_valid_permutation(qs, ps);
    }
    let fs = |p: PartialSignature| le_value(p.s_i@);
    assert(partial_scalars(ps) =~= ps.map_values(fs));
    assert(partial_scalars(qs) =~= qs.map_values(fs));
    lemma_map_permutation(ps, qs, fs);
    lemma_sum_permutation(partial_scalars(ps), partial_scalars(qs));
    let fp = |p: PartialSignature| p.R_i@;
    assert(partial_points(ps) =~= ps.map_values(fp));
    assert(partial_points(qs) =~= qs.map_values(fp));
    lemma_map_permutation(ps, qs, fp);
}

/// Combining no partial signatures succeeds with `R` the identity point and `s` zero.
pub proof fn lemma_combine_empty()
    ensures
        partials_valid(Seq::<PartialSignature>::empty()),
        combined_scalar(Seq::<PartialSignature>::empty()) == 0,
        combined_point(Seq::<PartialSignature>::empty()) == identity_encoding(),
{
    to_multiset_len(partial_points(Seq::<PartialSignature>::empty()));
}

/// Combining two partial signatures made for the same challenge gives `s = s1 + s2` modulo
/// the group order, which is `(r1 + r2) + c * (x1 + x2)`, and `R = R1 + R2`.
pub proof fn lemma_combine_additive(
    x1: Seq<u8>,
    r1: Seq<u8>,
    big_r1: Seq<u8>,
    x2: Seq<u8>,
    r2: Seq<u8>,
    big_r2: Seq<u8>,
    c: Seq<u8>,
    sig1: PartialSignature,
    sig2: PartialSignature,
)
    requires
        signs(x1, r1, big_r1, c, sig1),
        signs(x2, r2, big_r2, c, sig2),
        point_valid(big_r1),
        point_valid(big_r2),
    ensures
        partials_valid(seq![sig1, sig2]),
        combined_scalar(seq![sig1, sig2]) == (le_value(sig1.s_i@) + le_value(sig2.s_i@)) % group_order(),
        combined_scalar(seq![sig1, sig2]) == (le_value(r1) + le_value(r2) + le_value(c) * (le_value(x1)
            + le_value(x2))) % group_order(),
        combined_point(seq![sig1, sig2]) == point_sum_of(Multiset::empty().insert(big_r1).insert(big_r2)),
{
    let ps = seq![sig1, sig2];
    let l = group_order();
    let a = le_value(r1) + le_value(c) * le_value(x1);
    let b = le_value(r2) + le_value(c) * le_value(x2);
    lemma_mul_is_distributive_add(le_value(c) as int, le_value(x1) as int, le_value(x2) as int);
    lemma_add_mod_noop(a as int, b as int, l as int);
    let s1 = le_value(sig1.s_i@);
    let s2 = le_value(sig2.s_i@);
    assert(partial_scalars(ps).drop_last() =~= seq![s1]);
    assert(seq![s1].drop_last() =~= Seq::<nat>::empty());
    assert(sum_of(Seq::<nat>::empty()) == 0);
    assert(seq![s1].last() == s1);
    assert(sum_of(seq![s1]) == s1);
    assert(sum_of(partial_scalars(ps)) == s1 + s2);
    assert(partials_valid(ps)) by {
        assert forall|i: int| 0 <= i < ps.len() implies partial_valid(#[trigger] ps[i]) by {
            if i == 0 {
                assert(ps[i] == sig1);
            } else {
                assert(ps[i] == sig2);
            }
        }
    }
    let pts = partial_points(ps);
    assert(pts =~= seq![big_r1].push(big_r2));
    assert(seq![big_r1] =~= Seq::<Seq<u8>>::empty().push(big_r1));
    to_multiset_build(Seq::<Seq<u8>>::empty(), big_r1);
    to_multiset_build(seq![big_r1], big_r2);
    assert(Seq::<Seq<u8>>::empty().to_multiset() =~= Multiset::empty()) by {
        assert forall|v: Seq<u8>| #[trigger] Seq::<Seq<u8>>::empty().to_multiset().count(v) == 0 by {
            to_multiset_contains(Seq::<Seq<u8>>::empty(), v);
        }
    }
    to_multiset_len(pts);
}

/// Decoding a canonical scalar and encoding it again gives back the same bytes.
pub proof fn lemma_scalar_round_trip(x: Seq<u8>)
    requires
        scalar_valid(x),
    ensures
        decoded_scalar(x) == Some(x),
{
}

/// Decoding a valid compressed point and encoding it again gives back the same bytes.
pub proof fn lemma_point_round_trip(x: Seq<u8>)
    requires
        point_valid(x),
    ensures
        decoded_point(x) == Some(x),
{
}

/// An input of any length but 32 decodes neither as a scalar nor as a point.
pub proof fn lemma_wrong_length_rejected(b: Seq<u8>)
    requires
        b.len() != 32,
    ensures
        decoded_scalar(b) is None,
        decoded_point(b) is None,
{
}

/// An encoding whose value is the group order or above is refused, not reduced.
pub proof fn lemma_non_canonical_rejected(b: Seq<u8>)
    requires
        le_value(b) >= group_order(),
    ensures
        decoded_scalar(b) is None,
{
}

} // verus!
