//! The order of a ranking: best first.
//!
//! A score is a single-precision floating-point number, which this
//! library does not hold. What it holds and orders is the rank key of
//! each score: an integer, made from the bits of the score, that is the
//! smaller the higher the score is.
use vstd::prelude::*;

verus! {

/// Whether the single-precision number with the bits `bits` has its sign
/// bit set.
pub open spec fn is_negative(bits: u32) -> bool {
    bits >= 0x8000_0000
}

/// The bits of a single-precision number without its sign bit. Of two
/// numbers of one sign, the one with the larger magnitude is further from
/// zero.
pub open spec fn magnitude(bits: u32) -> nat {
    (bits % 0x8000_0000) as nat
}

/// Whether the number with the bits `a` is higher than the number with
/// the bits `b`, for two single-precision numbers that are numbers. Of
/// the two zeros, the one without a sign counts as the higher.
pub open spec fn is_higher(a: u32, b: u32) -> bool {
    if is_negative(a) {
        is_negative(b) && magnitude(a) < magnitude(b)
    } else if is_negative(b) {
        true
    } else {
        magnitude(a) > magnitude(b)
    }
}

/// The rank key of the score with the bits `bits`: the higher the score,
/// the smaller the key.
pub open spec fn rank_key_of(bits: u32) -> u32 {
    if is_negative(bits) {
        (0x8000_0000 + magnitude(bits)) as u32
    } else {
        (0x7FFF_FFFF - magnitude(bits)) as u32
    }
}

/// The bits of the score with the rank key `key`.
pub open spec fn score_bits_of(key: u32) -> u32 {
    if key <= 0x7FFF_FFFF {
        (0x7FFF_FFFF - key) as u32
    } else {
        key
    }
}

/// A higher score has a smaller rank key: ordering by rank key is
/// ordering by score, best first.
pub proof fn rank_key_orders(a: u32, b: u32)
    ensures
        is_higher(a, b) <==> rank_key_of(a) < rank_key_of(b),
        a == b <==> rank_key_of(a) == rank_key_of(b),
{
}

/// Every score is found again from its rank key, and every key is the
/// rank key of a score.
pub proof fn rank_key_is_kept(bits: u32, key: u32)
    ensures
        score_bits_of(rank_key_of(bits)) == bits,
        rank_key_of(score_bits_of(key)) == key,
{
}

/// The rank key of a score, from the bits of the score.
pub fn rank_key(bits: u32) -> (key: u32)
    ensures
        key == rank_key_of(bits),
{
    if bits >= 0x8000_0000 {
        bits
    } else {
        0x7FFF_FFFF - bits
    }
}

/// The bits of the score that has the rank key `key`.
pub fn score_bits(key: u32) -> (bits: u32)
    ensures
        bits == score_bits_of(key),
{
    if key <= 0x7FFF_FFFF {
        0x7FFF_FFFF - key
    } else {
        key
    }
}

/// Whether a ranking has its smallest key first and no key before a
/// smaller one.
pub open spec fn is_ranked(ranking: Seq<(Seq<char>, u32)>) -> bool {
    forall|i: int, j: int| 0 <= i <= j < ranking.len() ==> ranking[i].1 <= ranking[j].1
}

/// Trusted: `rayon`'s `par_sort_unstable_by_key` on a slice, with the key
/// of each pair as the key. Afterwards the slice holds the pairs that it
/// held before, each as often as before, in rising order of their keys.
/// Pairs of equal keys may have changed places.
#[verifier::external_body]
fn par_sort_by_key(ranking: &mut Vec<(String, u32)>)
    ensures
        final(ranking).deep_view().to_multiset() == old(ranking).deep_view().to_multiset(),
        is_ranked(final(ranking).deep_view()),
{
    rayon::slice::ParallelSliceMut::par_sort_unstable_by_key(ranking.as_mut_slice(), |rank| rank.1)
}

/// Puts a ranking in order: the pair with the smallest key first. Pairs
/// of equal keys come in no particular order.
pub fn rank(ranking: Vec<(String, u32)>) -> (ranked: Vec<(String, u32)>)
    ensures
        ranked.deep_view().to_multiset() == ranking.deep_view().to_multiset(),
        ranked@.len() == ranking@.len(),
        is_ranked(ranked.deep_view()),
{
    let mut ranked = ranking;
    par_sort_by_key(&mut ranked);
    proof {
        ranked.deep_view().to_multiset_ensures();
        ranking.deep_view().to_multiset_ensures();
    }
    ranked
}

} // verus!
