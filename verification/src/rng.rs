use vstd::prelude::*;

verus! {

/// Relies on `rand::rng` and `rand::Rng::random_range` over the half-open
/// range `lo..hi`: the sample always lies in the range (the call panics only
/// on an empty range, which the precondition rules out). Nothing beyond
/// membership is assumed of the drawn value.
#[verifier::external_body]
pub(crate) fn rand_i64(lo: i64, hi: i64) -> (r: i64)
    requires
        lo < hi,
    ensures
        lo <= r < hi,
{
    rand::Rng::random_range(&mut rand::rng(), lo..hi)
}

/// Relies on `rand::seq::SliceRandom::shuffle`: the slice afterwards is a
/// permutation of the slice before. Which permutation is left open.
#[verifier::external_body]
pub(crate) fn shuffle_vec<T>(v: &mut Vec<T>)
    ensures
        final(v)@.len() == old(v)@.len(),
        final(v)@.to_multiset() == old(v)@.to_multiset(),
{
    rand::seq::SliceRandom::shuffle(v.as_mut_slice(), &mut rand::rng());
}

} // verus!
