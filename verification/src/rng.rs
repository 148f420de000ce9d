//! Randomness, injected as an explicit `rand::rngs::StdRng` handle.
//!
//! Every randomized operation of the engine draws through one of the small
//! wrappers below; their contracts state only what holds of every possible
//! outcome, so the code around them is verified for every draw.

use vstd::prelude::*;

use crate::statistics::sum_u64;
use rand::distributions::Distribution;
use rand::Rng;

verus! {

#[verifier::external_type_specification]
#[verifier::external_body]
pub struct ExStdRng(rand::rngs::StdRng);

/// Relies on rand's `Rng::gen_range` over an inclusive `i64` range: the
/// result lies within the bounds; it panics only on an empty range, which the
/// precondition excludes.
#[verifier::external_body]
pub(crate) fn rng_range(rng: &mut rand::rngs::StdRng, lo: i64, hi: i64) -> (r: i64)
    requires
        lo <= hi,
    ensures
        lo <= r <= hi,
{
    rng.gen_range(lo..=hi)
}

/// Relies on rand's `Rng::gen` for `bool` (the standard distribution): a fair
/// coin flip. Nothing is promised of the outcome.
#[verifier::external_body]
pub(crate) fn rng_coin(rng: &mut rand::rngs::StdRng) -> (r: bool) {
    rng.gen::<bool>()
}

/// Relies on rand's `WeightedIndex` over `u64` weights: construction fails
/// exactly when the list is empty or the total weight is zero (a `u64` weight
/// is never negative), and sampling returns an in-bounds index whose weight is
/// positive, with probability proportional to that weight. The precondition
/// keeps the total from overflowing inside `WeightedIndex::new`.
#[verifier::external_body]
pub(crate) fn rng_weighted(rng: &mut rand::rngs::StdRng, weights: &Vec<u64>) -> (r: Option<
    usize,
>)
    requires
        sum_u64(weights@) <= u64::MAX,
    ensures
        r is Some <==> (weights@.len() > 0 && sum_u64(weights@) > 0),
        r matches Some(i) ==> i < weights@.len() && weights@[i as int] > 0,
{
    match rand::distributions::WeightedIndex::new(weights.iter().copied()) {
        Ok(dist) => Some(dist.sample(rng)),
        Err(_) => None,
    }
}

} // verus!
