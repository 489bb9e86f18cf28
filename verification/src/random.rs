//! The random choices of the crate, made by the `rand` crate.

use rand::rngs::StdRng;
use rand::seq::SliceRandom;
use rand::Rng;
use vstd::prelude::*;

verus! {

/// `StdRng` of `rand`, the source of the random choices. Trusted: it is
/// handed on to `rand` as it is, and nothing is said of what it holds.
#[verifier::external_type_specification]
#[verifier::external_body]
pub struct ExStdRng(StdRng);

/// `Rng::gen_range` of `rand`, called with the closed range from `low` to
/// `high`. Trusted: the call panics on an empty range and otherwise returns
/// a value of the range.
#[verifier::external_body]
pub(crate) fn gen_range(rng: &mut StdRng, low: i64, high: i64) -> (value: i64)
    requires
        low <= high,
    ensures
        low <= value <= high,
{
    rng.gen_range(low..=high)
}

/// `SliceRandom::shuffle` of `rand`. Trusted: the call only swaps items of
/// the slice, so the same items are there afterwards, each as often as
/// before.
#[verifier::external_body]
pub(crate) fn shuffle(rng: &mut StdRng, values: &mut Vec<i64>)
    ensures
        final(values)@.to_multiset() == old(values)@.to_multiset(),
{
    values.shuffle(rng)
}

} // verus!
