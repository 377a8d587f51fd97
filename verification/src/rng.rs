//! The randomness source: a seedable generator passed explicitly into every
//! operation that consumes randomness, so that runs are reproducible.

use vstd::prelude::*;
use rand::Rng;

verus! {

#[verifier::external_type_specification]
#[verifier::external_body]
pub struct ExStdRng(rand::rngs::StdRng);

/// Relies on `rand::Rng::gen_range` over the inclusive range `lo..=hi`: the
/// drawn value lies between the bounds. `gen_range` panics on an empty
/// range, which the precondition rules out; nothing more is assumed of the
/// outcome, so callers hold for every value the generator may produce.
#[verifier::external_body]
pub(crate) fn gen_range_i64(rng: &mut rand::rngs::StdRng, lo: i64, hi: i64) -> (r: i64)
    requires
        lo <= hi,
    ensures
        lo <= r <= hi,
{
    rng.gen_range(lo..=hi)
}

} // verus!
