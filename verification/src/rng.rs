//! The randomness source: the only trusted boundary of the engine.
//!
//! Apple relocation needs uniformly distributed coordinates; everything done
//! with a sample is verified for every value the contract here admits.

use vstd::prelude::*;
use rand::Rng;

verus! {

#[verifier::external_type_specification]
#[verifier::external_body]
pub struct ExThreadRng(rand::rngs::ThreadRng);

/// Relies on rand's `Rng::gen_range` over a half-open `u16` range: the sample
/// lies in `[lo, hi)`. An empty range would panic, so one is ruled out here.
#[verifier::external_body]
pub(crate) fn rand_range_u16(rng: &mut rand::rngs::ThreadRng, lo: u16, hi: u16) -> (r: u16)
    requires
        lo < hi,
    ensures
        lo <= r < hi,
{
    rng.gen_range(lo..hi)
}

} // verus!
