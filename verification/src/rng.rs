//! The two points where the simulation draws randomness: drop counts and
//! scatter offsets. Only the range of each draw is assumed; everything
//! computed from a draw takes it as an ordinary argument and is verified
//! for every value in the range.

use rand::RngExt;
use vstd::prelude::*;

verus! {

/// Relies on rand's `random_range` over the inclusive range `min..=max`:
/// the sampled value lies within the range, and the call panics only on an
/// empty range, which `min <= max` rules out.
#[verifier::external_body]
pub(crate) fn roll_between(min: u32, max: u32) -> (r: u32)
    requires
        min <= max,
    ensures
        min <= r <= max,
{
    let mut rng = rand::rng();
    rng.random_range(min..=max)
}

/// Relies on rand's `random_range` over the half-open range
/// `-radius..radius`: the sampled coordinate lies within that range (the
/// lower edge included, the upper excluded), and `radius >= 1` keeps the
/// range non-empty.
#[verifier::external_body]
pub(crate) fn scatter_offset(radius: i64) -> (r: i64)
    requires
        radius >= 1,
    ensures
        -radius <= r < radius,
{
    let mut rng = rand::rng();
    rng.random_range(-radius..radius)
}

} // verus!
