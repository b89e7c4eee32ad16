//! Randomness, drawn through the `rand` crate. Nothing can be promised of a
//! random value beyond its range, and the library's contracts hold for every
//! draw.

use vstd::prelude::*;

verus! {

/// Relies on rand's `Rng::gen_range` over the half-open range `lo..hi`,
/// which yields a value within the range and panics only on an empty one,
/// which the precondition rules out.
#[verifier::external_body]
pub(crate) fn rand_range(lo: u64, hi: u64) -> (r: u64)
    requires
        lo < hi,
    ensures
        lo <= r < hi,
{
    rand::Rng::gen_range(&mut rand::thread_rng(), lo..hi)
}

} // verus!
