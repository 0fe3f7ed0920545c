//! Drawing random numbers.
use vstd::prelude::*;
use rand::Rng;

verus! {

/// Relies on rand's `Rng::random_range` over the thread-local generator
/// (`rand::rng()`): a value of the inclusive range `low..=high`, which panics
/// when the range is empty.
#[verifier::external_body]
pub(crate) fn random_in(low: usize, high: usize) -> (r: usize)
    requires
        low <= high,
    ensures
        low <= r <= high,
{
    rand::rng().random_range(low..=high)
}

} // verus!
