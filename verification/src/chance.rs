use rand::Rng;
use vstd::prelude::*;

verus! {

/// Draws a number uniformly from `low..=high` with the thread-local
/// generator of `rand` (`rand::thread_rng().gen_range(low..=high)`).
///
/// Trusted: `gen_range` panics on an empty range, which `requires` rules
/// out, and otherwise returns a value inside the range. Which value comes
/// back is left open, since it rests on chance.
#[verifier::external_body]
pub(crate) fn random_in_range(low: i32, high: i32) -> (r: i32)
    requires
        low <= high,
    ensures
        low <= r <= high,
{
    rand::thread_rng().gen_range(low..=high)
}

} // verus!
