use vstd::prelude::*;
use rand::Rng;

verus! {

/// Calls `rand::Rng::random_range` on the thread's generator `rand::rng()`
/// with the half-open range `min..max`. The outside function panics on an
/// empty range, which `requires` leaves out, and returns a value of the
/// range; which one is left open.
#[verifier::external_body]
fn thread_random_range(min: u32, max: u32) -> (r: u32)
    requires
        min < max,
    ensures
        min <= r < max,
{
    let mut rng = rand::rng();
    rng.random_range(min..max)
}

/// A random number of the half-open range from `min` to `max`.
pub fn u_rand_range_ui(min: u32, max: u32) -> (r: u32)
    requires
        min < max,
    ensures
        min <= r < max,
{
    thread_random_range(min, max)
}

} // verus!
