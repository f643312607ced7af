use rand::Rng;
use vstd::prelude::*;

verus! {

/// Relies on rand's `Rng::gen_range` over the thread-local generator: on a
/// non-empty half-open integer range it returns a value inside the range (and
/// panics on an empty one, which `requires` rules out).
#[verifier::external_body]
pub(crate) fn draw_between(low: i64, high: i64) -> (r: i64)
    requires
        low < high,
    ensures
        low <= r < high,
{
    rand::thread_rng().gen_range(low..high)
}

} // verus!
