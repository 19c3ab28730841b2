use rand::Rng;
use vstd::prelude::*;

verus! {

/// Number of equally likely outcomes of one roll.
pub const SIDES: u32 = 100;

/// Draws one roll from the calling thread's generator.
///
/// Calls `rand::thread_rng()` and `Rng::gen_range` on the half-open range
/// `0..100`. The range is never empty, so `gen_range` does not refuse it, and
/// all that is claimed of the result is that it lies in that range: nothing
/// is said of how the rolls are distributed, and two calls may differ. The
/// generator seeds itself from the operating system when a thread first
/// uses it, and fails with the thread if the system has no entropy to give.
#[verifier::external_body]
pub(crate) fn roll() -> (r: u32)
    ensures
        r < SIDES,
{
    rand::thread_rng().gen_range(0..100)
}

} // verus!
