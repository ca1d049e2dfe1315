use vstd::prelude::*;
use rand::rngs::SmallRng;
use rand::Rng;
use rand::SeedableRng;

verus! {

/// The generator of `rand` that the draws come from. Nothing is known of its
/// state.
#[verifier::external_type_specification]
#[verifier::external_body]
pub struct ExSmallRng(SmallRng);

/// Calls `SmallRng::from_entropy`, which seeds a fresh generator from the
/// operating system. Nothing is claimed of the generator; the call panics if
/// the system cannot give entropy.
#[verifier::external_body]
pub(crate) fn fresh_generator() -> (rng: SmallRng) {
    SmallRng::from_entropy()
}

/// Calls `Rng::gen_range` on the half-open range `low..high` of `i64`. The
/// call panics on an empty range, so `low < high` is required; what comes back
/// lies in the range, and nothing else is claimed of it.
#[verifier::external_body]
pub(crate) fn draw_i64(rng: &mut SmallRng, low: i64, high: i64) -> (r: i64)
    requires
        low < high,
    ensures
        low <= r < high,
{
    rng.gen_range(low..high)
}

/// Calls `Rng::gen_range` on the half-open range `0..count` of `usize`. The
/// call panics on an empty range, so `count > 0` is required; what comes back
/// is below `count`, and nothing else is claimed of it.
#[verifier::external_body]
pub(crate) fn draw_index(rng: &mut SmallRng, count: usize) -> (r: usize)
    requires
        count > 0,
    ensures
        r < count,
{
    rng.gen_range(0..count)
}

} // verus!
