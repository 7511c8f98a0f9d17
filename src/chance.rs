//! Random draws: the only source of chance in the simulation.
use vstd::prelude::*;

use rand::Rng;

verus! {

/// Relies on rand's `Rng::random_range` on the thread-local generator
/// (`rand::rng()`): for a non-empty half-open range it returns a value inside
/// it. It panics on an empty range, which `requires` excludes, and when the
/// operating system's random source cannot seed the generator.
#[verifier::external_body]
fn random_in(lo: u64, hi: u64) -> (r: u64)
    requires
        lo < hi,
    ensures
        lo <= r < hi,
{
    rand::rng().random_range(lo..hi)
}

/// A value drawn from `lo..hi`.
pub fn draw_in_range(lo: u64, hi: u64) -> (r: u64)
    requires
        lo < hi,
    ensures
        lo <= r < hi,
{
    random_in(lo, hi)
}

/// A value drawn from `0..n`.
pub fn draw_below(n: u64) -> (r: u64)
    requires
        n > 0,
    ensures
        r < n,
{
    random_in(0, n)
}

} // verus!
