//! The one gateway to the process-local random number generator.
//!
//! Obstacle placement draws chance, type and jitter from here. Nothing is
//! assumed of a draw beyond its range, so every function built on top is
//! verified for every value the generator can hand back.

use vstd::prelude::*;

verus! {

/// Relies on `rand::Rng::gen_range` over a thread-local generator: for a
/// non-empty integer range `lo..hi` it returns a uniformly drawn value of
/// that half-open range, and panics only on an empty range, which the
/// precondition rules out.
#[verifier::external_body]
pub(crate) fn rand_range(lo: i64, hi: i64) -> (r: i64)
    requires
        lo < hi,
    ensures
        lo <= r < hi,
{
    rand::Rng::gen_range(&mut rand::thread_rng(), lo..hi)
}

} // verus!
