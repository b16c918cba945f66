//! The stun state shared by player and chaser.
//!
//! A stun is a one-shot countdown; while it runs the stunned entity takes
//! no part in steering or collision checks. When it runs out the entity
//! wakes, and the caller removes the stun and restarts whatever grace the
//! entity carries.

use vstd::prelude::*;

verus! {

use crate::timer::{TickTimer, DURATION_LIMIT_MS};

/// A running stun: the countdown until the entity wakes.
#[derive(Clone, Copy, PartialEq, Eq, Structural, Debug)]
pub struct Stun(pub TickTimer);

impl Stun {
    /// A fresh stun for the given time, in milliseconds.
    pub fn new(duration_ms: u64) -> (s: Stun)
        requires
            duration_ms <= DURATION_LIMIT_MS,
        ensures
            s.0.duration_ms == duration_ms,
            s.0.elapsed_ms == 0,
            !s.0.repeating,
            s.0.wf(),
    {
        Stun(TickTimer::new(duration_ms, false))
    }
}

/// Advance a stun by one tick; true exactly when it has run out and the
/// entity wakes this tick or has already woken.
pub fn update_stun(stun: &mut Stun, delta_ms: u64) -> (expired: bool)
    requires
        old(stun).0.wf(),
        delta_ms <= DURATION_LIMIT_MS,
    ensures
        final(stun).0 == old(stun).0.spec_after_tick(delta_ms),
        expired == final(stun).0.spec_finished(),
{
    stun.0.tick(delta_ms);
    stun.0.finished()
}

} // verus!
