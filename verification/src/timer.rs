//! Countdown timers, advanced once per simulation tick.
//!
//! Time is measured in whole milliseconds. A one-shot timer saturates at its
//! duration once it finishes; a repeating timer wraps around and reports the
//! tick on which it crossed its duration.

use vstd::prelude::*;

verus! {

/// Longest representable duration or tick delta, in milliseconds.
pub const DURATION_LIMIT_MS: u64 = 1_000_000_000;

/// A millisecond countdown timer.
#[derive(Clone, Copy, PartialEq, Eq, Structural, Debug)]
pub struct TickTimer {
    pub duration_ms: u64,
    pub elapsed_ms: u64,
    pub repeating: bool,
}

impl TickTimer {
    /// Elapsed time never runs past the duration, and both stay bounded.
    pub open spec fn wf(self) -> bool {
        self.elapsed_ms <= self.duration_ms <= DURATION_LIMIT_MS
    }

    /// The timer has reached its duration.
    pub open spec fn spec_finished(self) -> bool {
        self.elapsed_ms >= self.duration_ms
    }

    /// The timer state after one tick of `delta_ms`: a one-shot timer
    /// saturates at its duration; a repeating timer wraps around.
    pub open spec fn spec_after_tick(self, delta_ms: u64) -> TickTimer {
        let total = self.elapsed_ms + delta_ms;
        if total < self.duration_ms {
            TickTimer { elapsed_ms: (total) as u64, ..self }
        } else if !self.repeating {
            TickTimer { elapsed_ms: self.duration_ms, ..self }
        } else if self.duration_ms == 0 {
            TickTimer { elapsed_ms: 0, ..self }
        } else {
            TickTimer { elapsed_ms: (total % (self.duration_ms as int)) as u64, ..self }
        }
    }

    /// A tick of `delta_ms` makes the timer cross its duration.
    pub open spec fn spec_crosses(self, delta_ms: u64) -> bool {
        self.elapsed_ms + delta_ms >= self.duration_ms && (self.repeating || !self.spec_finished())
    }

    /// A fresh, unelapsed timer.
    pub fn new(duration_ms: u64, repeating: bool) -> (t: TickTimer)
        requires
            duration_ms <= DURATION_LIMIT_MS,
        ensures
            t.duration_ms == duration_ms,
            t.elapsed_ms == 0,
            t.repeating == repeating,
            t.wf(),
    {
        TickTimer { duration_ms, elapsed_ms: 0, repeating }
    }

    /// Advance the timer by `delta_ms` and report whether it crossed its
    /// duration on this very tick.
    pub fn tick(&mut self, delta_ms: u64) -> (just_finished: bool)
        requires
            old(self).wf(),
            delta_ms <= DURATION_LIMIT_MS,
        ensures
            *final(self) == old(self).spec_after_tick(delta_ms),
            just_finished == old(self).spec_crosses(delta_ms),
            final(self).wf(),
    {
        let was_finished: bool = self.elapsed_ms >= self.duration_ms;
        let total: u64 = self.elapsed_ms + delta_ms;
        if total < self.duration_ms {
            self.elapsed_ms = total;
            false
        } else {
            if !self.repeating {
                self.elapsed_ms = self.duration_ms;
                !was_finished
            } else {
                if self.duration_ms == 0 {
                    self.elapsed_ms = 0;
                } else {
                    proof {
                        vstd::arithmetic::div_mod::lemma_mod_bound(
                            total as int,
                            self.duration_ms as int,
                        );
                    }
                    self.elapsed_ms = total % self.duration_ms;
                }
                true
            }
        }
    }

    /// Whether the timer has reached its duration.
    pub fn finished(&self) -> (r: bool)
        ensures
            r == self.spec_finished(),
    {
        self.elapsed_ms >= self.duration_ms
    }

    /// Start the countdown over.
    pub fn reset(&mut self)
        ensures
            final(self).elapsed_ms == 0,
            final(self).duration_ms == old(self).duration_ms,
            final(self).repeating == old(self).repeating,
            old(self).wf() ==> final(self).wf(),
    {
        self.elapsed_ms = 0;
    }

    /// Change the duration, capping the elapsed time at the new duration.
    pub fn set_duration(&mut self, duration_ms: u64)
        requires
            duration_ms <= DURATION_LIMIT_MS,
        ensures
            final(self).duration_ms == duration_ms,
            final(self).repeating == old(self).repeating,
            final(self).elapsed_ms == if old(self).elapsed_ms <= duration_ms {
                old(self).elapsed_ms as int
            } else {
                duration_ms as int
            },
            final(self).wf(),
    {
        self.duration_ms = duration_ms;
        if self.elapsed_ms > duration_ms {
            self.elapsed_ms = duration_ms;
        }
    }
}

} // verus!
