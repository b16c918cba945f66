//! Frame sequencing for sprite animations.
//!
//! A frame is an opaque handle into the sprite sheet. The sequence either
//! repeats, wrapping from its last frame to its first, or runs once and
//! walks off its end, after which no frame is current.

use vstd::prelude::*;

verus! {

use crate::timer::{TickTimer, DURATION_LIMIT_MS};

/// Time each animation frame stays up, in milliseconds.
pub const ANIMATION_FRAME_MS: u64 = 133;

/// A running animation: its frames, the index of the current one, and the
/// timer that paces the frame steps.
#[derive(Clone, PartialEq, Eq, Debug)]
pub struct Animation {
    pub timer: TickTimer,
    pub frames: Vec<u64>,
    pub act_frame_index: usize,
}

impl Animation {
    /// A fresh animation showing the first of `frames`.
    pub fn new(frames: Vec<u64>, repeating: bool) -> (a: Animation)
        ensures
            a.frames@ == frames@,
            a.act_frame_index == 0,
            a.timer.duration_ms == ANIMATION_FRAME_MS,
            a.timer.elapsed_ms == 0,
            a.timer.repeating == repeating,
            a.timer.wf(),
    {
        Animation { timer: TickTimer::new(ANIMATION_FRAME_MS, repeating), frames, act_frame_index: 0 }
    }

    /// Step to the next frame: a repeating animation wraps from its last
    /// frame to the first, a one-shot animation walks past its end.
    pub fn next_frame(&mut self)
        requires
            old(self).act_frame_index < usize::MAX,
        ensures
            final(self).frames@ == old(self).frames@,
            final(self).timer == old(self).timer,
            final(self).act_frame_index == if old(self).act_frame_index + 1 == old(
                self,
            ).frames@.len() && old(self).timer.repeating {
                0int
            } else {
                old(self).act_frame_index + 1
            },
    {
        if self.act_frame_index + 1 == self.frames.len() && self.timer.repeating {
            self.act_frame_index = 0;
        } else {
            self.act_frame_index = self.act_frame_index + 1;
        }
    }

    /// The current frame, or nothing when a one-shot animation has ended.
    pub fn get_frame(&self) -> (frame: Option<u64>)
        ensures
            self.act_frame_index < self.frames@.len() ==> frame == Some(
                self.frames@[self.act_frame_index as int],
            ),
            self.act_frame_index >= self.frames@.len() ==> frame is None,
    {
        if self.act_frame_index < self.frames.len() {
            Some(self.frames[self.act_frame_index])
        } else {
            None
        }
    }

    /// Replace the frame sequence and restart from its beginning.
    pub fn set_frames(&mut self, frames: Vec<u64>)
        ensures
            final(self).frames@ == frames@,
            final(self).act_frame_index == 0,
            final(self).timer.elapsed_ms == 0,
            final(self).timer.duration_ms == old(self).timer.duration_ms,
            final(self).timer.repeating == old(self).timer.repeating,
    {
        self.frames = frames;
        self.timer.reset();
        self.act_frame_index = 0;
    }

    /// Advance the pacing timer; step the frame on each full frame time.
    pub fn update(&mut self, delta_ms: u64) -> (stepped: bool)
        requires
            old(self).timer.wf(),
            delta_ms <= DURATION_LIMIT_MS,
            old(self).act_frame_index < usize::MAX,
        ensures
            final(self).frames@ == old(self).frames@,
            final(self).timer == old(self).timer.spec_after_tick(delta_ms),
            stepped == old(self).timer.spec_crosses(delta_ms),
            !stepped ==> final(self).act_frame_index == old(self).act_frame_index,
            stepped ==> final(self).act_frame_index == if old(self).act_frame_index + 1 == old(
                self,
            ).frames@.len() && old(self).timer.repeating {
                0int
            } else {
                old(self).act_frame_index + 1
            },
    {
        if self.timer.tick(delta_ms) {
            self.next_frame();
            true
        } else {
            false
        }
    }
}

} // verus!
