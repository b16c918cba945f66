//! The player's score and the shared movement integration pass.
//!
//! Score keeps time in milliseconds and post bonuses in the same scale, so
//! ten points are ten thousand thousandths. Movement integrates each
//! movable's velocity into its position once per tick, before the bounding
//! boxes are recomputed.

use vstd::prelude::*;

verus! {

use crate::geom::Vec2i;
use crate::num::{tdiv, div_trunc_i64, lemma_mul_bound};
use crate::timer::{TickTimer, DURATION_LIMIT_MS};
use crate::yeti::SPEED_LIMIT;

/// Points gained or lost at a pair of posts, in thousandths.
pub const GATE_POINTS_MILS: i64 = 10_000;

/// Scores stay within this range, in thousandths.
pub const SCORE_LIMIT_MILS: i64 = 1_000_000_000_000;

/// Positions of movables stay within this range between clamps.
pub const WORLD_LIMIT: i64 = 1_000_000_000_000_000;

/// Longest tick handed to the movement integration, in milliseconds.
pub const TICK_LIMIT_MS: i64 = 10_000;

/// How long the fall recovery lasts, in milliseconds.
pub const FALL_TIMEOUT_MS: u64 = 300;

/// A desired displacement per second, in world units.
#[derive(Clone, Copy, PartialEq, Eq, Structural, Debug)]
pub struct Velocity(pub Vec2i);

/// The player's short fall recovery: while its countdown runs the player
/// is down; when it runs out the player stands up again at zero speed.
#[derive(Clone, Copy, PartialEq, Eq, Structural, Debug)]
pub struct Slowdown(pub TickTimer);

impl Slowdown {
    /// A fresh recovery countdown, started on the fall.
    pub fn new() -> (s: Slowdown)
        ensures
            s.0.duration_ms == FALL_TIMEOUT_MS,
            s.0.elapsed_ms == 0,
            !s.0.repeating,
            s.0.wf(),
    {
        Slowdown(TickTimer::new(FALL_TIMEOUT_MS, false))
    }
}

/// Advance the fall recovery by one tick; true exactly when it has run
/// out, at which point the caller removes it and zeroes the player's speed.
pub fn update_slowdown(slowdown: &mut Slowdown, delta_ms: u64) -> (finished: bool)
    requires
        old(slowdown).0.wf(),
        delta_ms <= DURATION_LIMIT_MS,
    ensures
        final(slowdown).0 == old(slowdown).0.spec_after_tick(delta_ms),
        finished == final(slowdown).0.spec_finished(),
{
    slowdown.0.tick(delta_ms);
    slowdown.0.finished()
}

/// The player's running score, in thousandths of a point.
#[derive(Clone, Copy, PartialEq, Eq, Structural, Debug)]
pub struct Score {
    pub value: i64,
}

impl Score {
    /// A zero score.
    pub fn new() -> (s: Score)
        ensures
            s.value == 0,
    {
        Score { value: 0 }
    }

    /// Award the bonus for passing between a pair of posts.
    pub fn increase(&mut self)
        requires
            -SCORE_LIMIT_MILS <= old(self).value <= SCORE_LIMIT_MILS,
        ensures
            final(self).value == old(self).value + GATE_POINTS_MILS,
    {
        self.value = self.value + GATE_POINTS_MILS;
    }

    /// Take the penalty for a missed pair of posts.
    pub fn decrease(&mut self)
        requires
            -SCORE_LIMIT_MILS <= old(self).value <= SCORE_LIMIT_MILS,
        ensures
            final(self).value == old(self).value - GATE_POINTS_MILS,
    {
        self.value = self.value - GATE_POINTS_MILS;
    }

    /// Let the clock add elapsed play time to the score.
    pub fn add_time(&mut self, delta_ms: u64)
        requires
            -SCORE_LIMIT_MILS <= old(self).value <= SCORE_LIMIT_MILS,
            delta_ms <= TICK_LIMIT_MS,
        ensures
            final(self).value == old(self).value + delta_ms,
    {
        self.value = self.value + (delta_ms as i64);
    }
}

/// Integrate one tick of movement: each position advances by its velocity
/// scaled to the tick length, with truncating division by the millisecond
/// scale.
pub fn update_movables(positions: &mut Vec<Vec2i>, velocities: &Vec<Vec2i>, delta_ms: u64)
    requires
        old(positions)@.len() == velocities@.len(),
        delta_ms <= TICK_LIMIT_MS,
        forall|i: int|
            0 <= i < old(positions)@.len() ==> -WORLD_LIMIT <= (#[trigger] old(
                positions,
            )@[i]).x <= WORLD_LIMIT && -WORLD_LIMIT <= old(positions)@[i].y <= WORLD_LIMIT,
        forall|i: int|
            0 <= i < velocities@.len() ==> -SPEED_LIMIT <= (#[trigger] velocities@[i]).x
                <= SPEED_LIMIT && -SPEED_LIMIT <= velocities@[i].y <= SPEED_LIMIT,
    ensures
        final(positions)@.len() == old(positions)@.len(),
        forall|i: int|
            0 <= i < old(positions)@.len() ==> #[trigger] final(positions)@[i] == (Vec2i {
                x: (old(positions)@[i].x + tdiv(velocities@[i].x * delta_ms, 1000)) as i64,
                y: (old(positions)@[i].y + tdiv(velocities@[i].y * delta_ms, 1000)) as i64,
            }),
{
    let mut i: usize = 0;
    while i < positions.len()
        invariant
            0 <= i <= positions@.len(),
            positions@.len() == old(positions)@.len(),
            velocities@.len() == old(positions)@.len(),
            delta_ms <= TICK_LIMIT_MS,
            forall|t: int|
                0 <= t < old(positions)@.len() ==> -WORLD_LIMIT <= (#[trigger] old(
                    positions,
                )@[t]).x <= WORLD_LIMIT && -WORLD_LIMIT <= old(positions)@[t].y <= WORLD_LIMIT,
            forall|t: int|
                0 <= t < velocities@.len() ==> -SPEED_LIMIT <= (#[trigger] velocities@[t]).x
                    <= SPEED_LIMIT && -SPEED_LIMIT <= velocities@[t].y <= SPEED_LIMIT,
            forall|t: int|
                i <= t < old(positions)@.len() ==> #[trigger] positions@[t] == old(
                    positions,
                )@[t],
            forall|t: int|
                0 <= t < i ==> #[trigger] positions@[t] == (Vec2i {
                    x: (old(positions)@[t].x + tdiv(velocities@[t].x * delta_ms, 1000)) as i64,
                    y: (old(positions)@[t].y + tdiv(velocities@[t].y * delta_ms, 1000)) as i64,
                }),
        decreases positions@.len() - i,
    {
        proof {
            lemma_mul_bound(
                velocities@[i as int].x as int,
                delta_ms as int,
                SPEED_LIMIT as int,
                TICK_LIMIT_MS as int,
            );
            lemma_mul_bound(
                velocities@[i as int].y as int,
                delta_ms as int,
                SPEED_LIMIT as int,
                TICK_LIMIT_MS as int,
            );
            crate::num::lemma_tdiv_bound(
                velocities@[i as int].x as int * delta_ms as int,
                1000,
                1_000_000_000,
            );
            crate::num::lemma_tdiv_bound(
                velocities@[i as int].y as int * delta_ms as int,
                1000,
                1_000_000_000,
            );
        }
        let sx: i64 = div_trunc_i64(velocities[i].x * (delta_ms as i64), 1000);
        let sy: i64 = div_trunc_i64(velocities[i].y * (delta_ms as i64), 1000);
        let moved = Vec2i { x: positions[i].x + sx, y: positions[i].y + sy };
        positions[i] = moved;
        i = i + 1;
    }
}

} // verus!
