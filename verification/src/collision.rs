//! Per-tick collision resolution.
//!
//! Runs after the bounding-box recompute pass. The player falls on the first
//! obstacle overlap found; the chaser is stunned on an obstacle overlap once
//! its ignore-collisions grace has elapsed; and only when no obstacle fired
//! is the chaser-against-player capture considered, so an obstacle collision
//! always preempts a capture in the same tick.

use vstd::prelude::*;

verus! {

use crate::collidable::Collidable;

/// Some box of `obs` overlaps `c`.
pub open spec fn any_overlap(obs: Seq<Collidable>, c: Collidable) -> bool {
    exists|i: int| 0 <= i < obs.len() && (#[trigger] obs[i]).overlaps(c)
}

/// What the chaser collision pass decides for one tick.
#[derive(Clone, Copy, PartialEq, Eq, Structural, Debug)]
pub enum YetiCollision {
    StunYeti,
    CatchPlayer,
    NoCollision,
}

/// The decision of the chaser collision pass, as a function of the tick's
/// state: nothing while stunned or in grace; a stun on any obstacle overlap;
/// otherwise a capture on a player overlap.
pub open spec fn spec_yeti_outcome(
    yeti: Collidable,
    stunned: bool,
    grace_elapsed: bool,
    player: Option<Collidable>,
    obs: Seq<Collidable>,
) -> YetiCollision {
    if stunned || !grace_elapsed {
        YetiCollision::NoCollision
    } else if any_overlap(obs, yeti) {
        YetiCollision::StunYeti
    } else {
        match player {
            Some(p) => if p.overlaps(yeti) {
                YetiCollision::CatchPlayer
            } else {
                YetiCollision::NoCollision
            },
            None => YetiCollision::NoCollision,
        }
    }
}

/// Whether any of the boxes overlaps `c`, short-circuiting on the first hit.
fn overlaps_any(obstacles: &Vec<Collidable>, c: &Collidable) -> (r: bool)
    ensures
        r == any_overlap(obstacles@, *c),
{
    let mut i: usize = 0;
    while i < obstacles.len()
        invariant
            0 <= i <= obstacles.len(),
            forall|t: int| 0 <= t < i ==> !(#[trigger] obstacles@[t]).overlaps(*c),
        decreases obstacles.len() - i,
    {
        if obstacles[i].intersect(c) {
            return true;
        }
        i = i + 1;
    }
    false
}

/// Player-against-obstacle check: true exactly when some obstacle box
/// overlaps the player's box, in which case the player falls this tick.
pub fn process_collisions_player(player: &Collidable, obstacles: &Vec<Collidable>) -> (fell: bool)
    ensures
        fell == any_overlap(obstacles@, *player),
{
    overlaps_any(obstacles, player)
}

/// Chaser collision pass for one tick.
///
/// `stunned` and `grace_elapsed` are the chaser's state flags; a stunned
/// chaser, or one whose ignore-collisions grace is still running, collides
/// with nothing. The capture check runs only when no obstacle overlap fired.
pub fn process_collisions_yeti(
    yeti: &Collidable,
    stunned: bool,
    grace_elapsed: bool,
    player: Option<&Collidable>,
    obstacles: &Vec<Collidable>,
) -> (r: YetiCollision)
    ensures
        r == spec_yeti_outcome(
            *yeti,
            stunned,
            grace_elapsed,
            match player {
                Some(p) => Some(*p),
                None => None,
            },
            obstacles@,
        ),
{
    if stunned || !grace_elapsed {
        return YetiCollision::NoCollision;
    }
    if overlaps_any(obstacles, yeti) {
        return YetiCollision::StunYeti;
    }
    match player {
        Some(p) => {
            if p.intersect(yeti) {
                YetiCollision::CatchPlayer
            } else {
                YetiCollision::NoCollision
            }
        },
        None => YetiCollision::NoCollision,
    }
}

/// Collision priority: in a tick where the chaser overlaps an obstacle, the
/// capture outcome cannot fire, whatever the player's box is.
pub proof fn lemma_obstacle_preempts_capture(
    yeti: Collidable,
    stunned: bool,
    grace_elapsed: bool,
    player: Option<Collidable>,
    obs: Seq<Collidable>,
)
    requires
        any_overlap(obs, yeti),
    ensures
        spec_yeti_outcome(yeti, stunned, grace_elapsed, player, obs)
            != YetiCollision::CatchPlayer,
{
}

} // verus!
