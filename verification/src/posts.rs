//! Scoring posts: the alternating spawner chain and hit detection.
//!
//! Post pairs are spawned one ahead of the camera in an alternating
//! left/right, blue/red chain. The player scores on passing between the
//! front pair at its height, and is penalised once the front pair has
//! scrolled past unvisited.

use vstd::prelude::*;

verus! {

use crate::rng::rand_range;
use crate::player::{Score, SCORE_LIMIT_MILS, GATE_POINTS_MILS};

/// Smallest horizontal gap between consecutive post pairs.
pub const GAP_X_MIN: i64 = 120;

/// Largest (exclusive) horizontal gap between consecutive post pairs.
pub const GAP_X_MAX: i64 = 288;

/// Smallest vertical gap between consecutive post pairs.
pub const GAP_Y_MIN: i64 = 192;

/// Largest (exclusive) vertical gap between consecutive post pairs.
pub const GAP_Y_MAX: i64 = 240;

/// Distance between the two posts of one pair.
pub const POST_DISTANCE: i64 = 168;

/// How far below the start the first pair of posts stands.
pub const FIRST_POST_DISTANCE: i64 = 336;

/// Vertical tolerance above a pair's height within which it counts as hit.
pub const HIT_WINDOW: i64 = 10;

/// Post positions stay within this range.
pub const GATE_LIMIT: i64 = 1_000_000_000_000;

/// The alternating colours of the posts.
#[derive(Clone, Copy, PartialEq, Eq, Structural, Debug)]
pub enum PostColor {
    Blue,
    Red,
}

/// The walking state of the post chain: the last pair placed.
#[derive(Clone, Copy, PartialEq, Eq, Structural, Debug)]
pub struct PostsSpawner {
    pub x: i64,
    pub y: i64,
    pub color: PostColor,
}

/// One placed pair of posts, kept in the order of play: the two post
/// positions and the shared height.
#[derive(Clone, Copy, PartialEq, Eq, Structural, Debug)]
pub struct PostsData {
    pub x_left: i64,
    pub x_right: i64,
    pub y: i64,
}

impl PostsSpawner {
    /// The chain as it stands when a round begins.
    pub fn new() -> (s: PostsSpawner)
        ensures
            s.x == 0,
            s.y == 0,
            s.color == PostColor::Blue,
    {
        PostsSpawner { x: 0, y: 0, color: PostColor::Blue }
    }

    /// Walk the chain one pair further and return its colour and position.
    ///
    /// The first step drops straight down by the fixed first distance.
    /// Every later step flips the colour, swings sideways by a random gap
    /// (blue-to-red to the right, red-to-blue to the left) and descends by
    /// a random vertical gap.
    pub fn next(&mut self) -> (gate: (PostColor, i64, i64))
        requires
            -GATE_LIMIT <= old(self).x <= GATE_LIMIT,
            -GATE_LIMIT <= old(self).y <= GATE_LIMIT,
        ensures
            old(self).y == 0 ==> *final(self) == (PostsSpawner {
                x: old(self).x,
                y: (-FIRST_POST_DISTANCE) as i64,
                color: old(self).color,
            }),
            old(self).y != 0 ==> {
                &&& final(self).color == (match old(self).color {
                    PostColor::Blue => PostColor::Red,
                    PostColor::Red => PostColor::Blue,
                })
                &&& (old(self).color is Blue ==> old(self).x + GAP_X_MIN <= final(self).x < old(
                    self,
                ).x + GAP_X_MAX)
                &&& (old(self).color is Red ==> old(self).x - GAP_X_MAX < final(self).x <= old(
                    self,
                ).x - GAP_X_MIN)
                &&& old(self).y - GAP_Y_MAX < final(self).y <= old(self).y - GAP_Y_MIN
            },
            gate.0 == final(self).color,
            gate.1 == final(self).x,
            gate.2 == final(self).y,
    {
        if self.y == 0 {
            self.y = -FIRST_POST_DISTANCE;
            return (self.color, self.x, self.y);
        }
        let gap_x: i64 = rand_range(GAP_X_MIN, GAP_X_MAX);
        let gap_y: i64 = rand_range(GAP_Y_MIN, GAP_Y_MAX);
        match self.color {
            PostColor::Blue => {
                self.color = PostColor::Red;
                self.x = self.x + gap_x;
            },
            PostColor::Red => {
                self.color = PostColor::Blue;
                self.x = self.x - gap_x;
            },
        }
        self.y = self.y - gap_y;
        (self.color, self.x, self.y)
    }
}

/// Spawn the next pair of posts once the chain's front is within a
/// viewport of the camera; otherwise the tick does nothing.
pub fn spawn_posts(
    spawner: &mut PostsSpawner,
    posts: &mut Vec<PostsData>,
    camera_y: i64,
    window_height: i64,
) -> (placed: Option<(PostColor, i64, i64)>)
    requires
        -GATE_LIMIT <= old(spawner).x <= GATE_LIMIT,
        -GATE_LIMIT <= old(spawner).y <= GATE_LIMIT,
        -GATE_LIMIT <= camera_y <= GATE_LIMIT,
        0 < window_height <= GATE_LIMIT,
    ensures
        ({
            let far = old(spawner).y - camera_y > window_height || camera_y - old(spawner).y
                > window_height;
            if far {
                &&& placed is None
                &&& *final(spawner) == *old(spawner)
                &&& final(posts)@ == old(posts)@
            } else {
                &&& placed matches Some(gate) && gate.0 == final(spawner).color
                    && gate.1 == final(spawner).x && gate.2 == final(spawner).y
                &&& final(posts)@ == old(posts)@.push(
                    PostsData {
                        x_left: (final(spawner).x - POST_DISTANCE / 2) as i64,
                        x_right: (final(spawner).x + POST_DISTANCE / 2) as i64,
                        y: final(spawner).y,
                    },
                )
            }
        }),
{
    let diff: i64 = spawner.y - camera_y;
    if diff > window_height || -diff > window_height {
        return None;
    }
    let (color, x, y) = spawner.next();
    posts.push(PostsData { x_left: x - POST_DISTANCE / 2, x_right: x + POST_DISTANCE / 2, y });
    Some((color, x, y))
}

/// The player passes through the pair `p` this tick: at its height,
/// within the tolerance window, and between the two posts.
pub open spec fn gate_hit(p: PostsData, px: int, py: int) -> bool {
    p.y + HIT_WINDOW >= py && p.y <= py && p.x_left <= px && p.x_right >= px
}

/// The pair `p` has scrolled past the player unvisited.
pub open spec fn gate_missed(p: PostsData, py: int) -> bool {
    p.y - 2 > py
}

/// The post queue and score change of one detection tick: the front pair
/// is consumed with a bonus when hit, and then a front pair already passed
/// is consumed with a penalty.
pub open spec fn spec_posts_step(q: Seq<PostsData>, px: int, py: int) -> (Seq<PostsData>, int, bool) {
    let hit = q.len() > 0 && gate_hit(q[0], px, py);
    let q1 = if hit {
        q.drop_first()
    } else {
        q
    };
    let delta = if hit {
        GATE_POINTS_MILS as int
    } else {
        0
    };
    if q1.len() > 0 && gate_missed(q1[0], py) {
        (q1.drop_first(), delta - GATE_POINTS_MILS, hit)
    } else {
        (q1, delta, hit)
    }
}

/// Detect a passed or missed pair of posts for this tick, updating the
/// queue and the score; returns whether the bonus fired.
pub fn detect_posts_hit(
    posts: &mut Vec<PostsData>,
    player_x: i64,
    player_y: i64,
    score: &mut Score,
) -> (hit: bool)
    requires
        -SCORE_LIMIT_MILS + GATE_POINTS_MILS <= old(score).value <= SCORE_LIMIT_MILS
            - GATE_POINTS_MILS,
        forall|i: int|
            0 <= i < old(posts)@.len() ==> -GATE_LIMIT < (#[trigger] old(posts)@[i]).y
                < GATE_LIMIT,
    ensures
        final(posts)@ == spec_posts_step(old(posts)@, player_x as int, player_y as int).0,
        final(score).value == old(score).value + spec_posts_step(
            old(posts)@,
            player_x as int,
            player_y as int,
        ).1,
        hit == spec_posts_step(old(posts)@, player_x as int, player_y as int).2,
{
    let mut hit: bool = false;
    if posts.len() > 0 {
        let front = posts[0];
        if front.y + HIT_WINDOW >= player_y && front.y <= player_y && front.x_left <= player_x
            && front.x_right >= player_x {
            score.increase();
            posts.remove(0);
            hit = true;
            proof {
                assert(posts@ =~= old(posts)@.drop_first());
            }
        }
    }
    if posts.len() > 0 {
        let front = posts[0];
        let ghost q1 = posts@;
        if front.y - 2 > player_y {
            score.decrease();
            posts.remove(0);
            proof {
                assert(posts@ =~= q1.drop_first());
            }
        }
    }
    hit
}

} // verus!
