//! One-shot generation of a fixed-length run.
//!
//! Unlike the rolling region generator, this lays out a whole course at
//! once: a rectangular grid of randomly thinned, randomly displaced
//! obstacles, the alternating post chain down to just past the finish
//! line, and the finish line itself.

use vstd::prelude::*;

verus! {

use crate::collidable::Collidable;
use crate::obstacle::{Obstacle, ObstacleType, spec_box_for};
use crate::posts::{PostColor, PostsSpawner, GAP_Y_MIN};
use crate::rng::rand_range;

/// How far above the last grid row the finish line stands.
pub const FINISH_MARGIN: i64 = 100;

/// How far above the finish line the post chain may end.
pub const POSTS_PAST_FINISH: i64 = 300;

/// The shape of a one-shot course.
#[derive(Clone, Copy, PartialEq, Eq, Structural, Debug)]
pub struct LevelGeneratorSettings {
    /// Side of one grid cell.
    pub tile_size: i64,
    /// Largest random displacement of an obstacle within its cell.
    pub displacement: i64,
    /// World height of the first grid row.
    pub start_offset_y: i64,
    /// Grid columns (centered on zero).
    pub width: u32,
    /// Grid rows (downward from the start offset).
    pub height: u32,
    /// Chance for a cell to hold an obstacle, in thousandths.
    pub starting_difficulty_permille: i64,
}

impl LevelGeneratorSettings {
    /// Settings the generator accepts: a modest grid well inside the
    /// geometric working range, with a positive jitter smaller than a cell.
    pub open spec fn wf(self) -> bool {
        &&& 1 <= self.tile_size <= 5_000
        &&& 1 <= self.displacement <= self.tile_size
        &&& -100_000 <= self.start_offset_y <= 100_000
        &&& self.width <= 60
        &&& 1 <= self.height
        &&& self.height * self.tile_size <= 150_000
        &&& 0 <= self.starting_difficulty_permille <= 1000
    }
}

/// One post of the course's chain, with its scoring box.
#[derive(Clone, Copy, PartialEq, Eq, Structural, Debug)]
pub struct LevelPost {
    pub color: PostColor,
    pub x: i64,
    pub y: i64,
}

/// A generated course: its obstacles, its post chain, and the height of
/// its finish line.
#[derive(Clone, PartialEq, Eq, Debug)]
pub struct LevelLayout {
    pub obstacles: Vec<Obstacle>,
    pub posts: Vec<LevelPost>,
    pub finish_y: i64,
}

/// Height of the finish line for the given settings.
pub open spec fn spec_finish_y(s: LevelGeneratorSettings) -> int {
    -(s.height * s.tile_size) + s.start_offset_y + FINISH_MARGIN
}

/// An obstacle of the one-shot grid: one of the two kinds, carrying the
/// box of its kind at its own position, within the jittered grid bounds.
pub open spec fn grid_obstacle_ok(ob: Obstacle, s: LevelGeneratorSettings) -> bool {
    let half_cols = s.width as int / 2;
    &&& ob.collidable == spec_box_for(ob.kind, ob.x as int, ob.y as int)
    &&& ob.collidable.wf()
    &&& -(half_cols * s.tile_size) - s.displacement <= ob.x < half_cols * s.tile_size
        + s.displacement
    &&& s.start_offset_y - s.height * s.tile_size - s.displacement < ob.y < s.start_offset_y
        + s.displacement
}

/// Generate a whole course at once.
///
/// Every cell of the grid holds an obstacle with the configured chance,
/// displaced randomly within its cell. The post chain starts at the fixed
/// first pair and walks down until it has passed the finish margin; the
/// last pair is the first one below it.
#[verifier::rlimit(100)]
pub fn generate(settings: &LevelGeneratorSettings) -> (layout: LevelLayout)
    requires
        settings.wf(),
    ensures
        layout.finish_y == spec_finish_y(*settings),
        forall|i: int|
            0 <= i < layout.obstacles@.len() ==> grid_obstacle_ok(
                #[trigger] layout.obstacles@[i],
                *settings,
            ),
        layout.obstacles@.len() <= settings.height * (2 * (settings.width as int / 2)),
        settings.starting_difficulty_permille == 1000 ==> layout.obstacles@.len()
            == settings.height * (2 * (settings.width as int / 2)),
        layout.posts@.len() >= 1,
        layout.posts@[0] == (LevelPost { color: PostColor::Blue, x: 0i64, y: -336i64 }),
        layout.posts@[layout.posts@.len() - 1].y < spec_finish_y(*settings) + POSTS_PAST_FINISH,
        forall|i: int|
            0 <= i < layout.posts@.len() - 1 ==> (#[trigger] layout.posts@[i]).y
                >= spec_finish_y(*settings) + POSTS_PAST_FINISH,
        forall|i: int|
            0 <= i < layout.posts@.len() - 1 ==> (#[trigger] layout.posts@[i]).y
                > layout.posts@[i + 1].y,
        forall|i: int|
            0 <= i < layout.posts@.len() ==> -400_000 <= (#[trigger] layout.posts@[i]).x
                <= 400_000 && -400_000 <= layout.posts@[i].y <= 400_000,
{
    let tile: i64 = settings.tile_size;
    let disp: i64 = settings.displacement;
    let half_cols: i64 = (settings.width / 2) as i64;
    let rows: i64 = settings.height as i64;
    let mut obstacles: Vec<Obstacle> = Vec::new();
    let mut ty: i64 = 0;
    while ty < rows
        invariant
            settings.wf(),
            tile == settings.tile_size,
            disp == settings.displacement,
            half_cols == settings.width as int / 2,
            rows == settings.height as int,
            0 <= half_cols <= 30,
            0 <= ty <= rows,
            obstacles@.len() <= ty * (2 * half_cols),
            settings.starting_difficulty_permille == 1000 ==> obstacles@.len() == ty * (2
                * half_cols),
            forall|i: int|
                0 <= i < obstacles@.len() ==> grid_obstacle_ok(
                    #[trigger] obstacles@[i],
                    *settings,
                ),
        decreases rows - ty,
    {
        let mut tx: i64 = -half_cols;
        while tx < half_cols
            invariant
                settings.wf(),
                tile == settings.tile_size,
                disp == settings.displacement,
                half_cols == settings.width as int / 2,
                rows == settings.height as int,
                0 <= half_cols <= 30,
                0 <= ty < rows,
                -half_cols <= tx <= half_cols,
                obstacles@.len() <= ty * (2 * half_cols) + (tx + half_cols),
                settings.starting_difficulty_permille == 1000 ==> obstacles@.len() == ty * (2
                    * half_cols) + (tx + half_cols),
                forall|i: int|
                    0 <= i < obstacles@.len() ==> grid_obstacle_ok(
                        #[trigger] obstacles@[i],
                        *settings,
                    ),
            decreases half_cols - tx,
        {
            let chance: i64 = rand_range(0, 1001);
            if chance <= settings.starting_difficulty_permille {
                let dx: i64 = rand_range(-disp, disp);
                let dy: i64 = rand_range(-disp, disp);
                proof {
                    crate::num::lemma_mul_bound(tx as int, tile as int, 30, 5_000);
                    assert(0 <= (ty as int) * (tile as int) && (ty as int) * (tile as int)
                        < (rows as int) * (tile as int) && (rows as int) * (tile as int)
                        <= 150_000) by (nonlinear_arith)
                        requires
                            0 <= ty as int,
                            (ty as int) < rows as int,
                            rows as int == settings.height as int,
                            tile == settings.tile_size,
                            settings.height * settings.tile_size <= 150_000,
                            1 <= tile as int,
                    ;
                    assert(-((half_cols as int) * (tile as int)) <= (tx as int) * (tile as int)
                        && (tx as int) * (tile as int) < (half_cols as int) * (tile as int))
                        by (nonlinear_arith)
                        requires
                            -(half_cols as int) <= tx as int,
                            (tx as int) < half_cols as int,
                            1 <= tile as int,
                    ;
                    assert(half_cols as int * tile as int <= 150_000) by (nonlinear_arith)
                        requires
                            0 <= half_cols as int <= 30,
                            1 <= tile as int <= 5_000,
                    ;
                }
                let x: i64 = tx * tile + dx;
                let y: i64 = settings.start_offset_y + dy - ty * tile;
                let pick: i64 = rand_range(0, 2);
                let kind: ObstacleType = if pick == 0 {
                    ObstacleType::Tree
                } else {
                    ObstacleType::Stone
                };
                let c: Collidable = match kind {
                    ObstacleType::Tree => Collidable::new(
                        x,
                        y,
                        crate::obstacle::TREE_HALF_WIDTH,
                        crate::obstacle::TREE_HALF_HEIGHT,
                        crate::obstacle::TREE_OFFSET_X,
                        crate::obstacle::TREE_OFFSET_Y,
                    ),
                    ObstacleType::Stone => Collidable::new(
                        x,
                        y,
                        crate::obstacle::STONE_HALF_WIDTH,
                        crate::obstacle::STONE_HALF_HEIGHT,
                        crate::obstacle::STONE_OFFSET_X,
                        crate::obstacle::STONE_OFFSET_Y,
                    ),
                };
                obstacles.push(Obstacle { kind, x, y, collidable: c });
            }
            tx = tx + 1;
        }
        proof {
            assert((ty as int + 1) * (2 * half_cols as int) == ty as int * (2 * half_cols as int)
                + 2 * half_cols as int) by (nonlinear_arith);
        }
        ty = ty + 1;
    }
    proof {
        assert(rows as int * (2 * half_cols as int) == settings.height * (2 * (settings.width
            as int / 2))) by (nonlinear_arith)
            requires
                rows as int == settings.height as int,
                half_cols as int == settings.width as int / 2,
        ;
        assert(1 <= (rows as int) * (tile as int) && (rows as int) * (tile as int) <= 150_000)
            by (nonlinear_arith)
            requires
                rows as int == settings.height as int,
                tile == settings.tile_size,
                settings.height * settings.tile_size <= 150_000,
                1 <= rows as int,
                1 <= tile as int,
        ;
    }
    let finish_y: i64 = -(rows * tile) + settings.start_offset_y + FINISH_MARGIN;
    let max_post_y: i64 = finish_y + POSTS_PAST_FINISH;
    let posts = build_post_chain(max_post_y);
    LevelLayout { obstacles, posts, finish_y }
}

/// Walk the post chain from the start until the first pair below the
/// cutoff height, and return the pairs in order.
#[verifier::rlimit(100)]
fn build_post_chain(max_post_y: i64) -> (posts: Vec<LevelPost>)
    requires
        -250_000 <= max_post_y <= 100_400,
    ensures
        posts@.len() >= 1,
        posts@[0] == (LevelPost { color: PostColor::Blue, x: 0i64, y: -336i64 }),
        posts@[posts@.len() - 1].y < max_post_y,
        forall|i: int| 0 <= i < posts@.len() - 1 ==> (#[trigger] posts@[i]).y >= max_post_y,
        forall|i: int| 0 <= i < posts@.len() - 1 ==> (#[trigger] posts@[i]).y > posts@[i + 1].y,
        forall|i: int|
            0 <= i < posts@.len() ==> -400_000 <= (#[trigger] posts@[i]).x <= 400_000 && -400_000
                <= posts@[i].y <= 400_000,
{
    let mut post_spawner = PostsSpawner::new();
    let mut posts: Vec<LevelPost> = Vec::new();
    let (color, x, y) = post_spawner.next();
    posts.push(LevelPost { color, x, y });
    while post_spawner.y >= max_post_y
        invariant
            -250_000 <= max_post_y <= 100_400,
            posts@.len() >= 1,
            posts@[0] == (LevelPost { color: PostColor::Blue, x: 0i64, y: -336i64 }),
            post_spawner.y == posts@[posts@.len() - 1].y,
            post_spawner.x == posts@[posts@.len() - 1].x,
            post_spawner.y <= -336,
            2 * crate::num::iabs(post_spawner.x as int) <= 3 * (336 - post_spawner.y),
            forall|i: int|
                0 <= i < posts@.len() - 1 ==> (#[trigger] posts@[i]).y >= max_post_y,
            forall|i: int|
                0 <= i < posts@.len() - 1 ==> (#[trigger] posts@[i]).y > posts@[i + 1].y,
            forall|i: int|
                0 <= i < posts@.len() ==> -400_000 <= (#[trigger] posts@[i]).x <= 400_000
                    && -400_000 <= posts@[i].y <= 400_000,
        decreases post_spawner.y - max_post_y + 240,
    {
        let ghost prev = post_spawner;
        let (color, x, y) = post_spawner.next();
        let ghost pre = posts@;
        posts.push(LevelPost { color, x, y });
        proof {
            assert(prev.y != 0);
            assert(post_spawner.y <= prev.y - GAP_Y_MIN);
            assert(2 * crate::num::iabs(post_spawner.x as int) <= 3 * (336 - post_spawner.y));
            assert(-400_000 <= x <= 400_000 && -400_000 <= y <= 400_000);
            assert forall|i: int|
                0 <= i < posts@.len() - 1 implies (#[trigger] posts@[i]).y >= max_post_y by {
                if i < pre.len() - 1 {
                    assert(pre[i].y >= max_post_y);
                }
            }
            assert forall|i: int|
                0 <= i < posts@.len() - 1 implies (#[trigger] posts@[i]).y > posts@[i + 1].y by {
                if i < pre.len() - 1 {
                    assert(pre[i].y > pre[i + 1].y);
                }
            }
        }
    }
    posts
}

} // verus!
