//! On-demand obstacle generation, keyed to the camera's region.
//!
//! Each tick the camera position is floored into a region coordinate. When
//! it changes, a forward-biased neighborhood of five regions (both sides,
//! straight ahead, both diagonals ahead) is filled: every region not yet in
//! the generated set runs a tile-fill pass that partitions it into a sub-grid
//! and, per sub-tile, draws a random chance against a difficulty-derived
//! threshold, picks one of the two obstacle kinds at random and jitters the
//! position within the tile. Regions scrolled behind the camera are retired
//! from the bookkeeping set.

use vstd::prelude::*;

verus! {

use crate::collidable::{Collidable, POS_LIMIT};
use crate::region::{RegionCoord, RegionSet, region_of};
use crate::rng::rand_range;
use crate::num::{spec_ilog2, ilog2_u64, lemma_mul_bound};
use vstd::arithmetic::div_mod::{
    lemma_fundamental_div_mod,
    lemma_mod_bound,
    lemma_multiply_divide_lt,
};

/// Side of one sub-tile of a region's fill grid.
pub const TILE_SIZE: i64 = 60;

/// Largest random displacement applied to an obstacle within its sub-tile.
pub const SPAWN_JITTER: i64 = 15;

/// Spawn probability gained per doubling of the camera region's distance
/// from the origin, in thousandths.
pub const DIFFICULTY_RAMPUP_PERMILLE: i64 = 30;

/// Cameras handed to the generator stay within this range.
pub const CAM_LIMIT: i64 = 300_000;

/// Region spans handed to the generator stay within this range.
pub const REGION_SPAN_MAX: i64 = 10_000;

pub const TREE_HALF_WIDTH: i64 = 8;

pub const TREE_HALF_HEIGHT: i64 = 8;

pub const TREE_OFFSET_X: i64 = 0;

pub const TREE_OFFSET_Y: i64 = -8;

pub const STONE_HALF_WIDTH: i64 = 12;

pub const STONE_HALF_HEIGHT: i64 = 8;

pub const STONE_OFFSET_X: i64 = 0;

pub const STONE_OFFSET_Y: i64 = -4;

/// The two kinds of obstacle, each with its fixed box shape.
#[derive(Clone, Copy, PartialEq, Eq, Structural, Debug)]
pub enum ObstacleType {
    Stone,
    Tree,
}

/// A generated obstacle: its kind, its world position, and its box.
#[derive(Clone, Copy, PartialEq, Eq, Structural, Debug)]
pub struct Obstacle {
    pub kind: ObstacleType,
    pub x: i64,
    pub y: i64,
    pub collidable: Collidable,
}

/// The collision box a fresh obstacle of the given kind carries at `(x, y)`.
pub open spec fn spec_box_for(kind: ObstacleType, x: int, y: int) -> Collidable {
    let shape = match kind {
        ObstacleType::Tree => Collidable {
            width_half: TREE_HALF_WIDTH,
            height_half: TREE_HALF_HEIGHT,
            offset_x: TREE_OFFSET_X,
            offset_y: TREE_OFFSET_Y,
            left: 0,
            top: 0,
            right: 0,
            bottom: 0,
        },
        ObstacleType::Stone => Collidable {
            width_half: STONE_HALF_WIDTH,
            height_half: STONE_HALF_HEIGHT,
            offset_x: STONE_OFFSET_X,
            offset_y: STONE_OFFSET_Y,
            left: 0,
            top: 0,
            right: 0,
            bottom: 0,
        },
    };
    shape.recomputed(x, y)
}

/// The obstacle sits on the sub-tile at column `col` and row `row` of
/// region `(rx, ry)`'s fill grid: at that sub-tile's corner, displaced by
/// less than the spawn jitter on each axis.
pub open spec fn on_sub_tile(
    ob: Obstacle,
    rx: int,
    ry: int,
    w: int,
    h: int,
    col: int,
    row: int,
) -> bool {
    let base_x = rx * w - w / 2 + col * (TILE_SIZE as int);
    let base_y = ry * h - row * (TILE_SIZE as int);
    &&& base_x - SPAWN_JITTER <= ob.x < base_x + SPAWN_JITTER
    &&& base_y - SPAWN_JITTER < ob.y <= base_y + SPAWN_JITTER
}

/// An obstacle generated for region `(rx, ry)` is of one of the two kinds,
/// carries the box of its kind recomputed at its own position, and sits on
/// some sub-tile of the region's fill grid, jittered within that sub-tile;
/// in particular it lies within the region (half a region to each side
/// horizontally, one region upward vertically), up to the jitter.
pub open spec fn obstacle_ok(ob: Obstacle, rx: int, ry: int, w: int, h: int) -> bool {
    &&& ob.collidable == spec_box_for(ob.kind, ob.x as int, ob.y as int)
    &&& ob.collidable.wf()
    &&& rx * w - w / 2 - SPAWN_JITTER <= ob.x < rx * w - w / 2 + w + SPAWN_JITTER
    &&& ry * h - h - SPAWN_JITTER < ob.y <= ry * h + SPAWN_JITTER
    &&& exists|col: int, row: int|
        0 <= col < w / (TILE_SIZE as int) + 1 && 0 <= row < h / (TILE_SIZE as int)
            && #[trigger] on_sub_tile(
            ob,
            rx,
            ry,
            w,
            h,
            col,
            row,
        )
}

/// Spawn threshold in thousandths for a camera region at vertical distance
/// `dist` from the origin: the difficulty ramp rises with the floored binary
/// logarithm and saturates at certainty.
pub open spec fn spec_difficulty_permille(dist: nat) -> int {
    if dist < 2 {
        0
    } else if DIFFICULTY_RAMPUP_PERMILLE * spec_ilog2(dist) > 1000 {
        1000
    } else {
        DIFFICULTY_RAMPUP_PERMILLE * spec_ilog2(dist)
    }
}

/// Difficulty threshold for a camera region row `region_y`.
pub fn difficulty_permille(region_y: i64) -> (t: i64)
    requires
        region_y > i64::MIN,
    ensures
        t == spec_difficulty_permille(
            if region_y < 0 {
                (-region_y) as nat
            } else {
                region_y as nat
            },
        ),
        0 <= t <= 1000,
{
    let dist: u64 = if region_y < 0 {
        (-region_y) as u64
    } else {
        region_y as u64
    };
    if dist < 2 {
        return 0;
    }
    let lg: u64 = ilog2_u64(dist);
    proof {
        crate::num::lemma_ilog2_le_64(dist as nat);
    }
    let ramp: i64 = DIFFICULTY_RAMPUP_PERMILLE * (lg as i64);
    if ramp > 1000 {
        1000
    } else {
        ramp
    }
}

/// Fill one region with randomly placed obstacles.
///
/// The region is partitioned into `TILE_SIZE`-sized sub-tiles; each sub-tile
/// spawns at most one obstacle, exactly when its random chance draw (in
/// thousandths) falls below the threshold. A zero threshold therefore
/// spawns nothing, and a saturated threshold fills every sub-tile.
pub fn fill_region(
    rx: i64,
    ry: i64,
    region_width: i64,
    region_height: i64,
    threshold_permille: i64,
) -> (placed: Vec<Obstacle>)
    requires
        TILE_SIZE <= region_width <= REGION_SPAN_MAX,
        TILE_SIZE <= region_height <= REGION_SPAN_MAX,
        0 <= threshold_permille <= 1000,
        -350_000 <= rx * region_width <= 350_000,
        -350_000 <= ry * region_height <= 350_000,
    ensures
        forall|i: int|
            0 <= i < placed@.len() ==> obstacle_ok(
                #[trigger] placed@[i],
                rx as int,
                ry as int,
                region_width as int,
                region_height as int,
            ),
        placed@.len() <= (region_height as int / TILE_SIZE as int) * (region_width as int
            / TILE_SIZE as int + 1),
        threshold_permille == 0 ==> placed@.len() == 0,
        threshold_permille == 1000 ==> placed@.len() == (region_height as int / TILE_SIZE as int)
            * (region_width as int / TILE_SIZE as int + 1),
{
    let mut placed: Vec<Obstacle> = Vec::new();
    let rows: u64 = (region_height as u64) / (TILE_SIZE as u64);
    let cols: u64 = (region_width as u64) / (TILE_SIZE as u64) + 1;
    proof {
        lemma_fundamental_div_mod(region_width as int, TILE_SIZE as int);
        lemma_mod_bound(region_width as int, TILE_SIZE as int);
        lemma_fundamental_div_mod(region_height as int, TILE_SIZE as int);
        lemma_mod_bound(region_height as int, TILE_SIZE as int);
        assert(rows as int <= 200 && cols as int <= 200);
        lemma_mul_bound(rows as int, cols as int, 200, 200);
    }
    let tiles_count: u64 = rows * cols;
    let half_width: i64 = ((region_width as u64) / 2) as i64;
    let mut t: u64 = 0;
    while t < tiles_count
        invariant
            TILE_SIZE <= region_width <= REGION_SPAN_MAX,
            TILE_SIZE <= region_height <= REGION_SPAN_MAX,
            0 <= threshold_permille <= 1000,
            -350_000 <= rx * region_width <= 350_000,
            -350_000 <= ry * region_height <= 350_000,
            rows == region_height as int / TILE_SIZE as int,
            cols == region_width as int / TILE_SIZE as int + 1,
            tiles_count == rows * cols,
            half_width == region_width as int / 2,
            0 <= t <= tiles_count,
            forall|i: int|
                0 <= i < placed@.len() ==> obstacle_ok(
                    #[trigger] placed@[i],
                    rx as int,
                    ry as int,
                    region_width as int,
                    region_height as int,
                ),
            placed@.len() <= t,
            threshold_permille == 0 ==> placed@.len() == 0,
            threshold_permille == 1000 ==> placed@.len() == t,
        decreases tiles_count - t,
    {
        let chance: i64 = rand_range(0, 1000);
        if chance < threshold_permille {
            let pick: i64 = rand_range(0, 2);
            let jx: i64 = rand_range(-SPAWN_JITTER, SPAWN_JITTER);
            let jy: i64 = rand_range(-SPAWN_JITTER, SPAWN_JITTER);
            let col: u64 = t % cols;
            let row: u64 = t / cols;
            proof {
                lemma_mod_bound(t as int, cols as int);
                vstd::arithmetic::mul::lemma_mul_is_commutative(rows as int, cols as int);
                lemma_multiply_divide_lt(t as int, cols as int, rows as int);
                lemma_fundamental_div_mod(region_width as int, TILE_SIZE as int);
                lemma_mod_bound(region_width as int, TILE_SIZE as int);
                lemma_fundamental_div_mod(region_height as int, TILE_SIZE as int);
                lemma_mod_bound(region_height as int, TILE_SIZE as int);
                assert(col as int * TILE_SIZE as int <= (cols as int - 1) * TILE_SIZE as int)
                    by (nonlinear_arith)
                    requires
                        0 <= col as int <= cols as int - 1,
                        TILE_SIZE == 60,
                ;
                assert(row as int * TILE_SIZE as int <= (rows as int - 1) * TILE_SIZE as int)
                    by (nonlinear_arith)
                    requires
                        0 <= row as int <= rows as int - 1,
                        TILE_SIZE == 60,
                ;
                assert((cols as int - 1) * TILE_SIZE as int == (region_width as int / TILE_SIZE
                    as int) * TILE_SIZE as int) by (nonlinear_arith)
                    requires
                        cols as int == region_width as int / TILE_SIZE as int + 1,
                ;
                assert((rows as int - 1) * TILE_SIZE as int <= (region_height as int / TILE_SIZE
                    as int) * TILE_SIZE as int) by (nonlinear_arith)
                    requires
                        rows as int == region_height as int / TILE_SIZE as int,
                        rows as int >= 1,
                ;
            }
            let ox: i64 = (col as i64) * TILE_SIZE + jx;
            let oy: i64 = (row as i64) * TILE_SIZE + jy;
            let x: i64 = rx * region_width - half_width + ox;
            let y: i64 = ry * region_height - oy;
            let kind: ObstacleType = if pick == 0 {
                ObstacleType::Tree
            } else {
                ObstacleType::Stone
            };
            let c: Collidable = match kind {
                ObstacleType::Tree => Collidable::new(
                    x,
                    y,
                    TREE_HALF_WIDTH,
                    TREE_HALF_HEIGHT,
                    TREE_OFFSET_X,
                    TREE_OFFSET_Y,
                ),
                ObstacleType::Stone => Collidable::new(
                    x,
                    y,
                    STONE_HALF_WIDTH,
                    STONE_HALF_HEIGHT,
                    STONE_OFFSET_X,
                    STONE_OFFSET_Y,
                ),
            };
            placed.push(Obstacle { kind, x, y, collidable: c });
            proof {
                let ob = placed@[placed@.len() - 1];
                assert(on_sub_tile(
                    ob,
                    rx as int,
                    ry as int,
                    region_width as int,
                    region_height as int,
                    col as int,
                    row as int,
                ));
            }
        }
        t = t + 1;
    }
    placed
}

/// Bookkeeping for on-demand generation: the camera region processed last
/// tick and the set of regions whose obstacles already exist.
#[derive(Debug)]
pub struct ObstacleSpawner {
    pub last_processed_player_region_x: Option<i64>,
    pub last_processed_player_region_y: Option<i64>,
    pub spawned_regions: RegionSet,
}

/// The five-region forward-biased neighborhood around the camera region:
/// both sides, both diagonals ahead, and straight ahead, in the fixed order
/// the generator walks them. The world scrolls toward negative `ry`, so
/// "ahead" is one region down.
pub open spec fn spec_region_offset(k: int) -> (int, int) {
    if k == 0 {
        (-1, 0)
    } else if k == 1 {
        (-1, -1)
    } else if k == 2 {
        (0, -1)
    } else if k == 3 {
        (1, -1)
    } else {
        (1, 0)
    }
}

/// The `k`-th neighbor region of the camera region `(crx, cry)`.
pub open spec fn spec_neighbor(crx: int, cry: int, k: int) -> RegionCoord {
    RegionCoord {
        rx: (crx + spec_region_offset(k).0) as i64,
        ry: (cry + spec_region_offset(k).1) as i64,
    }
}

/// `ob` was generated for one of the five neighbor regions of `(crx, cry)`
/// that was not yet in the generated set `prev`.
pub open spec fn spawned_from_new_region(
    ob: Obstacle,
    prev: RegionSet,
    crx: int,
    cry: int,
    w: int,
    h: int,
) -> bool {
    exists|k: int|
        {
            &&& 0 <= k < 5
            &&& !prev.has(#[trigger] spec_neighbor(crx, cry, k))
            &&& obstacle_ok(
                ob,
                spec_neighbor(crx, cry, k).rx as int,
                spec_neighbor(crx, cry, k).ry as int,
                w,
                h,
            )
        }
}

fn region_offset(k: usize) -> (off: (i64, i64))
    requires
        k < 5,
    ensures
        off.0 == spec_region_offset(k as int).0,
        off.1 == spec_region_offset(k as int).1,
{
    if k == 0 {
        (-1, 0)
    } else if k == 1 {
        (-1, -1)
    } else if k == 2 {
        (0, -1)
    } else if k == 3 {
        (1, -1)
    } else {
        (1, 0)
    }
}

impl ObstacleSpawner {
    /// The recorded set is duplicate-free.
    pub open spec fn wf(self) -> bool {
        self.spawned_regions.wf()
    }

    /// The camera region processed last tick was exactly `(crx, cry)`.
    pub open spec fn same_region(self, crx: int, cry: int) -> bool {
        &&& self.last_processed_player_region_x matches Some(lx) && lx == crx
        &&& self.last_processed_player_region_y matches Some(ly) && ly == cry
    }

    /// A fresh spawner: nothing processed, nothing generated.
    pub fn new() -> (s: ObstacleSpawner)
        ensures
            s.wf(),
            s.last_processed_player_region_x is None,
            s.last_processed_player_region_y is None,
            forall|c: RegionCoord| !s.spawned_regions.has(c),
    {
        ObstacleSpawner {
            last_processed_player_region_x: None,
            last_processed_player_region_y: None,
            spawned_regions: RegionSet::new(),
        }
    }
}

/// One generation step for the current camera position.
///
/// Maps the camera into its region; if that region was already processed
/// last tick the call is a no-op returning nothing. Otherwise every region
/// of the five-neighbor set not yet generated is filled (at the difficulty
/// of the camera's own row) and recorded, and the freshly placed obstacles
/// are returned.
pub fn spawn_obstacles(
    spawner: &mut ObstacleSpawner,
    camera_x: i64,
    camera_y: i64,
    region_width: i64,
    region_height: i64,
) -> (spawned: Vec<Obstacle>)
    requires
        old(spawner).wf(),
        TILE_SIZE <= region_width <= REGION_SPAN_MAX,
        TILE_SIZE <= region_height <= REGION_SPAN_MAX,
        -CAM_LIMIT <= camera_x <= CAM_LIMIT,
        -CAM_LIMIT <= camera_y <= CAM_LIMIT,
    ensures
        final(spawner).wf(),
        ({
            let crx = camera_x as int / region_width as int;
            let cry = camera_y as int / region_height as int;
            &&& old(spawner).same_region(crx, cry) ==> (*final(spawner) == *old(spawner)
                && spawned@.len() == 0)
            &&& !old(spawner).same_region(crx, cry) ==> {
                &&& final(spawner).last_processed_player_region_x == Some(crx as i64)
                &&& final(spawner).last_processed_player_region_y == Some(cry as i64)
                &&& forall|c: RegionCoord|
                    final(spawner).spawned_regions.has(c) == (old(
                        spawner,
                    ).spawned_regions.has(c) || exists|k: int|
                        0 <= k < 5 && c == spec_neighbor(crx, cry, k))
                &&& forall|i: int|
                    0 <= i < spawned@.len() ==> spawned_from_new_region(
                        #[trigger] spawned@[i],
                        old(spawner).spawned_regions,
                        crx,
                        cry,
                        region_width as int,
                        region_height as int,
                    )
            }
        }),
{
    let camera_region = region_of(camera_x, camera_y, region_width, region_height);
    let crx: i64 = camera_region.rx;
    let cry: i64 = camera_region.ry;
    proof {
        lemma_fundamental_div_mod(camera_x as int, region_width as int);
        lemma_mod_bound(camera_x as int, region_width as int);
        lemma_fundamental_div_mod(camera_y as int, region_height as int);
        lemma_mod_bound(camera_y as int, region_height as int);
        assert((camera_x as int) - (region_width as int) < (crx as int) * (region_width as int)
            && (crx as int) * (region_width as int) <= camera_x as int && -6000 <= crx as int
            && crx as int <= 6000) by (nonlinear_arith)
            requires
                camera_x as int == region_width as int * (crx as int) + camera_x as int
                    % region_width as int,
                0 <= (camera_x as int) % (region_width as int),
                (camera_x as int) % (region_width as int) < region_width as int,
                60 <= region_width as int <= 10_000,
                -300_000 <= camera_x as int <= 300_000,
        ;
        assert((camera_y as int) - (region_height as int) < (cry as int) * (region_height as int)
            && (cry as int) * (region_height as int) <= camera_y as int && -6000 <= cry as int
            && cry as int <= 6000) by (nonlinear_arith)
            requires
                camera_y as int == region_height as int * (cry as int) + camera_y as int
                    % region_height as int,
                0 <= (camera_y as int) % (region_height as int),
                (camera_y as int) % (region_height as int) < region_height as int,
                60 <= region_height as int <= 10_000,
                -300_000 <= camera_y as int <= 300_000,
        ;
    }
    let mut spawned: Vec<Obstacle> = Vec::new();
    let same_x: bool = match spawner.last_processed_player_region_x {
        Some(lx) => lx == crx,
        None => false,
    };
    let same_y: bool = match spawner.last_processed_player_region_y {
        Some(ly) => ly == cry,
        None => false,
    };
    if same_x && same_y {
        return spawned;
    }
    spawner.last_processed_player_region_x = Some(crx);
    spawner.last_processed_player_region_y = Some(cry);
    let threshold: i64 = difficulty_permille(cry);
    let ghost old_set = spawner.spawned_regions;
    let mut k: usize = 0;
    while k < 5
        invariant
            spawner.spawned_regions.wf(),
            spawner.last_processed_player_region_x == Some(crx),
            spawner.last_processed_player_region_y == Some(cry),
            0 <= k <= 5,
            TILE_SIZE <= region_width <= REGION_SPAN_MAX,
            TILE_SIZE <= region_height <= REGION_SPAN_MAX,
            0 <= threshold <= 1000,
            crx == camera_x as int / region_width as int,
            cry == camera_y as int / region_height as int,
            -6000 <= crx <= 6000,
            -6000 <= cry <= 6000,
            -CAM_LIMIT - REGION_SPAN_MAX < crx * region_width <= CAM_LIMIT,
            -CAM_LIMIT - REGION_SPAN_MAX < cry * region_height <= CAM_LIMIT,
            forall|c: RegionCoord|
                #[trigger] spawner.spawned_regions.has(c) ==> old_set.has(c) || (exists|kk: int|
                    0 <= kk < k && c == spec_neighbor(crx as int, cry as int, kk)),
            forall|c: RegionCoord|
                #[trigger] old_set.has(c) ==> spawner.spawned_regions.has(c),
            forall|kk: int|
                0 <= kk < k ==> spawner.spawned_regions.has(
                    #[trigger] spec_neighbor(crx as int, cry as int, kk),
                ),
            forall|i: int|
                0 <= i < spawned@.len() ==> spawned_from_new_region(
                    #[trigger] spawned@[i],
                    old_set,
                    crx as int,
                    cry as int,
                    region_width as int,
                    region_height as int,
                ),
        decreases 5 - k,
    {
        let (rox, roy) = region_offset(k);
        let rc = RegionCoord { rx: crx + rox, ry: cry + roy };
        let covered: bool = spawner.spawned_regions.contains(rc);
        let ghost set_before = spawner.spawned_regions;
        if !covered {
            proof {
                assert(!old_set.has(rc));
                assert((crx + rox) as int * region_width as int == crx as int * region_width
                    as int + rox as int * region_width as int) by (nonlinear_arith);
                assert((cry + roy) as int * region_height as int == cry as int * region_height
                    as int + roy as int * region_height as int) by (nonlinear_arith);
                assert(-(REGION_SPAN_MAX as int) <= rox as int * region_width as int
                    <= REGION_SPAN_MAX as int) by (nonlinear_arith)
                    requires
                        -1 <= rox as int <= 1,
                        0 < region_width <= REGION_SPAN_MAX,
                ;
                assert(-(REGION_SPAN_MAX as int) <= roy as int * region_height as int
                    <= REGION_SPAN_MAX as int) by (nonlinear_arith)
                    requires
                        -1 <= roy as int <= 1,
                        0 < region_height <= REGION_SPAN_MAX,
                ;
            }
            let fresh = fill_region(rc.rx, rc.ry, region_width, region_height, threshold);
            let ghost pre_spawned = spawned@;
            let mut i: usize = 0;
            while i < fresh.len()
                invariant
                    0 <= i <= fresh.len(),
                    0 <= k < 5,
                    rc == spec_neighbor(crx as int, cry as int, k as int),
                    !old_set.has(rc),
                    forall|j: int|
                        0 <= j < fresh@.len() ==> obstacle_ok(
                            #[trigger] fresh@[j],
                            rc.rx as int,
                            rc.ry as int,
                            region_width as int,
                            region_height as int,
                        ),
                    forall|j: int|
                        0 <= j < spawned@.len() ==> spawned_from_new_region(
                            #[trigger] spawned@[j],
                            old_set,
                            crx as int,
                            cry as int,
                            region_width as int,
                            region_height as int,
                        ),
                decreases fresh.len() - i,
            {
                spawned.push(fresh[i]);
                proof {
                    let nb = spec_neighbor(crx as int, cry as int, k as int);
                    assert(obstacle_ok(
                        spawned@[spawned@.len() - 1],
                        nb.rx as int,
                        nb.ry as int,
                        region_width as int,
                        region_height as int,
                    ));
                    assert(spawned_from_new_region(
                        spawned@[spawned@.len() - 1],
                        old_set,
                        crx as int,
                        cry as int,
                        region_width as int,
                        region_height as int,
                    ));
                }
                i = i + 1;
            }
            spawner.spawned_regions.insert(rc);
        }
        let ghost k_prev = k as int;
        k = k + 1;
        proof {
            let nb = spec_neighbor(crx as int, cry as int, k_prev);
            assert(rc == nb);
            assert(spawner.spawned_regions.has(nb));
            assert forall|c: RegionCoord| #[trigger]
                spawner.spawned_regions.has(c) implies old_set.has(c) || (exists|kk: int|
                0 <= kk < k && c == spec_neighbor(crx as int, cry as int, kk)) by {
                if c != nb && !old_set.has(c) {
                    assert(set_before.has(c));
                    let kk = choose|kk: int|
                        0 <= kk < k_prev && c == spec_neighbor(crx as int, cry as int, kk);
                    assert(0 <= kk < k && c == spec_neighbor(crx as int, cry as int, kk));
                } else if c == nb {
                    assert(0 <= k_prev < k && c == spec_neighbor(crx as int, cry as int, k_prev));
                }
            }
            assert forall|kk: int| 0 <= kk < k implies spawner.spawned_regions.has(
                #[trigger] spec_neighbor(crx as int, cry as int, kk),
            ) by {
                if kk < k_prev {
                    assert(set_before.has(spec_neighbor(crx as int, cry as int, kk)));
                }
            }
        }
    }
    proof {
        assert forall|c: RegionCoord|
            spawner.spawned_regions.has(c) == (old_set.has(c) || exists|kk: int|
                0 <= kk < 5 && c == spec_neighbor(crx as int, cry as int, kk)) by {
            if !spawner.spawned_regions.has(c) {
                if exists|kk: int| 0 <= kk < 5 && c == spec_neighbor(crx as int, cry as int, kk) {
                    let kk = choose|kk: int|
                        0 <= kk < 5 && c == spec_neighbor(crx as int, cry as int, kk);
                    assert(spawner.spawned_regions.has(spec_neighbor(crx as int, cry as int, kk)));
                }
            }
        }
    }
    spawned
}

/// Recompute every movable bounding box from its owner's current position.
///
/// Runs once per tick, after movement integration and before any collision
/// or ray query, so no stale box is ever queried.
pub fn update_collidables(collidables: &mut Vec<Collidable>, positions: &Vec<crate::geom::Vec2i>)
    requires
        old(collidables)@.len() == positions@.len(),
        forall|i: int| 0 <= i < old(collidables)@.len() ==> (#[trigger] old(collidables)@[i]).shape_wf(),
        forall|i: int|
            0 <= i < positions@.len() ==> -POS_LIMIT <= (#[trigger] positions@[i]).x <= POS_LIMIT
                && -POS_LIMIT <= positions@[i].y <= POS_LIMIT,
    ensures
        final(collidables)@.len() == old(collidables)@.len(),
        forall|i: int|
            0 <= i < old(collidables)@.len() ==> #[trigger] final(collidables)@[i] == old(
                collidables,
            )@[i].recomputed(positions@[i].x as int, positions@[i].y as int),
        forall|i: int| 0 <= i < old(collidables)@.len() ==> (#[trigger] final(collidables)@[i]).wf(),
{
    let mut i: usize = 0;
    while i < collidables.len()
        invariant
            0 <= i <= collidables@.len(),
            collidables@.len() == old(collidables)@.len(),
            positions@.len() == old(collidables)@.len(),
            forall|t: int|
                0 <= t < old(collidables)@.len() ==> (#[trigger] old(collidables)@[t]).shape_wf(),
            forall|t: int|
                0 <= t < positions@.len() ==> -POS_LIMIT <= (#[trigger] positions@[t]).x
                    <= POS_LIMIT && -POS_LIMIT <= positions@[t].y <= POS_LIMIT,
            forall|t: int|
                i <= t < old(collidables)@.len() ==> #[trigger] collidables@[t] == old(
                    collidables,
                )@[t],
            forall|t: int|
                0 <= t < i ==> #[trigger] collidables@[t] == old(collidables)@[t].recomputed(
                    positions@[t].x as int,
                    positions@[t].y as int,
                ) && collidables@[t].wf(),
        decreases collidables@.len() - i,
    {
        let mut c: Collidable = collidables[i];
        c.update_center(positions[i].x, positions[i].y);
        collidables[i] = c;
        i = i + 1;
    }
}

/// Drop every recorded region that has scrolled ahead of (past) the camera's
/// current region row; regions at or behind it stay recorded.
pub fn cleanup_regions(spawner: &mut ObstacleSpawner, camera_y: i64, region_height: i64)
    requires
        old(spawner).wf(),
        region_height > 0,
        camera_y > i64::MIN,
    ensures
        final(spawner).wf(),
        ({
            let cry = camera_y as int / region_height as int;
            &&& forall|c: RegionCoord|
                final(spawner).spawned_regions.has(c) == (old(spawner).spawned_regions.has(c)
                    && c.ry <= cry)
            &&& forall|c: RegionCoord| final(spawner).spawned_regions.has(c) ==> c.ry <= cry
        }),
        final(spawner).last_processed_player_region_x == old(
            spawner,
        ).last_processed_player_region_x,
        final(spawner).last_processed_player_region_y == old(
            spawner,
        ).last_processed_player_region_y,
{
    let cry: i64 = crate::num::div_floor_i64(camera_y, region_height);
    spawner.spawned_regions.retire_beyond(cry);
}

/// Forget all generation bookkeeping, as on a game restart.
pub fn reset_spawner(spawner: &mut ObstacleSpawner)
    ensures
        final(spawner).wf(),
        final(spawner).last_processed_player_region_x is None,
        final(spawner).last_processed_player_region_y is None,
        forall|c: RegionCoord| !final(spawner).spawned_regions.has(c),
{
    spawner.last_processed_player_region_x = None;
    spawner.last_processed_player_region_y = None;
    spawner.spawned_regions.clear();
}

} // verus!
