//! The chaser: spawn schedule, grace timer, and per-tick steering.
//!
//! Steering recomputes a desired velocity every tick from the current
//! positions alone; nothing is cached across frames. Direct pursuit heads
//! straight for the player at full speed. Avoidance probes a fan of
//! candidate headings symmetric around the direct one, in the fixed order
//! straight ahead, one angular step to either side, two steps to either
//! side, and so on, and takes the first heading whose ray of
//! capped length crosses no obstacle box. When every probe is blocked,
//! steering decides nothing for that tick and the chaser's velocity is
//! left untouched: a deliberate, documented gap, not an error.
//!
//! Headings are unit vectors in fixed-point form: scaled by
//! `HEADING_SCALE`, rotated by multiples of one-sixteenth of a half turn
//! through an integer cosine/sine table, with every division truncating.

use vstd::prelude::*;

verus! {

use crate::geom::Vec2i;
use crate::collidable::{Collidable, POS_LIMIT};
use crate::timer::{TickTimer, DURATION_LIMIT_MS};
use crate::num::{tdiv, spec_sqrt, lemma_sqrt_unique, lemma_mul_bound, lemma_tdiv_bound,
    lemma_sq_lt, isqrt_u64, div_trunc_i64, min_i64};

/// Fixed-point scale of heading unit vectors.
pub const HEADING_SCALE: i64 = 10_000;

/// Longest obstacle-probing ray, in world units.
pub const RAY_LENGTH: i64 = 400;

/// Chaser speeds stay within this range.
pub const SPEED_LIMIT: i64 = 100_000;

/// How many angular steps the fan probes to each side.
pub const MAX_FAN_STEPS: i64 = 16;

/// The chaser's running speed, in world units per second.
pub const YETI_SPEED: i64 = 192;

pub const YETI_HALF_WIDTH: i64 = 16;

pub const YETI_HALF_HEIGHT: i64 = 12;

pub const YETI_OFFSET_X: i64 = 0;

pub const YETI_OFFSET_Y: i64 = -8;

/// How long a stunned chaser stays down, in milliseconds.
pub const YETI_STUN_TIME_MS: u64 = 800;

/// Ignore-collisions grace after spawning or waking, in milliseconds.
pub const YETI_GRACE_MS: u64 = 1500;

/// Delay before the spawn sequence starts, in milliseconds.
pub const SPAWNER_IDLE_MS: u64 = 30_000;

/// Delay between the footstep trail and the chaser itself, in milliseconds.
pub const SPAWNER_STEP_MS: u64 = 3_000;

/// The two steering modes, fixed at spawn time.
#[derive(Clone, Copy, PartialEq, Eq, Structural, Debug)]
pub enum YetiAi {
    ChaseDirect,
    ChaseAvoidObstacles,
}

/// Where the spawn schedule stands.
#[derive(Clone, Copy, PartialEq, Eq, Structural, Debug)]
pub enum YetiSpawnPhase {
    Idle,
    Step,
    Spawning,
    Completed,
}

/// The timed schedule that brings the chaser into the world.
#[derive(Clone, Copy, PartialEq, Eq, Structural, Debug)]
pub struct YetiSpawner {
    pub phase: YetiSpawnPhase,
    pub timer: TickTimer,
}

/// The live chaser: its ignore-collisions grace timer and its speed.
#[derive(Clone, Copy, PartialEq, Eq, Structural, Debug)]
pub struct Yeti {
    pub ignore_collisions: TickTimer,
    pub speed: i64,
}

impl Yeti {
    /// A freshly spawned chaser at running speed, with its grace running.
    pub fn new() -> (y: Yeti)
        ensures
            y.speed == YETI_SPEED,
            y.ignore_collisions.duration_ms == YETI_GRACE_MS,
            y.ignore_collisions.elapsed_ms == 0,
            !y.ignore_collisions.repeating,
            y.ignore_collisions.wf(),
    {
        Yeti { ignore_collisions: TickTimer::new(YETI_GRACE_MS, false), speed: YETI_SPEED }
    }
}

/// Advance the chaser's grace timer by one tick.
pub fn update_yeti(yeti: &mut Yeti, delta_ms: u64)
    requires
        old(yeti).ignore_collisions.wf(),
        delta_ms <= DURATION_LIMIT_MS,
    ensures
        final(yeti).ignore_collisions == old(yeti).ignore_collisions.spec_after_tick(delta_ms),
        final(yeti).speed == old(yeti).speed,
{
    yeti.ignore_collisions.tick(delta_ms);
}

/// Restart the chaser's grace when it wakes from a stun, so it is not
/// stunned again at once by the obstacle it still overlaps.
pub fn update_wake_up(yeti: &mut Yeti)
    ensures
        final(yeti).ignore_collisions.elapsed_ms == 0,
        final(yeti).ignore_collisions.duration_ms == old(yeti).ignore_collisions.duration_ms,
        final(yeti).ignore_collisions.repeating == old(yeti).ignore_collisions.repeating,
        final(yeti).speed == old(yeti).speed,
        old(yeti).ignore_collisions.wf() ==> final(yeti).ignore_collisions.wf(),
{
    yeti.ignore_collisions.reset();
}

/// Cosine and sine of `i` sixteenths of a half turn, scaled by
/// `HEADING_SCALE` and rounded to the nearest integer.
pub open spec fn spec_rot_coef(i: int) -> (int, int) {
    if i == 0 {
        (10_000, 0)
    } else if i == 1 {
        (9808, 1951)
    } else if i == 2 {
        (9239, 3827)
    } else if i == 3 {
        (8315, 5556)
    } else if i == 4 {
        (7071, 7071)
    } else if i == 5 {
        (5556, 8315)
    } else if i == 6 {
        (3827, 9239)
    } else if i == 7 {
        (1951, 9808)
    } else if i == 8 {
        (0, 10_000)
    } else if i == 9 {
        (-1951, 9808)
    } else if i == 10 {
        (-3827, 9239)
    } else if i == 11 {
        (-5556, 8315)
    } else if i == 12 {
        (-7071, 7071)
    } else if i == 13 {
        (-8315, 5556)
    } else if i == 14 {
        (-9239, 3827)
    } else {
        (-9808, 1951)
    }
}

/// The rotation table stays within the fixed-point unit scale.
pub proof fn lemma_rot_coef_bounds(i: int)
    ensures
        -HEADING_SCALE <= spec_rot_coef(i).0 <= HEADING_SCALE,
        0 <= spec_rot_coef(i).1 <= HEADING_SCALE,
{
}

fn rot_coef(i: usize) -> (c: (i64, i64))
    requires
        i < 16,
    ensures
        c.0 == spec_rot_coef(i as int).0,
        c.1 == spec_rot_coef(i as int).1,
{
    if i == 0 {
        (10_000, 0)
    } else if i == 1 {
        (9808, 1951)
    } else if i == 2 {
        (9239, 3827)
    } else if i == 3 {
        (8315, 5556)
    } else if i == 4 {
        (7071, 7071)
    } else if i == 5 {
        (5556, 8315)
    } else if i == 6 {
        (3827, 9239)
    } else if i == 7 {
        (1951, 9808)
    } else if i == 8 {
        (0, 10_000)
    } else if i == 9 {
        (-1951, 9808)
    } else if i == 10 {
        (-3827, 9239)
    } else if i == 11 {
        (-5556, 8315)
    } else if i == 12 {
        (-7071, 7071)
    } else if i == 13 {
        (-8315, 5556)
    } else if i == 14 {
        (-9239, 3827)
    } else {
        (-9808, 1951)
    }
}

/// Signed sine used by probe `j`: even probes rotate one way, odd probes
/// the other, and probe `j` uses `j / 2` angular steps.
pub open spec fn probe_sin(j: int) -> int {
    if j % 2 == 0 {
        spec_rot_coef(j / 2).1
    } else {
        -spec_rot_coef(j / 2).1
    }
}

/// Fixed-point x-component of the heading probed at index `j`, rotating the
/// direct heading `(ux, uy)`.
pub open spec fn cand_dir_x(ux: int, uy: int, j: int) -> int {
    tdiv(ux * spec_rot_coef(j / 2).0 - uy * probe_sin(j), HEADING_SCALE as int)
}

/// Fixed-point y-component of the heading probed at index `j`.
pub open spec fn cand_dir_y(ux: int, uy: int, j: int) -> int {
    tdiv(ux * probe_sin(j) + uy * spec_rot_coef(j / 2).0, HEADING_SCALE as int)
}

/// Far end of the probing ray for probe `j`: the candidate heading scaled
/// to the capped ray length.
pub open spec fn ray_end(pos: Vec2i, ux: int, uy: int, len: int, j: int) -> Vec2i {
    Vec2i {
        x: (pos.x + tdiv(cand_dir_x(ux, uy, j) * len, HEADING_SCALE as int)) as i64,
        y: (pos.y + tdiv(cand_dir_y(ux, uy, j) * len, HEADING_SCALE as int)) as i64,
    }
}

/// Probe `j` is clear: its ray crosses no obstacle box.
pub open spec fn probe_clear(
    obs: Seq<Collidable>,
    pos: Vec2i,
    ux: int,
    uy: int,
    len: int,
    j: int,
) -> bool {
    forall|t: int|
        0 <= t < obs.len() ==> !(#[trigger] obs[t]).segment_hits(pos, ray_end(pos, ux, uy, len, j))
}

/// Index of the first clear probe at or after `j`, scanning the fan in
/// probe order, or `None` when every probe up to the fan's width is blocked.
pub open spec fn first_clear_from(
    obs: Seq<Collidable>,
    pos: Vec2i,
    ux: int,
    uy: int,
    len: int,
    j: int,
) -> Option<int>
    decreases 2 * MAX_FAN_STEPS - j,
{
    if j < 0 || j >= 2 * MAX_FAN_STEPS {
        None
    } else if probe_clear(obs, pos, ux, uy, len, j) {
        Some(j)
    } else {
        first_clear_from(obs, pos, ux, uy, len, j + 1)
    }
}

/// The first clear probe is clear, and everything before it is blocked.
pub proof fn lemma_first_clear_correct(
    obs: Seq<Collidable>,
    pos: Vec2i,
    ux: int,
    uy: int,
    len: int,
    j0: int,
    j: int,
)
    requires
        0 <= j0,
        first_clear_from(obs, pos, ux, uy, len, j0) == Some(j),
    ensures
        j0 <= j < 2 * MAX_FAN_STEPS,
        probe_clear(obs, pos, ux, uy, len, j),
        forall|jj: int| j0 <= jj < j ==> !probe_clear(obs, pos, ux, uy, len, jj),
    decreases 2 * MAX_FAN_STEPS - j0,
{
    if !probe_clear(obs, pos, ux, uy, len, j0) {
        lemma_first_clear_correct(obs, pos, ux, uy, len, j0 + 1, j);
    }
}

/// Scanning from the start is the same as scanning from `j` when every
/// probe before `j` is blocked.
proof fn lemma_first_clear_steps(
    obs: Seq<Collidable>,
    pos: Vec2i,
    ux: int,
    uy: int,
    len: int,
    j: int,
)
    requires
        0 <= j <= 2 * MAX_FAN_STEPS,
        forall|jj: int| 0 <= jj < j ==> !probe_clear(obs, pos, ux, uy, len, jj),
    ensures
        first_clear_from(obs, pos, ux, uy, len, 0) == first_clear_from(obs, pos, ux, uy, len, j),
    decreases j,
{
    if j > 0 {
        lemma_first_clear_steps(obs, pos, ux, uy, len, j - 1);
    }
}

/// Velocity of the candidate heading at probe `j`, scaled to `speed`.
pub open spec fn spec_cand_vel(ux: int, uy: int, speed: int, j: int) -> Vec2i {
    Vec2i {
        x: tdiv(cand_dir_x(ux, uy, j) * speed, HEADING_SCALE as int) as i64,
        y: tdiv(cand_dir_y(ux, uy, j) * speed, HEADING_SCALE as int) as i64,
    }
}

/// Velocity of direct pursuit: the displacement normalised by its length
/// and scaled to `speed`, all in truncating integer arithmetic.
pub open spec fn spec_direct_vel(dx: int, dy: int, dist: int, speed: int) -> Vec2i {
    Vec2i {
        x: tdiv(dx * speed, dist) as i64,
        y: tdiv(dy * speed, dist) as i64,
    }
}

/// The steering decision as a function of the tick's state.
///
/// No player, or a chaser exactly on the player, gives zero velocity.
/// Direct pursuit scales the normalised displacement to full speed.
/// Avoidance takes the first clear probe of the fan, or decides nothing
/// (`None`) when all probes are blocked.
pub open spec fn spec_steer(
    ai: YetiAi,
    pos: Vec2i,
    speed: int,
    player: Option<Vec2i>,
    obs: Seq<Collidable>,
) -> Option<Vec2i> {
    match player {
        None => Some(Vec2i { x: 0, y: 0 }),
        Some(p) => if p == pos {
            Some(Vec2i { x: 0, y: 0 })
        } else {
            let dx = p.x - pos.x;
            let dy = p.y - pos.y;
            let dist = spec_sqrt(dx * dx + dy * dy);
            match ai {
                YetiAi::ChaseDirect => Some(spec_direct_vel(dx, dy, dist, speed)),
                YetiAi::ChaseAvoidObstacles => {
                    let ux = tdiv(dx * HEADING_SCALE, dist);
                    let uy = tdiv(dy * HEADING_SCALE, dist);
                    let len = if dist <= RAY_LENGTH {
                        dist
                    } else {
                        RAY_LENGTH as int
                    };
                    match first_clear_from(obs, pos, ux, uy, len, 0) {
                        Some(j) => Some(spec_cand_vel(ux, uy, speed, j)),
                        None => None,
                    }
                },
            }
        },
    }
}

/// Compute the chaser's desired velocity for this tick.
///
/// Returns `None` exactly when avoidance found every probe of the fan
/// blocked; the caller then leaves the chaser's velocity untouched.
#[verifier::rlimit(80)]
pub fn yeti_ai(
    ai: &YetiAi,
    yeti_pos: Vec2i,
    yeti_speed: i64,
    player_pos: Option<Vec2i>,
    obstacles: &Vec<Collidable>,
) -> (vel: Option<Vec2i>)
    requires
        -POS_LIMIT <= yeti_pos.x <= POS_LIMIT,
        -POS_LIMIT <= yeti_pos.y <= POS_LIMIT,
        player_pos matches Some(p) ==> -POS_LIMIT <= p.x <= POS_LIMIT && -POS_LIMIT <= p.y
            <= POS_LIMIT,
        0 < yeti_speed <= SPEED_LIMIT,
        forall|t: int| 0 <= t < obstacles@.len() ==> (#[trigger] obstacles@[t]).wf(),
    ensures
        vel == spec_steer(*ai, yeti_pos, yeti_speed as int, player_pos, obstacles@),
{
    let player: Vec2i = match player_pos {
        Some(p) => p,
        None => {
            return Some(Vec2i { x: 0, y: 0 });
        },
    };
    if player == yeti_pos {
        return Some(Vec2i { x: 0, y: 0 });
    }
    let dx: i64 = player.x - yeti_pos.x;
    let dy: i64 = player.y - yeti_pos.y;
    let adx: u64 = if dx < 0 {
        (-dx) as u64
    } else {
        dx as u64
    };
    let ady: u64 = if dy < 0 {
        (-dy) as u64
    } else {
        dy as u64
    };
    proof {
        assert(adx as int * adx as int == dx as int * dx as int && adx as int * adx as int
            <= 640_000_000_000) by (nonlinear_arith)
            requires
                adx as int == if dx < 0 {
                    -(dx as int)
                } else {
                    dx as int
                },
                -800_000 <= dx as int <= 800_000,
        ;
        assert(ady as int * ady as int == dy as int * dy as int && ady as int * ady as int
            <= 640_000_000_000) by (nonlinear_arith)
            requires
                ady as int == if dy < 0 {
                    -(dy as int)
                } else {
                    dy as int
                },
                -800_000 <= dy as int <= 800_000,
        ;
        assert(adx as int * adx as int + ady as int * ady as int >= 1) by (nonlinear_arith)
            requires
                adx >= 1 || ady >= 1,
                adx >= 0,
                ady >= 0,
        ;
    }
    let n: u64 = adx * adx + ady * ady;
    let dist_u: u64 = isqrt_u64(n);
    proof {
        lemma_sqrt_unique(n as int, dist_u as int);
        assert(dist_u >= 1) by {
            if dist_u == 0 {
                assert(n < (0 + 1) * (0 + 1));
            }
        }
        assert(dist_u <= 2_000_000) by (nonlinear_arith)
            requires
                dist_u as int * dist_u as int <= n as int,
                n <= 1_280_000_000_000,
                dist_u >= 0,
        ;
        assert((dx as int * dx as int) < ((dist_u as int + 1) * (dist_u as int + 1))
            && (dy as int * dy as int) < ((dist_u as int + 1) * (dist_u as int + 1)))
            by (nonlinear_arith)
            requires
                adx as int * adx as int == dx as int * dx as int,
                ady as int * ady as int == dy as int * dy as int,
                adx as int * adx as int >= 0,
                ady as int * ady as int >= 0,
                n as int == adx as int * adx as int + ady as int * ady as int,
                n < (dist_u as int + 1) * (dist_u as int + 1),
        ;
        lemma_sq_lt(dx as int, dist_u as int + 1);
        lemma_sq_lt(dy as int, dist_u as int + 1);
    }
    let dist: i64 = dist_u as i64;
    match ai {
        YetiAi::ChaseDirect => {
            proof {
                lemma_mul_bound(dx as int, yeti_speed as int, 800_000, SPEED_LIMIT as int);
                lemma_mul_bound(dy as int, yeti_speed as int, 800_000, SPEED_LIMIT as int);
            }
            let vx: i64 = div_trunc_i64(dx * yeti_speed, dist);
            let vy: i64 = div_trunc_i64(dy * yeti_speed, dist);
            Some(Vec2i { x: vx, y: vy })
        },
        YetiAi::ChaseAvoidObstacles => {
            proof {
                lemma_mul_bound(dx as int, HEADING_SCALE as int, 800_000, HEADING_SCALE as int);
                lemma_mul_bound(dy as int, HEADING_SCALE as int, 800_000, HEADING_SCALE as int);
                assert(-((HEADING_SCALE as int) * (dist as int)) <= (dx as int) * (HEADING_SCALE
                    as int) && (dx as int) * (HEADING_SCALE as int) <= (HEADING_SCALE as int) * (
                dist as int)) by (nonlinear_arith)
                    requires
                        -(dist as int) <= dx as int <= dist as int,
                        dist >= 1,
                        HEADING_SCALE == 10_000,
                ;
                assert(-((HEADING_SCALE as int) * (dist as int)) <= (dy as int) * (HEADING_SCALE
                    as int) && (dy as int) * (HEADING_SCALE as int) <= (HEADING_SCALE as int) * (
                dist as int)) by (nonlinear_arith)
                    requires
                        -(dist as int) <= dy as int <= dist as int,
                        dist >= 1,
                        HEADING_SCALE == 10_000,
                ;
            }
            let ux: i64 = div_trunc_i64(dx * HEADING_SCALE, dist);
            let uy: i64 = div_trunc_i64(dy * HEADING_SCALE, dist);
            proof {
                lemma_tdiv_bound(
                    dx as int * HEADING_SCALE as int,
                    dist as int,
                    HEADING_SCALE as int,
                );
                lemma_tdiv_bound(
                    dy as int * HEADING_SCALE as int,
                    dist as int,
                    HEADING_SCALE as int,
                );
            }
            let len: i64 = min_i64(dist, RAY_LENGTH);
            let ghost sdx: int = player.x - yeti_pos.x;
            let ghost sdy: int = player.y - yeti_pos.y;
            let ghost sdist: int = spec_sqrt(sdx * sdx + sdy * sdy);
            let mut j: usize = 0;
            while j < 32
                invariant
                    0 <= j <= 32,
                    player_pos == Some(player),
                    !(player == yeti_pos),
                    *ai == YetiAi::ChaseAvoidObstacles,
                    sdx == player.x - yeti_pos.x,
                    sdy == player.y - yeti_pos.y,
                    sdist == spec_sqrt(sdx * sdx + sdy * sdy),
                    ux as int == tdiv(sdx * HEADING_SCALE, sdist),
                    uy as int == tdiv(sdy * HEADING_SCALE, sdist),
                    len as int == (if sdist <= RAY_LENGTH {
                        sdist
                    } else {
                        RAY_LENGTH as int
                    }),
                    forall|t: int| 0 <= t < obstacles@.len() ==> (#[trigger] obstacles@[t]).wf(),
                    -POS_LIMIT <= yeti_pos.x <= POS_LIMIT,
                    -POS_LIMIT <= yeti_pos.y <= POS_LIMIT,
                    -HEADING_SCALE <= ux <= HEADING_SCALE,
                    -HEADING_SCALE <= uy <= HEADING_SCALE,
                    1 <= len <= RAY_LENGTH,
                    0 < yeti_speed <= SPEED_LIMIT,
                    forall|jj: int|
                        0 <= jj < j ==> !probe_clear(
                            obstacles@,
                            yeti_pos,
                            ux as int,
                            uy as int,
                            len as int,
                            jj,
                        ),
                decreases 32 - j,
            {
                let ii: usize = j / 2;
                let (cc, ss0) = rot_coef(ii);
                let ss: i64 = if j % 2 == 0 {
                    ss0
                } else {
                    -ss0
                };
                proof {
                    lemma_rot_coef_bounds(ii as int);
                    assert(ii as int == (j as int) / 2);
                    assert(ss as int == probe_sin(j as int));
                    lemma_mul_bound(ux as int, cc as int, HEADING_SCALE as int, HEADING_SCALE as int);
                    lemma_mul_bound(uy as int, ss as int, HEADING_SCALE as int, HEADING_SCALE as int);
                    lemma_mul_bound(ux as int, ss as int, HEADING_SCALE as int, HEADING_SCALE as int);
                    lemma_mul_bound(uy as int, cc as int, HEADING_SCALE as int, HEADING_SCALE as int);
                }
                let numx: i64 = ux * cc - uy * ss;
                let numy: i64 = ux * ss + uy * cc;
                proof {
                    lemma_tdiv_bound(numx as int, HEADING_SCALE as int, 20_000);
                    lemma_tdiv_bound(numy as int, HEADING_SCALE as int, 20_000);
                }
                let rx: i64 = div_trunc_i64(numx, HEADING_SCALE);
                let ry: i64 = div_trunc_i64(numy, HEADING_SCALE);
                proof {
                    assert(rx as int == cand_dir_x(ux as int, uy as int, j as int));
                    assert(ry as int == cand_dir_y(ux as int, uy as int, j as int));
                    lemma_mul_bound(rx as int, len as int, 20_000, RAY_LENGTH as int);
                    lemma_mul_bound(ry as int, len as int, 20_000, RAY_LENGTH as int);
                    lemma_tdiv_bound(rx as int * len as int, HEADING_SCALE as int, 800);
                    lemma_tdiv_bound(ry as int * len as int, HEADING_SCALE as int, 800);
                }
                let ex: i64 = yeti_pos.x + div_trunc_i64(rx * len, HEADING_SCALE);
                let ey: i64 = yeti_pos.y + div_trunc_i64(ry * len, HEADING_SCALE);
                let endp = Vec2i { x: ex, y: ey };
                proof {
                    assert(endp == ray_end(
                        yeti_pos,
                        ux as int,
                        uy as int,
                        len as int,
                        j as int,
                    ));
                    assert(endp.in_bounds());
                    assert(yeti_pos.in_bounds());
                }
                let mut blocked: bool = false;
                let mut oi: usize = 0;
                while oi < obstacles.len()
                    invariant_except_break
                        0 <= oi <= obstacles@.len(),
                        !blocked,
                        forall|t: int|
                            0 <= t < obstacles@.len() ==> (#[trigger] obstacles@[t]).wf(),
                        yeti_pos.in_bounds(),
                        endp.in_bounds(),
                        forall|t: int|
                            0 <= t < oi ==> !(#[trigger] obstacles@[t]).segment_hits(
                                yeti_pos,
                                endp,
                            ),
                    ensures
                        blocked ==> exists|t: int|
                            0 <= t < obstacles@.len() && (#[trigger] obstacles@[t]).segment_hits(
                                yeti_pos,
                                endp,
                            ),
                        !blocked ==> forall|t: int|
                            0 <= t < obstacles@.len() ==> !(
                            #[trigger] obstacles@[t]).segment_hits(yeti_pos, endp),
                    decreases obstacles@.len() - oi,
                {
                    if obstacles[oi].intersect_line(yeti_pos, endp).is_some() {
                        blocked = true;
                        break ;
                    }
                    oi = oi + 1;
                }
                if !blocked {
                    proof {
                        assert(probe_clear(
                            obstacles@,
                            yeti_pos,
                            ux as int,
                            uy as int,
                            len as int,
                            j as int,
                        ));
                        lemma_first_clear_steps(
                            obstacles@,
                            yeti_pos,
                            ux as int,
                            uy as int,
                            len as int,
                            j as int,
                        );
                        lemma_mul_bound(rx as int, yeti_speed as int, 20_000, SPEED_LIMIT as int);
                        lemma_mul_bound(ry as int, yeti_speed as int, 20_000, SPEED_LIMIT as int);
                        assert(first_clear_from(
                            obstacles@,
                            yeti_pos,
                            ux as int,
                            uy as int,
                            len as int,
                            0,
                        ) == Some(j as int));
                    }
                    let vx: i64 = div_trunc_i64(rx * yeti_speed, HEADING_SCALE);
                    let vy: i64 = div_trunc_i64(ry * yeti_speed, HEADING_SCALE);
                    return Some(Vec2i { x: vx, y: vy });
                }
                proof {
                    assert(!probe_clear(
                        obstacles@,
                        yeti_pos,
                        ux as int,
                        uy as int,
                        len as int,
                        j as int,
                    )) by {
                        let t = choose|t: int|
                            0 <= t < obstacles@.len() && (#[trigger] obstacles@[t]).segment_hits(
                                yeti_pos,
                                endp,
                            );
                        assert(obstacles@[t].segment_hits(
                            yeti_pos,
                            ray_end(yeti_pos, ux as int, uy as int, len as int, j as int),
                        ));
                    }
                }
                j = j + 1;
            }
            proof {
                lemma_first_clear_steps(
                    obstacles@,
                    yeti_pos,
                    ux as int,
                    uy as int,
                    len as int,
                    32,
                );
            }
            None
        },
    }
}

/// What the spawn schedule asks the world to do this tick.
#[derive(Clone, Copy, PartialEq, Eq, Structural, Debug)]
pub enum YetiSpawnAction {
    /// Lay a trail of footsteps across the slope at height `y`, from
    /// `from_x` to `to_x`.
    PlaceSteps { y: i64, from_x: i64, to_x: i64 },
    /// Bring the chaser itself into the world at `(x, y)`, steering in
    /// the given mode.
    PlaceYeti { x: i64, y: i64, ai: YetiAi },
    Nothing,
}

/// Advance the spawn schedule by one tick.
///
/// Nothing happens until the phase timer finishes. Then the schedule steps
/// through its phases: idle first, then a footstep trail one viewport below
/// the camera, then the chaser itself at the right viewport edge at a
/// random height of the upper half, where it stays completed. The timer is
/// restarted on every processed phase, and the step phase shortens it.
pub fn update_spawner(
    spawner: &mut YetiSpawner,
    delta_ms: u64,
    camera_x: i64,
    camera_y: i64,
    window_width: i64,
    window_height: i64,
) -> (action: YetiSpawnAction)
    requires
        old(spawner).timer.wf(),
        delta_ms <= DURATION_LIMIT_MS,
        96 <= window_height <= 1_000_000,
        1 <= window_width <= 1_000_000,
        -100_000_000 <= camera_x <= 100_000_000,
        -100_000_000 <= camera_y <= 100_000_000,
    ensures
        final(spawner).timer.wf(),
        ({
            let ticked = old(spawner).timer.spec_after_tick(delta_ms);
            if !ticked.spec_finished() {
                &&& final(spawner).timer == ticked
                &&& final(spawner).phase == old(spawner).phase
                &&& action is Nothing
            } else {
                match old(spawner).phase {
                    YetiSpawnPhase::Idle => {
                        &&& final(spawner).phase == YetiSpawnPhase::Step
                        &&& action is Nothing
                        &&& final(spawner).timer.elapsed_ms == 0
                        &&& final(spawner).timer.duration_ms == ticked.duration_ms
                    },
                    YetiSpawnPhase::Step => {
                        &&& final(spawner).phase == YetiSpawnPhase::Spawning
                        &&& action == (YetiSpawnAction::PlaceSteps {
                            y: (camera_y - window_height) as i64,
                            from_x: (-2 * window_width) as i64,
                            to_x: (2 * window_width) as i64,
                        })
                        &&& final(spawner).timer.elapsed_ms == 0
                        &&& final(spawner).timer.duration_ms == SPAWNER_STEP_MS
                    },
                    YetiSpawnPhase::Spawning => {
                        &&& final(spawner).phase == YetiSpawnPhase::Completed
                        &&& action matches YetiSpawnAction::PlaceYeti { x, y, ai } && x == camera_x
                            + window_width as int / 2 && camera_y <= y < camera_y + window_height
                            as int / 2 - 32 && ai == YetiAi::ChaseDirect
                        &&& final(spawner).timer.elapsed_ms == 0
                        &&& final(spawner).timer.duration_ms == ticked.duration_ms
                    },
                    YetiSpawnPhase::Completed => {
                        &&& final(spawner).phase == YetiSpawnPhase::Completed
                        &&& action is Nothing
                        &&& final(spawner).timer.elapsed_ms == 0
                        &&& final(spawner).timer.duration_ms == ticked.duration_ms
                    },
                }
            }
        }),
{
    spawner.timer.tick(delta_ms);
    if !spawner.timer.finished() {
        return YetiSpawnAction::Nothing;
    }
    let action: YetiSpawnAction = match spawner.phase {
        YetiSpawnPhase::Idle => {
            spawner.phase = YetiSpawnPhase::Step;
            YetiSpawnAction::Nothing
        },
        YetiSpawnPhase::Step => {
            spawner.phase = YetiSpawnPhase::Spawning;
            let act = YetiSpawnAction::PlaceSteps {
                y: camera_y - window_height,
                from_x: -2 * window_width,
                to_x: 2 * window_width,
            };
            spawner.timer.set_duration(SPAWNER_STEP_MS);
            act
        },
        YetiSpawnPhase::Spawning => {
            spawner.phase = YetiSpawnPhase::Completed;
            let half: i64 = ((window_height as u64) / 2) as i64;
            let off: i64 = crate::rng::rand_range(0, half - 32);
            YetiSpawnAction::PlaceYeti {
                x: camera_x + ((window_width as u64) / 2) as i64,
                y: camera_y + off,
                ai: YetiAi::ChaseDirect,
            }
        },
        YetiSpawnPhase::Completed => YetiSpawnAction::Nothing,
    };
    spawner.timer.reset();
    action
}

impl YetiSpawner {
    /// The schedule as it stands when a round begins: idle, with the long
    /// delay running.
    pub fn new() -> (s: YetiSpawner)
        ensures
            s.phase == YetiSpawnPhase::Idle,
            s.timer.duration_ms == SPAWNER_IDLE_MS,
            s.timer.elapsed_ms == 0,
            !s.timer.repeating,
            s.timer.wf(),
    {
        YetiSpawner { phase: YetiSpawnPhase::Idle, timer: TickTimer::new(SPAWNER_IDLE_MS, false) }
    }
}

} // verus!
