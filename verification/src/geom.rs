//! Planar points and the segment-against-segment intersection primitive.
//!
//! Positions are integer world coordinates. The parametric line-line test
//! is carried out exactly: the crossing parameters `t` and `u` are kept as
//! fractions over a common positive denominator, so no rounding ever decides
//! whether two segments touch. A parallel pair (zero denominator) reports no
//! intersection, also when the segments are collinear and overlap; that
//! conservative choice is part of the contract.

use vstd::prelude::*;

verus! {

use crate::num::lemma_mul_bound;

/// Coordinates handed to the geometric primitives stay within this bound,
/// so that every intermediate product of the exact intersection arithmetic
/// fits an `i64`.
pub const GEOM_BOUND: i64 = 500_000;

/// A point of the integer world plane.
#[derive(Clone, Copy, PartialEq, Eq, Structural, Debug)]
pub struct Vec2i {
    pub x: i64,
    pub y: i64,
}

/// An exact rational point: `(x_num / den, y_num / den)` with `den > 0`.
#[derive(Clone, Copy, PartialEq, Eq, Structural, Debug)]
pub struct RatPoint {
    pub x_num: i64,
    pub y_num: i64,
    pub den: i64,
}

impl Vec2i {
    /// Both coordinates lie within the geometric working range.
    pub open spec fn in_bounds(self) -> bool {
        -GEOM_BOUND <= self.x <= GEOM_BOUND && -GEOM_BOUND <= self.y <= GEOM_BOUND
    }

    pub fn new(x: i64, y: i64) -> (p: Vec2i)
        ensures
            p.x == x,
            p.y == y,
    {
        Vec2i { x, y }
    }
}

impl RatPoint {
    /// The exact point equals the integer point `(x, y)`.
    pub open spec fn is_point(self, x: int, y: int) -> bool {
        self.x_num == x * self.den && self.y_num == y * self.den
    }

    /// Whether this exact point is the integer point `(x, y)`.
    pub fn equals_int(&self, x: i64, y: i64) -> (r: bool)
        requires
            0 < self.den,
            -GEOM_BOUND <= x <= GEOM_BOUND,
            -GEOM_BOUND <= y <= GEOM_BOUND,
            -0x200_0000_0000 <= self.den <= 0x200_0000_0000,
        ensures
            r == self.is_point(x as int, y as int),
    {
        proof {
            lemma_mul_bound(x as int, self.den as int, GEOM_BOUND as int, 0x200_0000_0000);
            lemma_mul_bound(y as int, self.den as int, GEOM_BOUND as int, 0x200_0000_0000);
        }
        self.x_num == x * self.den && self.y_num == y * self.den
    }
}

/// Two-dimensional cross product of `(ax, ay)` and `(bx, by)`.
pub open spec fn cross2(ax: int, ay: int, bx: int, by: int) -> int {
    ax * by - ay * bx
}

/// Denominator of the parametric intersection of segment `a1..a2` with
/// segment `b1..b2`: the cross product of the two direction vectors.
pub open spec fn seg_den(a1: Vec2i, a2: Vec2i, b1: Vec2i, b2: Vec2i) -> int {
    cross2(a2.x - a1.x, a2.y - a1.y, b2.x - b1.x, b2.y - b1.y)
}

/// Numerator of the parameter `t` along `a1..a2` (before sign normalisation).
pub open spec fn seg_t_raw(a1: Vec2i, a2: Vec2i, b1: Vec2i, b2: Vec2i) -> int {
    cross2(b1.x - a1.x, b1.y - a1.y, b2.x - b1.x, b2.y - b1.y)
}

/// Numerator of the parameter `u` along `b1..b2` (before sign normalisation).
pub open spec fn seg_u_raw(a1: Vec2i, a2: Vec2i, b1: Vec2i, b2: Vec2i) -> int {
    cross2(b1.x - a1.x, b1.y - a1.y, a2.x - a1.x, a2.y - a1.y)
}

/// Sign that makes the common denominator positive.
pub open spec fn seg_sign(a1: Vec2i, a2: Vec2i, b1: Vec2i, b2: Vec2i) -> int {
    if seg_den(a1, a2, b1, b2) < 0 {
        -1
    } else {
        1
    }
}

/// The two segments properly cross: the directions are not parallel and both
/// parameters `t = tn/den` and `u = un/den` lie in `[0, 1]`.
pub open spec fn segments_cross(a1: Vec2i, a2: Vec2i, b1: Vec2i, b2: Vec2i) -> bool {
    let s = seg_sign(a1, a2, b1, b2);
    let den = s * seg_den(a1, a2, b1, b2);
    let tn = s * seg_t_raw(a1, a2, b1, b2);
    let un = s * seg_u_raw(a1, a2, b1, b2);
    seg_den(a1, a2, b1, b2) != 0 && 0 <= tn <= den && 0 <= un <= den
}

/// The exact crossing point `a1 + t * (a2 - a1)` as numerators over the
/// normalised denominator: `(x_num, y_num, den)`.
pub open spec fn crossing_point(a1: Vec2i, a2: Vec2i, b1: Vec2i, b2: Vec2i) -> (int, int, int) {
    let s = seg_sign(a1, a2, b1, b2);
    let den = s * seg_den(a1, a2, b1, b2);
    let tn = s * seg_t_raw(a1, a2, b1, b2);
    (a1.x * den + tn * (a2.x - a1.x), a1.y * den + tn * (a2.y - a1.y), den)
}

/// Exact parametric intersection of segment `a1..a2` with segment `b1..b2`.
///
/// Returns the crossing point as an exact rational, or `None` when the
/// segments are parallel or the crossing parameters fall outside `[0, 1]`.
pub fn line_intersection(a1: Vec2i, a2: Vec2i, b1: Vec2i, b2: Vec2i) -> (r: Option<RatPoint>)
    requires
        a1.in_bounds(),
        a2.in_bounds(),
        b1.in_bounds(),
        b2.in_bounds(),
    ensures
        r is Some <==> segments_cross(a1, a2, b1, b2),
        r matches Some(p) ==> {
            &&& (p.x_num as int, p.y_num as int, p.den as int) == crossing_point(a1, a2, b1, b2)
            &&& 0 < p.den <= 0x200_0000_0000
        },
{
    let bx: i64 = a2.x - a1.x;
    let by: i64 = a2.y - a1.y;
    let dx: i64 = b2.x - b1.x;
    let dy: i64 = b2.y - b1.y;
    let cx: i64 = b1.x - a1.x;
    let cy: i64 = b1.y - a1.y;
    proof {
        lemma_mul_bound(bx as int, dy as int, 0x10_0000, 0x10_0000);
        lemma_mul_bound(by as int, dx as int, 0x10_0000, 0x10_0000);
        lemma_mul_bound(cx as int, dy as int, 0x10_0000, 0x10_0000);
        lemma_mul_bound(cy as int, dx as int, 0x10_0000, 0x10_0000);
        lemma_mul_bound(cx as int, by as int, 0x10_0000, 0x10_0000);
        lemma_mul_bound(cy as int, bx as int, 0x10_0000, 0x10_0000);
    }
    let den0: i64 = bx * dy - by * dx;
    if den0 == 0 {
        return None;
    }
    let t0: i64 = cx * dy - cy * dx;
    let u0: i64 = cx * by - cy * bx;
    let den: i64 = if den0 < 0 {
        -den0
    } else {
        den0
    };
    let tn: i64 = if den0 < 0 {
        -t0
    } else {
        t0
    };
    let un: i64 = if den0 < 0 {
        -u0
    } else {
        u0
    };
    if tn < 0 || tn > den {
        return None;
    }
    if un < 0 || un > den {
        return None;
    }
    proof {
        lemma_mul_bound(a1.x as int, den as int, GEOM_BOUND as int, 0x200_0000_0000);
        lemma_mul_bound(a1.y as int, den as int, GEOM_BOUND as int, 0x200_0000_0000);
        lemma_mul_bound(tn as int, bx as int, 0x200_0000_0000, 0x10_0000);
        lemma_mul_bound(tn as int, by as int, 0x200_0000_0000, 0x10_0000);
    }
    let xn: i64 = a1.x * den + tn * bx;
    let yn: i64 = a1.y * den + tn * by;
    Some(RatPoint { x_num: xn, y_num: yn, den })
}

} // verus!
