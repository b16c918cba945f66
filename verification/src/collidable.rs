//! Axis-aligned bounding boxes with offset centers.
//!
//! A box carries fixed half-extents and a fixed offset from its owner's
//! position; the four edges are recomputed from the owner's current position
//! once per tick. Overlap is non-strict: touching edges collide. The segment
//! query walks the four edges in the fixed order top, left, bottom, right and
//! reports the first edge the segment crosses.

use vstd::prelude::*;

verus! {

use crate::geom::{
    Vec2i,
    RatPoint,
    GEOM_BOUND,
    segments_cross,
    crossing_point,
    line_intersection,
};

/// Owner positions stay within this range.
pub const POS_LIMIT: i64 = 400_000;

/// Half-extents and center offsets stay within this range.
pub const SIZE_LIMIT: i64 = 50_000;

/// An axis-aligned collision box: fixed shape, edges recomputed per tick.
#[derive(Clone, Copy, PartialEq, Eq, Structural, Debug)]
pub struct Collidable {
    pub width_half: i64,
    pub height_half: i64,
    pub offset_x: i64,
    pub offset_y: i64,
    pub left: i64,
    pub top: i64,
    pub right: i64,
    pub bottom: i64,
}

impl Collidable {
    /// Shape parameters are in range.
    pub open spec fn shape_wf(self) -> bool {
        &&& 0 <= self.width_half <= SIZE_LIMIT
        &&& 0 <= self.height_half <= SIZE_LIMIT
        &&& -SIZE_LIMIT <= self.offset_x <= SIZE_LIMIT
        &&& -SIZE_LIMIT <= self.offset_y <= SIZE_LIMIT
    }

    /// The edges of the box recomputed for center position `(x, y)`.
    pub open spec fn recomputed(self, x: int, y: int) -> Collidable {
        Collidable {
            left: (x - self.width_half + self.offset_x) as i64,
            right: (x + self.width_half + self.offset_x) as i64,
            top: (y + self.height_half + self.offset_y) as i64,
            bottom: (y - self.height_half + self.offset_y) as i64,
            ..self
        }
    }

    /// Well-formed: shape in range, edges consistent with some position in
    /// range, hence ordered and within the geometric working bounds.
    pub open spec fn wf(self) -> bool {
        &&& self.shape_wf()
        &&& self.left <= self.right
        &&& self.bottom <= self.top
        &&& -GEOM_BOUND <= self.left
        &&& self.right <= GEOM_BOUND
        &&& -GEOM_BOUND <= self.bottom
        &&& self.top <= GEOM_BOUND
    }

    /// Non-strict axis-aligned overlap: the boxes collide unless they are
    /// separated along one of the two axes.
    pub open spec fn overlaps(self, other: Collidable) -> bool {
        !(self.right < other.left || other.right < self.left || self.bottom > other.top
            || other.bottom > self.top)
    }

    /// A box of the given shape, with edges computed for position `(x, y)`.
    pub fn new(
        x: i64,
        y: i64,
        width_half: i64,
        height_half: i64,
        offset_x: i64,
        offset_y: i64,
    ) -> (c: Collidable)
        requires
            -POS_LIMIT <= x <= POS_LIMIT,
            -POS_LIMIT <= y <= POS_LIMIT,
            0 <= width_half <= SIZE_LIMIT,
            0 <= height_half <= SIZE_LIMIT,
            -SIZE_LIMIT <= offset_x <= SIZE_LIMIT,
            -SIZE_LIMIT <= offset_y <= SIZE_LIMIT,
        ensures
            c.width_half == width_half,
            c.height_half == height_half,
            c.offset_x == offset_x,
            c.offset_y == offset_y,
            c == c.recomputed(x as int, y as int),
            c.wf(),
    {
        Collidable {
            width_half,
            height_half,
            offset_x,
            offset_y,
            left: x - width_half + offset_x,
            right: x + width_half + offset_x,
            top: y + height_half + offset_y,
            bottom: y - height_half + offset_y,
        }
    }

    /// Recompute the edges for the owner's new center position.
    pub fn update_center(&mut self, x: i64, y: i64)
        requires
            old(self).shape_wf(),
            -POS_LIMIT <= x <= POS_LIMIT,
            -POS_LIMIT <= y <= POS_LIMIT,
        ensures
            *final(self) == old(self).recomputed(x as int, y as int),
            final(self).wf(),
    {
        self.left = x - self.width_half + self.offset_x;
        self.right = x + self.width_half + self.offset_x;
        self.top = y + self.height_half + self.offset_y;
        self.bottom = y - self.height_half + self.offset_y;
    }

    /// Non-strict overlap test against another box.
    pub fn intersect(&self, other: &Collidable) -> (r: bool)
        ensures
            r == self.overlaps(*other),
    {
        !(self.right < other.left || other.right < self.left || self.bottom > other.top
            || other.bottom > self.top)
    }

    /// Corner points of the box.
    pub open spec fn corner_tl(self) -> Vec2i {
        Vec2i { x: self.left, y: self.top }
    }

    pub open spec fn corner_tr(self) -> Vec2i {
        Vec2i { x: self.right, y: self.top }
    }

    pub open spec fn corner_bl(self) -> Vec2i {
        Vec2i { x: self.left, y: self.bottom }
    }

    pub open spec fn corner_br(self) -> Vec2i {
        Vec2i { x: self.right, y: self.bottom }
    }

    /// The segment `p0..p1` crosses at least one edge of the box.
    pub open spec fn segment_hits(self, p0: Vec2i, p1: Vec2i) -> bool {
        ||| segments_cross(self.corner_tl(), self.corner_tr(), p0, p1)
        ||| segments_cross(self.corner_tl(), self.corner_bl(), p0, p1)
        ||| segments_cross(self.corner_bl(), self.corner_br(), p0, p1)
        ||| segments_cross(self.corner_tr(), self.corner_br(), p0, p1)
    }

    /// The crossing point of the first edge hit, in the fixed edge-check
    /// order top, left, bottom, right.
    pub open spec fn first_edge_hit(self, p0: Vec2i, p1: Vec2i) -> (int, int, int) {
        if segments_cross(self.corner_tl(), self.corner_tr(), p0, p1) {
            crossing_point(self.corner_tl(), self.corner_tr(), p0, p1)
        } else if segments_cross(self.corner_tl(), self.corner_bl(), p0, p1) {
            crossing_point(self.corner_tl(), self.corner_bl(), p0, p1)
        } else if segments_cross(self.corner_bl(), self.corner_br(), p0, p1) {
            crossing_point(self.corner_bl(), self.corner_br(), p0, p1)
        } else {
            crossing_point(self.corner_tr(), self.corner_br(), p0, p1)
        }
    }

    /// Test the segment `p0..p1` against the four edges of the box, in the
    /// order top, left, bottom, right, and return the first crossing found.
    pub fn intersect_line(&self, line_start: Vec2i, line_end: Vec2i) -> (r: Option<RatPoint>)
        requires
            self.wf(),
            line_start.in_bounds(),
            line_end.in_bounds(),
        ensures
            r is Some <==> self.segment_hits(line_start, line_end),
            r matches Some(p) ==> {
                &&& (p.x_num as int, p.y_num as int, p.den as int) == self.first_edge_hit(
                    line_start,
                    line_end,
                )
                &&& 0 < p.den <= 0x200_0000_0000
            },
    {
        let tl = Vec2i { x: self.left, y: self.top };
        let tr = Vec2i { x: self.right, y: self.top };
        let bl = Vec2i { x: self.left, y: self.bottom };
        let br = Vec2i { x: self.right, y: self.bottom };
        if let Some(intersection) = line_intersection(tl, tr, line_start, line_end) {
            return Some(intersection);
        }
        if let Some(intersection) = line_intersection(tl, bl, line_start, line_end) {
            return Some(intersection);
        }
        if let Some(intersection) = line_intersection(bl, br, line_start, line_end) {
            return Some(intersection);
        }
        if let Some(intersection) = line_intersection(tr, br, line_start, line_end) {
            return Some(intersection);
        }
        None
    }
}

/// Overlap is symmetric: A collides with B exactly when B collides with A.
pub proof fn lemma_overlap_symmetric(a: Collidable, b: Collidable)
    ensures
        a.overlaps(b) == b.overlaps(a),
{
}

/// Overlap is reflexive: every well-formed box collides with itself.
pub proof fn lemma_overlap_reflexive(a: Collidable)
    requires
        a.left <= a.right,
        a.bottom <= a.top,
    ensures
        a.overlaps(a),
{
}

/// Recomputing the edges is idempotent: recomputing twice for the same
/// position leaves exactly the box that one recompute produces.
pub proof fn lemma_recompute_idempotent(c: Collidable, x: int, y: int)
    ensures
        c.recomputed(x, y).recomputed(x, y) == c.recomputed(x, y),
{
}

} // verus!
