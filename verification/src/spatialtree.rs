//! A uniform-grid spatial index of entity handles.
//!
//! World space is cut into square tiles; every registered entity handle is
//! recorded in each tile its square footprint touches. The index is an
//! association list from tile coordinates to handle lists, with each tile
//! recorded at most once; tile coordinates come from truncating division,
//! rounding toward zero.

use vstd::prelude::*;

verus! {

use crate::num::{tdiv, div_trunc_i64};
use crate::geom::Vec2i;
use vstd::pervasive::VecAdditionalExecFns;

/// The predicate that strikes handle `e`: every other handle stays.
pub open spec fn without_handle(e: u64) -> spec_fn(u64) -> bool {
    |v: u64| v != e
}

/// Radius used by the index's consumers when querying around a point.
pub const SPATIAL_TREE_SEARCH_RADIUS: i64 = 100;

/// Positions and footprint sizes handed to the index stay in this range.
pub const SPATIAL_LIMIT: i64 = 1_000_000_000;

/// Largest accepted tile side.
pub const TILE_LIMIT: i64 = 1_000_000;

/// The grid index: the tile side and the per-tile handle lists.
#[derive(Debug)]
pub struct SpatialTree {
    pub tile_size: i64,
    grid: Vec<((i64, i64), Vec<u64>)>,
}

/// Tile `(a, b)` is touched by the square footprint of size `size` anchored
/// at `(x, y)`: the tile rectangle spanned by the four corner tiles of the
/// footprint, which reaches `size` to the right of `x` and `size` below `y`.
pub open spec fn in_affected_rect(a: int, b: int, x: int, y: int, size: int, tile: int) -> bool {
    &&& tdiv(x, tile) <= a <= tdiv(x + size, tile)
    &&& tdiv(y - size, tile) <= b <= tdiv(y, tile)
}

/// The affected tile rectangle is ordered and numerically bounded.
proof fn lemma_rect_bounds(x: int, y: int, size: int, tile: int)
    requires
        -SPATIAL_LIMIT <= x <= SPATIAL_LIMIT,
        -SPATIAL_LIMIT <= y <= SPATIAL_LIMIT,
        0 <= size <= SPATIAL_LIMIT,
        0 < tile <= TILE_LIMIT,
    ensures
        tdiv(x, tile) <= tdiv(x + size, tile),
        tdiv(y - size, tile) <= tdiv(y, tile),
        -2_000_000_000 <= tdiv(x, tile) <= 2_000_000_000,
        -2_000_000_000 <= tdiv(x + size, tile) <= 2_000_000_000,
        -2_000_000_000 <= tdiv(y - size, tile) <= 2_000_000_000,
        -2_000_000_000 <= tdiv(y, tile) <= 2_000_000_000,
{
    crate::num::lemma_tdiv_monotone(x, x + size, tile);
    crate::num::lemma_tdiv_monotone(y - size, y, tile);
    assert(2_000_000_000 * tile >= 2_000_000_000) by (nonlinear_arith)
        requires
            tile >= 1,
    ;
    crate::num::lemma_tdiv_bound(x, tile, 2_000_000_000);
    crate::num::lemma_tdiv_bound(x + size, tile, 2_000_000_000);
    crate::num::lemma_tdiv_bound(y - size, tile, 2_000_000_000);
    crate::num::lemma_tdiv_bound(y, tile, 2_000_000_000);
}

/// The handles of one column of tiles: rows `gy` through `gy_max` of
/// column `gx`, in row order.
pub open spec fn tiles_concat_col(t: SpatialTree, gx: int, gy: int, gy_max: int) -> Seq<u64>
    decreases gy_max + 1 - gy,
{
    if gy > gy_max {
        Seq::empty()
    } else {
        t.at(gx, gy) + tiles_concat_col(t, gx, gy + 1, gy_max)
    }
}

/// The handles of a tile rectangle: columns `gx` through `gx_max`, each
/// column's rows `gy_min` through `gy_max`, column by column.
pub open spec fn tiles_concat(
    t: SpatialTree,
    gx: int,
    gx_max: int,
    gy_min: int,
    gy_max: int,
) -> Seq<u64>
    decreases gx_max + 1 - gx,
{
    if gx > gx_max {
        Seq::empty()
    } else {
        tiles_concat_col(t, gx, gy_min, gy_max) + tiles_concat(t, gx + 1, gx_max, gy_min, gy_max)
    }
}

/// A column's concatenation grows at its end: extending the row range by
/// one appends that tile's list.
proof fn lemma_col_concat_snoc(t: SpatialTree, gx: int, gy_min: int, gy: int)
    requires
        gy_min <= gy,
    ensures
        tiles_concat_col(t, gx, gy_min, gy) == tiles_concat_col(t, gx, gy_min, gy - 1) + t.at(
            gx,
            gy,
        ),
    decreases gy - gy_min,
{
    reveal_with_fuel(tiles_concat_col, 3);
    if gy == gy_min {
        assert(tiles_concat_col(t, gx, gy_min, gy) =~= tiles_concat_col(t, gx, gy_min, gy - 1)
            + t.at(gx, gy));
    } else {
        lemma_col_concat_snoc(t, gx, gy_min + 1, gy);
        assert(tiles_concat_col(t, gx, gy_min, gy) =~= tiles_concat_col(t, gx, gy_min, gy - 1)
            + t.at(gx, gy));
    }
}

/// A rectangle's concatenation grows at its end: extending the column
/// range by one appends that column's concatenation.
proof fn lemma_rect_concat_snoc(t: SpatialTree, gx_min: int, gx: int, gy_min: int, gy_max: int)
    requires
        gx_min <= gx,
    ensures
        tiles_concat(t, gx_min, gx, gy_min, gy_max) == tiles_concat(
            t,
            gx_min,
            gx - 1,
            gy_min,
            gy_max,
        ) + tiles_concat_col(t, gx, gy_min, gy_max),
    decreases gx - gx_min,
{
    reveal_with_fuel(tiles_concat, 3);
    if gx == gx_min {
        assert(tiles_concat(t, gx_min, gx, gy_min, gy_max) =~= tiles_concat(
            t,
            gx_min,
            gx - 1,
            gy_min,
            gy_max,
        ) + tiles_concat_col(t, gx, gy_min, gy_max));
    } else {
        lemma_rect_concat_snoc(t, gx_min + 1, gx, gy_min, gy_max);
        assert(tiles_concat(t, gx_min, gx, gy_min, gy_max) =~= tiles_concat(
            t,
            gx_min,
            gx - 1,
            gy_min,
            gy_max,
        ) + tiles_concat_col(t, gx, gy_min, gy_max));
    }
}

impl SpatialTree {
    /// The stored association list.
    pub closed spec fn entries(self) -> Seq<((i64, i64), Vec<u64>)> {
        self.grid@
    }

    /// The tile side, for use in contracts.
    pub closed spec fn spec_tile_size(self) -> int {
        self.tile_size as int
    }

    /// Some entry is recorded for tile `(a, b)`.
    pub open spec fn has_key(self, a: int, b: int) -> bool {
        exists|i: int|
            0 <= i < self.entries().len() && (#[trigger] self.entries()[i]).0 == (
            a as i64,
            b as i64,
            )
    }

    /// The handles recorded in tile `(a, b)`; empty when none are.
    pub open spec fn at(self, a: int, b: int) -> Seq<u64> {
        if self.has_key(a, b) {
            self.entries()[choose|i: int|
                0 <= i < self.entries().len() && (#[trigger] self.entries()[i]).0 == (
                a as i64,
                b as i64,
                )].1@
        } else {
            Seq::<u64>::empty()
        }
    }

    /// Internal invariant: the tile side is in range and every tile is
    /// recorded at most once.
    pub open spec fn wf(self) -> bool {
        &&& 0 < self.spec_tile_size() <= TILE_LIMIT
        &&& forall|i: int, j: int|
            0 <= i < j < self.entries().len() ==> (#[trigger] self.entries()[i]).0 != (
            #[trigger] self.entries()[j]).0
    }

    /// An empty index over tiles of the given side.
    pub fn new(tile_size: i64) -> (t: SpatialTree)
        requires
            0 < tile_size <= TILE_LIMIT,
        ensures
            t.wf(),
            t.spec_tile_size() == tile_size,
            forall|a: int, b: int| #[trigger] t.at(a, b) == Seq::<u64>::empty(),
    {
        let t = SpatialTree { tile_size, grid: Vec::new() };
        proof {
            assert forall|a: int, b: int| #[trigger] t.at(a, b) == Seq::<u64>::empty() by {
                assert(!t.has_key(a, b));
            }
        }
        t
    }

    /// The tile coordinate a world coordinate falls in, rounding toward
    /// zero.
    pub fn loc_to_tile(&self, loc: i64) -> (g: i64)
        requires
            self.wf(),
            loc > i64::MIN,
        ensures
            g == tdiv(loc as int, self.spec_tile_size()),
    {
        div_trunc_i64(loc, self.tile_size)
    }

    /// The inclusive tile rectangle touched by a square footprint of side
    /// `size` anchored at `(x, y)`: minimum x-tile, minimum y-tile,
    /// maximum x-tile, maximum y-tile.
    pub fn get_affected_tiles(&self, x: i64, y: i64, size: i64) -> (r: (i64, i64, i64, i64))
        requires
            self.wf(),
            -SPATIAL_LIMIT <= x <= SPATIAL_LIMIT,
            -SPATIAL_LIMIT <= y <= SPATIAL_LIMIT,
            0 <= size <= SPATIAL_LIMIT,
        ensures
            r.0 == tdiv(x as int, self.spec_tile_size()),
            r.1 == tdiv(y as int - size as int, self.spec_tile_size()),
            r.2 == tdiv(x as int + size as int, self.spec_tile_size()),
            r.3 == tdiv(y as int, self.spec_tile_size()),
    {
        (
            div_trunc_i64(x, self.tile_size),
            div_trunc_i64(y - size, self.tile_size),
            div_trunc_i64(x + size, self.tile_size),
            div_trunc_i64(y, self.tile_size),
        )
    }

    /// Index of the entry recorded for tile `(a, b)`, if any.
    fn find_key(&self, a: i64, b: i64) -> (r: Option<usize>)
        ensures
            r matches Some(i) ==> i < self.entries().len() && self.entries()[i as int].0 == (a, b),
            r is None ==> forall|i: int|
                0 <= i < self.entries().len() ==> (#[trigger] self.entries()[i]).0 != (a, b),
    {
        let mut k: usize = 0;
        while k < self.grid.len()
            invariant
                0 <= k <= self.grid@.len(),
                forall|i: int| 0 <= i < k ==> (#[trigger] self.grid@[i]).0 != (a, b),
            decreases self.grid@.len() - k,
        {
            if self.grid[k].0.0 == a && self.grid[k].0.1 == b {
                return Some(k);
            }
            k = k + 1;
        }
        None
    }

    /// A recorded entry determines the tile's handle list.
    proof fn lemma_at_entry(self, a: int, b: int, i: int)
        requires
            self.wf(),
            0 <= i < self.entries().len(),
            self.entries()[i].0 == (a as i64, b as i64),
        ensures
            self.has_key(a, b),
            self.at(a, b) == self.entries()[i].1@,
    {
        assert(self.has_key(a, b));
        let j = choose|j: int|
            0 <= j < self.entries().len() && (#[trigger] self.entries()[j]).0 == (
            a as i64,
            b as i64,
            );
        if i < j {
            assert(self.entries()[i].0 != self.entries()[j].0);
        } else if j < i {
            assert(self.entries()[j].0 != self.entries()[i].0);
        }
    }

    /// Record handle `e` in tile `(a, b)`.
    fn entry_push(&mut self, a: i64, b: i64, e: u64)
        requires
            old(self).wf(),
        ensures
            final(self).wf(),
            final(self).spec_tile_size() == old(self).spec_tile_size(),
            forall|p: i64, q: i64| #![trigger final(self).at(p as int, q as int)]
                final(self).at(p as int, q as int) == if p == a && q == b {
                    old(self).at(p as int, q as int).push(e)
                } else {
                    old(self).at(p as int, q as int)
                },
    {
        let found = self.find_key(a, b);
        match found {
            Some(i) => {
                let mut taken: ((i64, i64), Vec<u64>) = ((0, 0), Vec::new());
                self.grid.set_and_swap(i, &mut taken);
                let (key, mut items) = taken;
                items.push(e);
                self.grid.set(i, (key, items));
                proof {
                    let oldt = *old(self);
                    assert(self.entries() =~= oldt.entries().update(
                        i as int,
                        ((a, b), self.entries()[i as int].1),
                    ));
                    assert(self.entries()[i as int].1@ == oldt.entries()[i as int].1@.push(e));
                    assert forall|p: i64, q: i64|
                        final(self).at(p as int, q as int) == if p == a && q == b {
                            oldt.at(p as int, q as int).push(e)
                        } else {
                            oldt.at(p as int, q as int)
                        } by {
                        if p == a && q == b {
                            self.lemma_at_entry(p as int, q as int, i as int);
                            oldt.lemma_at_entry(p as int, q as int, i as int);
                        } else {
                            if oldt.has_key(p as int, q as int) {
                                let j = choose|j: int|
                                    0 <= j < oldt.entries().len() && (
                                    #[trigger] oldt.entries()[j]).0 == (p, q);
                                assert(j != i);
                                assert(self.entries()[j].0 == (p, q));
                                self.lemma_at_entry(p as int, q as int, j);
                                oldt.lemma_at_entry(p as int, q as int, j);
                            } else {
                                if self.has_key(p as int, q as int) {
                                    let j = choose|j: int|
                                        0 <= j < self.entries().len() && (
                                        #[trigger] self.entries()[j]).0 == (p, q);
                                    assert(oldt.entries()[j].0 == (p, q));
                                }
                            }
                        }
                    }
                }
            },
            None => {
                let mut items: Vec<u64> = Vec::new();
                items.push(e);
                let ghost itemsview = items@;
                self.grid.push(((a, b), items));
                proof {
                    let oldt = *old(self);
                    let n = oldt.entries().len() as int;
                    assert(self.entries() =~= oldt.entries().push(((a, b), self.entries()[n].1)));
                    assert(self.entries()[n].1@ == itemsview);
                    assert forall|p: i64, q: i64|
                        final(self).at(p as int, q as int) == if p == a && q == b {
                            oldt.at(p as int, q as int).push(e)
                        } else {
                            oldt.at(p as int, q as int)
                        } by {
                        if p == a && q == b {
                            self.lemma_at_entry(p as int, q as int, n);
                            assert(!oldt.has_key(p as int, q as int));
                            assert(oldt.at(p as int, q as int) == Seq::<u64>::empty());
                            assert(self.at(p as int, q as int) =~= oldt.at(
                                p as int,
                                q as int,
                            ).push(e));
                        } else {
                            if oldt.has_key(p as int, q as int) {
                                let j = choose|j: int|
                                    0 <= j < oldt.entries().len() && (
                                    #[trigger] oldt.entries()[j]).0 == (p, q);
                                assert(self.entries()[j].0 == (p, q));
                                self.lemma_at_entry(p as int, q as int, j);
                                oldt.lemma_at_entry(p as int, q as int, j);
                            } else {
                                if self.has_key(p as int, q as int) {
                                    let j = choose|j: int|
                                        0 <= j < self.entries().len() && (
                                        #[trigger] self.entries()[j]).0 == (p, q);
                                    assert(j < n);
                                    assert(oldt.entries()[j].0 == (p, q));
                                }
                            }
                        }
                    }
                }
            },
        }
    }

    /// Strike every record of handle `e` from tile `(a, b)`; a tile with
    /// no entry is left as it is.
    fn entry_remove(&mut self, a: i64, b: i64, e: u64)
        requires
            old(self).wf(),
        ensures
            final(self).wf(),
            final(self).spec_tile_size() == old(self).spec_tile_size(),
            forall|p: i64, q: i64| #![trigger final(self).at(p as int, q as int)]
                final(self).at(p as int, q as int) == if p == a && q == b {
                    old(self).at(p as int, q as int).filter(without_handle(e))
                } else {
                    old(self).at(p as int, q as int)
                },
    {
        let found = self.find_key(a, b);
        match found {
            Some(i) => {
                let mut taken: ((i64, i64), Vec<u64>) = ((0, 0), Vec::new());
                self.grid.set_and_swap(i, &mut taken);
                let (key, items) = taken;
                let ghost orig_items = items@;
                let mut kept: Vec<u64> = Vec::new();
                let mut k: usize = 0;
                while k < items.len()
                    invariant
                        0 <= k <= items@.len(),
                        items@ == orig_items,
                        kept@ == orig_items.subrange(0, k as int).filter(without_handle(e)),
                    decreases items@.len() - k,
                {
                    let ghost pre = orig_items.subrange(0, k as int);
                    let ghost cur = orig_items.subrange(0, k as int + 1);
                    if items[k] != e {
                        kept.push(items[k]);
                    }
                    proof {
                        reveal_with_fuel(Seq::<_>::filter, 2);
                        assert(cur.drop_last() == pre) by {
                            assert(cur.drop_last() =~= pre);
                        }
                        assert(cur.last() == orig_items[k as int]);
                        if orig_items[k as int] != e {
                            assert(cur.filter(without_handle(e)) == pre.filter(
                                without_handle(e),
                            ).push(cur.last()));
                        } else {
                            assert(cur.filter(without_handle(e)) == pre.filter(without_handle(e)));
                        }
                        assert(kept@ == cur.filter(without_handle(e)));
                    }
                    k = k + 1;
                }
                proof {
                    assert(orig_items.subrange(0, orig_items.len() as int) =~= orig_items);
                }
                self.grid.set(i, (key, kept));
                proof {
                    let oldt = *old(self);
                    assert(self.entries() =~= oldt.entries().update(
                        i as int,
                        ((a, b), self.entries()[i as int].1),
                    ));
                    assert(self.entries()[i as int].1@ == oldt.entries()[i as int].1@.filter(
                        without_handle(e),
                    ));
                    assert forall|p: i64, q: i64|
                        final(self).at(p as int, q as int) == if p == a && q == b {
                            oldt.at(p as int, q as int).filter(without_handle(e))
                        } else {
                            oldt.at(p as int, q as int)
                        } by {
                        if p == a && q == b {
                            self.lemma_at_entry(p as int, q as int, i as int);
                            oldt.lemma_at_entry(p as int, q as int, i as int);
                        } else {
                            if oldt.has_key(p as int, q as int) {
                                let j = choose|j: int|
                                    0 <= j < oldt.entries().len() && (
                                    #[trigger] oldt.entries()[j]).0 == (p, q);
                                assert(j != i);
                                assert(self.entries()[j].0 == (p, q));
                                self.lemma_at_entry(p as int, q as int, j);
                                oldt.lemma_at_entry(p as int, q as int, j);
                            } else {
                                if self.has_key(p as int, q as int) {
                                    let j = choose|j: int|
                                        0 <= j < self.entries().len() && (
                                        #[trigger] self.entries()[j]).0 == (p, q);
                                    assert(oldt.entries()[j].0 == (p, q));
                                }
                            }
                        }
                    }
                }
            },
            None => {
                proof {
                    let oldt = *old(self);
                    assert(Seq::<u64>::empty().filter(without_handle(e)) =~= Seq::<u64>::empty());
                    assert forall|p: i64, q: i64|
                        final(self).at(p as int, q as int) == if p == a && q == b {
                            oldt.at(p as int, q as int).filter(without_handle(e))
                        } else {
                            oldt.at(p as int, q as int)
                        } by {
                        if p == a && q == b {
                            assert(!oldt.has_key(p as int, q as int));
                            assert(oldt.at(p as int, q as int) == Seq::<u64>::empty());
                        }
                    }
                }
            },
        }
    }

    /// Record handle `e` in every tile the footprint at `(x, y)` touches.
    pub fn insert(&mut self, x: i64, y: i64, size: i64, e: u64)
        requires
            old(self).wf(),
            -SPATIAL_LIMIT <= x <= SPATIAL_LIMIT,
            -SPATIAL_LIMIT <= y <= SPATIAL_LIMIT,
            0 <= size <= SPATIAL_LIMIT,
        ensures
            final(self).wf(),
            final(self).spec_tile_size() == old(self).spec_tile_size(),
            forall|p: i64, q: i64| #![trigger final(self).at(p as int, q as int)]
                final(self).at(p as int, q as int) == if in_affected_rect(
                    p as int,
                    q as int,
                    x as int,
                    y as int,
                    size as int,
                    old(self).spec_tile_size(),
                ) {
                    old(self).at(p as int, q as int).push(e)
                } else {
                    old(self).at(p as int, q as int)
                },
    {
        let (gx_min, gy_min, gx_max, gy_max) = self.get_affected_tiles(x, y, size);
        let ghost orig = *self;
        let ghost tile = self.spec_tile_size();
        proof {
            lemma_rect_bounds(x as int, y as int, size as int, tile);
        }
        let mut gx: i64 = gx_min;
        while gx <= gx_max
            invariant
                self.wf(),
                self.spec_tile_size() == tile,
                gx_min == tdiv(x as int, tile),
                gy_min == tdiv(y as int - size as int, tile),
                gx_max == tdiv(x as int + size as int, tile),
                gy_max == tdiv(y as int, tile),
                -2_000_000_000 <= gx_min <= gx_max <= 2_000_000_000,
                -2_000_000_000 <= gy_min <= gy_max + 1,
                gy_max <= 2_000_000_000,
                gy_min <= gy_max,
                gx_min <= gx,
                gx <= gx_max + 1,
                forall|p: i64, q: i64| #![trigger self.at(p as int, q as int)]
                    self.at(p as int, q as int) == if gx_min <= p < gx && gy_min <= q <= gy_max {
                        orig.at(p as int, q as int).push(e)
                    } else {
                        orig.at(p as int, q as int)
                    },
            decreases gx_max + 1 - gx,
        {
            let mut gy: i64 = gy_min;
            while gy <= gy_max
                invariant
                    self.wf(),
                    self.spec_tile_size() == tile,
                    -2_000_000_000 <= gx_min <= gx_max <= 2_000_000_000,
                    -2_000_000_000 <= gy_min <= gy_max <= 2_000_000_000,
                    gx_min <= gx <= gx_max,
                    gy_min <= gy,
                    gy <= gy_max + 1,
                    forall|p: i64, q: i64| #![trigger self.at(p as int, q as int)]
                        self.at(p as int, q as int) == if (gx_min <= p < gx && gy_min <= q
                            <= gy_max) || (p == gx && gy_min <= q < gy) {
                            orig.at(p as int, q as int).push(e)
                        } else {
                            orig.at(p as int, q as int)
                        },
                decreases gy_max + 1 - gy,
            {
                self.entry_push(gx, gy, e);
                gy = gy + 1;
            }
            gx = gx + 1;
        }
    }

    /// Strike handle `e` from every tile the footprint at `(x, y)` touches.
    pub fn remove(&mut self, x: i64, y: i64, size: i64, e: u64)
        requires
            old(self).wf(),
            -SPATIAL_LIMIT <= x <= SPATIAL_LIMIT,
            -SPATIAL_LIMIT <= y <= SPATIAL_LIMIT,
            0 <= size <= SPATIAL_LIMIT,
        ensures
            final(self).wf(),
            final(self).spec_tile_size() == old(self).spec_tile_size(),
            forall|p: i64, q: i64| #![trigger final(self).at(p as int, q as int)]
                final(self).at(p as int, q as int) == if in_affected_rect(
                    p as int,
                    q as int,
                    x as int,
                    y as int,
                    size as int,
                    old(self).spec_tile_size(),
                ) {
                    old(self).at(p as int, q as int).filter(without_handle(e))
                } else {
                    old(self).at(p as int, q as int)
                },
    {
        let (gx_min, gy_min, gx_max, gy_max) = self.get_affected_tiles(x, y, size);
        let ghost orig = *self;
        let ghost tile = self.spec_tile_size();
        proof {
            lemma_rect_bounds(x as int, y as int, size as int, tile);
        }
        let mut gx: i64 = gx_min;
        while gx <= gx_max
            invariant
                self.wf(),
                self.spec_tile_size() == tile,
                gx_min == tdiv(x as int, tile),
                gy_min == tdiv(y as int - size as int, tile),
                gx_max == tdiv(x as int + size as int, tile),
                gy_max == tdiv(y as int, tile),
                -2_000_000_000 <= gx_min <= gx_max <= 2_000_000_000,
                -2_000_000_000 <= gy_min <= gy_max + 1,
                gy_max <= 2_000_000_000,
                gy_min <= gy_max,
                gx_min <= gx,
                gx <= gx_max + 1,
                forall|p: i64, q: i64| #![trigger self.at(p as int, q as int)]
                    self.at(p as int, q as int) == if gx_min <= p < gx && gy_min <= q <= gy_max {
                        orig.at(p as int, q as int).filter(without_handle(e))
                    } else {
                        orig.at(p as int, q as int)
                    },
            decreases gx_max + 1 - gx,
        {
            let mut gy: i64 = gy_min;
            while gy <= gy_max
                invariant
                    self.wf(),
                    self.spec_tile_size() == tile,
                    -2_000_000_000 <= gx_min <= gx_max <= 2_000_000_000,
                    -2_000_000_000 <= gy_min <= gy_max <= 2_000_000_000,
                    gx_min <= gx <= gx_max,
                    gy_min <= gy,
                    gy <= gy_max + 1,
                    forall|p: i64, q: i64| #![trigger self.at(p as int, q as int)]
                        self.at(p as int, q as int) == if (gx_min <= p < gx && gy_min <= q
                            <= gy_max) || (p == gx && gy_min <= q < gy) {
                            orig.at(p as int, q as int).filter(without_handle(e))
                        } else {
                            orig.at(p as int, q as int)
                        },
                decreases gy_max + 1 - gy,
            {
                self.entry_remove(gx, gy, e);
                gy = gy + 1;
            }
            gx = gx + 1;
        }
    }

    /// Move handle `e`: strike it at its old footprint, record it at the
    /// new one.
    pub fn reposition(&mut self, from: Vec2i, to: Vec2i, size: i64, e: u64)
        requires
            old(self).wf(),
            -SPATIAL_LIMIT <= from.x <= SPATIAL_LIMIT,
            -SPATIAL_LIMIT <= from.y <= SPATIAL_LIMIT,
            -SPATIAL_LIMIT <= to.x <= SPATIAL_LIMIT,
            -SPATIAL_LIMIT <= to.y <= SPATIAL_LIMIT,
            0 <= size <= SPATIAL_LIMIT,
        ensures
            final(self).wf(),
            final(self).spec_tile_size() == old(self).spec_tile_size(),
            forall|p: i64, q: i64| #![trigger final(self).at(p as int, q as int)]
                final(self).at(p as int, q as int) == {
                    let tile = old(self).spec_tile_size();
                    let mid = if in_affected_rect(
                        p as int,
                        q as int,
                        from.x as int,
                        from.y as int,
                        size as int,
                        tile,
                    ) {
                        old(self).at(p as int, q as int).filter(without_handle(e))
                    } else {
                        old(self).at(p as int, q as int)
                    };
                    if in_affected_rect(
                        p as int,
                        q as int,
                        to.x as int,
                        to.y as int,
                        size as int,
                        tile,
                    ) {
                        mid.push(e)
                    } else {
                        mid
                    }
                },
    {
        self.remove(from.x, from.y, size, e);
        self.insert(to.x, to.y, size, e);
    }

    /// Retire every entry whose y tile coordinate lies behind (before) the
    /// tile of `y`; entries at or past it keep their handle lists.
    #[verifier::rlimit(100)]
    pub fn cleanup_y(&mut self, y: i64)
        requires
            old(self).wf(),
            y > i64::MIN,
        ensures
            final(self).wf(),
            final(self).spec_tile_size() == old(self).spec_tile_size(),
            forall|p: i64, q: i64| #![trigger final(self).at(p as int, q as int)]
                final(self).at(p as int, q as int) == if tdiv(
                    y as int,
                    old(self).spec_tile_size(),
                ) <= q {
                    old(self).at(p as int, q as int)
                } else {
                    Seq::<u64>::empty()
                },
    {
        let gy: i64 = div_trunc_i64(y, self.tile_size);
        let ghost oldt = *old(self);
        let ghost orig = self.grid@;
        proof {
            assert(orig == oldt.entries());
            assert forall|i: int, j: int| 0 <= i < j < orig.len() implies (#[trigger] orig[i]).0
                != (#[trigger] orig[j]).0 by {
                assert(oldt.entries()[i].0 != oldt.entries()[j].0);
            }
        }
        let mut rest: Vec<((i64, i64), Vec<u64>)> = Vec::new();
        core::mem::swap(&mut self.grid, &mut rest);
        let mut kept: Vec<((i64, i64), Vec<u64>)> = Vec::new();
        while rest.len() > 0
            invariant
                rest@ == orig.subrange(0, rest@.len() as int),
                rest@.len() <= orig.len(),
                forall|i: int, j: int|
                    0 <= i < j < orig.len() ==> (#[trigger] orig[i]).0 != (#[trigger] orig[j]).0,
                forall|i: int, j: int|
                    0 <= i < j < kept@.len() ==> (#[trigger] kept@[i]).0 != (
                    #[trigger] kept@[j]).0,
                forall|k: int|
                    0 <= k < kept@.len() ==> (#[trigger] kept@[k]).0.1 >= gy && (exists|j: int|
                        rest@.len() <= j < orig.len() && orig[j] == kept@[k]),
                forall|j: int|
                    rest@.len() <= j < orig.len() && (#[trigger] orig[j]).0.1 >= gy ==> (exists|
                        k: int,
                    |
                        0 <= k < kept@.len() && kept@[k] == orig[j]),
            decreases rest@.len(),
        {
            let entry = rest.pop().unwrap();
            let ghost j = rest@.len() as int;
            proof {
                assert(entry == orig[j]);
                assert(rest@ =~= orig.subrange(0, j));
            }
            if entry.0.1 >= gy {
                let ghost pre_kept = kept@;
                kept.push(entry);
                proof {
                    assert(kept@ == pre_kept.push(orig[j]));
                    assert forall|a: int, b: int|
                        0 <= a < b < kept@.len() implies (#[trigger] kept@[a]).0 != (
                    #[trigger] kept@[b]).0 by {
                        if b == kept@.len() - 1 {
                            let ja = choose|ja: int|
                                j + 1 <= ja < orig.len() && orig[ja] == pre_kept[a];
                            assert(orig[j].0 != orig[ja].0);
                        }
                    }
                    assert forall|jj: int|
                        rest@.len() <= jj < orig.len() && (#[trigger] orig[jj]).0.1
                            >= gy implies (exists|k: int|
                        0 <= k < kept@.len() && kept@[k] == orig[jj]) by {
                        if jj > j {
                            let k = choose|k: int|
                                0 <= k < pre_kept.len() && pre_kept[k] == orig[jj];
                            assert(kept@[k] == orig[jj]);
                        } else {
                            assert(kept@[kept@.len() - 1] == orig[jj]);
                        }
                    }
                }
            }
        }
        core::mem::swap(&mut self.grid, &mut kept);
        proof {
            assert(orig.subrange(0, 0) =~= Seq::empty());
            assert forall|p: i64, q: i64|
                final(self).at(p as int, q as int) == if tdiv(y as int, oldt.spec_tile_size())
                    <= q {
                    oldt.at(p as int, q as int)
                } else {
                    Seq::<u64>::empty()
                } by {
                if gy <= q {
                    if oldt.has_key(p as int, q as int) {
                        let j = choose|j: int|
                            0 <= j < orig.len() && (#[trigger] orig[j]).0 == (p, q);
                        assert(orig[j].0.1 >= gy);
                        let k = choose|k: int| 0 <= k < self.entries().len() && self.entries()[k]
                            == orig[j];
                        self.lemma_at_entry(p as int, q as int, k);
                        oldt.lemma_at_entry(p as int, q as int, j);
                    } else {
                        if self.has_key(p as int, q as int) {
                            let k = choose|k: int|
                                0 <= k < self.entries().len() && (#[trigger] self.entries()[k]).0
                                    == (p, q);
                            let j = choose|j: int|
                                0 <= j < orig.len() && orig[j] == self.entries()[k];
                            assert(orig[j].0 == (p, q));
                        }
                    }
                } else {
                    if self.has_key(p as int, q as int) {
                        let k = choose|k: int|
                            0 <= k < self.entries().len() && (#[trigger] self.entries()[k]).0 == (
                            p,
                            q,
                            );
                        assert(self.entries()[k].0.1 >= gy);
                    }
                }
            }
        }
    }

    /// Every handle recorded in the tiles the footprint at `(x, y)`
    /// touches, as the exact concatenation of the per-tile lists: columns
    /// in x order, each column in y order, each tile's list in stored
    /// order. A handle registered in several touched tiles appears once
    /// per tile.
    pub fn get_at(&self, x: i64, y: i64, size: i64) -> (out: Vec<u64>)
        requires
            self.wf(),
            -SPATIAL_LIMIT <= x <= SPATIAL_LIMIT,
            -SPATIAL_LIMIT <= y <= SPATIAL_LIMIT,
            0 <= size <= SPATIAL_LIMIT,
        ensures
            out@ == tiles_concat(
                *self,
                tdiv(x as int, self.spec_tile_size()),
                tdiv(x as int + size as int, self.spec_tile_size()),
                tdiv(y as int - size as int, self.spec_tile_size()),
                tdiv(y as int, self.spec_tile_size()),
            ),
    {
        let (gx_min, gy_min, gx_max, gy_max) = self.get_affected_tiles(x, y, size);
        let ghost tile = self.spec_tile_size();
        proof {
            lemma_rect_bounds(x as int, y as int, size as int, tile);
        }
        let mut out: Vec<u64> = Vec::new();
        proof {
            assert(out@ =~= tiles_concat(
                *self,
                gx_min as int,
                gx_min as int - 1,
                gy_min as int,
                gy_max as int,
            ));
        }
        let mut gx: i64 = gx_min;
        while gx <= gx_max
            invariant
                self.wf(),
                gx_min == tdiv(x as int, tile),
                gy_min == tdiv(y as int - size as int, tile),
                gx_max == tdiv(x as int + size as int, tile),
                gy_max == tdiv(y as int, tile),
                tile == self.spec_tile_size(),
                -2_000_000_000 <= gx_min <= gx_max <= 2_000_000_000,
                -2_000_000_000 <= gy_min <= gy_max <= 2_000_000_000,
                gx_min <= gx <= gx_max + 1,
                out@ == tiles_concat(
                    *self,
                    gx_min as int,
                    gx as int - 1,
                    gy_min as int,
                    gy_max as int,
                ),
            decreases gx_max + 1 - gx,
        {
            let ghost col_pre = out@;
            let mut gy: i64 = gy_min;
            proof {
                assert(tiles_concat_col(*self, gx as int, gy_min as int, gy_min as int - 1)
                    =~= Seq::<u64>::empty());
                assert(out@ =~= col_pre + tiles_concat_col(
                    *self,
                    gx as int,
                    gy_min as int,
                    gy_min as int - 1,
                ));
            }
            while gy <= gy_max
                invariant
                    self.wf(),
                    tile == self.spec_tile_size(),
                    gx_min == tdiv(x as int, tile),
                    gy_min == tdiv(y as int - size as int, tile),
                    gx_max == tdiv(x as int + size as int, tile),
                    gy_max == tdiv(y as int, tile),
                    -2_000_000_000 <= gx_min <= gx_max <= 2_000_000_000,
                    -2_000_000_000 <= gy_min <= gy_max <= 2_000_000_000,
                    gx_min <= gx <= gx_max,
                    gy_min <= gy <= gy_max + 1,
                    col_pre == tiles_concat(
                        *self,
                        gx_min as int,
                        gx as int - 1,
                        gy_min as int,
                        gy_max as int,
                    ),
                    out@ == col_pre + tiles_concat_col(
                        *self,
                        gx as int,
                        gy_min as int,
                        gy as int - 1,
                    ),
                decreases gy_max + 1 - gy,
            {
                let ghost pre_out = out@;
                let found = self.find_key(gx, gy);
                if let Some(i) = found {
                    let items: &Vec<u64> = &self.grid[i].1;
                    proof {
                        self.lemma_at_entry(gx as int, gy as int, i as int);
                    }
                    let mut k: usize = 0;
                    while k < items.len()
                        invariant
                            0 <= k <= items@.len(),
                            items@ == self.at(gx as int, gy as int),
                            out@ == pre_out + items@.subrange(0, k as int),
                        decreases items@.len() - k,
                    {
                        out.push(items[k]);
                        proof {
                            assert(out@ =~= pre_out + items@.subrange(0, k as int + 1));
                        }
                        k = k + 1;
                    }
                    proof {
                        assert(items@.subrange(0, items@.len() as int) =~= items@);
                    }
                }
                proof {
                    if found is None {
                        assert(!self.has_key(gx as int, gy as int));
                        assert(self.at(gx as int, gy as int) == Seq::<u64>::empty());
                        assert(out@ =~= pre_out + self.at(gx as int, gy as int));
                    } else {
                        assert(out@ == pre_out + self.at(gx as int, gy as int));
                    }
                    lemma_col_concat_snoc(*self, gx as int, gy_min as int, gy as int);
                    assert(out@ =~= col_pre + tiles_concat_col(
                        *self,
                        gx as int,
                        gy_min as int,
                        gy as int,
                    ));
                }
                gy = gy + 1;
            }
            proof {
                lemma_rect_concat_snoc(*self, gx_min as int, gx as int, gy_min as int, gy_max as int);
                assert(out@ =~= tiles_concat(
                    *self,
                    gx_min as int,
                    gx as int,
                    gy_min as int,
                    gy_max as int,
                ));
            }
            gx = gx + 1;
        }
        out
    }
}

} // verus!
