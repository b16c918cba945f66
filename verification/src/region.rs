//! Region coordinates and the bookkeeping set of generated regions.
//!
//! A region is a viewport-sized tile of world space. A continuous camera
//! position maps to the region that contains it by flooring division, also
//! for negative positions. The tracker remembers which regions have been
//! filled with obstacles, so each is generated exactly once until it is
//! retired or the tracker is reset.

use vstd::prelude::*;

verus! {

/// Discrete coordinate of a region of world space.
#[derive(Clone, Copy, PartialEq, Eq, Structural, Debug, Hash)]
pub struct RegionCoord {
    pub rx: i64,
    pub ry: i64,
}

/// The camera region containing position `(x, y)` for the given region size:
/// floor division of each coordinate by the matching span.
pub fn region_of(x: i64, y: i64, region_width: i64, region_height: i64) -> (rc: RegionCoord)
    requires
        region_width > 0,
        region_height > 0,
        x > i64::MIN,
        y > i64::MIN,
    ensures
        rc.rx == x as int / region_width as int,
        rc.ry == y as int / region_height as int,
{
    RegionCoord {
        rx: crate::num::div_floor_i64(x, region_width),
        ry: crate::num::div_floor_i64(y, region_height),
    }
}

/// A sequence of region coordinates holds `rc` somewhere.
pub open spec fn seq_has(s: Seq<RegionCoord>, rc: RegionCoord) -> bool {
    exists|i: int| 0 <= i < s.len() && s[i] == rc
}

/// No coordinate occurs twice.
pub open spec fn seq_unique(s: Seq<RegionCoord>) -> bool {
    forall|i: int, j: int| 0 <= i < j < s.len() ==> s[i] != s[j]
}

/// The set of regions that have already been generated.
#[derive(Debug)]
pub struct RegionSet {
    regions: Vec<RegionCoord>,
}

impl RegionSet {
    /// The stored coordinates.
    pub closed spec fn entries(self) -> Seq<RegionCoord> {
        self.regions@
    }

    /// Membership.
    pub open spec fn has(self, rc: RegionCoord) -> bool {
        seq_has(self.entries(), rc)
    }

    /// Internal invariant: each region is recorded at most once.
    pub open spec fn wf(self) -> bool {
        seq_unique(self.entries())
    }

    /// How many regions are recorded.
    pub fn len(&self) -> (n: usize)
        ensures
            n == self.entries().len(),
    {
        self.regions.len()
    }

    /// The empty set.
    pub fn new() -> (s: RegionSet)
        ensures
            s.wf(),
            forall|rc: RegionCoord| !s.has(rc),
    {
        RegionSet { regions: Vec::new() }
    }

    /// Whether `rc` has been recorded.
    pub fn contains(&self, rc: RegionCoord) -> (r: bool)
        ensures
            r == self.has(rc),
    {
        let mut i: usize = 0;
        while i < self.regions.len()
            invariant
                0 <= i <= self.regions.len(),
                forall|j: int| 0 <= j < i ==> self.regions@[j] != rc,
            decreases self.regions.len() - i,
        {
            if self.regions[i] == rc {
                return true;
            }
            i = i + 1;
        }
        false
    }

    /// Record `rc`; recording an already-present region changes nothing.
    pub fn insert(&mut self, rc: RegionCoord)
        requires
            old(self).wf(),
        ensures
            final(self).wf(),
            forall|c: RegionCoord| final(self).has(c) == (old(self).has(c) || c == rc),
    {
        if !self.contains(rc) {
            self.regions.push(rc);
            proof {
                assert forall|c: RegionCoord| final(self).has(c) == (old(self).has(c) || c
                    == rc) by {
                    if old(self).has(c) {
                        let i = choose|i: int|
                            0 <= i < old(self).entries().len() && old(self).entries()[i] == c;
                        assert(self.entries()[i] == c);
                    }
                    if c == rc {
                        assert(self.entries()[self.entries().len() - 1] == c);
                    }
                    if self.has(c) {
                        let i = choose|i: int|
                            0 <= i < self.entries().len() && self.entries()[i] == c;
                        if i < self.entries().len() - 1 {
                            assert(old(self).entries()[i] == c);
                        }
                    }
                }
            }
        }
    }

    /// Drop every region whose vertical coordinate lies ahead of (greater
    /// than) `max_ry`; everything at or behind it stays.
    pub fn retire_beyond(&mut self, max_ry: i64)
        requires
            old(self).wf(),
        ensures
            final(self).wf(),
            forall|c: RegionCoord|
                final(self).has(c) == (old(self).has(c) && c.ry <= max_ry),
    {
        let ghost orig = self.regions@;
        let mut kept: Vec<RegionCoord> = Vec::new();
        let mut i: usize = 0;
        while i < self.regions.len()
            invariant
                0 <= i <= self.regions.len(),
                self.regions@ == orig,
                seq_unique(orig),
                seq_unique(kept@),
                forall|k: int|
                    0 <= k < kept@.len() ==> (#[trigger] kept@[k]).ry <= max_ry && (exists|j: int|
                        0 <= j < i && orig[j] == kept@[k]),
                forall|j: int|
                    0 <= j < i && (#[trigger] orig[j]).ry <= max_ry ==> seq_has(kept@, orig[j]),
            decreases self.regions.len() - i,
        {
            let rc = self.regions[i];
            if rc.ry <= max_ry {
                let ghost pre = kept@;
                kept.push(rc);
                proof {
                    assert(kept@ == pre.push(rc));
                    assert(kept@[pre.len() as int] == rc);
                    assert forall|k: int|
                        0 <= k < kept@.len() implies (#[trigger] kept@[k]).ry <= max_ry && (
                    exists|j: int| 0 <= j < i + 1 && orig[j] == kept@[k]) by {
                        if k < pre.len() {
                            assert(kept@[k] == pre[k]);
                            let j = choose|j: int| 0 <= j < i && orig[j] == pre[k];
                            assert(0 <= j < i + 1 && orig[j] == kept@[k]);
                        } else {
                            assert(kept@[k] == rc);
                            assert(orig[i as int] == kept@[k]);
                        }
                    }
                    assert forall|p: int, q: int| 0 <= p < q < kept@.len() implies kept@[p]
                        != kept@[q] by {
                        assert(kept@[p] == pre[p]);
                        if q == kept@.len() - 1 {
                            let j = choose|j: int| 0 <= j < i && orig[j] == pre[p];
                            assert(orig[j] != orig[i as int]);
                            assert(kept@[q] == rc);
                        } else {
                            assert(kept@[q] == pre[q]);
                        }
                    }
                    assert forall|j: int|
                        0 <= j < i + 1 && (#[trigger] orig[j]).ry <= max_ry implies seq_has(
                        kept@,
                        orig[j],
                    ) by {
                        if j < i {
                            assert(seq_has(pre, orig[j]));
                            let k = choose|k: int| 0 <= k < pre.len() && pre[k] == orig[j];
                            assert(kept@[k] == orig[j]);
                        } else {
                            assert(kept@[pre.len() as int] == orig[j]);
                        }
                    }
                }
            }
            i = i + 1;
        }
        self.regions = kept;
        proof {
            assert forall|c: RegionCoord|
                final(self).has(c) == (old(self).has(c) && c.ry <= max_ry) by {
                if self.has(c) {
                    let k = choose|k: int| 0 <= k < kept@.len() && kept@[k] == c;
                    assert(kept@[k].ry <= max_ry);
                    let j = choose|j: int| 0 <= j < orig.len() && orig[j] == kept@[k];
                    assert(orig[j] == c);
                }
                if old(self).has(c) && c.ry <= max_ry {
                    let j = choose|j: int| 0 <= j < orig.len() && orig[j] == c;
                    assert((orig[j]).ry <= max_ry);
                    assert(seq_has(kept@, orig[j]));
                }
            }
        }
    }

    /// Forget every recorded region.
    pub fn clear(&mut self)
        ensures
            final(self).wf(),
            forall|rc: RegionCoord| !final(self).has(rc),
    {
        self.regions = Vec::new();
    }
}

} // verus!
