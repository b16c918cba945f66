use yeti_chase::collidable::Collidable;
use yeti_chase::geom::{line_intersection, Vec2i};
use yeti_chase::num::{div_floor_i64, div_trunc_i64, ilog2_u64, isqrt_u64, min_i64};
use yeti_chase::region::{region_of, RegionCoord, RegionSet};

#[test]
fn floor_division_rounds_toward_negative_infinity() {
    assert_eq!(div_floor_i64(0, 640), 0);
    assert_eq!(div_floor_i64(639, 640), 0);
    assert_eq!(div_floor_i64(640, 640), 1);
    assert_eq!(div_floor_i64(-1, 640), -1);
    assert_eq!(div_floor_i64(-640, 640), -1);
    assert_eq!(div_floor_i64(-641, 640), -2);
}

#[test]
fn truncating_division_rounds_toward_zero() {
    assert_eq!(div_trunc_i64(-1, 640), 0);
    assert_eq!(div_trunc_i64(-641, 640), -1);
    assert_eq!(div_trunc_i64(641, 640), 1);
    assert_eq!(div_trunc_i64(7, 2), 3);
    assert_eq!(div_trunc_i64(-7, 2), -3);
}

#[test]
fn integer_square_root_brackets_its_argument() {
    assert_eq!(isqrt_u64(0), 0);
    assert_eq!(isqrt_u64(1), 1);
    assert_eq!(isqrt_u64(99), 9);
    assert_eq!(isqrt_u64(100), 10);
    assert_eq!(isqrt_u64(10_000), 100);
    assert_eq!(isqrt_u64(1_280_000_000_000), 1_131_370);
}

#[test]
fn binary_logarithm_rounds_down() {
    assert_eq!(ilog2_u64(1), 0);
    assert_eq!(ilog2_u64(2), 1);
    assert_eq!(ilog2_u64(3), 1);
    assert_eq!(ilog2_u64(1023), 9);
    assert_eq!(ilog2_u64(1024), 10);
}

#[test]
fn minimum_of_two_values() {
    assert_eq!(min_i64(3, 4), 3);
    assert_eq!(min_i64(4, 3), 3);
    assert_eq!(min_i64(-4, 3), -4);
}

#[test]
fn overlap_is_symmetric_on_concrete_boxes() {
    let a = Collidable::new(0, 0, 10, 10, 0, 0);
    let b = Collidable::new(15, 5, 10, 10, 0, 0);
    let c = Collidable::new(100, 100, 4, 4, 0, 0);
    assert_eq!(a.intersect(&b), b.intersect(&a));
    assert!(a.intersect(&b));
    assert_eq!(a.intersect(&c), c.intersect(&a));
    assert!(!a.intersect(&c));
}

#[test]
fn every_box_overlaps_itself() {
    let a = Collidable::new(-37, 240, 8, 12, 3, -5);
    assert!(a.intersect(&a));
}

#[test]
fn touching_edges_count_as_overlap() {
    let a = Collidable::new(0, 0, 10, 10, 0, 0);
    let b = Collidable::new(20, 0, 10, 10, 0, 0);
    assert!(a.intersect(&b));
    let c = Collidable::new(21, 0, 10, 10, 0, 0);
    assert!(!a.intersect(&c));
}

#[test]
fn recompute_is_idempotent_on_concrete_box() {
    let mut once = Collidable::new(0, 0, 8, 8, 0, -8);
    once.update_center(123, -456);
    let mut twice = once;
    twice.update_center(123, -456);
    assert_eq!(once, twice);
}

#[test]
fn recompute_updates_all_four_edges() {
    let mut c = Collidable::new(0, 0, 2, 3, 1, -4);
    c.update_center(10, 20);
    assert_eq!(c.left, 10 - 2 + 1);
    assert_eq!(c.right, 10 + 2 + 1);
    assert_eq!(c.top, 20 + 3 - 4);
    assert_eq!(c.bottom, 20 - 3 - 4);
}

#[test]
fn segment_through_box_reports_left_edge_point() {
    // A box with left=0, right=10, bottom=0, top=10.
    let b = Collidable::new(5, 5, 5, 5, 0, 0);
    assert_eq!(b.left, 0);
    assert_eq!(b.right, 10);
    assert_eq!(b.bottom, 0);
    assert_eq!(b.top, 10);
    let hit = b.intersect_line(Vec2i { x: -5, y: 5 }, Vec2i { x: 15, y: 5 });
    let p = hit.expect("the segment crosses the box");
    // The crossing point is exactly (0, 5): entering the left edge.
    assert!(p.equals_int(0, 5));
    assert_eq!(p.x_num, 0);
    assert_eq!(p.y_num, 5 * p.den);
}

#[test]
fn segment_far_from_box_reports_nothing() {
    let b = Collidable::new(5, 5, 5, 5, 0, 0);
    assert!(b.intersect_line(Vec2i { x: -5, y: 50 }, Vec2i { x: 15, y: 50 }).is_none());
}

#[test]
fn parallel_segments_do_not_cross() {
    let a1 = Vec2i { x: 0, y: 0 };
    let a2 = Vec2i { x: 10, y: 0 };
    let b1 = Vec2i { x: 0, y: 1 };
    let b2 = Vec2i { x: 10, y: 1 };
    assert!(line_intersection(a1, a2, b1, b2).is_none());
    // Collinear overlap is also reported as no crossing, by design.
    assert!(line_intersection(a1, a2, a1, a2).is_none());
}

#[test]
fn crossing_segments_meet_at_the_exact_point() {
    let p = line_intersection(
        Vec2i { x: 0, y: -10 },
        Vec2i { x: 0, y: 10 },
        Vec2i { x: -10, y: 0 },
        Vec2i { x: 10, y: 0 },
    )
    .expect("perpendicular segments cross");
    assert!(p.equals_int(0, 0));
}

#[test]
fn segment_ending_before_the_box_does_not_cross() {
    let b = Collidable::new(5, 5, 5, 5, 0, 0);
    assert!(b.intersect_line(Vec2i { x: -5, y: 5 }, Vec2i { x: -1, y: 5 }).is_none());
}

#[test]
fn region_mapping_floors_both_coordinates() {
    let rc = region_of(0, 0, 640, 480);
    assert_eq!((rc.rx, rc.ry), (0, 0));
    let rc = region_of(639, 479, 640, 480);
    assert_eq!((rc.rx, rc.ry), (0, 0));
    let rc = region_of(-1, -1, 640, 480);
    assert_eq!((rc.rx, rc.ry), (-1, -1));
    let rc = region_of(-640, -480, 640, 480);
    assert_eq!((rc.rx, rc.ry), (-1, -1));
    let rc = region_of(-641, -481, 640, 480);
    assert_eq!((rc.rx, rc.ry), (-2, -2));
    let rc = region_of(1280, -960, 640, 480);
    assert_eq!((rc.rx, rc.ry), (2, -2));
}

#[test]
fn region_set_remembers_and_retires() {
    let mut s = RegionSet::new();
    s.insert(RegionCoord { rx: 0, ry: 0 });
    s.insert(RegionCoord { rx: 0, ry: -1 });
    s.insert(RegionCoord { rx: 1, ry: 3 });
    s.insert(RegionCoord { rx: 0, ry: 0 });
    assert_eq!(s.len(), 3);
    assert!(s.contains(RegionCoord { rx: 0, ry: 0 }));
    assert!(!s.contains(RegionCoord { rx: 9, ry: 9 }));
    s.retire_beyond(0);
    assert!(s.contains(RegionCoord { rx: 0, ry: 0 }));
    assert!(s.contains(RegionCoord { rx: 0, ry: -1 }));
    assert!(!s.contains(RegionCoord { rx: 1, ry: 3 }));
    s.clear();
    assert_eq!(s.len(), 0);
}
