use yeti_chase::geom::Vec2i;
use yeti_chase::spatialtree::SpatialTree;

#[test]
fn tiles_come_from_truncating_division() {
    let t = SpatialTree::new(240);
    assert_eq!(t.loc_to_tile(0), 0);
    assert_eq!(t.loc_to_tile(239), 0);
    assert_eq!(t.loc_to_tile(240), 1);
    assert_eq!(t.loc_to_tile(-239), 0);
    assert_eq!(t.loc_to_tile(-240), -1);
}

#[test]
fn footprints_span_the_touched_tiles() {
    let t = SpatialTree::new(240);
    // A footprint reaching size to the right of x and size below y.
    assert_eq!(t.get_affected_tiles(0, 0, 100), (0, 0, 0, 0));
    assert_eq!(t.get_affected_tiles(200, 0, 100), (0, 0, 1, 0));
    assert_eq!(t.get_affected_tiles(0, -200, 100), (0, -1, 0, 0));
}

#[test]
fn inserted_handles_are_found_at_their_tiles() {
    let mut t = SpatialTree::new(240);
    t.insert(100, -100, 50, 7);
    t.insert(500, -100, 50, 8);
    let near = t.get_at(100, -100, 50);
    assert!(near.contains(&7));
    assert!(!near.contains(&8));
    let far = t.get_at(500, -100, 50);
    assert!(far.contains(&8));
    assert!(!far.contains(&7));
}

#[test]
fn a_footprint_on_a_tile_boundary_lands_in_both_tiles() {
    let mut t = SpatialTree::new(240);
    t.insert(200, 0, 100, 9);
    assert!(t.get_at(10, 0, 50).contains(&9));
    assert!(t.get_at(250, 0, 50).contains(&9));
}

#[test]
fn removal_strikes_only_the_given_handle() {
    let mut t = SpatialTree::new(240);
    t.insert(100, -100, 50, 7);
    t.insert(100, -100, 50, 8);
    t.remove(100, -100, 50, 7);
    let found = t.get_at(100, -100, 50);
    assert!(!found.contains(&7));
    assert!(found.contains(&8));
}

#[test]
fn reposition_moves_a_handle_between_tiles() {
    let mut t = SpatialTree::new(240);
    t.insert(100, -100, 50, 7);
    t.reposition(Vec2i { x: 100, y: -100 }, Vec2i { x: 1000, y: -100 }, 50, 7);
    assert!(!t.get_at(100, -100, 50).contains(&7));
    assert!(t.get_at(1000, -100, 50).contains(&7));
}

#[test]
fn cleanup_drops_entries_behind_the_cutoff_row() {
    let mut t = SpatialTree::new(240);
    t.insert(0, -500, 10, 1);
    t.insert(0, 500, 10, 2);
    // Entries whose y tile lies behind the cutoff row are retired.
    t.cleanup_y(0);
    assert!(!t.get_at(0, -500, 10).contains(&1));
    assert!(t.get_at(0, 500, 10).contains(&2));
    // At a lower cutoff, nothing at or past the row is touched.
    let mut u = SpatialTree::new(240);
    u.insert(0, -500, 10, 3);
    u.cleanup_y(-1000);
    assert!(u.get_at(0, -500, 10).contains(&3));
}
