use yeti_chase::obstacle::{
    cleanup_regions, difficulty_permille, fill_region, reset_spawner, spawn_obstacles,
    update_collidables, ObstacleSpawner, ObstacleType,
};
use yeti_chase::geom::Vec2i;
use yeti_chase::region::RegionCoord;

#[test]
fn difficulty_ramps_with_distance_and_saturates() {
    assert_eq!(difficulty_permille(0), 0);
    assert_eq!(difficulty_permille(1), 0);
    assert_eq!(difficulty_permille(-1), 0);
    assert_eq!(difficulty_permille(2), 30);
    assert_eq!(difficulty_permille(-2), 30);
    assert_eq!(difficulty_permille(3), 30);
    assert_eq!(difficulty_permille(4), 60);
    assert_eq!(difficulty_permille(-1024), 300);
    // Two to the thirty-third: ramp 990, still below the cap.
    assert_eq!(difficulty_permille(8_589_934_592), 990);
    // Two to the thirty-fourth: the ramp saturates at certainty.
    assert_eq!(difficulty_permille(-17_179_869_184), 1000);
}

#[test]
fn zero_threshold_fills_nothing() {
    let placed = fill_region(0, -3, 640, 480, 0);
    assert_eq!(placed.len(), 0);
}

#[test]
fn full_threshold_fills_every_sub_tile() {
    let placed = fill_region(0, -3, 640, 480, 1000);
    // 480 / 60 rows of 640 / 60 + 1 columns.
    assert_eq!(placed.len(), 8 * 11);
}

#[test]
fn filled_obstacles_stay_inside_their_region() {
    let placed = fill_region(2, -5, 640, 480, 1000);
    for ob in placed.iter() {
        assert!(2 * 640 - 320 - 15 <= ob.x && ob.x < 2 * 640 - 320 + 640 + 15);
        assert!(-5 * 480 - 480 - 15 < ob.y && ob.y <= -5 * 480 + 15);
    }
}

#[test]
fn filled_obstacles_carry_the_box_of_their_kind() {
    let placed = fill_region(0, -9, 640, 480, 1000);
    let mut trees = 0;
    let mut stones = 0;
    for ob in placed.iter() {
        let c = ob.collidable;
        match ob.kind {
            ObstacleType::Tree => {
                trees += 1;
                assert_eq!(c.width_half, 8);
                assert_eq!(c.height_half, 8);
                assert_eq!(c.offset_x, 0);
                assert_eq!(c.offset_y, -8);
                assert_eq!(c.left, ob.x - 8);
                assert_eq!(c.right, ob.x + 8);
                assert_eq!(c.top, ob.y + 8 - 8);
                assert_eq!(c.bottom, ob.y - 8 - 8);
            }
            ObstacleType::Stone => {
                stones += 1;
                assert_eq!(c.width_half, 12);
                assert_eq!(c.height_half, 8);
                assert_eq!(c.offset_x, 0);
                assert_eq!(c.offset_y, -4);
                assert_eq!(c.left, ob.x - 12);
                assert_eq!(c.right, ob.x + 12);
            }
        }
    }
    assert_eq!(trees + stones, 88);
}

#[test]
fn generation_covers_the_forward_neighborhood_once() {
    let mut spawner = ObstacleSpawner::new();
    // Far from the origin, so the difficulty threshold is well above zero.
    let spawned = spawn_obstacles(&mut spawner, 0, -100_000, 640, 480, );
    // Camera region is (0, -209); the five neighbors must now be recorded.
    for (rox, roy) in [(-1, 0), (-1, -1), (0, -1), (1, -1), (1, 0)] {
        assert!(spawner
            .spawned_regions
            .contains(RegionCoord { rx: 0 + rox, ry: -209 + roy }));
    }
    assert!(!spawner.spawned_regions.contains(RegionCoord { rx: 0, ry: 0 }));
    assert_eq!(spawner.last_processed_player_region_x, Some(0));
    assert_eq!(spawner.last_processed_player_region_y, Some(-209));
    // At threshold 210 out of 1000 over 440 sub-tiles, an empty outcome
    // does not happen in practice.
    assert!(!spawned.is_empty());
    for ob in spawned.iter() {
        assert!(ob.collidable.left <= ob.collidable.right);
        assert!(ob.collidable.bottom <= ob.collidable.top);
    }
}

#[test]
fn generation_is_idempotent_for_an_unmoved_camera() {
    let mut spawner = ObstacleSpawner::new();
    let first = spawn_obstacles(&mut spawner, 0, -100_000, 640, 480);
    let before = spawner.spawned_regions.len();
    let second = spawn_obstacles(&mut spawner, 0, -100_000, 640, 480);
    assert!(!first.is_empty());
    assert_eq!(second.len(), 0);
    assert_eq!(spawner.spawned_regions.len(), before);
    // A third call after a small move within the same region is also a no-op.
    let third = spawn_obstacles(&mut spawner, 17, -100_031, 640, 480);
    assert_eq!(third.len(), 0);
}

#[test]
fn retirement_drops_every_region_ahead_of_the_camera() {
    let mut spawner = ObstacleSpawner::new();
    spawner.spawned_regions.insert(RegionCoord { rx: 0, ry: 2 });
    spawner.spawned_regions.insert(RegionCoord { rx: 0, ry: 0 });
    spawner.spawned_regions.insert(RegionCoord { rx: -1, ry: -4 });
    spawner.spawned_regions.insert(RegionCoord { rx: 3, ry: -3 });
    // Camera at y = -1440 sits in region row -3.
    cleanup_regions(&mut spawner, -1440, 480);
    assert!(!spawner.spawned_regions.contains(RegionCoord { rx: 0, ry: 2 }));
    assert!(!spawner.spawned_regions.contains(RegionCoord { rx: 0, ry: 0 }));
    assert!(spawner.spawned_regions.contains(RegionCoord { rx: -1, ry: -4 }));
    assert!(spawner.spawned_regions.contains(RegionCoord { rx: 3, ry: -3 }));
}

#[test]
fn reset_clears_all_bookkeeping() {
    let mut spawner = ObstacleSpawner::new();
    let _ = spawn_obstacles(&mut spawner, 0, -100_000, 640, 480);
    reset_spawner(&mut spawner);
    assert_eq!(spawner.last_processed_player_region_x, None);
    assert_eq!(spawner.last_processed_player_region_y, None);
    assert_eq!(spawner.spawned_regions.len(), 0);
}

#[test]
fn movable_boxes_follow_their_owners() {
    let mut boxes = vec![
        yeti_chase::collidable::Collidable::new(0, 0, 8, 8, 0, -8),
        yeti_chase::collidable::Collidable::new(0, 0, 16, 12, 0, -8),
    ];
    let positions = vec![Vec2i { x: 100, y: -50 }, Vec2i { x: -30, y: 70 }];
    update_collidables(&mut boxes, &positions);
    assert_eq!(boxes[0].left, 100 - 8);
    assert_eq!(boxes[0].top, -50 + 8 - 8);
    assert_eq!(boxes[1].right, -30 + 16);
    assert_eq!(boxes[1].bottom, 70 - 12 - 8);
}

#[test]
fn one_shot_course_has_bounded_grid_and_post_chain() {
    let settings = yeti_chase::level_generator::LevelGeneratorSettings {
        tile_size: 100,
        displacement: 20,
        start_offset_y: 0,
        width: 20,
        height: 50,
        starting_difficulty_permille: 500,
    };
    let layout = yeti_chase::level_generator::generate(&settings);
    assert_eq!(layout.finish_y, -50 * 100 + 100);
    for ob in layout.obstacles.iter() {
        assert!(-10 * 100 - 20 <= ob.x && ob.x < 10 * 100 + 20);
        assert!(-50 * 100 - 20 < ob.y && ob.y < 20);
        assert!(ob.collidable.left <= ob.collidable.right);
    }
    // With a one-in-two chance over 1000 cells, an empty grid does not
    // happen in practice.
    assert!(!layout.obstacles.is_empty());
    let posts = &layout.posts;
    assert!(posts.len() >= 2);
    assert_eq!(
        (posts[0].color, posts[0].x, posts[0].y),
        (yeti_chase::posts::PostColor::Blue, 0, -336)
    );
    let cutoff = layout.finish_y + 300;
    for w in posts.windows(2) {
        assert!(w[0].y > w[1].y);
        assert!(w[0].y >= cutoff);
    }
    assert!(posts[posts.len() - 1].y < cutoff);
}

#[test]
fn saturated_one_shot_course_fills_every_cell() {
    let settings = yeti_chase::level_generator::LevelGeneratorSettings {
        tile_size: 100,
        displacement: 20,
        start_offset_y: 0,
        width: 21,
        height: 10,
        starting_difficulty_permille: 1000,
    };
    let layout = yeti_chase::level_generator::generate(&settings);
    // Ten rows of two times ten columns (the odd column count rounds down).
    assert_eq!(layout.obstacles.len(), 10 * 20);
}
