use yeti_chase::animation::Animation;
use yeti_chase::camera::update_camera;
use yeti_chase::collidable::Collidable;
use yeti_chase::collision::{process_collisions_player, process_collisions_yeti, YetiCollision};
use yeti_chase::finish::{check_finish_crossed, Finish};
use yeti_chase::geom::Vec2i;
use yeti_chase::player::{update_movables, update_slowdown, Score, Slowdown};
use yeti_chase::posts::{detect_posts_hit, spawn_posts, PostColor, PostsData, PostsSpawner};
use yeti_chase::stuneffect::{update_stun, Stun};
use yeti_chase::timer::TickTimer;
use yeti_chase::uicontrols::{player_input, ControlScheme, ControlSchemeType, UiControlType};
use yeti_chase::yeti::{
    update_spawner, update_wake_up, update_yeti, yeti_ai, Yeti, YetiAi, YetiSpawnAction,
    YetiSpawnPhase, YetiSpawner,
};

#[test]
fn player_falls_on_any_obstacle_overlap() {
    let player = Collidable::new(0, 0, 8, 8, 0, -8);
    let near = Collidable::new(4, -4, 8, 8, 0, -8);
    let far = Collidable::new(500, 500, 8, 8, 0, -8);
    assert!(process_collisions_player(&player, &vec![far, near]));
    assert!(!process_collisions_player(&player, &vec![far]));
    assert!(!process_collisions_player(&player, &vec![]));
}

#[test]
fn obstacle_collision_preempts_capture() {
    let yeti = Collidable::new(0, 0, 16, 12, 0, -8);
    let obstacle = Collidable::new(2, -2, 8, 8, 0, -8);
    let player = Collidable::new(1, -1, 8, 8, 0, -8);
    // The chaser overlaps the obstacle and the player in the same tick:
    // only the stun outcome fires.
    let r = process_collisions_yeti(&yeti, false, true, Some(&player), &vec![obstacle]);
    assert_eq!(r, YetiCollision::StunYeti);
}

#[test]
fn capture_fires_only_without_an_obstacle_overlap() {
    let yeti = Collidable::new(0, 0, 16, 12, 0, -8);
    let player = Collidable::new(1, -1, 8, 8, 0, -8);
    let far = Collidable::new(900, 900, 8, 8, 0, -8);
    let r = process_collisions_yeti(&yeti, false, true, Some(&player), &vec![far]);
    assert_eq!(r, YetiCollision::CatchPlayer);
    let r = process_collisions_yeti(&yeti, false, true, None, &vec![far]);
    assert_eq!(r, YetiCollision::NoCollision);
}

#[test]
fn stunned_or_graced_chaser_collides_with_nothing() {
    let yeti = Collidable::new(0, 0, 16, 12, 0, -8);
    let obstacle = Collidable::new(2, -2, 8, 8, 0, -8);
    let r = process_collisions_yeti(&yeti, true, true, None, &vec![obstacle]);
    assert_eq!(r, YetiCollision::NoCollision);
    let r = process_collisions_yeti(&yeti, false, false, None, &vec![obstacle]);
    assert_eq!(r, YetiCollision::NoCollision);
}

#[test]
fn direct_chase_heads_straight_for_the_player() {
    let vel = yeti_ai(
        &YetiAi::ChaseDirect,
        Vec2i { x: 0, y: 0 },
        40,
        Some(Vec2i { x: 0, y: -100 }),
        &vec![],
    );
    assert_eq!(vel, Some(Vec2i { x: 0, y: -40 }));
}

#[test]
fn chase_idles_without_a_player_or_on_top_of_it() {
    let vel = yeti_ai(&YetiAi::ChaseDirect, Vec2i { x: 3, y: 4 }, 40, None, &vec![]);
    assert_eq!(vel, Some(Vec2i { x: 0, y: 0 }));
    let vel = yeti_ai(
        &YetiAi::ChaseAvoidObstacles,
        Vec2i { x: 3, y: 4 },
        40,
        Some(Vec2i { x: 3, y: 4 }),
        &vec![],
    );
    assert_eq!(vel, Some(Vec2i { x: 0, y: 0 }));
}

#[test]
fn avoidance_takes_the_direct_heading_when_clear() {
    let far = Collidable::new(400, 400, 8, 8, 0, -8);
    let vel = yeti_ai(
        &YetiAi::ChaseAvoidObstacles,
        Vec2i { x: 0, y: 0 },
        40,
        Some(Vec2i { x: 0, y: -100 }),
        &vec![far],
    );
    assert_eq!(vel, Some(Vec2i { x: 0, y: -40 }));
}

#[test]
fn avoidance_swerves_around_a_blocking_obstacle() {
    // A box straddling the direct line from (0,0) to (0,-100):
    // left=-5, right=5, top=-40, bottom=-60.
    let block = Collidable::new(0, -50, 5, 10, 0, 0);
    let vel = yeti_ai(
        &YetiAi::ChaseAvoidObstacles,
        Vec2i { x: 0, y: 0 },
        40,
        Some(Vec2i { x: 0, y: -100 }),
        &vec![block],
    )
    .expect("a clear heading exists");
    // A non-zero angular offset is selected.
    assert_ne!(vel, Vec2i { x: 0, y: -40 });
    assert_ne!(vel.x, 0);
    // One angular step from straight down, at speed 40.
    assert_eq!(vel, Vec2i { x: 7, y: -39 });
    // The selected heading's ray of capped length misses the obstacle.
    let ray_end = Vec2i { x: 1951 * 100 / 10_000, y: -9808 * 100 / 10_000 };
    assert!(block.intersect_line(Vec2i { x: 0, y: 0 }, ray_end).is_none());
}

#[test]
fn avoidance_reports_nothing_when_the_fan_is_exhausted() {
    // A ring of boxes around the chaser blocks every probe.
    let mut walls: Vec<Collidable> = Vec::new();
    for gx in -3..=3i64 {
        for gy in -3..=3i64 {
            if gx.abs() == 3 || gy.abs() == 3 {
                walls.push(Collidable::new(gx * 10, gy * 10, 6, 6, 0, 0));
            }
        }
    }
    let vel = yeti_ai(
        &YetiAi::ChaseAvoidObstacles,
        Vec2i { x: 0, y: 0 },
        40,
        Some(Vec2i { x: 0, y: -100 }),
        &walls,
    );
    assert_eq!(vel, None);
}

#[test]
fn grace_timer_elapses_and_wake_up_restarts_it() {
    let mut yeti = Yeti::new();
    assert!(!yeti.ignore_collisions.finished());
    update_yeti(&mut yeti, 1500);
    assert!(yeti.ignore_collisions.finished());
    update_wake_up(&mut yeti);
    assert!(!yeti.ignore_collisions.finished());
    assert_eq!(yeti.speed, 192);
}

#[test]
fn one_shot_timer_finishes_once() {
    let mut t = TickTimer::new(800, false);
    assert!(!t.tick(500));
    assert!(!t.finished());
    assert!(t.tick(400));
    assert!(t.finished());
    assert!(!t.tick(100));
    assert!(t.finished());
    t.reset();
    assert!(!t.finished());
}

#[test]
fn repeating_timer_wraps_around() {
    let mut t = TickTimer::new(100, true);
    assert!(!t.tick(60));
    assert!(t.tick(60));
    assert_eq!(t.elapsed_ms, 20);
    assert!(t.tick(250));
    assert_eq!(t.elapsed_ms, 70);
}

#[test]
fn stun_expires_after_its_duration() {
    let mut stun = Stun::new(800);
    assert!(!update_stun(&mut stun, 500));
    assert!(update_stun(&mut stun, 300));
}

#[test]
fn fall_recovery_runs_out_after_its_timeout() {
    let mut slowdown = Slowdown::new();
    assert_eq!(slowdown.0.duration_ms, 300);
    assert!(!update_slowdown(&mut slowdown, 200));
    assert!(update_slowdown(&mut slowdown, 100));
}

#[test]
fn spawn_schedule_walks_through_its_phases() {
    let mut spawner = YetiSpawner::new();
    assert_eq!(spawner.phase, YetiSpawnPhase::Idle);
    assert_eq!(update_spawner(&mut spawner, 1000, 0, 0, 640, 480), YetiSpawnAction::Nothing);
    assert_eq!(spawner.phase, YetiSpawnPhase::Idle);
    assert_eq!(update_spawner(&mut spawner, 29_000, 0, 0, 640, 480), YetiSpawnAction::Nothing);
    assert_eq!(spawner.phase, YetiSpawnPhase::Step);
    let action = update_spawner(&mut spawner, 30_000, 10, -2000, 640, 480);
    assert_eq!(
        action,
        YetiSpawnAction::PlaceSteps { y: -2000 - 480, from_x: -1280, to_x: 1280 }
    );
    assert_eq!(spawner.phase, YetiSpawnPhase::Spawning);
    match update_spawner(&mut spawner, 3_000, 10, -2000, 640, 480) {
        YetiSpawnAction::PlaceYeti { x, y, ai } => {
            assert_eq!(x, 10 + 320);
            assert!(-2000 <= y && y < -2000 + 240 - 32);
            // The schedule decides the steering mode: direct pursuit.
            assert_eq!(ai, YetiAi::ChaseDirect);
        }
        other => panic!("expected the chaser to spawn, got {:?}", other),
    }
    assert_eq!(spawner.phase, YetiSpawnPhase::Completed);
    assert_eq!(update_spawner(&mut spawner, 3_000, 10, -2000, 640, 480), YetiSpawnAction::Nothing);
    assert_eq!(spawner.phase, YetiSpawnPhase::Completed);
}

#[test]
fn gate_chain_starts_straight_down_then_alternates() {
    let mut s = PostsSpawner::new();
    let (color, x, y) = s.next();
    assert_eq!(color, PostColor::Blue);
    assert_eq!((x, y), (0, -336));
    let (color, x, y) = s.next();
    assert_eq!(color, PostColor::Red);
    assert!(120 <= x && x < 288);
    assert!(-336 - 240 < y && y <= -336 - 192);
    let (color, x2, _) = s.next();
    assert_eq!(color, PostColor::Blue);
    assert!(x - 288 < x2 && x2 <= x - 120);
}

#[test]
fn gates_spawn_only_near_the_camera() {
    let mut s = PostsSpawner::new();
    let mut posts: Vec<PostsData> = Vec::new();
    assert_eq!(spawn_posts(&mut s, &mut posts, -10_000, 480), None);
    assert!(posts.is_empty());
    let placed = spawn_posts(&mut s, &mut posts, -100, 480);
    assert!(placed.is_some());
    assert_eq!(posts.len(), 1);
    assert_eq!(posts[0].x_left, -84);
    assert_eq!(posts[0].x_right, 84);
    assert_eq!(posts[0].y, -336);
}

#[test]
fn passing_a_gate_scores_and_consumes_it() {
    let mut posts = vec![PostsData { x_left: -84, x_right: 84, y: -336 }];
    let mut score = Score::new();
    let hit = detect_posts_hit(&mut posts, 0, -330, &mut score);
    assert!(hit);
    assert_eq!(score.value, 10_000);
    assert!(posts.is_empty());
}

#[test]
fn skipping_a_gate_costs_points() {
    let mut posts = vec![PostsData { x_left: -84, x_right: 84, y: -336 }];
    let mut score = Score::new();
    // The player is already well below the posts and far to the side.
    let hit = detect_posts_hit(&mut posts, 500, -340, &mut score);
    assert!(!hit);
    assert_eq!(score.value, -10_000);
    assert!(posts.is_empty());
}

#[test]
fn an_untouched_gate_ahead_stays_queued() {
    let mut posts = vec![PostsData { x_left: -84, x_right: 84, y: -336 }];
    let mut score = Score::new();
    let hit = detect_posts_hit(&mut posts, 0, -100, &mut score);
    assert!(!hit);
    assert_eq!(score.value, 0);
    assert_eq!(posts.len(), 1);
}

#[test]
fn score_counts_time_and_gate_bonuses() {
    let mut score = Score::new();
    score.add_time(2500);
    score.increase();
    score.decrease();
    score.decrease();
    assert_eq!(score.value, 2500 - 10_000);
}

#[test]
fn movement_integrates_velocity_over_the_tick() {
    let mut positions = vec![Vec2i { x: 100, y: 200 }, Vec2i { x: 0, y: 0 }];
    let velocities = vec![Vec2i { x: 1000, y: -2000 }, Vec2i { x: -7, y: 7 }];
    update_movables(&mut positions, &velocities, 500);
    assert_eq!(positions[0], Vec2i { x: 600, y: -800 });
    // Truncating scaling: -3.5 and 3.5 round toward zero.
    assert_eq!(positions[1], Vec2i { x: -3, y: 3 });
}

#[test]
fn input_collapses_to_one_signal() {
    assert_eq!(player_input(None, false, false, None), None);
    assert_eq!(player_input(None, true, false, None), Some(UiControlType::Left));
    assert_eq!(player_input(None, true, true, None), Some(UiControlType::Right));
    assert_eq!(
        player_input(None, true, true, Some(UiControlType::Left)),
        Some(UiControlType::Left)
    );
    assert_eq!(
        player_input(Some(UiControlType::Right), false, false, None),
        Some(UiControlType::Right)
    );
}

#[test]
fn control_scheme_flips_between_mobile_and_desktop() {
    let mut scheme = ControlScheme { kind: ControlSchemeType::Desktop };
    assert!(scheme.is_desktop());
    assert!(!scheme.is_mobile());
    scheme.set_mobile();
    assert!(scheme.is_mobile());
    scheme.set_desktop();
    assert!(scheme.is_desktop());
}

#[test]
fn camera_follows_the_focus_with_a_fixed_offset() {
    let camera = update_camera(Vec2i { x: 55, y: -700 });
    assert_eq!(camera, Vec2i { x: 55, y: -732 });
}

#[test]
fn finish_line_is_crossed_strictly_below_it() {
    let finish = Finish(-5000);
    assert!(!check_finish_crossed(&finish, -5000));
    assert!(check_finish_crossed(&finish, -5001));
}

#[test]
fn repeating_animation_wraps_its_frames() {
    let mut a = Animation::new(vec![7, 8, 9], true);
    assert_eq!(a.get_frame(), Some(7));
    a.next_frame();
    assert_eq!(a.get_frame(), Some(8));
    a.next_frame();
    assert_eq!(a.get_frame(), Some(9));
    a.next_frame();
    assert_eq!(a.get_frame(), Some(7));
}

#[test]
fn one_shot_animation_runs_off_its_end() {
    let mut a = Animation::new(vec![7, 8], false);
    a.next_frame();
    assert_eq!(a.get_frame(), Some(8));
    a.next_frame();
    assert_eq!(a.get_frame(), None);
}

#[test]
fn animation_steps_on_full_frame_times() {
    let mut a = Animation::new(vec![1, 2], true);
    assert!(!a.update(100));
    assert_eq!(a.get_frame(), Some(1));
    assert!(a.update(40));
    assert_eq!(a.get_frame(), Some(2));
    a.set_frames(vec![5, 6, 7]);
    assert_eq!(a.get_frame(), Some(5));
    assert_eq!(a.act_frame_index, 0);
}
