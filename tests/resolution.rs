use ranger::aabb::AABB;
use ranger::path::Path;
use ranger::resolution::{
    confine_to_screen, correct_actor_collisions, detect_actor_collisions, move_actors, move_uncorrected_actors,
    pair_correction, tick, Actor, Correction,
};
use ranger::vector::{Vec3, WORLD_BOUND};

fn actor(x: i64, y: i64, half: i64, mx: i64, my: i64) -> Actor {
    let mut path = Path::new(100);
    path.movement = Vec3::new(mx, my, 0);
    Actor { aabb: AABB::new(Vec3::new(x, y, 0), half, half), path }
}

#[test]
fn path_is_moving_unless_zero() {
    let p = Path::new(50);
    assert!(!p.is_moving());
    assert_eq!(p.velocity, 50);
    let mut q = p;
    q.movement = Vec3::new(0, 3, 0);
    assert!(q.is_moving());
    q.movement = Vec3::new(0, 0, -1);
    assert!(q.is_moving());
}

#[test]
fn moving_pair_gets_no_correction() {
    let a = actor(0, 0, 5, 3, 0);
    let b = actor(2, 0, 5, -3, 0);
    assert_eq!(pair_correction(&a, 0, &b, 1), None);
    assert!(!AABB::is_colliding(&a.aabb, &a.path, &b.aabb, &b.path));
    let mut actors = vec![a, b];
    let pending = detect_actor_collisions(&actors);
    assert!(pending.is_empty());
    tick(&mut actors, 1000, 1000);
    assert_eq!(actors[0].aabb.point, Vec3::new(3, 0, 0));
    assert_eq!(actors[1].aabb.point, Vec3::new(-1, 0, 0));
}

#[test]
fn resting_pair_pushes_first_apart() {
    let a = actor(0, 0, 5, 0, 0);
    let b = actor(5, 0, 5, 0, 0);
    assert_eq!(
        pair_correction(&a, 0, &b, 1),
        Some(Correction { actor: 0, translation: Vec3::new(-5, 0, 0) })
    );
    assert!(AABB::is_colliding(&a.aabb, &a.path, &b.aabb, &b.path));
}

#[test]
fn resting_and_moving_corrects_the_mover() {
    let wall = actor(20, 0, 5, 0, 0);
    let mover = actor(0, 0, 5, 30, 0);
    // The mover stops at x = 10, which takes the place of its movement.
    assert_eq!(
        pair_correction(&wall, 0, &mover, 1),
        Some(Correction { actor: 1, translation: Vec3::new(10, 0, 0) })
    );
    let mut actors = vec![wall, mover];
    tick(&mut actors, 1000, 1000);
    assert_eq!(actors[0].aabb.point, Vec3::new(20, 0, 0));
    assert_eq!(actors[1].aabb.point, Vec3::new(10, 0, 0));
}

#[test]
fn detection_keeps_last_correction_per_actor() {
    let actors = vec![actor(0, 0, 5, 0, 0), actor(5, 0, 5, 0, 0), actor(0, 4, 5, 0, 0)];
    let pending = detect_actor_collisions(&actors);
    // Actor 0 is first pushed to x = -5 by actor 1, then to y = -6 by
    // actor 2; the later correction replaces the earlier one in its place.
    assert_eq!(
        pending,
        vec![
            Correction { actor: 0, translation: Vec3::new(0, -6, 0) },
            Correction { actor: 1, translation: Vec3::new(5, 0, 0) },
        ]
    );
}

#[test]
fn corrections_apply_in_order_and_skip_bad_ones() {
    let mut actors = vec![actor(0, 0, 5, 0, 0), actor(100, 0, 5, 0, 0)];
    let pending = vec![
        Correction { actor: 0, translation: Vec3::new(3, -2, 0) },
        Correction { actor: 7, translation: Vec3::new(1, 1, 1) },
        Correction { actor: 1, translation: Vec3::new(WORLD_BOUND, 0, 0) },
        Correction { actor: 0, translation: Vec3::new(1, 0, 0) },
    ];
    correct_actor_collisions(&mut actors, &pending);
    assert_eq!(actors[0].aabb.point, Vec3::new(4, -2, 0));
    assert_eq!(actors[1].aabb.point, Vec3::new(100, 0, 0));
}

#[test]
fn integration_adds_movement_and_refuses_to_leave_the_world() {
    let mut actors = vec![actor(1, 2, 5, 3, -4), actor(WORLD_BOUND - 1, 0, 5, 2, 0)];
    move_actors(&mut actors);
    assert_eq!(actors[0].aabb.point, Vec3::new(4, -2, 0));
    assert_eq!(actors[1].aabb.point, Vec3::new(WORLD_BOUND - 1, 0, 0));
}

#[test]
fn confinement_clamps_with_half_extent_tolerance() {
    let mut actors = vec![actor(500, -500, 10, 0, 0), actor(50, 60, 10, 0, 0), actor(-111, 111, 10, 0, 0)];
    confine_to_screen(&mut actors, 100, 100);
    assert_eq!(actors[0].aabb.point, Vec3::new(110, -110, 0));
    assert_eq!(actors[1].aabb.point, Vec3::new(50, 60, 0));
    assert_eq!(actors[2].aabb.point, Vec3::new(-110, 110, 0));
}

#[test]
fn tick_runs_detection_correction_integration_confinement() {
    let mut actors = vec![actor(0, 0, 5, 0, 0), actor(5, 0, 5, 0, 0), actor(190, 0, 5, 20, 0)];
    tick(&mut actors, 200, 200);
    assert_eq!(actors[0].aabb.point, Vec3::new(-5, 0, 0));
    assert_eq!(actors[1].aabb.point, Vec3::new(5, 0, 0));
    assert_eq!(actors[2].aabb.point, Vec3::new(205, 0, 0));
}

#[test]
fn corrected_actors_are_not_integrated() {
    let mut actors = vec![actor(0, 0, 5, 7, 0), actor(50, 0, 5, 0, 3)];
    let pending = vec![Correction { actor: 0, translation: Vec3::new(2, 2, 0) }];
    move_uncorrected_actors(&mut actors, &pending);
    assert_eq!(actors[0].aabb.point, Vec3::new(0, 0, 0));
    assert_eq!(actors[1].aabb.point, Vec3::new(50, 3, 0));
}

#[test]
fn mover_at_world_edge_stops_at_obstacle() {
    let left = -WORLD_BOUND;
    let mover = actor(left, 0, 5, 60, 0);
    let wall = actor(left + 60, 0, 5, 0, 0);
    let mut actors = vec![mover, wall];
    tick(&mut actors, WORLD_BOUND, WORLD_BOUND);
    assert_eq!(actors[0].aabb.point, Vec3::new(left + 50, 0, 0));
    assert_eq!(actors[1].aabb.point, Vec3::new(left + 60, 0, 0));
}
