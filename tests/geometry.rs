use ranger::aabb::{Axis, Fraction, AABB};
use ranger::vector::Vec3;

fn boxed(x: i64, y: i64, half_width: i64, half_height: i64) -> AABB {
    AABB::new(Vec3::new(x, y, 0), half_width, half_height)
}

#[test]
fn overlap_is_symmetric() {
    let pairs = [
        (boxed(0, 0, 5, 5), boxed(8, 3, 5, 5)),
        (boxed(0, 0, 5, 5), boxed(10, 0, 5, 5)),
        (boxed(-3, 7, 1, 9), boxed(20, -4, 2, 2)),
        (boxed(0, 0, 50, 1), boxed(0, 0, 1, 50)),
    ];
    for (a, b) in pairs.iter() {
        assert_eq!(a.box_collision(b), b.box_collision(a));
    }
    assert!(pairs[0].0.box_collision(&pairs[0].1));
    assert!(!pairs[1].0.box_collision(&pairs[1].1));
    assert!(!pairs[2].0.box_collision(&pairs[2].1));
    assert!(pairs[3].0.box_collision(&pairs[3].1));
}

#[test]
fn minkowski_sums_half_extents_at_other_center() {
    let a = boxed(3, 4, 5, 6);
    let b = boxed(-7, 9, 2, 11);
    let m = a.minkowski(&b);
    assert_eq!(m.point, Vec3::new(-7, 9, 0));
    assert_eq!(m.half_width, 7);
    assert_eq!(m.half_height, 17);
}

#[test]
fn point_on_edge_is_not_inside() {
    let b = boxed(0, 0, 5, 5);
    assert!(!b.point_collision(Vec3::new(-5, 0, 0)));
    assert!(!b.point_collision(Vec3::new(5, 0, 0)));
    assert!(!b.point_collision(Vec3::new(0, 5, 0)));
    assert!(!b.point_collision(Vec3::new(0, -5, 0)));
    assert!(b.point_collision(Vec3::new(-4, 4, 0)));
    assert!(b.point_within(Vec3::new(-5, 0, 0)));
    assert!(!b.point_within(Vec3::new(-6, 0, 0)));
}

#[test]
fn sides_and_corners() {
    let b = boxed(10, 20, 3, 4);
    let s = b.sides();
    assert_eq!((s.left, s.bottom, s.right, s.top), (7, 16, 13, 24));
    let k = b.corners();
    assert_eq!(k.a, Vec3::new(7, 24, 0));
    assert_eq!(k.b, Vec3::new(7, 16, 0));
    assert_eq!(k.c, Vec3::new(13, 16, 0));
    assert_eq!(k.d, Vec3::new(13, 24, 0));
    let o = b.outline();
    assert_eq!(o.len(), 4);
    assert_eq!(o[0], (k.a, k.b));
    assert_eq!(o[3], (k.d, k.a));
}

#[test]
fn static_static_pulls_to_nearest_edge() {
    let a = boxed(0, 0, 5, 5);
    let b = boxed(5, 0, 5, 5);
    assert_eq!(a.static_static(&b), Some(Vec3::new(-5, 0, 0)));
}

#[test]
fn static_static_apart_is_none() {
    let a = boxed(0, 0, 5, 5);
    let b = boxed(10, 0, 5, 5);
    assert_eq!(a.static_static(&b), None);
}

#[test]
fn static_correction_settles() {
    let cases = [
        (boxed(0, 0, 5, 5), boxed(5, 0, 5, 5)),
        (boxed(1, 2, 4, 3), boxed(0, 0, 6, 6)),
        (boxed(3, -8, 10, 2), boxed(0, -5, 2, 7)),
    ];
    for (a, b) in cases.iter() {
        let q = a.static_static(b).expect("the boxes overlap");
        let moved = AABB::new(q, a.half_width, a.half_height);
        assert_eq!(moved.static_static(b), None);
        assert!(!moved.box_collision(b));
    }
}

#[test]
fn minimum_distance_ties_go_left_then_right_then_top() {
    let m = boxed(0, 0, 10, 10);
    assert_eq!(m.get_bounds_point_from_minimum_distance(Vec3::new(0, 0, 3)), Vec3::new(-10, 0, 3));
    assert_eq!(m.get_bounds_point_from_minimum_distance(Vec3::new(1, 0, 0)), Vec3::new(10, 0, 0));
    assert_eq!(m.get_bounds_point_from_minimum_distance(Vec3::new(0, 8, 0)), Vec3::new(0, 10, 0));
    assert_eq!(m.get_bounds_point_from_minimum_distance(Vec3::new(0, -8, 0)), Vec3::new(0, -10, 0));
    assert_eq!(m.get_bounds_point_from_minimum_distance(Vec3::new(9, 9, 0)), Vec3::new(10, 9, 0));
}

#[test]
fn swept_stops_at_minkowski_edge() {
    let a = boxed(0, 0, 5, 5);
    let b = boxed(20, 0, 5, 5);
    assert_eq!(a.dynamic_static(Vec3::new(30, 0, 0), &b), Some(Vec3::new(10, 0, 0)));
}

#[test]
fn swept_is_none_short_of_the_gap_and_stops_once_it_reaches_it() {
    let a = boxed(0, 0, 5, 5);
    let b = boxed(20, 0, 5, 5);
    // The gap between a's right edge and b's left edge is 10.
    assert_eq!(a.dynamic_static(Vec3::new(9, 0, 0), &b), None);
    assert_eq!(a.dynamic_static(Vec3::new(10, 0, 0), &b), Some(Vec3::new(10, 0, 0)));
    assert_eq!(a.dynamic_static(Vec3::new(15, 0, 0), &b), Some(Vec3::new(10, 0, 0)));
    assert_eq!(a.dynamic_static(Vec3::new(25, 0, 0), &b), Some(Vec3::new(10, 0, 0)));
}

#[test]
fn swept_diagonal_stops_on_first_contact() {
    let a = boxed(0, 0, 5, 5);
    let b = boxed(20, 5, 5, 5);
    // The Minkowski sum spans x in [10, 30] and y in [-5, 15]; the move
    // enters it through its left edge, a third of the way along.
    assert_eq!(a.dynamic_static(Vec3::new(30, 30, 0), &b), None);
    assert_eq!(a.dynamic_static(Vec3::new(15, 6, 0), &b), Some(Vec3::new(10, 4, 0)));
}

#[test]
fn clip_against_axis() {
    let b = boxed(0, 0, 5, 5);
    let c = Vec3::new(-10, 0, 0);
    let n = Vec3::new(10, 0, 0);
    assert_eq!(b.clip_segment_against_axis(Axis::X, c, n), Some(Fraction { num: 5, den: 20 }));
    assert_eq!(b.clip_segment_against_axis(Axis::Y, c, n), Some(Fraction { num: 0, den: 1 }));
    let above = Vec3::new(-10, 6, 0);
    assert_eq!(b.clip_segment_against_axis(Axis::Y, above, Vec3::new(10, 6, 0)), None);
    assert_eq!(b.clip_segment_against_axis(Axis::X, n, Vec3::new(20, 0, 0)), None);
    assert_eq!(b.clip_segment_against_axis(Axis::X, n, c), Some(Fraction { num: 5, den: 20 }));
}

#[test]
fn segment_misses_far_box_and_meets_straddling_one() {
    let far = boxed(20, 20, 2, 2);
    assert!(!far.intersect_line(Vec3::new(0, 0, 0), Vec3::new(5, 5, 0)));
    let straddling = boxed(2, 3, 1, 1);
    assert!(straddling.intersect_line(Vec3::new(0, 0, 0), Vec3::new(5, 5, 0)));
}

#[test]
fn intersect_segment_axis_aligned_and_degenerate() {
    let b = boxed(0, 0, 5, 5);
    assert!(b.intersect_line(Vec3::new(-10, 0, 0), Vec3::new(10, 0, 0)));
    assert!(b.intersect_line(Vec3::new(0, -10, 0), Vec3::new(0, 10, 0)));
    assert!(!b.intersect_line(Vec3::new(-10, 7, 0), Vec3::new(10, 7, 0)));
    assert!(b.intersect_line(Vec3::new(1, 1, 0), Vec3::new(1, 1, 0)));
    assert!(!b.intersect_line(Vec3::new(9, 9, 0), Vec3::new(9, 9, 0)));
    // The segment ends short of the box.
    assert!(!b.intersect_line(Vec3::new(-20, 0, 0), Vec3::new(-6, 0, 0)));
}

#[test]
fn swept_result_never_overlaps_the_obstacle() {
    let obstacle = boxed(20, 5, 5, 5);
    let movers = [
        (boxed(0, 0, 5, 5), Vec3::new(15, 6, 0)),
        (boxed(0, 0, 5, 5), Vec3::new(25, 0, 0)),
        (boxed(0, 30, 5, 5), Vec3::new(17, -17, 0)),
        (boxed(40, -20, 3, 3), Vec3::new(-13, 22, 0)),
    ];
    for (mover, movement) in movers.iter() {
        assert!(!mover.box_collision(&obstacle));
        let q = mover.dynamic_static(*movement, &obstacle).expect("the move ends in the obstacle");
        let stopped = AABB::new(q, mover.half_width, mover.half_height);
        assert!(!stopped.box_collision(&obstacle));
    }
}
