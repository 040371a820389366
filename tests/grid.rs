use ranger::aabb::AABB;
use ranger::grid::Grid;
use ranger::vector::Vec3;

#[test]
fn grid_fields_are_centered_rows_top_down() {
    let g = Grid::new(2, 3, 5, 5);
    assert_eq!(g.fields.len(), 6);
    let centers: Vec<(i64, i64)> = g.fields.iter().map(|f| (f.point.x, f.point.y)).collect();
    assert_eq!(centers, vec![(-10, 5), (0, 5), (10, 5), (-10, -5), (0, -5), (10, -5)]);
    assert!(g.fields.iter().all(|f| f.half_width == 5 && f.half_height == 5));
}

#[test]
fn nine_by_nine_grid_of_odd_fields() {
    let g = Grid::new(9, 9, 75, 75);
    assert_eq!(g.fields.len(), 81);
    assert_eq!(g.fields[0].point, Vec3::new(-600, 600, 0));
    assert_eq!(g.fields[40].point, Vec3::new(0, 0, 0));
    assert_eq!(g.fields[80].point, Vec3::new(600, -600, 0));
}

#[test]
fn box_association_lists_every_field_it_collides_with() {
    let g = Grid::new(2, 3, 5, 5);
    let b = AABB::new(Vec3::new(0, 0, 0), 1, 1);
    assert_eq!(g.associate_aabb(&b), vec![(1, 2), (2, 2)]);
    let far = AABB::new(Vec3::new(100, 100, 0), 1, 1);
    assert_eq!(g.associate_aabb(&far), vec![(0, 0)]);
}

#[test]
fn point_association_takes_first_field_holding_it() {
    let g = Grid::new(2, 3, 5, 5);
    assert_eq!(g.associate_point(&Vec3::new(3, 3, 0)), vec![(1, 2)]);
    assert_eq!(g.associate_point(&Vec3::new(12, -1, 0)), vec![(2, 3)]);
    assert_eq!(g.associate_point(&Vec3::new(5, 5, 0)), vec![(0, 0)]);
    assert_eq!(g.associate_point(&Vec3::new(100, 0, 0)), vec![(0, 0)]);
}
