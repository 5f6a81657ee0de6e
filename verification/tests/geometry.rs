use space_shooter::geom::{
    clamp_i64, collision_side, intersects, sat_add, Aabb, Side, Vec2i,
};

fn boxat(x: i64, y: i64, hx: i64, hy: i64) -> Aabb {
    Aabb { center: Vec2i { x, y }, half: Vec2i { x: hx, y: hy } }
}

#[test]
fn overlapping_boxes_intersect() {
    let a = boxat(0, 0, 10000, 10000);
    let b = boxat(5000, 5000, 10000, 10000);
    assert!(intersects(&a, &b));
    assert!(intersects(&b, &a));
}

#[test]
fn touching_edges_count_as_overlap() {
    let a = boxat(0, 0, 10000, 10000);
    let b = boxat(20000, 0, 10000, 10000);
    assert!(intersects(&a, &b));
}

#[test]
fn separated_boxes_do_not_intersect() {
    let a = boxat(0, 0, 10000, 10000);
    let b = boxat(20001, 0, 10000, 10000);
    assert!(!intersects(&a, &b));
    let c = boxat(0, 30000, 10000, 9999);
    assert!(!intersects(&a, &c));
}

#[test]
fn collision_side_none_when_apart() {
    let a = boxat(0, 0, 1000, 1000);
    let b = boxat(100000, 0, 1000, 1000);
    assert_eq!(collision_side(&a, &b), None);
}

#[test]
fn collision_side_left_and_right() {
    let b = boxat(0, 0, 10000, 10000);
    let from_right = boxat(12000, 0, 5000, 5000);
    assert_eq!(collision_side(&from_right, &b), Some(Side::Right));
    let from_left = boxat(-12000, 0, 5000, 5000);
    assert_eq!(collision_side(&from_left, &b), Some(Side::Left));
}

#[test]
fn collision_side_top_and_bottom() {
    let b = boxat(0, 0, 10000, 10000);
    let from_above = boxat(0, 12000, 5000, 5000);
    assert_eq!(collision_side(&from_above, &b), Some(Side::Top));
    let from_below = boxat(0, -12000, 5000, 5000);
    assert_eq!(collision_side(&from_below, &b), Some(Side::Bottom));
}

#[test]
fn collision_side_tie_goes_horizontal() {
    let b = boxat(0, 0, 10000, 10000);
    // equal offsets on both axes: the horizontal classification wins
    let corner = boxat(12000, 12000, 5000, 5000);
    assert_eq!(collision_side(&corner, &b), Some(Side::Right));
}

#[test]
fn sat_add_clamps_at_the_ends() {
    assert_eq!(sat_add(1, 2), 3);
    assert_eq!(sat_add(i64::MAX, 1), i64::MAX);
    assert_eq!(sat_add(i64::MIN, -1), i64::MIN);
    assert_eq!(sat_add(-5, 5), 0);
}

#[test]
fn clamp_behaves() {
    assert_eq!(clamp_i64(5, 0, 10), 5);
    assert_eq!(clamp_i64(-5, 0, 10), 0);
    assert_eq!(clamp_i64(15, 0, 10), 10);
}
