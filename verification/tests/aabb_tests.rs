use terrain::aabb::AABB;
use terrain::fixed::Fixed;
use terrain::frustrum::Frustrum;
use terrain::vector::{Mat4, Vec3, Vec4};

fn v3(x: i32, y: i32, z: i32) -> Vec3 {
    Vec3::new(Fixed::from_int(x), Fixed::from_int(y), Fixed::from_int(z))
}

fn v4(x: i32, y: i32, z: i32, w: i32) -> Vec4 {
    Vec4::new(Fixed::from_int(x), Fixed::from_int(y), Fixed::from_int(z), Fixed::from_int(w))
}

fn cube(lo: i32, hi: i32) -> AABB {
    AABB::from_min_max(v3(lo, lo, lo), v3(hi, hi, hi))
}

/// Doubles x, triples y, keeps z, then moves by (1, 2, 3).
fn stretch_and_move() -> Mat4 {
    Mat4 { c0: v4(2, 0, 0, 0), c1: v4(0, 3, 0, 0), c2: v4(0, 0, 1, 0), c3: v4(1, 2, 3, 1) }
}

#[test]
fn the_empty_box_has_its_corners_swapped() {
    let empty = AABB::new();
    assert_eq!(empty.min.x.raw, i64::MAX);
    assert_eq!(empty.min.y.raw, i64::MAX);
    assert_eq!(empty.min.z.raw, i64::MAX);
    assert_eq!(empty.max.x.raw, i64::MIN);
    assert_eq!(empty.max.y.raw, i64::MIN);
    assert_eq!(empty.max.z.raw, i64::MIN);
    assert!(!empty.intersects(&cube(-1000, 1000)));
}

#[test]
fn a_box_from_its_corners() {
    let b = AABB::from_min_max(v3(1, 2, 3), v3(4, 5, 6));
    assert_eq!(b.min, v3(1, 2, 3));
    assert_eq!(b.max, v3(4, 5, 6));
}

#[test]
fn translate_moves_both_corners() {
    let b = AABB::from_min_max(v3(1, 2, 3), v3(4, 5, 6)).translate(v3(10, -10, 1));
    assert_eq!(b, AABB::from_min_max(v3(11, -8, 4), v3(14, -5, 7)));
}

#[test]
fn the_empty_box_widens_to_the_points() {
    let mut b = AABB::new();
    b.expand_to_fit(&vec![v3(1, 5, -2), v3(-3, 2, 0), v3(0, 9, -1)]);
    assert_eq!(b, AABB::from_min_max(v3(-3, 2, -2), v3(1, 9, 0)));
}

#[test]
fn a_box_keeps_what_it_held() {
    let mut b = cube(0, 2);
    b.expand_to_fit(&vec![v3(1, 1, 1), v3(5, 1, -4)]);
    assert_eq!(b, AABB::from_min_max(v3(0, 0, -4), v3(5, 2, 2)));
    let before = b;
    b.expand_to_fit(&Vec::new());
    assert_eq!(b, before);
}

#[test]
fn the_middle_of_the_upper_face() {
    let b = AABB::from_min_max(v3(0, 2, 3), v3(4, 8, 7));
    assert_eq!(b.pos_z_plane_midpoint(), v4(2, 5, 7, 1));
}

#[test]
fn transform_moves_both_corners() {
    let mut b = AABB::from_min_max(v3(1, 1, 1), v3(2, 2, 2));
    b.transform(stretch_and_move());
    assert_eq!(b, AABB::from_min_max(v3(3, 5, 4), v3(5, 8, 5)));
    let mut same = cube(-3, 3);
    same.transform(Mat4::identity());
    assert_eq!(same, cube(-3, 3));
}

#[test]
fn intersect_z_stretches_along_z_only() {
    let mut b = AABB::from_min_max(v3(0, 0, 0), v3(1, 1, 1));
    b.intersect_z(&AABB::from_min_max(v3(-9, -9, -2), v3(9, 9, 5)));
    assert_eq!(b, AABB::from_min_max(v3(0, 0, -2), v3(1, 1, 5)));
    b.intersect_z(&AABB::from_min_max(v3(0, 0, 0), v3(0, 0, 1)));
    assert_eq!(b, AABB::from_min_max(v3(0, 0, -2), v3(1, 1, 5)));
}

#[test]
fn boxes_that_overlap_intersect() {
    assert!(cube(0, 2).intersects(&cube(1, 3)));
    assert!(cube(1, 3).intersects(&cube(0, 2)));
    assert!(cube(0, 10).intersects(&cube(4, 5)));
    assert!(cube(0, 2).intersects(&cube(0, 2)));
}

#[test]
fn boxes_that_touch_intersect() {
    assert!(cube(0, 2).intersects(&cube(2, 3)));
    let beside = AABB::from_min_max(v3(2, 0, 0), v3(3, 2, 2));
    assert!(cube(0, 2).intersects(&beside));
}

#[test]
fn boxes_apart_on_one_axis_do_not_intersect() {
    let base = cube(0, 2);
    assert!(!base.intersects(&AABB::from_min_max(v3(3, 0, 0), v3(4, 2, 2))));
    assert!(!base.intersects(&AABB::from_min_max(v3(-4, 0, 0), v3(-1, 2, 2))));
    assert!(!base.intersects(&AABB::from_min_max(v3(0, 3, 0), v3(2, 4, 2))));
    assert!(!base.intersects(&AABB::from_min_max(v3(0, -4, 0), v3(2, -1, 2))));
    assert!(!base.intersects(&AABB::from_min_max(v3(0, 0, 3), v3(2, 2, 4))));
    assert!(!base.intersects(&AABB::from_min_max(v3(0, 0, -4), v3(2, 2, -1))));
}

#[test]
fn a_matrix_applied_to_a_vector() {
    assert_eq!(stretch_and_move().apply(v4(1, 1, 1, 1)), v4(3, 5, 4, 1));
    assert_eq!(stretch_and_move().apply(v4(1, 1, 1, 0)), v4(2, 3, 1, 0));
    assert_eq!(Mat4::identity().apply(v4(7, -8, 9, 1)), v4(7, -8, 9, 1));
    assert_eq!(v4(1, 2, 3, 4).xyz(), v3(1, 2, 3));
    assert_eq!(v4(1, 2, 3, 4).add(v4(1, 1, 1, 1)), v4(2, 3, 4, 5));
    assert_eq!(v4(1, 2, 3, 4).scale(Fixed::from_int(2)), v4(2, 4, 6, 8));
}

#[test]
fn a_viewing_volume_has_eight_corners() {
    let f = Frustrum::new(Fixed::from_int(-1), Fixed::from_int(1));
    assert_eq!(
        f.points,
        [
            v3(-2, -1, -1),
            v3(2, -1, -1),
            v3(2, 1, -1),
            v3(-2, 1, -1),
            v3(-2, -1, 1),
            v3(2, -1, 1),
            v3(2, 1, 1),
            v3(-2, 1, 1),
        ]
    );
}

#[test]
fn a_viewing_volume_moved_by_a_matrix() {
    let mut f = Frustrum::new(Fixed::from_int(-1), Fixed::from_int(1));
    f.transform_points(stretch_and_move());
    assert_eq!(f.points[0], v3(-3, -1, 2));
    assert_eq!(f.points[6], v3(5, 5, 4));
}

#[test]
fn a_viewing_volume_is_divided_by_the_fourth_component() {
    // The fourth component of every moved point is two.
    let halving =
        Mat4 { c0: v4(1, 0, 0, 0), c1: v4(0, 1, 0, 0), c2: v4(0, 0, 1, 0), c3: v4(0, 0, 0, 2) };
    let mut f = Frustrum::new(Fixed::from_int(-4), Fixed::from_int(4));
    f.transform_points(halving);
    assert_eq!(f.points[0], Vec3::new(Fixed::from_int(-1), Fixed::ratio(-1, 2), Fixed::from_int(-2)));
    // A fourth component of zero gives zero, not a fault.
    let flat =
        Mat4 { c0: v4(1, 0, 0, 0), c1: v4(0, 1, 0, 0), c2: v4(0, 0, 1, 0), c3: v4(0, 0, 0, 0) };
    let mut g = Frustrum::new(Fixed::from_int(-4), Fixed::from_int(4));
    g.transform_points(flat);
    assert_eq!(g.points[3], Vec3::zero());
}
