use terrain::fixed::{Fixed, ONE_RAW};
use terrain::heightfield::PerlinMap;
use terrain::query::{intersect, tri_normal, Footing, Triangle};
use terrain::vector::{Vec2, Vec3};

fn whole(values: &[i32], width: usize) -> PerlinMap {
    assert_eq!(values.len(), width * width);
    PerlinMap {
        data: values.iter().map(|&v| Fixed::from_int(v)).collect(),
        flow: vec![Fixed::zero(); width * width],
        map_size: width,
    }
}

fn at(x_raw: i64, y_raw: i64) -> Vec2 {
    Vec2::new(Fixed { raw: x_raw }, Fixed { raw: y_raw })
}

fn v3(x: i32, y: i32, z: i32) -> Vec3 {
    Vec3::new(Fixed::from_int(x), Fixed::from_int(y), Fixed::from_int(z))
}

const HALF: i64 = ONE_RAW / 2;
const QUARTER: i64 = ONE_RAW / 4;
const EIGHTH: i64 = ONE_RAW / 8;

fn slope() -> PerlinMap {
    // The plane z = x.
    whole(&[0, 1, 2, 3, 0, 1, 2, 3, 0, 1, 2, 3, 0, 1, 2, 3], 4)
}

fn bumpy() -> PerlinMap {
    whole(&[1, 2, 4, 3, 5, 8, 0, 6, 7], 3)
}

#[test]
fn ray_meets_a_level_triangle() {
    let hit = intersect(
        v3(0, 0, 2),
        v3(4, 0, 2),
        v3(0, 4, 2),
        v3(1, 1, 10),
        v3(0, 0, -1),
    );
    assert_eq!(hit, Some((v3(1, 1, 2), Fixed::from_int(8))));
}

#[test]
fn ray_misses_beside_the_triangle() {
    let tri = (v3(0, 0, 2), v3(4, 0, 2), v3(0, 4, 2));
    assert_eq!(intersect(tri.0, tri.1, tri.2, v3(-1, 1, 10), v3(0, 0, -1)), None);
    assert_eq!(intersect(tri.0, tri.1, tri.2, v3(1, -1, 10), v3(0, 0, -1)), None);
    assert_eq!(intersect(tri.0, tri.1, tri.2, v3(3, 3, 10), v3(0, 0, -1)), None);
}

#[test]
fn ray_parallel_to_the_triangle_misses() {
    let hit = intersect(
        v3(0, 0, 2),
        v3(4, 0, 2),
        v3(0, 4, 2),
        v3(1, 1, 10),
        v3(1, 0, 0),
    );
    assert_eq!(hit, None);
}

#[test]
fn ray_misses_a_triangle_without_area() {
    let hit = intersect(
        v3(0, 0, 0),
        v3(1, 1, 1),
        v3(2, 2, 2),
        v3(1, 1, 10),
        v3(0, 0, -1),
    );
    assert_eq!(hit, None);
}

#[test]
fn face_normal_of_a_level_triangle_points_up() {
    assert_eq!(tri_normal(v3(0, 0, 5), v3(1, 0, 5), v3(0, 1, 5)), v3(0, 0, 1));
}

#[test]
fn face_normal_of_a_triangle_without_area_is_zero() {
    assert_eq!(tri_normal(v3(0, 0, 0), v3(1, 1, 1), v3(2, 2, 2)), Vec3::zero());
}

#[test]
fn locate_gives_cell_and_offsets() {
    let map = slope();
    let found = map.locate(at(2 * ONE_RAW + QUARTER, ONE_RAW + HALF));
    assert_eq!(found, Some(Footing { x: 2, y: 1, offset: at(QUARTER, HALF) }));
    assert_eq!(
        map.locate(at(3 * ONE_RAW, 3 * ONE_RAW)),
        Some(Footing { x: 3, y: 3, offset: at(0, 0) })
    );
}

#[test]
fn locate_rejects_positions_off_the_grid() {
    let map = slope();
    assert_eq!(map.locate(at(-1, 0)), None);
    assert_eq!(map.locate(at(0, -1)), None);
    assert_eq!(map.locate(at(4 * ONE_RAW, 0)), None);
    assert_eq!(map.locate(at(0, 4 * ONE_RAW)), None);
    assert_eq!(map.locate(at(i64::MAX, i64::MAX)), None);
    assert_eq!(map.locate(at(i64::MIN, i64::MIN)), None);
}

#[test]
fn interior_needs_four_cells_around() {
    let map = slope();
    let inside = map.interior(at(2 * ONE_RAW + QUARTER, ONE_RAW + HALF));
    assert_eq!(inside, Some((Footing { x: 2, y: 1, offset: at(QUARTER, HALF) }, 6)));
    assert_eq!(map.interior(at(3 * ONE_RAW, ONE_RAW)), None);
    assert_eq!(map.interior(at(ONE_RAW, 3 * ONE_RAW)), None);
    assert_eq!(map.interior(at(-1, ONE_RAW)), None);
    let single = whole(&[1], 1);
    assert_eq!(single.interior(at(0, 0)), None);
}

#[test]
fn triangle_at_picks_the_half_of_the_cell() {
    let map = bumpy();
    assert_eq!(
        map.triangle_at(at(QUARTER, HALF)),
        Some(Triangle { v0: v3(0, 0, 1), v1: v3(1, 0, 2), v2: v3(0, 1, 3) })
    );
    // On the diagonal the first half still holds.
    assert_eq!(
        map.triangle_at(at(HALF, HALF)),
        Some(Triangle { v0: v3(0, 0, 1), v1: v3(1, 0, 2), v2: v3(0, 1, 3) })
    );
    assert_eq!(
        map.triangle_at(at(HALF + 1, HALF)),
        Some(Triangle { v0: v3(1, 0, 2), v1: v3(1, 1, 5), v2: v3(0, 1, 3) })
    );
    assert_eq!(map.triangle_at(at(3 * ONE_RAW, 0)), None);
}

#[test]
fn triangle_at_the_last_row_has_corners_at_zero() {
    let map = bumpy();
    assert_eq!(
        map.triangle_at(at(2 * ONE_RAW, 2 * ONE_RAW)),
        Some(Triangle { v0: v3(2, 2, 7), v1: v3(3, 2, 0), v2: v3(2, 3, 0) })
    );
}

#[test]
fn height_on_a_plane() {
    let map = slope();
    assert_eq!(map.get_z_interpolated(at(ONE_RAW + HALF, HALF)).raw, 3 * HALF);
    assert_eq!(map.get_z_interpolated(at(QUARTER, QUARTER)).raw, QUARTER);
    assert_eq!(map.get_z_interpolated(at(3 * QUARTER, 3 * QUARTER)).raw, 3 * QUARTER);
    assert_eq!(map.height(at(ONE_RAW + HALF, HALF)).raw, 3 * HALF);
}

#[test]
fn height_on_a_grid_point_is_the_cell_height() {
    let map = bumpy();
    for y in 0..3 {
        for x in 0..3 {
            let pos = Vec2::new(Fixed::from_int(x), Fixed::from_int(y));
            assert_eq!(map.get_z_interpolated(pos), map.get_z(x as usize, y as usize));
        }
    }
}

#[test]
fn height_inside_both_triangles() {
    let map = bumpy();
    // First half: 1 + 1/4 * (2 - 1) + 1/2 * (3 - 1).
    assert_eq!(map.get_z_interpolated(at(QUARTER, HALF)).raw, 9 * QUARTER);
    assert_eq!(map.get_z_interpolated(at(HALF, HALF)).raw, 5 * HALF);
    // Second half: 2 + 1/2 * (5 - 2) + 1/4 * (3 - 2).
    assert_eq!(map.get_z_interpolated(at(3 * QUARTER, 3 * QUARTER)).raw, 15 * QUARTER);
    assert_eq!(
        map.get_z_interpolated(at(ONE_RAW + QUARTER, ONE_RAW + EIGHTH)).raw,
        47 * EIGHTH
    );
    assert_eq!(
        map.get_z_interpolated(at(ONE_RAW + 7 * EIGHTH, ONE_RAW + 7 * EIGHTH)),
        Fixed::from_int(7)
    );
}

#[test]
fn height_in_the_last_column_blends_toward_zero() {
    let map = bumpy();
    // 4 + 1/2 * (0 - 4) + 1/2 * (8 - 4).
    assert_eq!(map.get_z_interpolated(at(2 * ONE_RAW + HALF, HALF)), Fixed::from_int(4));
}

#[test]
fn height_off_the_grid_is_zero() {
    let map = bumpy();
    assert_eq!(map.get_z_interpolated(at(-1, ONE_RAW)), Fixed::zero());
    assert_eq!(map.get_z_interpolated(at(ONE_RAW, -HALF)), Fixed::zero());
    assert_eq!(map.get_z_interpolated(at(3 * ONE_RAW, ONE_RAW)), Fixed::zero());
    assert_eq!(map.get_z_interpolated(at(ONE_RAW, 100 * ONE_RAW)), Fixed::zero());
    assert_eq!(map.get_z_interpolated(at(i64::MAX, i64::MIN)), Fixed::zero());
}

#[test]
fn normal_on_level_ground_points_up() {
    let map = whole(&[3; 9], 3);
    assert_eq!(map.get_normal(at(HALF, QUARTER)), v3(0, 0, 1));
    assert_eq!(map.get_normal(at(ONE_RAW + 3 * QUARTER, 3 * QUARTER)), v3(0, 0, 1));
    assert_eq!(map.get_dot_prod(at(HALF, QUARTER)), Fixed::one());
}

#[test]
fn normal_on_a_plane_leans_downhill() {
    let map = slope();
    let n = map.get_normal(at(QUARTER, QUARTER));
    assert_eq!((n.x.raw, n.y.raw, n.z.raw), (-3037000500, 0, 3037000500));
    let m = map.get_normal(at(3 * QUARTER, 3 * QUARTER));
    assert_eq!(m, n);
    assert_eq!(map.get_dot_prod(at(QUARTER, QUARTER)).raw, 3037000500);
}

#[test]
fn normal_differs_between_the_two_halves_of_a_cell() {
    let map = bumpy();
    let first = map.get_normal(at(QUARTER, HALF));
    assert_eq!((first.x.raw, first.y.raw, first.z.raw), (-1753413056, -3506826112, 1753413056));
    let second = map.get_normal(at(3 * QUARTER, 3 * QUARTER));
    assert_eq!(
        (second.x.raw, second.y.raw, second.z.raw),
        (-2295756587, -3443634880, 1147878293)
    );
}

#[test]
fn normal_off_the_grid_is_zero() {
    let map = bumpy();
    assert_eq!(map.get_normal(at(-1, 0)), Vec3::zero());
    assert_eq!(map.get_normal(at(0, 3 * ONE_RAW)), Vec3::zero());
    assert_eq!(map.get_dot_prod(at(-1, 0)), Fixed::zero());
}

#[test]
fn flatness_stays_between_minus_one_and_one() {
    let mut map = whole(&[0; 16], 4);
    map.data[5] = Fixed { raw: i64::MAX };
    map.data[6] = Fixed { raw: i64::MIN };
    map.data[9] = Fixed { raw: 1 };
    for y in 0..16 {
        for x in 0..16 {
            let d = map.get_dot_prod(at(x * QUARTER, y * QUARTER));
            assert!(-ONE_RAW <= d.raw && d.raw <= ONE_RAW);
        }
    }
}

#[test]
fn flow_is_blended_from_the_four_cells_around() {
    let mut map = whole(&[0; 9], 3);
    map.flow = (1..=9).map(Fixed::from_int).collect();
    // The mean of 1, 2, 4 and 5.
    assert_eq!(map.flow(at(HALF, HALF)), Fixed::from_int(3));
    assert_eq!(map.flow(at(ONE_RAW + QUARTER, 3 * QUARTER)).raw, 9 * HALF);
    assert_eq!(map.flow(at(0, 0)), Fixed::from_int(1));
    assert_eq!(map.flow(at(ONE_RAW, ONE_RAW)), Fixed::from_int(5));
}

#[test]
fn flow_without_four_cells_around_is_zero() {
    let mut map = whole(&[0; 9], 3);
    map.flow = vec![Fixed::from_int(5); 9];
    assert_eq!(map.flow(at(2 * ONE_RAW, ONE_RAW)), Fixed::zero());
    assert_eq!(map.flow(at(ONE_RAW, 2 * ONE_RAW + HALF)), Fixed::zero());
    assert_eq!(map.flow(at(-1, 0)), Fixed::zero());
    assert_eq!(map.flow(at(9 * ONE_RAW, 0)), Fixed::zero());
}
