use terrain::fixed::{Fixed, ONE_RAW};
use terrain::heightfield::PerlinMap;
use terrain::physics::Body;
use terrain::vector::Vec3;

fn level(width: usize, height: Fixed) -> PerlinMap {
    PerlinMap {
        data: vec![height; width * width],
        flow: vec![Fixed::zero(); width * width],
        map_size: width,
    }
}

fn at(x: Fixed, y: Fixed, z: Fixed) -> Vec3 {
    Vec3::new(x, y, z)
}

const GRAVITY: i64 = ONE_RAW / 4000;
const BUMP_LIMIT: i64 = ONE_RAW / 2000;

#[test]
fn a_body_in_the_air_falls_freely() {
    let map = level(8, Fixed::one());
    let body = Body {
        pos: at(Fixed::from_int(3), Fixed::from_int(3), Fixed::from_int(5)),
        vel: at(Fixed::ratio(1, 4), Fixed::zero(), Fixed::zero()),
    };
    let next = map.move_body(body);
    assert_eq!(next.vel.x, Fixed::ratio(1, 4));
    assert_eq!(next.vel.y, Fixed::zero());
    assert_eq!(next.vel.z.raw, -GRAVITY);
    assert_eq!(next.pos.x.raw, 3 * ONE_RAW + ONE_RAW / 4);
    assert_eq!(next.pos.y, Fixed::from_int(3));
    assert_eq!(next.pos.z.raw, 5 * ONE_RAW - GRAVITY);
    let later = map.move_body(next);
    assert_eq!(later.vel.z.raw, -2 * GRAVITY);
    assert_eq!(later.pos.z.raw, 5 * ONE_RAW - 3 * GRAVITY);
}

#[test]
fn a_body_that_sinks_deep_is_lifted_to_the_limit() {
    let map = level(8, Fixed::one());
    let body = Body {
        pos: at(Fixed::from_int(3), Fixed::from_int(3), Fixed::ratio(1, 2)),
        vel: Vec3::zero(),
    };
    let next = map.move_body(body);
    assert_eq!(next.pos.x, Fixed::from_int(3));
    assert_eq!(next.pos.y, Fixed::from_int(3));
    assert_eq!(next.pos.z.raw, ONE_RAW - BUMP_LIMIT);
}

#[test]
fn level_ground_pushes_straight_up_and_slows_the_body() {
    let map = level(8, Fixed::one());
    let body = Body {
        pos: at(Fixed::from_int(3), Fixed::from_int(3), Fixed::ratio(1, 2)),
        vel: Vec3::zero(),
    };
    let next = map.move_body(body);
    assert_eq!(next.vel.x, Fixed::zero());
    assert_eq!(next.vel.y, Fixed::zero());
    // Sunk by d = 1/2 + gravity: the push is d / 10, less gravity, times 4/5.
    let d = Fixed { raw: ONE_RAW / 2 + GRAVITY };
    let push = Fixed::one().mul(Fixed::ratio(1, 10)).mul(d);
    let expected = Fixed { raw: -GRAVITY }.add(push).mul(Fixed::ratio(4, 5));
    assert_eq!(next.vel.z, expected);
    assert!(next.vel.z.raw > 0);
}

#[test]
fn a_body_resting_just_under_the_surface_stays_where_it_is() {
    let map = level(8, Fixed::one());
    let body = Body {
        pos: at(Fixed::from_int(3), Fixed::from_int(3), Fixed { raw: ONE_RAW - 10 }),
        vel: at(Fixed::zero(), Fixed::zero(), Fixed { raw: GRAVITY }),
    };
    let next = map.move_body(body);
    assert_eq!(next.pos, body.pos);
}

#[test]
fn a_slope_pushes_a_moving_body_downhill() {
    // Falls toward larger x.
    let heights = (0..64).map(|i| Fixed { raw: 2 * ONE_RAW - (i % 8) * (ONE_RAW / 4) }).collect();
    let map = PerlinMap { data: heights, flow: vec![Fixed::zero(); 64], map_size: 8 };
    let walking = Body {
        pos: at(Fixed::from_int(3), Fixed::from_int(3), Fixed::one()),
        vel: at(Fixed::zero(), Fixed::ratio(1, 2), Fixed::zero()),
    };
    let next = map.move_body(walking);
    assert!(next.vel.x.raw > 0);
    assert!(next.vel.y.raw > 0);
}

#[test]
fn a_slope_does_not_make_a_standing_body_slip() {
    let heights = (0..64).map(|i| Fixed { raw: 2 * ONE_RAW - (i % 8) * (ONE_RAW / 4) }).collect();
    let map = PerlinMap { data: heights, flow: vec![Fixed::zero(); 64], map_size: 8 };
    let standing = Body {
        pos: at(Fixed::from_int(3), Fixed::from_int(3), Fixed { raw: 5 * ONE_RAW / 4 - 100 }),
        vel: Vec3::zero(),
    };
    let next = map.move_body(standing);
    assert_eq!(next.vel.x, Fixed::zero());
    assert_eq!(next.vel.y, Fixed::zero());
}

#[test]
fn off_the_grid_the_ground_lies_at_zero() {
    let map = level(8, Fixed::one());
    let body = Body {
        pos: at(Fixed::from_int(-5), Fixed::from_int(3), Fixed::ratio(1, 2)),
        vel: Vec3::zero(),
    };
    let next = map.move_body(body);
    assert_eq!(next.pos.z.raw, ONE_RAW / 2 - GRAVITY);
    assert_eq!(next.vel.z.raw, -GRAVITY);
}

#[test]
fn a_point_under_the_surface_is_buried() {
    let map = level(8, Fixed::one());
    let x = Fixed::from_int(2);
    assert!(map.buries(at(x, x, Fixed::ratio(1, 2))));
    assert!(!map.buries(at(x, x, Fixed::one())));
    assert!(!map.buries(at(x, x, Fixed::from_int(2))));
    assert!(map.buries(at(Fixed::from_int(-1), x, Fixed::from_int(-1))));
    assert!(!map.buries(at(Fixed::from_int(-1), x, Fixed::zero())));
}
