use terrain::fixed::{Fixed, ONE_RAW};
use terrain::heightfield::PerlinMap;
use terrain::placement::{scatter_around, suits, Candidate, Growth, Spot};
use terrain::vector::{Vec2, Vec3};

fn level(width: usize, height: Fixed, flow: Fixed) -> PerlinMap {
    PerlinMap {
        data: vec![height; width * width],
        flow: vec![flow; width * width],
        map_size: width,
    }
}

fn hundredths(n: i32) -> Fixed {
    Fixed::ratio(n, 100)
}

#[test]
fn a_tree_wants_high_level_wet_ground() {
    let one = Fixed::one();
    let wet = Fixed::from_int(21);
    assert!(suits(Growth::Tree, one, one, wet));
    assert!(suits(Growth::Tree, Fixed::from_int(3), one.neg(), wet));
    assert!(!suits(Growth::Tree, hundredths(99), one, wet));
    assert!(!suits(Growth::Tree, one, hundredths(99), wet));
    assert!(!suits(Growth::Tree, one, one, Fixed::from_int(20)));
}

#[test]
fn a_bush_wants_a_slope_above_the_beach() {
    let high = hundredths(70);
    assert!(suits(Growth::Bush, high, hundredths(85), Fixed::zero()));
    assert!(suits(Growth::Bush, hundredths(66), Fixed::ratio(8, 10), Fixed::zero()));
    assert!(suits(Growth::Bush, high, Fixed::ratio(9, 10), Fixed::zero()));
    assert!(suits(Growth::Bush, high, hundredths(85).neg(), Fixed::zero()));
    assert!(!suits(Growth::Bush, hundredths(65), hundredths(85), Fixed::zero()));
    assert!(!suits(Growth::Bush, high, hundredths(79), Fixed::zero()));
    assert!(!suits(Growth::Bush, high, hundredths(91), Fixed::zero()));
}

#[test]
fn treasure_wants_low_ground_that_is_flat_for_its_height() {
    let one = Fixed::one();
    assert!(suits(Growth::Treasure, hundredths(60), one, Fixed::zero()));
    assert!(suits(Growth::Treasure, Fixed::ratio(1, 2), one, Fixed::zero()));
    assert!(suits(Growth::Treasure, hundredths(74), one, Fixed::zero()));
    assert!(!suits(Growth::Treasure, hundredths(49), one, Fixed::zero()));
    assert!(!suits(Growth::Treasure, hundredths(75), one, Fixed::zero()));
    assert!(!suits(Growth::Treasure, hundredths(81), one, Fixed::zero()));
    assert!(!suits(Growth::Treasure, hundredths(60), Fixed::ratio(8, 10), Fixed::zero()));
}

#[test]
fn the_ground_at_a_position_is_judged_by_height_flatness_and_flow() {
    let map = level(6, Fixed::from_int(2), Fixed::from_int(25));
    let inside = Vec2::new(Fixed::ratio(5, 2), Fixed::ratio(7, 2));
    assert!(map.suits(Growth::Tree, inside));
    assert!(!map.suits(Growth::Bush, inside));
    assert!(!map.suits(Growth::Treasure, inside));
    // In the last column the flow is not known, so no tree grows there.
    let edge = Vec2::new(Fixed::from_int(5), Fixed::from_int(2));
    assert!(!map.suits(Growth::Tree, edge));
    let outside = Vec2::new(Fixed::from_int(-1), Fixed::from_int(2));
    assert!(!map.suits(Growth::Tree, outside));
}

#[test]
fn the_player_starts_on_the_first_land_toward_the_edge() {
    let mut map = level(8, Fixed::zero(), Fixed::zero());
    map.data[4 + 4 * 8] = hundredths(30);
    map.data[4 + 5 * 8] = hundredths(40);
    map.data[4 + 6 * 8] = hundredths(70);
    map.data[4 + 7 * 8] = hundredths(90);
    assert_eq!(
        map.spawn_point(),
        Vec3::new(Fixed::from_int(4), Fixed::from_int(6), hundredths(70))
    );
}

#[test]
fn the_player_starts_in_the_middle_if_it_is_land() {
    let map = level(8, Fixed::ratio(1, 2), Fixed::zero());
    assert_eq!(
        map.spawn_point(),
        Vec3::new(Fixed::from_int(4), Fixed::from_int(4), Fixed::ratio(1, 2))
    );
}

#[test]
fn the_player_starts_in_the_middle_if_there_is_no_land() {
    let mut map = level(8, hundredths(20), Fixed::zero());
    // Land beyond the rows that are searched does not count.
    map.data[4 + 0 * 8] = Fixed::one();
    assert_eq!(
        map.spawn_point(),
        Vec3::new(Fixed::from_int(4), Fixed::from_int(4), hundredths(20))
    );
    let single = level(1, Fixed::one(), Fixed::zero());
    assert_eq!(
        single.spawn_point(),
        Vec3::new(Fixed::zero(), Fixed::zero(), Fixed::one())
    );
}

#[test]
fn things_are_placed_where_the_ground_suits() {
    let map = level(8, Fixed::from_int(2), Fixed::from_int(25));
    let spots = map.scatter(Growth::Tree, 40, 7);
    assert_eq!(spots.len(), 40);
    for spot in &spots {
        let pos = spot.position.xy();
        assert!(0 <= pos.x.raw && pos.x.raw < 7 * ONE_RAW);
        assert!(0 <= pos.y.raw && pos.y.raw < 7 * ONE_RAW);
        assert_eq!(spot.position.z, Fixed::from_int(2));
        assert!(map.suits(Growth::Tree, pos));
        assert!(0 <= spot.variation.raw && spot.variation.raw < ONE_RAW);
    }
}

#[test]
fn things_without_a_place_are_left_out() {
    let map = level(8, Fixed::from_int(2), Fixed::from_int(25));
    assert!(map.scatter(Growth::Bush, 5, 7).is_empty());
    assert!(map.scatter(Growth::Treasure, 5, 7).is_empty());
    assert!(map.scatter(Growth::Tree, 0, 7).is_empty());
}

#[test]
fn places_are_picked_among_those_that_suit() {
    // Only the quarter of the grid nearest the origin is high enough.
    let mut map = level(16, hundredths(20), Fixed::zero());
    for y in 0..9 {
        for x in 0..9 {
            map.data[x + y * 16] = hundredths(60);
        }
    }
    let spots = map.scatter(Growth::Treasure, 30, 99);
    assert!(!spots.is_empty());
    assert!(spots.len() <= 30);
    for spot in &spots {
        assert!(map.suits(Growth::Treasure, spot.position.xy()));
        assert!(spot.position.x.raw < 9 * ONE_RAW);
        assert!(spot.position.y.raw < 9 * ONE_RAW);
        assert_eq!(spot.position.z, map.get_z_interpolated(spot.position.xy()));
    }
}

#[test]
fn places_follow_from_the_seed() {
    let map = level(8, Fixed::from_int(2), Fixed::from_int(25));
    let a = map.scatter(Growth::Tree, 20, 5);
    let b = map.scatter(Growth::Tree, 20, 5);
    let c = map.scatter(Growth::Tree, 20, 6);
    assert_eq!(a, b);
    assert_ne!(a, c);
}

#[test]
fn a_grid_of_one_cell_has_one_place() {
    // The ground falls to zero beyond the only cell, so it is not level there.
    let map = level(1, hundredths(55), Fixed::zero());
    let spots = map.scatter(Growth::Treasure, 3, 1);
    assert_eq!(spots.len(), 3);
    for spot in &spots {
        assert_eq!(spot.position, Vec3::new(Fixed::zero(), Fixed::zero(), hundredths(55)));
    }
    let steep = level(1, hundredths(60), Fixed::zero());
    assert!(steep.scatter(Growth::Treasure, 3, 1).is_empty());
}

#[test]
fn guards_stand_within_half_a_unit() {
    let centre = Vec3::new(Fixed::from_int(10), Fixed::from_int(-3), Fixed::ratio(3, 5));
    let guards = scatter_around(centre, 200, 11);
    assert_eq!(guards.len(), 200);
    let half = ONE_RAW / 2;
    let mut left = false;
    let mut right = false;
    for g in &guards {
        assert_eq!(g.z, centre.z);
        assert!(centre.x.raw - half <= g.x.raw && g.x.raw < centre.x.raw + half);
        assert!(centre.y.raw - half <= g.y.raw && g.y.raw < centre.y.raw + half);
        left = left || g.x.raw < centre.x.raw;
        right = right || g.x.raw > centre.x.raw;
    }
    assert!(left && right);
    assert!(scatter_around(centre, 0, 11).is_empty());
}

#[test]
fn guards_at_the_end_of_the_number_range_stay_in_it() {
    let centre = Vec3::new(Fixed { raw: i64::MAX }, Fixed { raw: i64::MIN }, Fixed::zero());
    for g in scatter_around(centre, 50, 3) {
        assert!(g.x.raw >= i64::MAX - ONE_RAW / 2);
        assert!(g.y.raw <= i64::MIN + ONE_RAW / 2);
    }
}

#[test]
fn a_candidate_on_suitable_ground_becomes_a_spot() {
    let map = level(6, Fixed::from_int(2), Fixed::from_int(25));
    let candidate = Candidate {
        position: Vec2::new(Fixed::ratio(5, 2), Fixed::ratio(7, 2)),
        variation: Fixed::ratio(1, 4),
    };
    assert_eq!(
        map.try_place(Growth::Tree, candidate),
        Some(Spot {
            position: Vec3::new(Fixed::ratio(5, 2), Fixed::ratio(7, 2), Fixed::from_int(2)),
            variation: Fixed::ratio(1, 4),
        })
    );
}

#[test]
fn a_candidate_on_unsuitable_ground_becomes_nothing() {
    let map = level(6, Fixed::from_int(2), Fixed::from_int(25));
    let inside = Candidate {
        position: Vec2::new(Fixed::ratio(5, 2), Fixed::ratio(7, 2)),
        variation: Fixed::ratio(1, 4),
    };
    assert_eq!(map.try_place(Growth::Bush, inside), None);
    assert_eq!(map.try_place(Growth::Treasure, inside), None);
    let edge = Candidate {
        position: Vec2::new(Fixed::from_int(5), Fixed::from_int(2)),
        variation: Fixed::zero(),
    };
    assert_eq!(map.try_place(Growth::Tree, edge), None);
}

#[test]
fn every_spot_is_what_its_place_becomes_when_tried() {
    let map = level(8, Fixed::from_int(2), Fixed::from_int(25));
    for spot in map.scatter(Growth::Tree, 25, 3) {
        let candidate = Candidate { position: spot.position.xy(), variation: spot.variation };
        assert_eq!(map.try_place(Growth::Tree, candidate), Some(spot));
    }
}
