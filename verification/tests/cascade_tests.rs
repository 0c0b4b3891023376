use terrain::fixed::{Fixed, ONE_RAW};
use terrain::heightfield::PerlinMap;
use terrain::params::ErosionParams;
use terrain::vector::Vec2;

fn whole(values: &[i32], width: usize) -> PerlinMap {
    assert_eq!(values.len(), width * width);
    PerlinMap {
        data: values.iter().map(|&v| Fixed::from_int(v)).collect(),
        flow: vec![Fixed::zero(); width * width],
        map_size: width,
    }
}

fn unit_threshold() -> ErosionParams {
    let mut params = ErosionParams::standard();
    params.talus = Fixed::one();
    params.settling = Fixed::one();
    params
}

fn cell(x: i32, y: i32) -> Vec2 {
    Vec2::new(Fixed::from_int(x), Fixed::from_int(y))
}

fn raws(map: &PerlinMap) -> Vec<i64> {
    map.data.iter().map(|h| h.raw).collect()
}

fn total(map: &PerlinMap) -> i128 {
    map.data.iter().map(|h| h.raw as i128).sum()
}

#[test]
fn a_peak_sheds_height_to_each_neighbour_in_turn() {
    let mut map = whole(&[0, 0, 0, 0, 9, 0, 0, 0, 0], 3);
    map.cascade(&unit_threshold(), cell(1, 1));
    let one = ONE_RAW;
    assert_eq!(
        raws(&map),
        vec![
            4 * one,
            2 * one,
            one,
            one / 2,
            one + one / 32,
            one / 4,
            one / 8,
            one / 16,
            one / 32,
        ]
    );
}

#[test]
fn neighbours_are_visited_from_the_lowest_up() {
    let mut map = whole(&[5, 1, 3, 2, 10, 7, 4, 0, 6], 3);
    let before = total(&map);
    map.cascade(&unit_threshold(), cell(1, 1));
    assert_eq!(
        raws(&map),
        vec![
            20132659200,
            11811160064,
            12884901888,
            10200547328,
            22213033984,
            26508001280,
            17179869184,
            19327352832,
            22951231488,
        ]
    );
    assert_eq!(total(&map), before);
}

#[test]
fn a_pit_is_filled_from_its_neighbours() {
    let mut map = whole(&[4, 4, 4, 4, 0, 4, 4, 4, 4], 3);
    let before = total(&map);
    map.cascade(&unit_threshold(), cell(1, 1));
    assert_eq!(map.data[0].raw, 5 * ONE_RAW / 2);
    assert_eq!(map.data[1].raw, 13 * ONE_RAW / 4);
    assert_eq!(map.data[4].raw, 765 * ONE_RAW / 256);
    assert_eq!(map.data[8].raw, 1021 * ONE_RAW / 256);
    assert_eq!(total(&map), before);
}

#[test]
fn a_corner_cell_has_three_neighbours() {
    let mut map = whole(&[8, 0, 0, 0, 0, 0, 0, 0, 100], 3);
    map.cascade(&unit_threshold(), cell(0, 0));
    let eighth = ONE_RAW / 8;
    assert_eq!(
        raws(&map),
        vec![15 * eighth, 28 * eighth, 0, 14 * eighth, 7 * eighth, 0, 0, 0, 100 * ONE_RAW]
    );
}

#[test]
fn differences_up_to_the_threshold_stay() {
    let mut map = whole(&[0, 0, 0, 0, 1, 0, 0, 0, 0], 3);
    let before = raws(&map);
    map.cascade(&unit_threshold(), cell(1, 1));
    assert_eq!(raws(&map), before);
}

#[test]
fn the_threshold_is_the_talus_scaled_by_the_settling() {
    let mut map = whole(&[1, 0, 0, 0], 2);
    map.cascade(&ErosionParams::standard(), cell(0, 0));
    assert_eq!(raws(&map), vec![566935682, 2130303779, 1065151890, 532575945]);
}

#[test]
fn the_position_picks_the_cell_it_lies_in() {
    let mut by_corner = whole(&[0, 0, 0, 0, 9, 0, 0, 0, 0], 3);
    let mut by_inside = whole(&[0, 0, 0, 0, 9, 0, 0, 0, 0], 3);
    by_corner.cascade(&unit_threshold(), cell(1, 1));
    let inside = Vec2::new(
        Fixed::from_int(1).add(Fixed::ratio(3, 4)),
        Fixed::from_int(1).add(Fixed::ratio(1, 4)),
    );
    by_inside.cascade(&unit_threshold(), inside);
    assert_eq!(raws(&by_corner), raws(&by_inside));
}

#[test]
fn a_position_off_the_grid_changes_nothing() {
    let mut map = whole(&[0, 0, 0, 0, 9, 0, 0, 0, 0], 3);
    let before = raws(&map);
    map.cascade(&unit_threshold(), cell(3, 1));
    map.cascade(&unit_threshold(), cell(-1, 1));
    map.cascade(&unit_threshold(), cell(1, 50));
    assert_eq!(raws(&map), before);
}

#[test]
fn only_the_cell_and_its_neighbours_change() {
    let mut values = vec![0; 25];
    values[6] = 20;
    let mut map = whole(&values, 5);
    map.data[24] = Fixed::from_int(50);
    let before = raws(&map);
    map.cascade(&unit_threshold(), cell(1, 1));
    let after = raws(&map);
    for y in 0..5 {
        for x in 0..5 {
            let i = x + y * 5;
            if x > 2 || y > 2 {
                assert_eq!(after[i], before[i], "cell ({}, {}) changed", x, y);
            }
        }
    }
    assert_ne!(after[6], before[6]);
}

#[test]
fn the_flow_is_left_alone() {
    let mut map = whole(&[0, 0, 0, 0, 9, 0, 0, 0, 0], 3);
    map.flow = vec![Fixed::from_int(2); 9];
    map.cascade(&unit_threshold(), cell(1, 1));
    assert_eq!(map.flow, vec![Fixed::from_int(2); 9]);
}

#[test]
fn neighbour_slots_run_row_by_row() {
    let map = whole(&[0; 9], 3);
    let found: Vec<Option<usize>> = (0..8).map(|slot| map.neighbour(1, 1, slot)).collect();
    assert_eq!(
        found,
        vec![Some(0), Some(1), Some(2), Some(3), Some(5), Some(6), Some(7), Some(8)]
    );
    let corner: Vec<Option<usize>> = (0..8).map(|slot| map.neighbour(2, 0, slot)).collect();
    assert_eq!(corner, vec![None, None, None, Some(1), None, Some(4), Some(5), None]);
}
