use terrain::fixed::{Fixed, ONE_RAW};
use terrain::heightfield::{Cell, PerlinMap};
use terrain::noise::perlin2d;

fn grid(width: usize, heights: &[i64]) -> PerlinMap {
    assert_eq!(heights.len(), width * width);
    PerlinMap {
        data: heights.iter().map(|&raw| Fixed { raw }).collect(),
        flow: vec![Fixed::zero(); width * width],
        map_size: width,
    }
}

fn raws(values: &[Fixed]) -> Vec<i64> {
    values.iter().map(|v| v.raw).collect()
}

#[test]
fn new_fills_every_cell_from_the_noise() {
    let map = PerlinMap::new(4, Fixed::ratio(3, 100), 7, Fixed::one());
    assert_eq!(map.map_size, 4);
    assert_eq!(
        raws(&map.data),
        vec![
            2801795072, 2683816440, 2569320850, 2438638594, 2662112338, 2704298017, 2630136595,
            2528992769, 2526644250, 2595044933, 2617828307, 2526051361, 2444851374, 2438800084,
            2536075281, 2546703691,
        ]
    );
}

#[test]
fn new_starts_with_no_flow() {
    let map = PerlinMap::new(5, Fixed::ratio(3, 100), 7, Fixed::one());
    assert_eq!(map.flow.len(), 25);
    assert!(map.flow.iter().all(|f| *f == Fixed::zero()));
}

#[test]
fn new_stores_cells_row_by_row() {
    let frequency = Fixed::ratio(1, 10);
    let map = PerlinMap::new(6, frequency, 42, Fixed::one());
    for y in 0..6 {
        for x in 0..6 {
            let expected = perlin2d(Fixed::from_int(x), Fixed::from_int(y), frequency, 10, 42);
            assert_eq!(map.data[x as usize + y as usize * 6], expected);
        }
    }
}

#[test]
fn new_scales_by_the_amplitude() {
    let map = PerlinMap::new(4, Fixed::ratio(3, 100), 7, Fixed::from_int(2));
    assert_eq!(map.data[0].raw, 5603590144);
    assert_eq!(map.data[5].raw, 5408596034);
}

#[test]
fn new_is_the_same_for_the_same_arguments() {
    let a = PerlinMap::new(8, Fixed::ratio(3, 100), -12, Fixed::one());
    let b = PerlinMap::new(8, Fixed::ratio(3, 100), -12, Fixed::one());
    assert_eq!(a.data, b.data);
    assert_eq!(a.flow, b.flow);
}

#[test]
fn new_differs_between_seeds() {
    let a = PerlinMap::new(8, Fixed::ratio(3, 100), 1, Fixed::one());
    let b = PerlinMap::new(8, Fixed::ratio(3, 100), 2, Fixed::one());
    assert_ne!(a.data, b.data);
}

#[test]
fn a_single_cell_grid_can_be_built() {
    let map = PerlinMap::new(1, Fixed::ratio(3, 100), 7, Fixed::one());
    assert_eq!(raws(&map.data), vec![2801795072]);
}

#[test]
fn get_z_reads_the_cell() {
    let map = grid(3, &[10, 11, 12, 20, 21, 22, 30, 31, 32]);
    assert_eq!(map.get_z(0, 0).raw, 10);
    assert_eq!(map.get_z(2, 0).raw, 12);
    assert_eq!(map.get_z(0, 2).raw, 30);
    assert_eq!(map.get_z(1, 2).raw, 31);
}

#[test]
fn get_z_outside_the_grid_is_zero() {
    let map = grid(3, &[10, 11, 12, 20, 21, 22, 30, 31, 32]);
    assert_eq!(map.get_z(3, 0), Fixed::zero());
    assert_eq!(map.get_z(0, 3), Fixed::zero());
    assert_eq!(map.get_z(usize::MAX, usize::MAX), Fixed::zero());
}

#[test]
fn normalize_stretches_to_zero_and_one() {
    let one = ONE_RAW;
    let mut map = grid(2, &[2 * one, 4 * one, 10 * one, 5 * one]);
    map.normalize();
    // (4 - 2) / 8 = 1/4 and (5 - 2) / 8 = 3/8.
    assert_eq!(raws(&map.data), vec![0, 1 << 30, one, 3 << 29]);
}

#[test]
fn normalize_rounds_down() {
    let mut map = grid(2, &[3, 1, 2, 7]);
    map.normalize();
    assert_eq!(raws(&map.data), vec![1431655765, 0, 715827882, ONE_RAW]);
}

#[test]
fn normalize_bounds_every_cell() {
    let mut map = PerlinMap::new(16, Fixed::ratio(3, 100), 99, Fixed::from_int(3));
    map.normalize();
    assert!(map.data.iter().all(|h| 0 <= h.raw && h.raw <= ONE_RAW));
    assert_eq!(map.data.iter().map(|h| h.raw).min(), Some(0));
    assert_eq!(map.data.iter().map(|h| h.raw).max(), Some(ONE_RAW));
}

#[test]
fn normalize_spans_the_whole_number_range() {
    let mut map = grid(2, &[i64::MIN, 0, i64::MAX, 0]);
    map.normalize();
    assert_eq!(raws(&map.data), vec![0, 1 << 31, ONE_RAW, 1 << 31]);
}

#[test]
fn normalize_of_a_flat_field_is_all_zero() {
    let mut map = grid(3, &[7 * ONE_RAW; 9]);
    map.normalize();
    assert_eq!(raws(&map.data), vec![0; 9]);
}

#[test]
fn normalize_of_a_single_cell_is_zero() {
    let mut map = grid(1, &[-5]);
    map.normalize();
    assert_eq!(raws(&map.data), vec![0]);
}

#[test]
fn normalize_twice_is_normalize_once() {
    let mut map = PerlinMap::new(12, Fixed::ratio(3, 100), 5, Fixed::one());
    map.normalize();
    let once = map.data.clone();
    map.normalize();
    assert_eq!(map.data, once);

    let mut flat = grid(2, &[9, 9, 9, 9]);
    flat.normalize();
    let once = flat.data.clone();
    flat.normalize();
    assert_eq!(flat.data, once);
}

#[test]
fn normalize_leaves_the_flow_alone() {
    let mut map = grid(2, &[1, 2, 3, 4]);
    map.flow = vec![Fixed::from_int(1), Fixed::from_int(2), Fixed::from_int(3), Fixed::from_int(4)];
    let before = map.flow.clone();
    map.normalize();
    assert_eq!(map.flow, before);
    assert_eq!(map.map_size, 2);
}

#[test]
fn bulge_blends_with_the_island_profile() {
    let mut low = grid(3, &[0; 9]);
    low.create_bulge();
    assert_eq!(
        raws(&low.data),
        vec![
            334053011, 601295421, 334053011, 601295421, 3006477107, 601295421, 334053011,
            601295421, 334053011,
        ]
    );
    let mut high = grid(3, &[ONE_RAW; 9]);
    high.create_bulge();
    assert_eq!(
        raws(&high.data),
        vec![
            1622543201, 1889785611, 1622543201, 1889785611, 4294967296, 1889785611, 1622543201,
            1889785611, 1622543201,
        ]
    );
}

#[test]
fn bulge_is_highest_in_the_middle() {
    let mut map = grid(9, &[ONE_RAW / 2; 81]);
    map.create_bulge();
    let centre = map.data[4 + 4 * 9];
    for (i, h) in map.data.iter().enumerate() {
        assert!(h.raw <= centre.raw, "cell {} is above the centre", i);
    }
    // Below sea level in all four corners, above it in the middle.
    assert!(map.data[0].raw < ONE_RAW / 2);
    assert!(map.data[8].raw < ONE_RAW / 2);
    assert!(map.data[72].raw < ONE_RAW / 2);
    assert!(map.data[80].raw < ONE_RAW / 2);
    assert!(centre.raw > ONE_RAW / 2);
}

#[test]
fn bulge_is_symmetric_on_an_even_grid() {
    let mut map = grid(4, &[0; 16]);
    map.create_bulge();
    assert_eq!(map.data[5], map.data[6]);
    assert_eq!(map.data[5], map.data[9]);
    assert_eq!(map.data[5], map.data[10]);
    assert_eq!(map.data[0], map.data[3]);
    assert_eq!(map.data[0], map.data[12]);
    assert_eq!(map.data[0], map.data[15]);
}

#[test]
fn bulge_on_a_single_cell() {
    let mut map = grid(1, &[0]);
    map.create_bulge();
    assert_eq!(raws(&map.data), vec![3006477107]);
}

#[test]
fn bulge_leaves_the_flow_alone() {
    let mut map = grid(2, &[1, 2, 3, 4]);
    map.flow = vec![Fixed::from_int(4); 4];
    map.create_bulge();
    assert_eq!(map.flow, vec![Fixed::from_int(4); 4]);
}

#[test]
fn cell_reads_height_and_flow() {
    let mut map = grid(2, &[1, 2, 3, 4]);
    map.flow = vec![Fixed { raw: 10 }, Fixed { raw: 20 }, Fixed { raw: 30 }, Fixed { raw: 40 }];
    assert_eq!(map.cell(1, 0), Cell { height: Fixed { raw: 2 }, flow: Fixed { raw: 20 } });
    assert_eq!(map.cell(0, 1), Cell { height: Fixed { raw: 3 }, flow: Fixed { raw: 30 } });
}

#[test]
fn cell_outside_the_grid_is_empty() {
    let map = grid(2, &[1, 2, 3, 4]);
    assert_eq!(map.cell(2, 0), Cell { height: Fixed::zero(), flow: Fixed::zero() });
    assert_eq!(map.cell(0, 2), Cell { height: Fixed::zero(), flow: Fixed::zero() });
}

#[test]
fn new_keeps_heights_between_zero_and_the_amplitude() {
    let amplitude = Fixed::from_int(3);
    let map = PerlinMap::new(20, Fixed::ratio(1, 7), 31, amplitude);
    assert!(map.data.iter().all(|h| 0 <= h.raw && h.raw <= amplitude.raw));
}

#[test]
fn bulge_keeps_normalized_heights_between_zero_and_one() {
    let mut map = PerlinMap::new(20, Fixed::ratio(3, 100), 31, Fixed::one());
    map.normalize();
    map.create_bulge();
    assert!(map.data.iter().all(|h| 0 <= h.raw && h.raw <= ONE_RAW));
}
