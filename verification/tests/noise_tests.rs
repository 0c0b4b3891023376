use terrain::fixed::{Fixed, ONE_RAW};
use terrain::noise::{lattice_hash, lin_inter, noise2, noise2d, perlin2d, smooth_inter, HASH};

#[test]
fn lattice_hash_reads_the_table_twice() {
    // y + seed = 0 lands on the first entry, 208; 208 + x then picks the result.
    assert_eq!(HASH[0], 208);
    assert_eq!(noise2(0, 0, 0), 42);
    assert_eq!(noise2(1, 0, 0), 30);
    assert_eq!(noise2(3, 7, 5), 81);
}

#[test]
fn lattice_hash_takes_the_magnitude_of_negative_sums() {
    assert_eq!(noise2(-3, -4, 0), 76);
    assert_eq!(noise2(0, -300, 10), 255);
}

#[test]
fn lattice_hash_at_the_ends_of_the_range() {
    assert_eq!(noise2(i32::MAX, 0, 0), 158);
    assert_eq!(noise2(0, i32::MAX, i32::MAX), 174);
    assert_eq!(noise2(i32::MIN, i32::MIN, i32::MIN), 173);
    assert_eq!(lattice_hash(i32::MAX as i64, 0, 0), 158);
}

#[test]
fn lattice_hash_stays_in_the_table_range() {
    for y in -20..20 {
        for x in -20..20 {
            let h = noise2(x, y, 99);
            assert!(0 <= h && h <= 255);
        }
    }
}

#[test]
fn linear_blend() {
    let zero = Fixed::zero();
    let ten = Fixed::from_int(10);
    assert_eq!(lin_inter(zero, ten, Fixed::zero()), zero);
    assert_eq!(lin_inter(zero, ten, Fixed::one()), ten);
    assert_eq!(lin_inter(zero, ten, Fixed::ratio(1, 2)), Fixed::from_int(5));
    assert_eq!(lin_inter(Fixed::from_int(2), ten, Fixed::ratio(1, 4)), Fixed::from_int(4));
}

#[test]
fn eased_blend() {
    let zero = Fixed::zero();
    let sixteen = Fixed::from_int(16);
    assert_eq!(smooth_inter(zero, sixteen, Fixed::zero()), zero);
    assert_eq!(smooth_inter(zero, sixteen, Fixed::one()), sixteen);
    assert_eq!(smooth_inter(zero, sixteen, Fixed::ratio(1, 2)), Fixed::from_int(8));
    // 3 * (1/4)^2 - 2 * (1/4)^3 = 5/32
    assert_eq!(smooth_inter(zero, sixteen, Fixed::ratio(1, 4)).raw, 10737418240);
}

#[test]
fn one_octave_on_a_lattice_point_is_the_hash() {
    let got = noise2d(Fixed::from_int(3), Fixed::from_int(7), 5);
    assert_eq!(got, Fixed::from_int(81));
}

#[test]
fn one_octave_between_lattice_points() {
    let half = Fixed::ratio(1, 2);
    let x = Fixed::from_int(3).add(half);
    let y = Fixed::from_int(7).add(half);
    // Halfway between 81 and 195.
    assert_eq!(noise2d(x, Fixed::from_int(7), 5), Fixed::from_int(138));
    // The mean of 81, 195, 189 and 190.
    assert_eq!(noise2d(x, y, 5).raw, 703300894720);
    let quarter = Fixed::from_int(3).add(Fixed::ratio(1, 4));
    assert_eq!(noise2d(quarter, y, 5).raw, 618408181760);
}

#[test]
fn one_octave_left_of_the_origin() {
    let x = Fixed::from_int(-3).sub(Fixed::ratio(1, 2));
    assert_eq!(noise2d(x, Fixed::from_int(-4), 0), Fixed::from_int(36));
}

#[test]
fn fractal_noise_without_octaves_is_zero() {
    assert_eq!(perlin2d(Fixed::from_int(3), Fixed::from_int(7), Fixed::one(), 0, 5), Fixed::zero());
}

#[test]
fn fractal_noise_divides_by_the_total_weight() {
    let x = Fixed::from_int(3);
    let y = Fixed::from_int(7);
    // One octave: 81 / 256.
    assert_eq!(perlin2d(x, y, Fixed::one(), 1, 5).raw, 81 << 24);
    // Two octaves: (81 + 88 / 2) / (256 + 128).
    assert_eq!(perlin2d(x, y, Fixed::one(), 2, 5).raw, 1398101333);
}

#[test]
fn fractal_noise_with_ten_octaves() {
    let got = perlin2d(Fixed::from_int(2), Fixed::from_int(3), Fixed::ratio(3, 100), 10, 7);
    assert_eq!(got.raw, 2536075281);
}

#[test]
fn fractal_noise_stays_between_zero_and_one() {
    for seed in 0..4 {
        for y in 0..12 {
            for x in 0..12 {
                let v = perlin2d(
                    Fixed::from_int(x),
                    Fixed::from_int(y),
                    Fixed::ratio(7, 100),
                    10,
                    seed,
                );
                assert!(0 <= v.raw && v.raw <= ONE_RAW);
            }
        }
    }
}

#[test]
fn fractal_noise_is_the_same_on_every_call() {
    let a = perlin2d(Fixed::from_int(5), Fixed::from_int(9), Fixed::ratio(3, 100), 10, 1234);
    let b = perlin2d(Fixed::from_int(5), Fixed::from_int(9), Fixed::ratio(3, 100), 10, 1234);
    assert_eq!(a, b);
}
