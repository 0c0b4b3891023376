//! Deterministic fractal value noise from an integer seed.
//!
//! A sample hashes the four lattice corners around it through a fixed table,
//! blends them with a cubic ease, and sums several octaves at doubling
//! frequency and halving weight.

use vstd::prelude::*;
use crate::fixed::{Fixed, ONE_RAW, lemma_div_within_one, lemma_mul_fraction, lemma_mul_shrinks};

verus! {

/// The permutation table behind the lattice hash.
pub const HASH: [u8; 256] = [
    208, 34, 231, 213, 32, 248, 233, 56, 161, 78, 24, 140, 71, 48, 140, 254, 245, 255, 247, 247,
    40, 185, 248, 251, 245, 28, 124, 204, 204, 76, 36, 1, 107, 28, 234, 163, 202, 224, 245, 128,
    167, 204, 9, 92, 217, 54, 239, 174, 173, 102, 193, 189, 190, 121, 100, 108, 167, 44, 43, 77,
    180, 204, 8, 81, 70, 223, 11, 38, 24, 254, 210, 210, 177, 32, 81, 195, 243, 125, 8, 169, 112,
    32, 97, 53, 195, 13, 203, 9, 47, 104, 125, 117, 114, 124, 165, 203, 181, 235, 193, 206, 70,
    180, 174, 0, 167, 181, 41, 164, 30, 116, 127, 198, 245, 146, 87, 224, 149, 206, 57, 4, 192,
    210, 65, 210, 129, 240, 178, 105, 228, 108, 245, 148, 140, 40, 35, 195, 38, 58, 65, 207, 215,
    253, 65, 85, 208, 76, 62, 3, 237, 55, 89, 232, 50, 217, 64, 244, 157, 199, 121, 252, 90, 17,
    212, 203, 149, 152, 140, 187, 234, 177, 73, 174, 193, 100, 192, 143, 97, 53, 145, 135, 19, 103,
    13, 90, 135, 151, 199, 91, 239, 247, 33, 39, 145, 101, 120, 99, 3, 186, 86, 99, 41, 237, 203,
    111, 79, 220, 135, 158, 42, 30, 154, 120, 67, 87, 167, 135, 176, 183, 191, 253, 115, 184, 21,
    233, 58, 129, 233, 142, 39, 128, 211, 118, 137, 139, 255, 114, 20, 218, 113, 154, 27, 127, 246,
    250, 1, 8, 198, 250, 209, 92, 222, 173, 21, 88, 102, 219,
];

/// Where a sum lands in the table: its magnitude, modulo the table length.
pub open spec fn table_index(n: int) -> int {
    if n >= 0 {
        n % 256
    } else {
        (-n) % 256
    }
}

/// The hash of the lattice point `(x, y)` under `seed`.
pub open spec fn lattice_hash_spec(x: int, y: int, seed: int) -> int {
    HASH[table_index(HASH[table_index(y + seed)] + x)] as int
}

fn table_lookup(n: i128) -> (r: u8)
    requires
        -0x1_0000_0000_0000_0000 < n < 0x1_0000_0000_0000_0000,
    ensures
        r == HASH[table_index(n as int)],
{
    let m: i128 = n % 256;
    let i: usize = if m < 0 {
        (-m) as usize
    } else {
        m as usize
    };
    HASH[i]
}

/// The hash of a lattice point, a number from 0 to 255.
pub fn lattice_hash(x: i64, y: i64, seed: i32) -> (r: i32)
    ensures
        r == lattice_hash_spec(x as int, y as int, seed as int),
        0 <= r <= 255,
{
    let first: u8 = table_lookup(y as i128 + seed as i128);
    let second: u8 = table_lookup(first as i128 + x as i128);
    second as i32
}

/// The hash of the lattice point `(x, y)` under `seed`, a number from 0 to
/// 255.
pub fn noise2(x: i32, y: i32, seed: i32) -> (r: i32)
    ensures
        r == lattice_hash_spec(x as int, y as int, seed as int),
        0 <= r <= 255,
{
    lattice_hash(x as i64, y as i64, seed)
}

/// Linear blend: `x` at `s = 0`, `y` at `s = 1`.
pub open spec fn lin_inter_spec(x: Fixed, y: Fixed, s: Fixed) -> Fixed {
    x.spec_add(s.spec_mul(y.spec_sub(x)))
}

/// The cubic ease `3s^2 - 2s^3`, written as `s * s * (3 - 2s)`.
pub open spec fn ease_spec(s: Fixed) -> Fixed {
    s.spec_mul(s).spec_mul(Fixed::spec_from_int(3).spec_sub(s.spec_add(s)))
}

/// Blend between `x` and `y` along the cubic ease of `s`.
pub open spec fn smooth_inter_spec(x: Fixed, y: Fixed, s: Fixed) -> Fixed {
    lin_inter_spec(x, y, ease_spec(s))
}

/// One octave of value noise at `(x, y)`: the eased blend of the four
/// lattice hashes around the sample, first along x, then along y.
pub open spec fn noise2d_spec(x: Fixed, y: Fixed, seed: i32) -> Fixed {
    let xi = x.spec_trunc();
    let yi = y.spec_trunc();
    let xf = x.spec_fract();
    let yf = y.spec_fract();
    let s = Fixed::spec_from_int(lattice_hash_spec(xi, yi, seed as int) as i32);
    let t = Fixed::spec_from_int(lattice_hash_spec(xi + 1, yi, seed as int) as i32);
    let u = Fixed::spec_from_int(lattice_hash_spec(xi, yi + 1, seed as int) as i32);
    let v = Fixed::spec_from_int(lattice_hash_spec(xi + 1, yi + 1, seed as int) as i32);
    let low = smooth_inter_spec(s, t, xf);
    let high = smooth_inter_spec(u, v, xf);
    smooth_inter_spec(low, high, yf)
}

/// The weighted sum of `octaves` more octaves on top of the running sum
/// `sum` and the running weight `weight`, divided by the total weight. Each
/// octave doubles the sample coordinates and halves the amplitude.
pub open spec fn octaves_spec(
    xa: Fixed,
    ya: Fixed,
    amp: Fixed,
    sum: Fixed,
    weight: Fixed,
    seed: i32,
    octaves: nat,
) -> Fixed
    decreases octaves,
{
    if octaves == 0 {
        sum.spec_div(weight)
    } else {
        octaves_spec(
            xa.spec_add(xa),
            ya.spec_add(ya),
            amp.spec_half(),
            sum.spec_add(noise2d_spec(xa, ya, seed).spec_mul(amp)),
            weight.spec_add(Fixed::spec_from_int(256).spec_mul(amp)),
            seed,
            (octaves - 1) as nat,
        )
    }
}

/// Fractal noise at `(x, y)` scaled by `freq`: `depth` octaves starting at
/// amplitude one. No octaves give zero.
pub open spec fn perlin2d_spec(x: Fixed, y: Fixed, freq: Fixed, depth: u32, seed: i32) -> Fixed {
    octaves_spec(
        x.spec_mul(freq),
        y.spec_mul(freq),
        Fixed::spec_one(),
        Fixed::spec_zero(),
        Fixed::spec_zero(),
        seed,
        depth as nat,
    )
}

/// The largest value of one octave: the largest hash.
pub const HASH_MAX_RAW: i64 = 255 * 0x1_0000_0000;

/// The cubic ease of a number between zero and one lies between zero and
/// one.
pub proof fn lemma_ease_range(s: Fixed)
    requires
        0 <= s.raw <= ONE_RAW,
    ensures
        0 <= ease_spec(s).raw <= ONE_RAW,
{
    let v = s.raw as int;
    let one = 0x1_0000_0000int;
    let ss = s.spec_mul(s);
    lemma_mul_fraction(s, s);
    let k = Fixed::spec_from_int(3).spec_sub(s.spec_add(s));
    assert(k.raw == 3 * one - 2 * v);
    let sq = (v * v) / one;
    assert(ss.raw == sq);
    assert(sq * one <= v * v) by (nonlinear_arith)
        requires
            sq == (v * v) / one,
            one == 0x1_0000_0000,
            0 <= v,
    ;
    let gap = one - v;
    assert(one * one * one - v * v * (3 * one - 2 * v) == gap * gap * (one + 2 * v))
        by (nonlinear_arith)
        requires
            gap == one - v,
    ;
    assert(0 <= gap * gap * (one + 2 * v)) by (nonlinear_arith)
        requires
            0 <= gap,
            0 <= v,
            0 < one,
    ;
    assert(sq * (3 * one - 2 * v) * one <= v * v * (3 * one - 2 * v)) by (nonlinear_arith)
        requires
            sq * one <= v * v,
            0 < 3 * one - 2 * v,
    ;
    assert(sq * (3 * one - 2 * v) <= one * one) by (nonlinear_arith)
        requires
            sq * (3 * one - 2 * v) * one <= v * v * (3 * one - 2 * v),
            v * v * (3 * one - 2 * v) <= one * one * one,
            one == 0x1_0000_0000,
    ;
    assert(0 <= sq * (3 * one - 2 * v)) by (nonlinear_arith)
        requires
            0 <= sq,
            0 < 3 * one - 2 * v,
    ;
    assert((sq * (3 * one - 2 * v)) / one <= one) by (nonlinear_arith)
        requires
            sq * (3 * one - 2 * v) <= one * one,
            one == 0x1_0000_0000,
    ;
    assert(0 <= (sq * (3 * one - 2 * v)) / one) by (nonlinear_arith)
        requires
            0 <= sq * (3 * one - 2 * v),
            one == 0x1_0000_0000,
    ;
}

/// A linear blend of two values from zero to the largest hash, by a weight
/// between zero and one, lies in that range too.
pub proof fn lemma_lin_inter_range(x: Fixed, y: Fixed, s: Fixed)
    requires
        0 <= x.raw <= HASH_MAX_RAW,
        0 <= y.raw <= HASH_MAX_RAW,
        0 <= s.raw <= ONE_RAW,
    ensures
        0 <= lin_inter_spec(x, y, s).raw <= HASH_MAX_RAW,
{
    lemma_mul_shrinks(y.spec_sub(x), s);
}

/// One octave of noise at coordinates that are not negative lies between
/// zero and the largest hash.
pub proof fn lemma_noise2d_range(x: Fixed, y: Fixed, seed: i32)
    requires
        0 <= x.raw,
        0 <= y.raw,
    ensures
        0 <= noise2d_spec(x, y, seed).raw <= HASH_MAX_RAW,
{
    let xi = x.spec_trunc();
    let yi = y.spec_trunc();
    let xf = x.spec_fract();
    let yf = y.spec_fract();
    assert(0 <= xf.raw < ONE_RAW);
    assert(0 <= yf.raw < ONE_RAW);
    let s = Fixed::spec_from_int(lattice_hash_spec(xi, yi, seed as int) as i32);
    let t = Fixed::spec_from_int(lattice_hash_spec(xi + 1, yi, seed as int) as i32);
    let u = Fixed::spec_from_int(lattice_hash_spec(xi, yi + 1, seed as int) as i32);
    let v = Fixed::spec_from_int(lattice_hash_spec(xi + 1, yi + 1, seed as int) as i32);
    lemma_ease_range(xf);
    lemma_ease_range(yf);
    lemma_lin_inter_range(s, t, ease_spec(xf));
    lemma_lin_inter_range(u, v, ease_spec(xf));
    lemma_lin_inter_range(smooth_inter_spec(s, t, xf), smooth_inter_spec(u, v, xf), ease_spec(yf));
}

/// A weighted sum of octaves that starts with a running sum no larger than
/// its running weight, at coordinates that are not negative, lies between
/// zero and one.
pub proof fn lemma_octaves_range(
    xa: Fixed,
    ya: Fixed,
    amp: Fixed,
    sum: Fixed,
    weight: Fixed,
    seed: i32,
    octaves: nat,
)
    requires
        0 <= xa.raw,
        0 <= ya.raw,
        0 <= amp.raw <= ONE_RAW,
        0 <= sum.raw <= weight.raw,
    ensures
        0 <= octaves_spec(xa, ya, amp, sum, weight, seed, octaves).raw <= ONE_RAW,
    decreases octaves,
{
    if octaves == 0 {
        lemma_div_within_one(sum, weight);
        if weight.raw != 0 {
            assert(0 <= (sum.raw * 0x1_0000_0000) / (weight.raw as int)) by (nonlinear_arith)
                requires
                    0 <= sum.raw,
                    0 < weight.raw,
            ;
        }
    } else {
        let noise = noise2d_spec(xa, ya, seed);
        lemma_noise2d_range(xa, ya, seed);
        let term = noise.spec_mul(amp);
        let full = Fixed::spec_from_int(256).spec_mul(amp);
        assert(0 <= term.raw <= full.raw) by {
            let n = noise.raw as int;
            let a = amp.raw as int;
            assert(0 <= (n * a) / 0x1_0000_0000 <= (256 * 0x1_0000_0000 * a) / 0x1_0000_0000
                && 0 <= n * a && 0 <= 256 * 0x1_0000_0000 * a && (256 * 0x1_0000_0000 * a)
                / 0x1_0000_0000 == 256 * a) by (nonlinear_arith)
                requires
                    0 <= n <= 256 * 0x1_0000_0000,
                    0 <= a <= 0x1_0000_0000,
            ;
        }
        lemma_octaves_range(
            xa.spec_add(xa),
            ya.spec_add(ya),
            amp.spec_half(),
            sum.spec_add(term),
            weight.spec_add(full),
            seed,
            (octaves - 1) as nat,
        );
    }
}

/// Fractal noise at coordinates and a frequency that are not negative lies
/// between zero and one.
pub proof fn lemma_perlin2d_range(x: Fixed, y: Fixed, freq: Fixed, depth: u32, seed: i32)
    requires
        0 <= x.raw,
        0 <= y.raw,
        0 <= freq.raw,
    ensures
        0 <= perlin2d_spec(x, y, freq, depth, seed).raw <= ONE_RAW,
{
    assert(0 <= x.spec_mul(freq).raw) by {
        assert(0 <= x.raw * freq.raw) by (nonlinear_arith)
            requires
                0 <= x.raw,
                0 <= freq.raw,
        ;
        assert(0 <= (x.raw * freq.raw) / 0x1_0000_0000);
    }
    assert(0 <= y.spec_mul(freq).raw) by {
        assert(0 <= y.raw * freq.raw) by (nonlinear_arith)
            requires
                0 <= y.raw,
                0 <= freq.raw,
        ;
        assert(0 <= (y.raw * freq.raw) / 0x1_0000_0000);
    }
    lemma_octaves_range(
        x.spec_mul(freq),
        y.spec_mul(freq),
        Fixed::spec_one(),
        Fixed::spec_zero(),
        Fixed::spec_zero(),
        seed,
        depth as nat,
    );
}

pub fn lin_inter(x: Fixed, y: Fixed, s: Fixed) -> (r: Fixed)
    ensures
        r == lin_inter_spec(x, y, s),
{
    x.add(s.mul(y.sub(x)))
}

pub fn smooth_inter(x: Fixed, y: Fixed, s: Fixed) -> (r: Fixed)
    ensures
        r == smooth_inter_spec(x, y, s),
{
    let ease = s.mul(s).mul(Fixed::from_int(3).sub(s.add(s)));
    lin_inter(x, y, ease)
}

pub fn noise2d(x: Fixed, y: Fixed, seed: i32) -> (r: Fixed)
    ensures
        r == noise2d_spec(x, y, seed),
        0 <= x.raw && 0 <= y.raw ==> 0 <= r.raw <= HASH_MAX_RAW,
{
    proof {
        if 0 <= x.raw && 0 <= y.raw {
            lemma_noise2d_range(x, y, seed);
        }
    }
    let xi: i64 = x.trunc();
    let yi: i64 = y.trunc();
    let xf = x.fract();
    let yf = y.fract();
    let s = Fixed::from_int(lattice_hash(xi, yi, seed));
    let t = Fixed::from_int(lattice_hash(xi + 1, yi, seed));
    let u = Fixed::from_int(lattice_hash(xi, yi + 1, seed));
    let v = Fixed::from_int(lattice_hash(xi + 1, yi + 1, seed));
    let low = smooth_inter(s, t, xf);
    let high = smooth_inter(u, v, xf);
    smooth_inter(low, high, yf)
}

pub fn perlin2d(x: Fixed, y: Fixed, freq: Fixed, depth: u32, seed: i32) -> (r: Fixed)
    ensures
        r == perlin2d_spec(x, y, freq, depth, seed),
        0 <= x.raw && 0 <= y.raw && 0 <= freq.raw ==> 0 <= r.raw <= ONE_RAW,
{
    proof {
        if 0 <= x.raw && 0 <= y.raw && 0 <= freq.raw {
            lemma_perlin2d_range(x, y, freq, depth, seed);
        }
    }
    let mut xa = x.mul(freq);
    let mut ya = y.mul(freq);
    let mut amp = Fixed::one();
    let mut sum = Fixed::zero();
    let mut weight = Fixed::zero();
    let mut done: u32 = 0;
    while done < depth
        invariant
            done <= depth,
            octaves_spec(xa, ya, amp, sum, weight, seed, (depth - done) as nat) == perlin2d_spec(
                x,
                y,
                freq,
                depth,
                seed,
            ),
        decreases depth - done,
    {
        weight = weight.add(Fixed::from_int(256).mul(amp));
        sum = sum.add(noise2d(xa, ya, seed).mul(amp));
        amp = amp.half();
        xa = xa.add(xa);
        ya = ya.add(ya);
        done = done + 1;
    }
    sum.div(weight)
}

} // verus!
