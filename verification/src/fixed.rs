//! Signed fixed-point numbers with 32 fractional bits.
//!
//! Every operation is total: a result that does not fit is clamped to the
//! representable range, and a division by zero yields zero. Nothing here can
//! produce an undefined or non-finite value.

use vstd::prelude::*;

verus! {

/// The raw representation of the number one.
pub const ONE_RAW: i64 = 0x1_0000_0000;

/// A fixed-point number: `raw / 2^32`.
#[derive(Clone, Copy, Debug, PartialEq, Eq, Structural)]
pub struct Fixed {
    pub raw: i64,
}

/// Clamps a mathematical integer to the range of `i64`.
pub open spec fn saturate(v: int) -> i64 {
    if v > i64::MAX {
        i64::MAX
    } else if v < i64::MIN {
        i64::MIN
    } else {
        v as i64
    }
}

/// Quotient rounded toward zero, for a non-zero divisor.
pub open spec fn trunc_div(n: int, d: int) -> int {
    if n >= 0 {
        n / d
    } else {
        -((-n) / d)
    }
}

/// A quotient is never larger in magnitude than its dividend.
pub proof fn lemma_trunc_div_bound(n: int, d: int)
    requires
        d != 0,
    ensures
        n >= 0 ==> -n <= trunc_div(n, d) <= n,
        n < 0 ==> n <= trunc_div(n, d) <= -n,
{
    let m = if n >= 0 { n } else { -n };
    if d > 0 {
        vstd::arithmetic::div_mod::lemma_div_pos_is_pos(m, d);
        vstd::arithmetic::div_mod::lemma_div_is_ordered_by_denominator(m, 1, d);
        vstd::arithmetic::div_mod::lemma_div_basics(m);
    } else {
        vstd::arithmetic::div_mod::lemma_div_pos_is_pos(m, -d);
        vstd::arithmetic::div_mod::lemma_div_is_ordered_by_denominator(m, 1, -d);
        vstd::arithmetic::div_mod::lemma_div_basics(m);
        assert(m / d == -(m / (-d))) by (nonlinear_arith)
            requires
                m >= 0,
                d < 0,
        ;
    }
}

/// `r` is the integer square root of `n`: the largest number whose square
/// does not exceed `n`.
pub open spec fn is_isqrt(n: nat, r: nat) -> bool {
    r * r <= n && n < (r + 1) * (r + 1)
}

/// The integer square root of `n`.
pub open spec fn isqrt(n: nat) -> nat {
    choose|r: nat| is_isqrt(n, r)
}

/// Two numbers that both satisfy the defining inequalities of the integer
/// square root of `n` are equal.
pub proof fn lemma_isqrt_unique(n: nat, a: nat, b: nat)
    requires
        is_isqrt(n, a),
        is_isqrt(n, b),
    ensures
        a == b,
{
    if a < b {
        assert((a + 1) * (a + 1) <= b * b) by (nonlinear_arith)
            requires
                a + 1 <= b,
        ;
    } else if b < a {
        assert((b + 1) * (b + 1) <= a * a) by (nonlinear_arith)
            requires
                b + 1 <= a,
        ;
    }
}

/// A number known to satisfy the defining inequalities is the integer square
/// root.
pub proof fn lemma_isqrt_is(n: nat, r: nat)
    requires
        is_isqrt(n, r),
    ensures
        isqrt(n) == r,
{
    lemma_isqrt_unique(n, r, isqrt(n));
}

/// Every number has an integer square root.
pub proof fn lemma_isqrt_exists(n: nat)
    ensures
        is_isqrt(n, isqrt(n)),
    decreases n,
{
    if n == 0 {
        assert(0nat * 0nat <= 0 && 0 < (0nat + 1) * (0nat + 1)) by (nonlinear_arith);
        assert(is_isqrt(0, 0));
    } else {
        lemma_isqrt_exists((n - 1) as nat);
        let r = isqrt((n - 1) as nat);
        if (r + 1) * (r + 1) <= n {
            assert(n < (r + 2) * (r + 2)) by (nonlinear_arith)
                requires
                    n - 1 < (r + 1) * (r + 1),
            ;
            assert(is_isqrt(n, r + 1));
        } else {
            assert(is_isqrt(n, r));
        }
    }
}

/// A number whose square does not exceed `n` does not exceed the integer
/// square root of `n`.
pub proof fn lemma_isqrt_dominates(n: nat, a: nat)
    requires
        a * a <= n,
    ensures
        a <= isqrt(n),
{
    lemma_isqrt_exists(n);
    let r = isqrt(n);
    if a > r {
        assert((r + 1) * (r + 1) <= a * a) by (nonlinear_arith)
            requires
                r + 1 <= a,
        ;
    }
}

/// A quotient of a number by one at least as large in magnitude lies
/// between minus one and one.
pub proof fn lemma_div_within_one(a: Fixed, b: Fixed)
    requires
        -b.raw <= a.raw <= b.raw || (b.raw == i64::MAX && a.raw >= -b.raw - 1),
    ensures
        -ONE_RAW <= a.spec_div(b).raw <= ONE_RAW,
{
    if b.raw != 0 {
        let m: int = if a.raw >= 0 { a.raw as int } else { -(a.raw as int) };
        let d: int = b.raw as int;
        assert(0 < d);
        assert(m * 0x1_0000_0000 == (if a.raw >= 0 { a.raw * 0x1_0000_0000 } else { -(a.raw * 0x1_0000_0000) }));
        if m <= d {
            assert(0 <= (m * 0x1_0000_0000) / d <= 0x1_0000_0000) by (nonlinear_arith)
                requires
                    0 <= m <= d,
                    0 < d,
            ;
        } else {
            assert(d == 0x7fff_ffff_ffff_ffff);
            assert(0 <= (m * 0x1_0000_0000) / 0x7fff_ffff_ffff_ffff <= 0x1_0000_0000);
        }
    }
}

/// A part of a number that is not negative, taken by a factor between zero
/// and one, lies between zero and the number.
pub proof fn lemma_mul_fraction(a: Fixed, r: Fixed)
    requires
        0 <= a.raw,
        0 <= r.raw <= ONE_RAW,
    ensures
        0 <= a.spec_mul(r).raw <= a.raw,
        0 <= r.spec_mul(a).raw <= a.raw,
{
    let x = a.raw as int;
    let y = r.raw as int;
    assert(0 <= (x * y) / 0x1_0000_0000 <= x && x * y == y * x && 0 <= x * y) by (nonlinear_arith)
        requires
            0 <= x,
            0 <= y <= 0x1_0000_0000,
    ;
}

/// A product with a factor between zero and one is no larger in magnitude
/// than the other factor, and has its sign or is zero.
pub proof fn lemma_mul_shrinks(a: Fixed, r: Fixed)
    requires
        0 <= r.raw <= ONE_RAW,
    ensures
        a.raw >= 0 ==> 0 <= r.spec_mul(a).raw <= a.raw,
        a.raw <= 0 ==> a.raw <= r.spec_mul(a).raw <= 0,
        a.raw >= 0 ==> 0 <= a.spec_mul(r).raw <= a.raw,
        a.raw <= 0 ==> a.raw <= a.spec_mul(r).raw <= 0,
{
    let y = r.raw as int;
    if a.raw >= 0 {
        lemma_mul_fraction(a, r);
    } else {
        let x = -(a.raw as int);
        assert(0 <= (x * y) / 0x1_0000_0000 <= x && -(a.raw * r.raw) == x * y && -(r.raw * a.raw)
            == x * y && x * y >= 0) by (nonlinear_arith)
            requires
                0 < x,
                x == -(a.raw as int),
                y == r.raw,
                0 <= y <= 0x1_0000_0000,
        ;
        if x * y == 0 {
            assert(a.raw * r.raw == 0);
            assert(r.raw * a.raw == 0);
        }
    }
}

/// A product with zero is zero.
pub proof fn lemma_mul_zero(a: Fixed)
    ensures
        a.spec_mul(Fixed::spec_zero()) == Fixed::spec_zero(),
        Fixed::spec_zero().spec_mul(a) == Fixed::spec_zero(),
{
    assert(a.raw * 0 == 0 && 0 * a.raw == 0) by (nonlinear_arith);
}

/// A product with one is the other factor.
pub proof fn lemma_mul_one(a: Fixed)
    ensures
        a.spec_mul(Fixed::spec_one()) == a,
        Fixed::spec_one().spec_mul(a) == a,
{
    let x = a.raw as int;
    assert(x * 0x1_0000_0000 == 0x1_0000_0000 * x) by (nonlinear_arith);
    assert((x * 0x1_0000_0000) / 0x1_0000_0000 == x);
    assert((-(x * 0x1_0000_0000)) / 0x1_0000_0000 == -x);
}

/// A product with minus one is the negation of the other factor.
pub proof fn lemma_mul_minus_one(a: Fixed)
    ensures
        a.spec_mul(Fixed::spec_from_int(-1i32)) == a.spec_neg(),
        Fixed::spec_from_int(-1i32).spec_mul(a) == a.spec_neg(),
{
    let x = a.raw as int;
    assert(x * (-0x1_0000_0000) == (-0x1_0000_0000) * x && x * (-0x1_0000_0000) == -(x
        * 0x1_0000_0000)) by (nonlinear_arith);
    assert((x * 0x1_0000_0000) / 0x1_0000_0000 == x);
    assert((-(x * 0x1_0000_0000)) / 0x1_0000_0000 == -x);
}

/// The order of the factors does not matter.
pub proof fn lemma_mul_commutes(a: Fixed, b: Fixed)
    ensures
        a.spec_mul(b) == b.spec_mul(a),
{
    assert(a.raw * b.raw == b.raw * a.raw) by (nonlinear_arith);
}

fn clamp_to_i64(v: i128) -> (r: i64)
    ensures
        r == saturate(v as int),
{
    if v > 0x7fff_ffff_ffff_ffff {
        0x7fff_ffff_ffff_ffff
    } else if v < -0x8000_0000_0000_0000 {
        -0x8000_0000_0000_0000
    } else {
        v as i64
    }
}

/// Integer square root by bisection.
pub fn isqrt_u128(n: u128) -> (r: u128)
    ensures
        r == isqrt(n as nat),
        r < 0x1_0000_0000_0000_0000,
{
    let mut lo: u128 = 0;
    let mut hi: u128 = 0x1_0000_0000_0000_0000;
    assert(hi * hi > n) by (nonlinear_arith)
        requires
            hi == 0x1_0000_0000_0000_0000,
            n <= 0xffff_ffff_ffff_ffff_ffff_ffff_ffff_ffff,
    ;
    while hi - lo > 1
        invariant
            lo < hi <= 0x1_0000_0000_0000_0000,
            lo * lo <= n,
            n < hi * hi,
        decreases hi - lo,
    {
        let mid: u128 = lo + (hi - lo) / 2;
        assert(mid * mid <= 0xffff_ffff_ffff_ffff * 0xffff_ffff_ffff_ffff) by (nonlinear_arith)
            requires
                0 <= mid <= 0xffff_ffff_ffff_ffff,
        ;
        if mid * mid <= n {
            lo = mid;
        } else {
            hi = mid;
        }
    }
    proof {
        assert(hi == lo + 1);
        lemma_isqrt_is(n as nat, lo as nat);
    }
    lo
}

/// The square of a raw value, which always fits.
pub fn square_raw(v: i64) -> (r: u128)
    ensures
        r == v * v,
        r <= 0x4000_0000_0000_0000_0000_0000_0000_0000,
{
    let m: u128 = if v < 0 {
        (-(v as i128)) as u128
    } else {
        v as u128
    };
    assert(m * m == v * v && m * m <= 0x4000_0000_0000_0000_0000_0000_0000_0000) by (nonlinear_arith)
        requires
            m == v || m == -v,
            0 <= m <= 0x8000_0000_0000_0000,
    ;
    m * m
}

/// The raw value nearest to `v` from below that a fixed-point number can hold.
pub fn clamp_unsigned(v: u128) -> (r: i64)
    ensures
        r == saturate(v as int),
{
    if v > 0x7fff_ffff_ffff_ffff {
        0x7fff_ffff_ffff_ffff
    } else {
        v as i64
    }
}

impl Fixed {
    pub open spec fn spec_zero() -> Fixed {
        Fixed { raw: 0 }
    }

    pub open spec fn spec_one() -> Fixed {
        Fixed { raw: ONE_RAW }
    }

    pub open spec fn spec_from_int(n: i32) -> Fixed {
        Fixed { raw: (n * ONE_RAW) as i64 }
    }

    pub open spec fn spec_ratio(num: i32, den: i32) -> Fixed {
        if den == 0 {
            Fixed { raw: 0 }
        } else {
            Fixed { raw: saturate(trunc_div(num * ONE_RAW, den as int)) }
        }
    }

    pub open spec fn spec_add(self, other: Fixed) -> Fixed {
        Fixed { raw: saturate(self.raw + other.raw) }
    }

    pub open spec fn spec_sub(self, other: Fixed) -> Fixed {
        Fixed { raw: saturate(self.raw - other.raw) }
    }

    pub open spec fn spec_neg(self) -> Fixed {
        Fixed { raw: saturate(-self.raw) }
    }

    pub open spec fn spec_abs(self) -> Fixed {
        if self.raw < 0 {
            self.spec_neg()
        } else {
            self
        }
    }

    pub open spec fn spec_mul(self, other: Fixed) -> Fixed {
        Fixed { raw: saturate(trunc_div(self.raw * other.raw, ONE_RAW as int)) }
    }

    pub open spec fn spec_div(self, other: Fixed) -> Fixed {
        if other.raw == 0 {
            Fixed { raw: 0 }
        } else {
            Fixed { raw: saturate(trunc_div(self.raw * ONE_RAW, other.raw as int)) }
        }
    }

    pub open spec fn spec_half(self) -> Fixed {
        Fixed { raw: trunc_div(self.raw as int, 2) as i64 }
    }

    pub open spec fn spec_min(self, other: Fixed) -> Fixed {
        if other.raw < self.raw {
            other
        } else {
            self
        }
    }

    pub open spec fn spec_max(self, other: Fixed) -> Fixed {
        if other.raw > self.raw {
            other
        } else {
            self
        }
    }

    pub open spec fn spec_sqrt(self) -> Fixed {
        if self.raw <= 0 {
            Fixed { raw: 0 }
        } else {
            Fixed { raw: saturate(isqrt((self.raw * ONE_RAW) as nat) as int) }
        }
    }

    /// The whole part, rounded toward zero.
    pub open spec fn spec_trunc(self) -> int {
        trunc_div(self.raw as int, ONE_RAW as int)
    }

    /// What is left after the whole part is taken away; it has the sign of
    /// the number.
    pub open spec fn spec_fract(self) -> Fixed {
        Fixed { raw: (self.raw - self.spec_trunc() * ONE_RAW) as i64 }
    }

    pub fn zero() -> (r: Fixed)
        ensures
            r == Fixed::spec_zero(),
    {
        Fixed { raw: 0 }
    }

    pub fn one() -> (r: Fixed)
        ensures
            r == Fixed::spec_one(),
    {
        Fixed { raw: ONE_RAW }
    }

    /// The whole number `n`, exactly.
    pub fn from_int(n: i32) -> (r: Fixed)
        ensures
            r == Fixed::spec_from_int(n),
            r.raw == n * ONE_RAW,
    {
        Fixed { raw: (n as i64) * ONE_RAW }
    }

    /// The quotient `num / den`, rounded toward zero; zero when `den` is zero.
    pub fn ratio(num: i32, den: i32) -> (r: Fixed)
        ensures
            r == Fixed::spec_ratio(num, den),
    {
        if den == 0 {
            Fixed { raw: 0 }
        } else {
            let n: i128 = (num as i128) * 0x1_0000_0000;
            proof {
                lemma_trunc_div_bound(n as int, den as int);
            }
            Fixed { raw: clamp_to_i64(n / (den as i128)) }
        }
    }

    pub fn add(self, other: Fixed) -> (r: Fixed)
        ensures
            r == self.spec_add(other),
    {
        Fixed { raw: clamp_to_i64(self.raw as i128 + other.raw as i128) }
    }

    pub fn sub(self, other: Fixed) -> (r: Fixed)
        ensures
            r == self.spec_sub(other),
    {
        Fixed { raw: clamp_to_i64(self.raw as i128 - other.raw as i128) }
    }

    pub fn neg(self) -> (r: Fixed)
        ensures
            r == self.spec_neg(),
    {
        Fixed { raw: clamp_to_i64(-(self.raw as i128)) }
    }

    pub fn abs(self) -> (r: Fixed)
        ensures
            r == self.spec_abs(),
            r.raw >= 0,
    {
        if self.raw < 0 {
            self.neg()
        } else {
            self
        }
    }

    /// The product, rounded toward zero.
    pub fn mul(self, other: Fixed) -> (r: Fixed)
        ensures
            r == self.spec_mul(other),
    {
        let a: i128 = self.raw as i128;
        let b: i128 = other.raw as i128;
        assert(-0x4000_0000_0000_0000_0000_0000_0000_0000 <= a * b
            <= 0x4000_0000_0000_0000_0000_0000_0000_0000) by (nonlinear_arith)
            requires
                -0x8000_0000_0000_0000 <= a <= 0x7fff_ffff_ffff_ffff,
                -0x8000_0000_0000_0000 <= b <= 0x7fff_ffff_ffff_ffff,
        ;
        let p: i128 = a * b;
        Fixed { raw: clamp_to_i64(p / (ONE_RAW as i128)) }
    }

    /// The quotient, rounded toward zero; zero when the divisor is zero.
    pub fn div(self, other: Fixed) -> (r: Fixed)
        ensures
            r == self.spec_div(other),
    {
        if other.raw == 0 {
            Fixed { raw: 0 }
        } else {
            let n: i128 = (self.raw as i128) * 0x1_0000_0000;
            proof {
                lemma_trunc_div_bound(n as int, other.raw as int);
            }
            Fixed { raw: clamp_to_i64(n / (other.raw as i128)) }
        }
    }

    /// Half of the number, rounded toward zero.
    pub fn half(self) -> (r: Fixed)
        ensures
            r == self.spec_half(),
    {
        Fixed { raw: self.raw / 2 }
    }

    pub fn min(self, other: Fixed) -> (r: Fixed)
        ensures
            r == self.spec_min(other),
    {
        if other.raw < self.raw {
            other
        } else {
            self
        }
    }

    pub fn max(self, other: Fixed) -> (r: Fixed)
        ensures
            r == self.spec_max(other),
    {
        if other.raw > self.raw {
            other
        } else {
            self
        }
    }

    /// The square root, rounded down; zero for a number that is not positive.
    pub fn sqrt(self) -> (r: Fixed)
        ensures
            r == self.spec_sqrt(),
            r.raw >= 0,
    {
        if self.raw <= 0 {
            Fixed { raw: 0 }
        } else {
            let n: u128 = (self.raw as u128) * (ONE_RAW as u128);
            let root: u128 = isqrt_u128(n);
            Fixed { raw: clamp_unsigned(root) }
        }
    }

    /// The whole part, rounded toward zero.
    pub fn trunc(self) -> (r: i64)
        ensures
            r == self.spec_trunc(),
            -0x8000_0000 <= r <= 0x7fff_ffff,
    {
        self.raw / ONE_RAW
    }

    /// What is left after the whole part is taken away.
    pub fn fract(self) -> (r: Fixed)
        ensures
            r == self.spec_fract(),
            -ONE_RAW < r.raw < ONE_RAW,
    {
        Fixed { raw: self.raw % ONE_RAW }
    }
}

} // verus!
