//! Two- and three-component vectors of fixed-point numbers.

use vstd::prelude::*;
use crate::fixed::{
    Fixed, ONE_RAW, saturate, isqrt, isqrt_u128, square_raw, clamp_unsigned, lemma_isqrt_dominates,
    lemma_div_within_one,
};

verus! {

/// A point or direction in the plane of the grid.
#[derive(Clone, Copy, Debug, PartialEq, Eq, Structural)]
pub struct Vec2 {
    pub x: Fixed,
    pub y: Fixed,
}

/// A point or direction in space; `z` is up.
#[derive(Clone, Copy, Debug, PartialEq, Eq, Structural)]
pub struct Vec3 {
    pub x: Fixed,
    pub y: Fixed,
    pub z: Fixed,
}

/// A point in space with a fourth, homogeneous component.
#[derive(Clone, Copy, Debug, PartialEq, Eq, Structural)]
pub struct Vec4 {
    pub x: Fixed,
    pub y: Fixed,
    pub z: Fixed,
    pub w: Fixed,
}

/// A four-by-four matrix, given by its columns.
#[derive(Clone, Copy, Debug, PartialEq, Eq, Structural)]
pub struct Mat4 {
    pub c0: Vec4,
    pub c1: Vec4,
    pub c2: Vec4,
    pub c3: Vec4,
}

impl Vec4 {
    pub open spec fn spec_xyz(self) -> Vec3 {
        Vec3 { x: self.x, y: self.y, z: self.z }
    }

    pub open spec fn spec_add(self, other: Vec4) -> Vec4 {
        Vec4 {
            x: self.x.spec_add(other.x),
            y: self.y.spec_add(other.y),
            z: self.z.spec_add(other.z),
            w: self.w.spec_add(other.w),
        }
    }

    pub open spec fn spec_scale(self, k: Fixed) -> Vec4 {
        Vec4 {
            x: self.x.spec_mul(k),
            y: self.y.spec_mul(k),
            z: self.z.spec_mul(k),
            w: self.w.spec_mul(k),
        }
    }

    pub fn new(x: Fixed, y: Fixed, z: Fixed, w: Fixed) -> (r: Vec4)
        ensures
            r == (Vec4 { x, y, z, w }),
    {
        Vec4 { x, y, z, w }
    }

    /// The first three components.
    pub fn xyz(self) -> (r: Vec3)
        ensures
            r == self.spec_xyz(),
    {
        Vec3 { x: self.x, y: self.y, z: self.z }
    }

    pub fn add(self, other: Vec4) -> (r: Vec4)
        ensures
            r == self.spec_add(other),
    {
        Vec4 {
            x: self.x.add(other.x),
            y: self.y.add(other.y),
            z: self.z.add(other.z),
            w: self.w.add(other.w),
        }
    }

    pub fn scale(self, k: Fixed) -> (r: Vec4)
        ensures
            r == self.spec_scale(k),
    {
        Vec4 { x: self.x.mul(k), y: self.y.mul(k), z: self.z.mul(k), w: self.w.mul(k) }
    }
}

impl Mat4 {
    /// The matrix that changes nothing.
    pub open spec fn spec_identity() -> Mat4 {
        let zero = Fixed::spec_zero();
        let one = Fixed::spec_one();
        Mat4 {
            c0: Vec4 { x: one, y: zero, z: zero, w: zero },
            c1: Vec4 { x: zero, y: one, z: zero, w: zero },
            c2: Vec4 { x: zero, y: zero, z: one, w: zero },
            c3: Vec4 { x: zero, y: zero, z: zero, w: one },
        }
    }

    /// The matrix applied to a vector: the columns, each scaled by its
    /// component of the vector, summed from the first to the last.
    pub open spec fn spec_apply(self, v: Vec4) -> Vec4 {
        self.c0.spec_scale(v.x).spec_add(self.c1.spec_scale(v.y)).spec_add(
            self.c2.spec_scale(v.z),
        ).spec_add(self.c3.spec_scale(v.w))
    }

    pub fn identity() -> (r: Mat4)
        ensures
            r == Mat4::spec_identity(),
    {
        let zero = Fixed::zero();
        let one = Fixed::one();
        Mat4 {
            c0: Vec4 { x: one, y: zero, z: zero, w: zero },
            c1: Vec4 { x: zero, y: one, z: zero, w: zero },
            c2: Vec4 { x: zero, y: zero, z: one, w: zero },
            c3: Vec4 { x: zero, y: zero, z: zero, w: one },
        }
    }

    pub fn apply(self, v: Vec4) -> (r: Vec4)
        ensures
            r == self.spec_apply(v),
    {
        self.c0.scale(v.x).add(self.c1.scale(v.y)).add(self.c2.scale(v.z)).add(
            self.c3.scale(v.w),
        )
    }
}

impl Vec2 {
    pub open spec fn spec_zero() -> Vec2 {
        Vec2 { x: Fixed::spec_zero(), y: Fixed::spec_zero() }
    }

    pub open spec fn spec_add(self, other: Vec2) -> Vec2 {
        Vec2 { x: self.x.spec_add(other.x), y: self.y.spec_add(other.y) }
    }

    pub open spec fn spec_sub(self, other: Vec2) -> Vec2 {
        Vec2 { x: self.x.spec_sub(other.x), y: self.y.spec_sub(other.y) }
    }

    pub open spec fn spec_scale(self, k: Fixed) -> Vec2 {
        Vec2 { x: self.x.spec_mul(k), y: self.y.spec_mul(k) }
    }

    /// The Euclidean length, rounded down.
    pub open spec fn spec_length(self) -> Fixed {
        Fixed { raw: saturate(isqrt((self.x.raw * self.x.raw + self.y.raw * self.y.raw) as nat) as int) }
    }

    /// The vector divided by its length; the zero vector stays zero.
    pub open spec fn spec_normalized(self) -> Vec2 {
        let len = self.spec_length();
        Vec2 { x: self.x.spec_div(len), y: self.y.spec_div(len) }
    }

    pub fn new(x: Fixed, y: Fixed) -> (r: Vec2)
        ensures
            r == (Vec2 { x, y }),
    {
        Vec2 { x, y }
    }

    pub fn zero() -> (r: Vec2)
        ensures
            r == Vec2::spec_zero(),
    {
        Vec2 { x: Fixed::zero(), y: Fixed::zero() }
    }

    pub fn add(self, other: Vec2) -> (r: Vec2)
        ensures
            r == self.spec_add(other),
    {
        Vec2 { x: self.x.add(other.x), y: self.y.add(other.y) }
    }

    pub fn sub(self, other: Vec2) -> (r: Vec2)
        ensures
            r == self.spec_sub(other),
    {
        Vec2 { x: self.x.sub(other.x), y: self.y.sub(other.y) }
    }

    pub fn scale(self, k: Fixed) -> (r: Vec2)
        ensures
            r == self.spec_scale(k),
    {
        Vec2 { x: self.x.mul(k), y: self.y.mul(k) }
    }

    pub fn length(self) -> (r: Fixed)
        ensures
            r == self.spec_length(),
            r.raw >= 0,
    {
        let n: u128 = square_raw(self.x.raw) + square_raw(self.y.raw);
        Fixed { raw: clamp_unsigned(isqrt_u128(n)) }
    }

    pub fn normalized(self) -> (r: Vec2)
        ensures
            r == self.spec_normalized(),
    {
        let len = self.length();
        Vec2 { x: self.x.div(len), y: self.y.div(len) }
    }
}

impl Vec3 {
    pub open spec fn spec_zero() -> Vec3 {
        Vec3 { x: Fixed::spec_zero(), y: Fixed::spec_zero(), z: Fixed::spec_zero() }
    }

    pub open spec fn spec_xy(self) -> Vec2 {
        Vec2 { x: self.x, y: self.y }
    }

    pub open spec fn spec_sub(self, other: Vec3) -> Vec3 {
        Vec3 {
            x: self.x.spec_sub(other.x),
            y: self.y.spec_sub(other.y),
            z: self.z.spec_sub(other.z),
        }
    }

    pub open spec fn spec_add(self, other: Vec3) -> Vec3 {
        Vec3 {
            x: self.x.spec_add(other.x),
            y: self.y.spec_add(other.y),
            z: self.z.spec_add(other.z),
        }
    }

    pub open spec fn spec_scale(self, k: Fixed) -> Vec3 {
        Vec3 { x: self.x.spec_mul(k), y: self.y.spec_mul(k), z: self.z.spec_mul(k) }
    }

    pub open spec fn spec_dot(self, other: Vec3) -> Fixed {
        self.x.spec_mul(other.x).spec_add(self.y.spec_mul(other.y)).spec_add(
            self.z.spec_mul(other.z),
        )
    }

    pub open spec fn spec_cross(self, other: Vec3) -> Vec3 {
        Vec3 {
            x: self.y.spec_mul(other.z).spec_sub(self.z.spec_mul(other.y)),
            y: self.z.spec_mul(other.x).spec_sub(self.x.spec_mul(other.z)),
            z: self.x.spec_mul(other.y).spec_sub(self.y.spec_mul(other.x)),
        }
    }

    /// The Euclidean length, rounded down.
    pub open spec fn spec_length(self) -> Fixed {
        Fixed {
            raw: saturate(
                isqrt(
                    (self.x.raw * self.x.raw + self.y.raw * self.y.raw + self.z.raw
                        * self.z.raw) as nat,
                ) as int,
            ),
        }
    }

    /// The vector divided by its length; the zero vector stays zero.
    pub open spec fn spec_normalized(self) -> Vec3 {
        let len = self.spec_length();
        Vec3 { x: self.x.spec_div(len), y: self.y.spec_div(len), z: self.z.spec_div(len) }
    }

    pub fn new(x: Fixed, y: Fixed, z: Fixed) -> (r: Vec3)
        ensures
            r == (Vec3 { x, y, z }),
    {
        Vec3 { x, y, z }
    }

    pub fn zero() -> (r: Vec3)
        ensures
            r == Vec3::spec_zero(),
    {
        Vec3 { x: Fixed::zero(), y: Fixed::zero(), z: Fixed::zero() }
    }

    /// The horizontal part.
    pub fn xy(self) -> (r: Vec2)
        ensures
            r == self.spec_xy(),
    {
        Vec2 { x: self.x, y: self.y }
    }

    pub fn sub(self, other: Vec3) -> (r: Vec3)
        ensures
            r == self.spec_sub(other),
    {
        Vec3 { x: self.x.sub(other.x), y: self.y.sub(other.y), z: self.z.sub(other.z) }
    }

    pub fn add(self, other: Vec3) -> (r: Vec3)
        ensures
            r == self.spec_add(other),
    {
        Vec3 { x: self.x.add(other.x), y: self.y.add(other.y), z: self.z.add(other.z) }
    }

    pub fn scale(self, k: Fixed) -> (r: Vec3)
        ensures
            r == self.spec_scale(k),
    {
        Vec3 { x: self.x.mul(k), y: self.y.mul(k), z: self.z.mul(k) }
    }

    pub fn dot(self, other: Vec3) -> (r: Fixed)
        ensures
            r == self.spec_dot(other),
    {
        self.x.mul(other.x).add(self.y.mul(other.y)).add(self.z.mul(other.z))
    }

    pub fn cross(self, other: Vec3) -> (r: Vec3)
        ensures
            r == self.spec_cross(other),
    {
        Vec3 {
            x: self.y.mul(other.z).sub(self.z.mul(other.y)),
            y: self.z.mul(other.x).sub(self.x.mul(other.z)),
            z: self.x.mul(other.y).sub(self.y.mul(other.x)),
        }
    }

    pub fn length(self) -> (r: Fixed)
        ensures
            r == self.spec_length(),
            r.raw >= 0,
    {
        let n: u128 = square_raw(self.x.raw) + square_raw(self.y.raw) + square_raw(self.z.raw);
        Fixed { raw: clamp_unsigned(isqrt_u128(n)) }
    }

    pub fn normalized(self) -> (r: Vec3)
        ensures
            r == self.spec_normalized(),
    {
        let len = self.length();
        Vec3 { x: self.x.div(len), y: self.y.div(len), z: self.z.div(len) }
    }
}

/// No component of a normalized vector exceeds one in magnitude.
pub proof fn lemma_normalized_bounded(v: Vec3)
    ensures
        -ONE_RAW <= v.spec_normalized().x.raw <= ONE_RAW,
        -ONE_RAW <= v.spec_normalized().y.raw <= ONE_RAW,
        -ONE_RAW <= v.spec_normalized().z.raw <= ONE_RAW,
{
    let x = v.x.raw as int;
    let y = v.y.raw as int;
    let z = v.z.raw as int;
    let ax: nat = (if x >= 0 { x } else { -x }) as nat;
    let ay: nat = (if y >= 0 { y } else { -y }) as nat;
    let az: nat = (if z >= 0 { z } else { -z }) as nat;
    assert(ax * ax == x * x && ay * ay == y * y && az * az == z * z && 0 <= x * x && 0 <= y * y
        && 0 <= z * z) by (nonlinear_arith)
        requires
            ax == x || ax == -x,
            ay == y || ay == -y,
            az == z || az == -z,
    ;
    let sum = (x * x + y * y + z * z) as nat;
    lemma_isqrt_dominates(sum, ax);
    lemma_isqrt_dominates(sum, ay);
    lemma_isqrt_dominates(sum, az);
    let len = v.spec_length();
    lemma_div_within_one(v.x, len);
    lemma_div_within_one(v.y, len);
    lemma_div_within_one(v.z, len);
}

/// The straight-up share of a vector is its third component.
pub proof fn lemma_dot_up(v: Vec3)
    ensures
        v.spec_dot(Vec3 { x: Fixed::spec_zero(), y: Fixed::spec_zero(), z: Fixed::spec_one() })
            == v.z,
{
    let x = v.x.raw as int;
    let y = v.y.raw as int;
    let z = v.z.raw as int;
    assert(x * 0 == 0 && y * 0 == 0) by (nonlinear_arith);
    assert((z * 0x1_0000_0000) / 0x1_0000_0000 == z);
    assert((-(z * 0x1_0000_0000)) / 0x1_0000_0000 == -z);
}

} // verus!
