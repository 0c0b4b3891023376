//! Axis-aligned boxes: the bounds of things that can collide or cast a
//! shadow.

use vstd::prelude::*;
use crate::fixed::Fixed;
use crate::vector::{Mat4, Vec3, Vec4};

verus! {

/// A box with its sides along the axes, given by two opposite corners.
#[derive(Clone, Copy, Debug, PartialEq, Eq, Structural)]
pub struct AABB {
    pub min: Vec3,
    pub max: Vec3,
}

/// The smaller of each pair of components.
pub open spec fn min2_spec(a: Vec3, b: Vec3) -> Vec3 {
    Vec3 { x: a.x.spec_min(b.x), y: a.y.spec_min(b.y), z: a.z.spec_min(b.z) }
}

/// The larger of each pair of components.
pub open spec fn max2_spec(a: Vec3, b: Vec3) -> Vec3 {
    Vec3 { x: a.x.spec_max(b.x), y: a.y.spec_max(b.y), z: a.z.spec_max(b.z) }
}

/// The point with the fourth component one.
pub open spec fn homogeneous_spec(v: Vec3) -> Vec4 {
    Vec4 { x: v.x, y: v.y, z: v.z, w: Fixed::spec_one() }
}

impl AABB {
    /// The box that holds nothing: its lower corner is the largest point
    /// and its upper corner the smallest, so that any point widens it to
    /// itself.
    pub open spec fn spec_new() -> AABB {
        let most = Fixed { raw: i64::MAX };
        let least = Fixed { raw: i64::MIN };
        AABB {
            min: Vec3 { x: most, y: most, z: most },
            max: Vec3 { x: least, y: least, z: least },
        }
    }

    /// The box moved by `center`.
    pub open spec fn spec_translate(self, center: Vec3) -> AABB {
        AABB { min: self.min.spec_add(center), max: self.max.spec_add(center) }
    }

    /// The box widened just enough to hold the point.
    pub open spec fn spec_widen(self, point: Vec3) -> AABB {
        AABB { min: min2_spec(self.min, point), max: max2_spec(self.max, point) }
    }

    /// The box widened just enough to hold all the points.
    pub open spec fn spec_fit(self, points: Seq<Vec3>) -> AABB
        decreases points.len(),
    {
        if points.len() == 0 {
            self
        } else {
            self.spec_fit(points.drop_last()).spec_widen(points.last())
        }
    }

    /// The point lies in the box, its faces included.
    pub open spec fn spec_contains(self, point: Vec3) -> bool {
        &&& self.min.x.raw <= point.x.raw <= self.max.x.raw
        &&& self.min.y.raw <= point.y.raw <= self.max.y.raw
        &&& self.min.z.raw <= point.z.raw <= self.max.z.raw
    }

    /// The middle of the upper face, as a homogeneous point.
    pub open spec fn spec_midpoint(self) -> Vec4 {
        let bottom_left = Vec4 {
            x: self.min.x,
            y: self.min.y,
            z: self.max.z,
            w: Fixed::spec_one(),
        };
        let top_right = Vec4 { x: self.max.x, y: self.max.y, z: self.max.z, w: Fixed::spec_one() };
        bottom_left.spec_add(top_right).spec_scale(Fixed::spec_ratio(1, 2))
    }

    /// The box whose corners are the corners of this one, each moved by the
    /// matrix.
    pub open spec fn spec_transform(self, matrix: Mat4) -> AABB {
        AABB {
            min: matrix.spec_apply(homogeneous_spec(self.min)).spec_xyz(),
            max: matrix.spec_apply(homogeneous_spec(self.max)).spec_xyz(),
        }
    }

    /// The box stretched along z to reach as low and as high as `other`.
    pub open spec fn spec_intersect_z(self, other: AABB) -> AABB {
        AABB {
            min: Vec3 { x: self.min.x, y: self.min.y, z: self.min.z.spec_min(other.min.z) },
            max: Vec3 { x: self.max.x, y: self.max.y, z: self.max.z.spec_max(other.max.z) },
        }
    }

    /// The boxes share a point: on no axis does one end before the other
    /// begins.
    pub open spec fn spec_intersects(self, other: AABB) -> bool {
        &&& self.max.x.raw >= other.min.x.raw && self.min.x.raw <= other.max.x.raw
        &&& self.max.y.raw >= other.min.y.raw && self.min.y.raw <= other.max.y.raw
        &&& self.max.z.raw >= other.min.z.raw && self.min.z.raw <= other.max.z.raw
    }

    /// The box that holds nothing.
    pub fn new() -> (r: AABB)
        ensures
            r == AABB::spec_new(),
    {
        let most = Fixed { raw: 0x7fff_ffff_ffff_ffff };
        let least = Fixed { raw: -0x8000_0000_0000_0000 };
        AABB {
            min: Vec3 { x: most, y: most, z: most },
            max: Vec3 { x: least, y: least, z: least },
        }
    }

    pub fn from_min_max(min: Vec3, max: Vec3) -> (r: AABB)
        ensures
            r == (AABB { min, max }),
    {
        AABB { min, max }
    }

    /// The box moved by `center`.
    pub fn translate(&self, center: Vec3) -> (r: AABB)
        ensures
            r == self.spec_translate(center),
    {
        AABB { min: self.min.add(center), max: self.max.add(center) }
    }

    /// Widens the box just enough to hold all the points. Afterwards it
    /// holds each of them, and every point it held before.
    pub fn expand_to_fit(&mut self, points: &Vec<Vec3>)
        ensures
            *final(self) == old(self).spec_fit(points@),
            forall|i: int| 0 <= i < points@.len() ==> final(self).spec_contains(points@[i]),
            forall|p: Vec3| old(self).spec_contains(p) ==> final(self).spec_contains(p),
    {
        let mut i: usize = 0;
        while i < points.len()
            invariant
                i <= points@.len(),
                *self == old(self).spec_fit(points@.take(i as int)),
                forall|k: int| 0 <= k < i ==> self.spec_contains(points@[k]),
                forall|p: Vec3| old(self).spec_contains(p) ==> self.spec_contains(p),
            decreases points@.len() - i,
        {
            proof {
                assert(points@.take(i + 1).drop_last() =~= points@.take(i as int));
            }
            let corner = points[i];
            self.min = Vec3 {
                x: self.min.x.min(corner.x),
                y: self.min.y.min(corner.y),
                z: self.min.z.min(corner.z),
            };
            self.max = Vec3 {
                x: self.max.x.max(corner.x),
                y: self.max.y.max(corner.y),
                z: self.max.z.max(corner.z),
            };
            i = i + 1;
        }
        proof {
            assert(points@.take(i as int) =~= points@);
        }
    }

    /// The middle of the upper face, as a homogeneous point.
    pub fn pos_z_plane_midpoint(&self) -> (r: Vec4)
        ensures
            r == self.spec_midpoint(),
    {
        let bottom_left = Vec4 { x: self.min.x, y: self.min.y, z: self.max.z, w: Fixed::one() };
        let top_right = Vec4 { x: self.max.x, y: self.max.y, z: self.max.z, w: Fixed::one() };
        bottom_left.add(top_right).scale(Fixed::ratio(1, 2))
    }

    /// Moves both corners by the matrix.
    pub fn transform(&mut self, matrix: Mat4)
        ensures
            *final(self) == old(self).spec_transform(matrix),
    {
        let low = Vec4 { x: self.min.x, y: self.min.y, z: self.min.z, w: Fixed::one() };
        let high = Vec4 { x: self.max.x, y: self.max.y, z: self.max.z, w: Fixed::one() };
        self.min = matrix.apply(low).xyz();
        self.max = matrix.apply(high).xyz();
    }

    /// Stretches the box along z to reach as low and as high as `other`.
    pub fn intersect_z(&mut self, other: &AABB)
        ensures
            *final(self) == old(self).spec_intersect_z(*other),
    {
        self.min = Vec3 { x: self.min.x, y: self.min.y, z: self.min.z.min(other.min.z) };
        self.max = Vec3 { x: self.max.x, y: self.max.y, z: self.max.z.max(other.max.z) };
    }

    /// Whether the boxes share a point.
    pub fn intersects(&self, other: &AABB) -> (r: bool)
        ensures
            r == self.spec_intersects(*other),
    {
        if self.max.x.raw < other.min.x.raw || self.min.x.raw > other.max.x.raw {
            return false;
        }
        if self.max.y.raw < other.min.y.raw || self.min.y.raw > other.max.y.raw {
            return false;
        }
        if self.max.z.raw < other.min.z.raw || self.min.z.raw > other.max.z.raw {
            return false;
        }
        true
    }
}

/// Two boxes share a point exactly when some point lies in both.
pub proof fn lemma_intersects_is_shared_point(a: AABB, b: AABB)
    requires
        a.min.x.raw <= a.max.x.raw,
        a.min.y.raw <= a.max.y.raw,
        a.min.z.raw <= a.max.z.raw,
        b.min.x.raw <= b.max.x.raw,
        b.min.y.raw <= b.max.y.raw,
        b.min.z.raw <= b.max.z.raw,
    ensures
        a.spec_intersects(b) <==> exists|p: Vec3| a.spec_contains(p) && b.spec_contains(p),
        a.spec_intersects(b) == b.spec_intersects(a),
{
    if a.spec_intersects(b) {
        let p = Vec3 {
            x: a.min.x.spec_max(b.min.x),
            y: a.min.y.spec_max(b.min.y),
            z: a.min.z.spec_max(b.min.z),
        };
        assert(a.spec_contains(p) && b.spec_contains(p));
    }
}

} // verus!
