//! The eight corners of a viewing volume.

use vstd::prelude::*;
use crate::aabb::homogeneous_spec;
use crate::fixed::Fixed;
use crate::vector::{Mat4, Vec3, Vec4};

verus! {

/// A viewing volume, given by its corners: the near face first, each face
/// from the bottom left around to the top left.
#[derive(Clone, Copy, Debug)]
pub struct Frustrum {
    pub points: [Vec3; 8],
}

/// The corner of a viewing volume of unit size: two to the left or right,
/// one down or up, at the depth given.
pub open spec fn corner_spec(right: bool, up: bool, depth: Fixed) -> Vec3 {
    Vec3 {
        x: if right {
            Fixed::spec_from_int(2)
        } else {
            Fixed::spec_from_int(-2i32)
        },
        y: if up {
            Fixed::spec_from_int(1)
        } else {
            Fixed::spec_from_int(-1i32)
        },
        z: depth,
    }
}

/// Where the matrix takes a point, brought back from homogeneous
/// coordinates: every component divided by the fourth.
pub open spec fn project_spec(matrix: Mat4, point: Vec3) -> Vec3 {
    let moved = matrix.spec_apply(homogeneous_spec(point));
    Vec3 { x: moved.x.spec_div(moved.w), y: moved.y.spec_div(moved.w), z: moved.z.spec_div(moved.w) }
}

fn corner(right: bool, up: bool, depth: Fixed) -> (r: Vec3)
    ensures
        r == corner_spec(right, up, depth),
{
    Vec3 {
        x: if right {
            Fixed::from_int(2)
        } else {
            Fixed::from_int(-2)
        },
        y: if up {
            Fixed::from_int(1)
        } else {
            Fixed::from_int(-1)
        },
        z: depth,
    }
}

fn project(matrix: Mat4, point: Vec3) -> (r: Vec3)
    ensures
        r == project_spec(matrix, point),
{
    let moved = matrix.apply(Vec4 { x: point.x, y: point.y, z: point.z, w: Fixed::one() });
    Vec3 { x: moved.x.div(moved.w), y: moved.y.div(moved.w), z: moved.z.div(moved.w) }
}

impl Frustrum {
    /// The viewing volume of unit size between the depths `near` and `far`.
    pub fn new(near: Fixed, far: Fixed) -> (r: Frustrum)
        ensures
            r.points@ == seq![
                corner_spec(false, false, near),
                corner_spec(true, false, near),
                corner_spec(true, true, near),
                corner_spec(false, true, near),
                corner_spec(false, false, far),
                corner_spec(true, false, far),
                corner_spec(true, true, far),
                corner_spec(false, true, far),
            ],
    {
        let points = [
            corner(false, false, near),
            corner(true, false, near),
            corner(true, true, near),
            corner(false, true, near),
            corner(false, false, far),
            corner(true, false, far),
            corner(true, true, far),
            corner(false, true, far),
        ];
        proof {
            assert(points@ =~= seq![
                corner_spec(false, false, near),
                corner_spec(true, false, near),
                corner_spec(true, true, near),
                corner_spec(false, true, near),
                corner_spec(false, false, far),
                corner_spec(true, false, far),
                corner_spec(true, true, far),
                corner_spec(false, true, far),
            ]);
        }
        Frustrum { points }
    }

    /// Moves every corner by the matrix and brings it back from homogeneous
    /// coordinates.
    pub fn transform_points(&mut self, matrix: Mat4)
        ensures
            forall|i: int|
                0 <= i < 8 ==> final(self).points@[i] == project_spec(matrix, old(self).points@[i]),
    {
        let temp = [
            project(matrix, self.points[0]),
            project(matrix, self.points[1]),
            project(matrix, self.points[2]),
            project(matrix, self.points[3]),
            project(matrix, self.points[4]),
            project(matrix, self.points[5]),
            project(matrix, self.points[6]),
            project(matrix, self.points[7]),
        ];
        self.points = temp;
    }
}

} // verus!
