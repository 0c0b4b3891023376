//! Continuous-coordinate queries over the grid's tessellation: every unit
//! cell is split along one diagonal into two triangles.

use vstd::prelude::*;
use crate::fixed::{
    Fixed, ONE_RAW, trunc_div, lemma_mul_commutes, lemma_mul_minus_one, lemma_mul_one,
    lemma_mul_shrinks, lemma_mul_zero,
};
use crate::influence::{get_influence, get_influence_spec};
use crate::heightfield::{
    Grid, PerlinMap, HEIGHT_LIMIT_RAW, MAX_WIDTH, lemma_cell_index, within_limit,
};
use crate::vector::{Vec2, Vec3, lemma_dot_up, lemma_normalized_bounded};

verus! {

/// A determinant smaller than this counts as zero: the ray runs parallel to
/// the triangle.
pub const EPSILON_RAW: i64 = 429;

/// The height from which the vertical query ray is cast.
pub const RAY_HEIGHT: i32 = 10000;

/// Three corners in space.
#[derive(Clone, Copy, Debug, PartialEq, Eq, Structural)]
pub struct Triangle {
    pub v0: Vec3,
    pub v1: Vec3,
    pub v2: Vec3,
}

/// Where a position falls in the grid: the cell that holds it and the
/// offsets inside that cell, each at least zero and below one.
#[derive(Clone, Copy, Debug, PartialEq, Eq, Structural)]
pub struct Footing {
    pub x: usize,
    pub y: usize,
    pub offset: Vec2,
}

/// The corner of the grid at `(x, y)` as a point in space, with the height
/// `z`.
pub open spec fn corner_spec(x: int, y: int, z: Fixed) -> Vec3 {
    Vec3 { x: Fixed::spec_from_int(x as i32), y: Fixed::spec_from_int(y as i32), z }
}

/// The point where the ray from `origin` along `direction` meets the
/// triangle, with the distance along the ray; `None` when the ray runs
/// parallel to the triangle or passes outside it.
pub open spec fn intersect_spec(
    v0: Vec3,
    v1: Vec3,
    v2: Vec3,
    origin: Vec3,
    direction: Vec3,
) -> Option<(Vec3, Fixed)> {
    let edge1 = v1.spec_sub(v0);
    let edge2 = v2.spec_sub(v0);
    let h = direction.spec_cross(edge2);
    let a = edge1.spec_dot(h);
    if a.spec_abs().raw < EPSILON_RAW {
        None
    } else {
        let f = Fixed::spec_one().spec_div(a);
        let s = origin.spec_sub(v0);
        let u = f.spec_mul(s.spec_dot(h));
        if u.raw < 0 || u.raw > ONE_RAW {
            None
        } else {
            let q = s.spec_cross(edge1);
            let v = f.spec_mul(direction.spec_dot(q));
            if v.raw < 0 || u.spec_add(v).raw > ONE_RAW {
                None
            } else {
                let t = f.spec_mul(edge2.spec_dot(q));
                Some((origin.spec_add(direction.spec_scale(t)), t))
            }
        }
    }
}

/// The unit normal of the triangle's face; zero for a triangle without area.
pub open spec fn tri_normal_spec(v0: Vec3, v1: Vec3, v2: Vec3) -> Vec3 {
    v1.spec_sub(v0).spec_cross(v2.spec_sub(v0)).spec_normalized()
}

/// The straight-up direction.
pub open spec fn up_spec() -> Vec3 {
    Vec3 { x: Fixed::spec_zero(), y: Fixed::spec_zero(), z: Fixed::spec_one() }
}

impl Grid {
    /// The cell that holds `pos`, with the offsets of `pos` inside it; `None`
    /// when `pos` lies before the first row or column or beyond the last.
    pub open spec fn locate(self, pos: Vec2) -> Option<Footing> {
        if pos.x.raw < 0 || pos.y.raw < 0 || pos.x.spec_trunc() >= self.width
            || pos.y.spec_trunc() >= self.width {
            None
        } else {
            Some(
                Footing {
                    x: pos.x.spec_trunc() as usize,
                    y: pos.y.spec_trunc() as usize,
                    offset: Vec2 { x: pos.x.spec_fract(), y: pos.y.spec_fract() },
                },
            )
        }
    }

    /// The cell that holds `pos` when all four corners of that cell are cells
    /// of the grid; `None` otherwise.
    pub open spec fn interior(self, pos: Vec2) -> Option<Footing> {
        match self.locate(pos) {
            None => None,
            Some(at) => if at.x + 1 < self.width && at.y + 1 < self.width {
                Some(at)
            } else {
                None
            },
        }
    }

    /// The index of the cell `(x, y)` in row-major order.
    pub open spec fn index_of(self, x: int, y: int) -> int {
        x + y * self.width
    }

    /// The flow at `pos`, blended from the four cells around it. Zero where
    /// `pos` has no four cells around it.
    pub open spec fn flow_at(self, pos: Vec2) -> Fixed {
        match self.interior(pos) {
            None => Fixed::spec_zero(),
            Some(at) => get_influence_spec(
                self.flow,
                self.width,
                self.index_of(at.x as int, at.y as int),
                at.offset,
            ),
        }
    }

    /// The triangle of the tessellation under `pos`: the one at the cell's
    /// origin when the offsets sum to at most one, else the one opposite.
    /// Corners beyond the grid have height zero.
    pub open spec fn triangle_at(self, pos: Vec2) -> Option<Triangle> {
        match self.locate(pos) {
            None => None,
            Some(at) => {
                let x = at.x as int;
                let y = at.y as int;
                if at.offset.y.raw <= ONE_RAW - at.offset.x.raw {
                    Some(
                        Triangle {
                            v0: corner_spec(x, y, self.get_z(x, y)),
                            v1: corner_spec(x + 1, y, self.get_z(x + 1, y)),
                            v2: corner_spec(x, y + 1, self.get_z(x, y + 1)),
                        },
                    )
                } else {
                    Some(
                        Triangle {
                            v0: corner_spec(x + 1, y, self.get_z(x + 1, y)),
                            v1: corner_spec(x + 1, y + 1, self.get_z(x + 1, y + 1)),
                            v2: corner_spec(x, y + 1, self.get_z(x, y + 1)),
                        },
                    )
                }
            },
        }
    }

    /// The height of the surface at `pos`: where the vertical ray through
    /// `pos` meets the triangle under it. Zero outside the grid.
    #[verifier::opaque]
    pub open spec fn height(self, pos: Vec2) -> Fixed {
        match self.triangle_at(pos) {
            None => Fixed::spec_zero(),
            Some(tri) => {
                let origin = Vec3 { x: pos.x, y: pos.y, z: Fixed::spec_from_int(RAY_HEIGHT) };
                let down = Vec3 {
                    x: Fixed::spec_zero(),
                    y: Fixed::spec_zero(),
                    z: Fixed::spec_from_int(-1i32),
                };
                match intersect_spec(tri.v0, tri.v1, tri.v2, origin, down) {
                    None => Fixed::spec_zero(),
                    Some(hit) => hit.0.z,
                }
            },
        }
    }

    /// The unit normal of the surface at `pos`. Zero outside the grid.
    #[verifier::opaque]
    pub open spec fn normal(self, pos: Vec2) -> Vec3 {
        match self.triangle_at(pos) {
            None => Vec3::spec_zero(),
            Some(tri) => tri_normal_spec(tri.v0, tri.v1, tri.v2),
        }
    }

    /// How flat the surface is at `pos`: the normal's share of straight up,
    /// one on level ground.
    pub open spec fn flatness(self, pos: Vec2) -> Fixed {
        self.normal(pos).spec_dot(up_spec())
    }
}

/// The ray that a height query casts: straight down from high above `pos`.
pub open spec fn ray_origin_spec(pos: Vec2) -> Vec3 {
    Vec3 { x: pos.x, y: pos.y, z: Fixed::spec_from_int(RAY_HEIGHT) }
}

/// The straight-down direction.
pub open spec fn down_spec() -> Vec3 {
    Vec3 { x: Fixed::spec_zero(), y: Fixed::spec_zero(), z: Fixed::spec_from_int(-1i32) }
}

/// The height at the offsets `(ox, oy)` on the plane through the corner
/// heights of the half cell at the origin: `z0` at the origin, `z1` one step
/// along x, `z2` one step along y. Each product is rounded toward zero.
pub open spec fn lower_plane_spec(z0: Fixed, z1: Fixed, z2: Fixed, offset: Vec2) -> int {
    z0.raw + trunc_div(offset.x.raw * (z1.raw - z0.raw), ONE_RAW as int) + trunc_div(
        offset.y.raw * (z2.raw - z0.raw),
        ONE_RAW as int,
    )
}

/// Over the half cell at the origin, the vertical ray meets the triangle at
/// the height of the plane through the three corners.
pub proof fn lemma_lower_hit(x: int, y: int, z0: Fixed, z1: Fixed, z2: Fixed, offset: Vec2)
    requires
        0 <= x < MAX_WIDTH,
        0 <= y < MAX_WIDTH,
        0 <= offset.x.raw < ONE_RAW,
        0 <= offset.y.raw < ONE_RAW,
        offset.y.raw <= ONE_RAW - offset.x.raw,
        -HEIGHT_LIMIT_RAW <= z0.raw <= HEIGHT_LIMIT_RAW,
        -HEIGHT_LIMIT_RAW <= z1.raw <= HEIGHT_LIMIT_RAW,
        -HEIGHT_LIMIT_RAW <= z2.raw <= HEIGHT_LIMIT_RAW,
    ensures
        intersect_spec(
            corner_spec(x, y, z0),
            corner_spec(x + 1, y, z1),
            corner_spec(x, y + 1, z2),
            ray_origin_spec(
                Vec2 {
                    x: Fixed { raw: (x * ONE_RAW + offset.x.raw) as i64 },
                    y: Fixed { raw: (y * ONE_RAW + offset.y.raw) as i64 },
                },
            ),
            down_spec(),
        ) matches Some(hit) && hit.0.z.raw == lower_plane_spec(z0, z1, z2, offset),
{
    let zero = Fixed::spec_zero();
    let one = Fixed::spec_one();
    let v0 = corner_spec(x, y, z0);
    let v1 = corner_spec(x + 1, y, z1);
    let v2 = corner_spec(x, y + 1, z2);
    let pos = Vec2 {
        x: Fixed { raw: (x * ONE_RAW + offset.x.raw) as i64 },
        y: Fixed { raw: (y * ONE_RAW + offset.y.raw) as i64 },
    };
    let origin = ray_origin_spec(pos);
    let down = down_spec();
    let d1 = Fixed { raw: (z1.raw - z0.raw) as i64 };
    let d2 = Fixed { raw: (z2.raw - z0.raw) as i64 };
    let edge1 = v1.spec_sub(v0);
    let edge2 = v2.spec_sub(v0);
    assert(edge1 == Vec3 { x: one, y: zero, z: d1 });
    assert(edge2 == Vec3 { x: zero, y: one, z: d2 });
    lemma_mul_zero(d2);
    lemma_mul_zero(d1);
    lemma_mul_zero(zero);
    lemma_mul_zero(one);
    lemma_mul_one(one);
    lemma_mul_minus_one(one);
    lemma_mul_minus_one(zero);
    let h = down.spec_cross(edge2);
    assert(h == Vec3 { x: one, y: zero, z: zero });
    let a = edge1.spec_dot(h);
    assert(a == one);
    let f = one.spec_div(a);
    assert(f == one) by {
        assert((0x1_0000_0000int * 0x1_0000_0000) / 0x1_0000_0000 == 0x1_0000_0000);
    }
    let s = origin.spec_sub(v0);
    let sz = Fixed { raw: (RAY_HEIGHT * ONE_RAW - z0.raw) as i64 };
    assert(s == Vec3 { x: offset.x, y: offset.y, z: sz });
    lemma_mul_one(offset.x);
    lemma_mul_zero(offset.y);
    lemma_mul_zero(sz);
    let sh = s.spec_dot(h);
    assert(sh == offset.x);
    let u = f.spec_mul(sh);
    assert(u == offset.x);
    let q = s.spec_cross(edge1);
    let yd1 = offset.y.spec_mul(d1);
    let xd1 = offset.x.spec_mul(d1);
    lemma_mul_shrinks(d1, offset.x);
    lemma_mul_shrinks(d1, offset.y);
    lemma_mul_shrinks(d2, offset.y);
    lemma_mul_one(sz);
    lemma_mul_zero(offset.x);
    lemma_mul_one(offset.y);
    let qy = Fixed { raw: (sz.raw - xd1.raw) as i64 };
    assert(q == Vec3 { x: yd1, y: qy, z: offset.y.spec_neg() });
    lemma_mul_zero(yd1);
    lemma_mul_zero(qy);
    lemma_mul_minus_one(offset.y.spec_neg());
    let dq = down.spec_dot(q);
    assert(dq == offset.y);
    lemma_mul_one(dq);
    let v = f.spec_mul(dq);
    assert(v == offset.y);
    lemma_mul_one(qy);
    let d2y = d2.spec_mul(offset.y.spec_neg());
    lemma_mul_commutes(d2, offset.y);
    let yd2 = offset.y.spec_mul(d2);
    assert(d2y.raw == -yd2.raw) by {
        assert(d2.raw * (-offset.y.raw) == -(d2.raw * offset.y.raw)) by (nonlinear_arith);
        assert(d2.raw * offset.y.raw == offset.y.raw * d2.raw) by (nonlinear_arith);
    }
    let e2q = edge2.spec_dot(q);
    assert(e2q.raw == qy.raw - yd2.raw);
    lemma_mul_one(e2q);
    let t = f.spec_mul(e2q);
    assert(t == e2q);
    lemma_mul_zero(t);
    lemma_mul_minus_one(t);
    let point = origin.spec_add(down.spec_scale(t));
    assert(point.z.raw == RAY_HEIGHT * ONE_RAW - t.raw);
    assert(xd1.raw == trunc_div(offset.x.raw * (z1.raw - z0.raw), ONE_RAW as int));
    assert(yd2.raw == trunc_div(offset.y.raw * (z2.raw - z0.raw), ONE_RAW as int));
}

/// The height at the offsets `(ox, oy)` on the plane through the corner
/// heights of the half cell opposite the origin: `z1` one step along x, `z3`
/// one step along both, `z2` one step along y. From `z1` the plane rises by
/// `z3 - z1` along y and by `z2 - z3` against x. Each product is rounded
/// toward zero.
pub open spec fn upper_plane_spec(z1: Fixed, z3: Fixed, z2: Fixed, offset: Vec2) -> int {
    z1.raw + trunc_div(offset.y.raw * (z3.raw - z1.raw), ONE_RAW as int) - trunc_div(
        (ONE_RAW - offset.x.raw) * (z3.raw - z1.raw),
        ONE_RAW as int,
    ) + trunc_div((ONE_RAW - offset.x.raw) * (z2.raw - z1.raw), ONE_RAW as int)
}

/// Over the half cell opposite the origin, the vertical ray meets the
/// triangle at the height of the plane through the three corners.
pub proof fn lemma_upper_hit(x: int, y: int, z1: Fixed, z3: Fixed, z2: Fixed, offset: Vec2)
    requires
        0 <= x < MAX_WIDTH,
        0 <= y < MAX_WIDTH,
        0 <= offset.x.raw < ONE_RAW,
        0 <= offset.y.raw < ONE_RAW,
        offset.y.raw > ONE_RAW - offset.x.raw,
        -HEIGHT_LIMIT_RAW <= z1.raw <= HEIGHT_LIMIT_RAW,
        -HEIGHT_LIMIT_RAW <= z2.raw <= HEIGHT_LIMIT_RAW,
        -HEIGHT_LIMIT_RAW <= z3.raw <= HEIGHT_LIMIT_RAW,
    ensures
        intersect_spec(
            corner_spec(x + 1, y, z1),
            corner_spec(x + 1, y + 1, z3),
            corner_spec(x, y + 1, z2),
            ray_origin_spec(
                Vec2 {
                    x: Fixed { raw: (x * ONE_RAW + offset.x.raw) as i64 },
                    y: Fixed { raw: (y * ONE_RAW + offset.y.raw) as i64 },
                },
            ),
            down_spec(),
        ) matches Some(hit) && hit.0.z.raw == upper_plane_spec(z1, z3, z2, offset),
{
    let zero = Fixed::spec_zero();
    let one = Fixed::spec_one();
    let minus = Fixed::spec_from_int(-1i32);
    let v0 = corner_spec(x + 1, y, z1);
    let v1 = corner_spec(x + 1, y + 1, z3);
    let v2 = corner_spec(x, y + 1, z2);
    let pos = Vec2 {
        x: Fixed { raw: (x * ONE_RAW + offset.x.raw) as i64 },
        y: Fixed { raw: (y * ONE_RAW + offset.y.raw) as i64 },
    };
    let origin = ray_origin_spec(pos);
    let down = down_spec();
    let d1 = Fixed { raw: (z3.raw - z1.raw) as i64 };
    let d2 = Fixed { raw: (z2.raw - z1.raw) as i64 };
    let edge1 = v1.spec_sub(v0);
    let edge2 = v2.spec_sub(v0);
    assert(edge1 == Vec3 { x: zero, y: one, z: d1 });
    assert(edge2 == Vec3 { x: minus, y: one, z: d2 });
    lemma_mul_zero(d2);
    lemma_mul_zero(d1);
    lemma_mul_zero(zero);
    lemma_mul_zero(one);
    lemma_mul_zero(minus);
    lemma_mul_one(one);
    lemma_mul_minus_one(one);
    lemma_mul_minus_one(minus);
    lemma_mul_minus_one(zero);
    let h = down.spec_cross(edge2);
    assert(h == Vec3 { x: one, y: one, z: zero });
    let a = edge1.spec_dot(h);
    assert(a == one);
    let f = one.spec_div(a);
    assert(f == one) by {
        assert((0x1_0000_0000int * 0x1_0000_0000) / 0x1_0000_0000 == 0x1_0000_0000);
    }
    let s = origin.spec_sub(v0);
    let sx = Fixed { raw: (offset.x.raw - ONE_RAW) as i64 };
    let w = Fixed { raw: (ONE_RAW - offset.x.raw) as i64 };
    let sz = Fixed { raw: (RAY_HEIGHT * ONE_RAW - z1.raw) as i64 };
    assert(s == Vec3 { x: sx, y: offset.y, z: sz });
    lemma_mul_one(sx);
    lemma_mul_one(offset.y);
    lemma_mul_zero(sz);
    let sh = s.spec_dot(h);
    assert(sh.raw == offset.x.raw + offset.y.raw - ONE_RAW);
    lemma_mul_one(sh);
    let u = f.spec_mul(sh);
    assert(u == sh);
    let q = s.spec_cross(edge1);
    let yd1 = offset.y.spec_mul(d1);
    let wd1 = w.spec_mul(d1);
    let wd2 = w.spec_mul(d2);
    lemma_mul_shrinks(d1, offset.y);
    lemma_mul_shrinks(d1, w);
    lemma_mul_shrinks(d2, w);
    lemma_mul_one(sz);
    lemma_mul_zero(offset.y);
    let sxd1 = sx.spec_mul(d1);
    assert(sxd1.raw == -wd1.raw) by {
        assert(sx.raw * d1.raw == -(w.raw * d1.raw)) by (nonlinear_arith)
            requires
                sx.raw == -w.raw,
        ;
    }
    let qx = Fixed { raw: (yd1.raw - sz.raw) as i64 };
    assert(q == Vec3 { x: qx, y: wd1, z: sx });
    lemma_mul_zero(qx);
    lemma_mul_zero(wd1);
    lemma_mul_minus_one(sx);
    let dq = down.spec_dot(q);
    assert(dq == w);
    lemma_mul_one(dq);
    let v = f.spec_mul(dq);
    assert(v == w);
    lemma_mul_minus_one(qx);
    lemma_mul_one(wd1);
    let d2sx = d2.spec_mul(sx);
    assert(d2sx.raw == -wd2.raw) by {
        assert(d2.raw * sx.raw == -(w.raw * d2.raw)) by (nonlinear_arith)
            requires
                sx.raw == -w.raw,
        ;
    }
    let e2q = edge2.spec_dot(q);
    assert(e2q.raw == sz.raw - yd1.raw + wd1.raw - wd2.raw);
    lemma_mul_one(e2q);
    let t = f.spec_mul(e2q);
    assert(t == e2q);
    lemma_mul_zero(t);
    lemma_mul_minus_one(t);
    let point = origin.spec_add(down.spec_scale(t));
    assert(point.z.raw == RAY_HEIGHT * ONE_RAW - t.raw);
}

impl Grid {
    /// The four corners of the cell at the footing have heights within the
    /// limit.
    pub open spec fn steady(self, at: Footing) -> bool {
        let x = at.x as int;
        let y = at.y as int;
        &&& within_limit(self.get_z(x, y))
        &&& within_limit(self.get_z(x + 1, y))
        &&& within_limit(self.get_z(x, y + 1))
        &&& within_limit(self.get_z(x + 1, y + 1))
    }

    /// The height at the footing on the plane through the three corners of
    /// the half cell that holds it.
    pub open spec fn plane_height(self, at: Footing) -> int {
        let x = at.x as int;
        let y = at.y as int;
        if at.offset.y.raw <= ONE_RAW - at.offset.x.raw {
            lower_plane_spec(
                self.get_z(x, y),
                self.get_z(x + 1, y),
                self.get_z(x, y + 1),
                at.offset,
            )
        } else {
            upper_plane_spec(
                self.get_z(x + 1, y),
                self.get_z(x + 1, y + 1),
                self.get_z(x, y + 1),
                at.offset,
            )
        }
    }
}

/// On the grid, the height of the surface is the linear interpolation of
/// the three corner heights of the half cell under the position, as long as
/// the corner heights of the cell are within the limit.
pub proof fn lemma_height_interpolates(grid: Grid, pos: Vec2)
    requires
        grid.wf(),
        grid.locate(pos) is Some,
        grid.steady(grid.locate(pos).unwrap()),
    ensures
        grid.height(pos).raw == grid.plane_height(grid.locate(pos).unwrap()),
{
    reveal(Grid::height);
    let at = grid.locate(pos).unwrap();
    let x = at.x as int;
    let y = at.y as int;
    assert(pos.x.raw == x * ONE_RAW + at.offset.x.raw);
    assert(pos.y.raw == y * ONE_RAW + at.offset.y.raw);
    assert(pos == Vec2 {
        x: Fixed { raw: (x * ONE_RAW + at.offset.x.raw) as i64 },
        y: Fixed { raw: (y * ONE_RAW + at.offset.y.raw) as i64 },
    });
    if at.offset.y.raw <= ONE_RAW - at.offset.x.raw {
        lemma_lower_hit(
            x,
            y,
            grid.get_z(x, y),
            grid.get_z(x + 1, y),
            grid.get_z(x, y + 1),
            at.offset,
        );
    } else {
        lemma_upper_hit(
            x,
            y,
            grid.get_z(x + 1, y),
            grid.get_z(x + 1, y + 1),
            grid.get_z(x, y + 1),
            at.offset,
        );
    }
}

/// On a grid point, the height of the surface is the height of the cell, as
/// long as the heights around it are within the limit.
pub proof fn lemma_height_on_grid_point(grid: Grid, x: int, y: int)
    requires
        grid.wf(),
        0 <= x < grid.width,
        0 <= y < grid.width,
        within_limit(grid.get_z(x, y)),
        within_limit(grid.get_z(x + 1, y)),
        within_limit(grid.get_z(x, y + 1)),
        within_limit(grid.get_z(x + 1, y + 1)),
    ensures
        grid.height(
            Vec2 { x: Fixed::spec_from_int(x as i32), y: Fixed::spec_from_int(y as i32) },
        ) == grid.get_z(x, y),
{
    let pos = Vec2 { x: Fixed::spec_from_int(x as i32), y: Fixed::spec_from_int(y as i32) };
    assert(pos.x.spec_trunc() == x);
    assert(pos.y.spec_trunc() == y);
    let at = grid.locate(pos).unwrap();
    assert(at.offset.x.raw == 0 && at.offset.y.raw == 0);
    lemma_height_interpolates(grid, pos);
    assert(0int * (grid.get_z(x + 1, y).raw - grid.get_z(x, y).raw) == 0) by (nonlinear_arith);
    assert(0int * (grid.get_z(x, y + 1).raw - grid.get_z(x, y).raw) == 0) by (nonlinear_arith);
}

impl Grid {
    /// The direction that stands upright on the half cell under the
    /// footing, before it is brought to unit length: against the rise along
    /// x, against the rise along y, and one up.
    pub open spec fn upright(self, at: Footing) -> Vec3 {
        let x = at.x as int;
        let y = at.y as int;
        if at.offset.y.raw <= ONE_RAW - at.offset.x.raw {
            Vec3 {
                x: self.get_z(x, y).spec_sub(self.get_z(x + 1, y)),
                y: self.get_z(x, y).spec_sub(self.get_z(x, y + 1)),
                z: Fixed::spec_one(),
            }
        } else {
            Vec3 {
                x: self.get_z(x, y + 1).spec_sub(self.get_z(x + 1, y + 1)),
                y: self.get_z(x + 1, y).spec_sub(self.get_z(x + 1, y + 1)),
                z: Fixed::spec_one(),
            }
        }
    }
}

/// On the grid, the normal of the surface is the upright direction of the
/// half cell under the position, brought to unit length, as long as the
/// corner heights of the cell are within the limit.
pub proof fn lemma_normal_is_upright(grid: Grid, pos: Vec2)
    requires
        grid.wf(),
        grid.locate(pos) is Some,
        grid.steady(grid.locate(pos).unwrap()),
    ensures
        grid.normal(pos) == grid.upright(grid.locate(pos).unwrap()).spec_normalized(),
{
    reveal(Grid::normal);
    let at = grid.locate(pos).unwrap();
    let x = at.x as int;
    let y = at.y as int;
    let zero = Fixed::spec_zero();
    let one = Fixed::spec_one();
    let minus = Fixed::spec_from_int(-1i32);
    lemma_mul_zero(zero);
    lemma_mul_zero(one);
    lemma_mul_zero(minus);
    lemma_mul_one(one);
    lemma_mul_minus_one(one);
    let tri = grid.triangle_at(pos).unwrap();
    let edge1 = tri.v1.spec_sub(tri.v0);
    let edge2 = tri.v2.spec_sub(tri.v0);
    lemma_mul_zero(edge1.z);
    lemma_mul_zero(edge2.z);
    lemma_mul_one(edge1.z);
    lemma_mul_one(edge2.z);
    lemma_mul_minus_one(edge1.z);
    if at.offset.y.raw <= ONE_RAW - at.offset.x.raw {
        assert(edge1 == Vec3 { x: one, y: zero, z: edge1.z });
        assert(edge2 == Vec3 { x: zero, y: one, z: edge2.z });
        assert(edge1.spec_cross(edge2) == grid.upright(at));
    } else {
        assert(edge1 == Vec3 { x: zero, y: one, z: edge1.z });
        assert(edge2 == Vec3 { x: minus, y: one, z: edge2.z });
        assert(edge1.spec_cross(edge2) == grid.upright(at));
    }
}

/// The flatness of the surface lies between minus one and one, wherever it
/// is asked for.
pub proof fn lemma_flatness_range(grid: Grid, pos: Vec2)
    ensures
        -ONE_RAW <= grid.flatness(pos).raw <= ONE_RAW,
{
    reveal(Grid::normal);
    lemma_dot_up(grid.normal(pos));
    match grid.triangle_at(pos) {
        None => {},
        Some(tri) => {
            lemma_normalized_bounded(tri.v1.spec_sub(tri.v0).spec_cross(tri.v2.spec_sub(tri.v0)));
        },
    }
}

/// The point where a ray meets a triangle, with the distance along the ray;
/// `None` when the ray runs parallel to the triangle or passes outside it.
pub fn intersect(v0: Vec3, v1: Vec3, v2: Vec3, ray_origin: Vec3, ray_direction: Vec3) -> (r:
    Option<(Vec3, Fixed)>)
    ensures
        r == intersect_spec(v0, v1, v2, ray_origin, ray_direction),
{
    let edge1 = v1.sub(v0);
    let edge2 = v2.sub(v0);
    let h = ray_direction.cross(edge2);
    let a = edge1.dot(h);
    if a.abs().raw < EPSILON_RAW {
        return None;
    }
    let f = Fixed::one().div(a);
    let s = ray_origin.sub(v0);
    let u = f.mul(s.dot(h));
    if u.raw < 0 || u.raw > ONE_RAW {
        return None;
    }
    let q = s.cross(edge1);
    let v = f.mul(ray_direction.dot(q));
    if v.raw < 0 || u.add(v).raw > ONE_RAW {
        return None;
    }
    let t = f.mul(edge2.dot(q));
    let intersection_point = ray_origin.add(ray_direction.scale(t));
    Some((intersection_point, t))
}

/// The unit normal of a triangle's face.
pub fn tri_normal(v0: Vec3, v1: Vec3, v2: Vec3) -> (r: Vec3)
    ensures
        r == tri_normal_spec(v0, v1, v2),
{
    let edge1 = v1.sub(v0);
    let edge2 = v2.sub(v0);
    edge1.cross(edge2).normalized()
}

impl PerlinMap {
    /// The cell that holds `pos`, with the offsets of `pos` inside it.
    pub fn locate(&self, pos: Vec2) -> (r: Option<Footing>)
        requires
            self.wf(),
        ensures
            r == self@.locate(pos),
            r matches Some(at) ==> at.x < self.map_size && at.y < self.map_size && 0
                <= at.offset.x.raw < ONE_RAW && 0 <= at.offset.y.raw < ONE_RAW,
    {
        if pos.x.raw < 0 || pos.y.raw < 0 {
            return None;
        }
        let x: i64 = pos.x.trunc();
        let y: i64 = pos.y.trunc();
        if x >= self.map_size as i64 || y >= self.map_size as i64 {
            return None;
        }
        Some(Footing { x: x as usize, y: y as usize, offset: Vec2 { x: pos.x.fract(), y: pos.y.fract() } })
    }

    /// The cell that holds `pos` when all four corners of that cell are cells
    /// of the grid, with the index of the cell.
    pub fn interior(&self, pos: Vec2) -> (r: Option<(Footing, usize)>)
        requires
            self.wf(),
        ensures
            match r {
                None => self@.interior(pos) is None,
                Some((at, idx)) => {
                    &&& self@.interior(pos) == Some(at)
                    &&& idx == self@.index_of(at.x as int, at.y as int)
                    &&& idx + 1 + self.map_size < self.map_size * self.map_size
                    &&& at.x + 1 < self.map_size
                    &&& at.y + 1 < self.map_size
                },
            },
    {
        match self.locate(pos) {
            None => None,
            Some(at) => {
                if at.x + 1 < self.map_size && at.y + 1 < self.map_size {
                    proof {
                        lemma_cell_index(at.x as int, at.y as int, self.map_size as int);
                        lemma_cell_index(at.x + 1, at.y + 1, self.map_size as int);
                        assert((at.x + 1) + (at.y + 1) * self.map_size == at.x + at.y
                            * self.map_size + 1 + self.map_size) by (nonlinear_arith);
                        assert(0 <= at.y * self.map_size) by (nonlinear_arith);
                    }
                    Some((at, at.x + at.y * self.map_size))
                } else {
                    None
                }
            },
        }
    }

    /// The flow at `pos`, blended from the four cells around it; zero where
    /// `pos` has no four cells around it.
    pub fn flow(&self, pos: Vec2) -> (r: Fixed)
        requires
            self.wf(),
        ensures
            r == self@.flow_at(pos),
    {
        match self.interior(pos) {
            None => Fixed::zero(),
            Some((at, idx)) => get_influence(&self.flow, self.map_size, idx, at.offset),
        }
    }

    fn corner(&self, x: usize, y: usize) -> (r: Vec3)
        requires
            self.wf(),
            x <= self.map_size,
            y <= self.map_size,
        ensures
            r == corner_spec(x as int, y as int, self@.get_z(x as int, y as int)),
    {
        Vec3 { x: Fixed::from_int(x as i32), y: Fixed::from_int(y as i32), z: self.get_z(x, y) }
    }

    /// The triangle of the tessellation under `pos`.
    pub fn triangle_at(&self, pos: Vec2) -> (r: Option<Triangle>)
        requires
            self.wf(),
        ensures
            r == self@.triangle_at(pos),
    {
        match self.locate(pos) {
            None => None,
            Some(at) => {
                if at.offset.y.raw <= ONE_RAW - at.offset.x.raw {
                    Some(
                        Triangle {
                            v0: self.corner(at.x, at.y),
                            v1: self.corner(at.x + 1, at.y),
                            v2: self.corner(at.x, at.y + 1),
                        },
                    )
                } else {
                    Some(
                        Triangle {
                            v0: self.corner(at.x + 1, at.y),
                            v1: self.corner(at.x + 1, at.y + 1),
                            v2: self.corner(at.x, at.y + 1),
                        },
                    )
                }
            },
        }
    }

    /// The height of the surface at `pos`; zero outside the grid.
    pub fn get_z_interpolated(&self, pos: Vec2) -> (r: Fixed)
        requires
            self.wf(),
        ensures
            r == self@.height(pos),
            self@.locate(pos) is None ==> r == Fixed::spec_zero(),
            self@.locate(pos) matches Some(at) ==> self@.steady(at) ==> r.raw
                == self@.plane_height(at),
    {
        reveal(Grid::height);
        proof {
            if self@.locate(pos) is Some && self@.steady(self@.locate(pos).unwrap()) {
                lemma_height_interpolates(self@, pos);
            }
        }
        match self.triangle_at(pos) {
            None => Fixed::zero(),
            Some(tri) => {
                let ray_origin = Vec3 { x: pos.x, y: pos.y, z: Fixed::from_int(RAY_HEIGHT) };
                let ray_direction = Vec3 {
                    x: Fixed::zero(),
                    y: Fixed::zero(),
                    z: Fixed::from_int(-1),
                };
                match intersect(tri.v0, tri.v1, tri.v2, ray_origin, ray_direction) {
                    None => Fixed::zero(),
                    Some(hit) => hit.0.z,
                }
            },
        }
    }

    /// The height of the surface at `pos`; zero outside the grid.
    pub fn height(&self, pos: Vec2) -> (r: Fixed)
        requires
            self.wf(),
        ensures
            r == self@.height(pos),
            self@.locate(pos) is None ==> r == Fixed::spec_zero(),
            self@.locate(pos) matches Some(at) ==> self@.steady(at) ==> r.raw
                == self@.plane_height(at),
    {
        self.get_z_interpolated(pos)
    }

    /// The unit normal of the surface at `pos`; zero outside the grid.
    pub fn get_normal(&self, pos: Vec2) -> (r: Vec3)
        requires
            self.wf(),
        ensures
            r == self@.normal(pos),
            self@.locate(pos) is None ==> r == Vec3::spec_zero(),
            self@.locate(pos) matches Some(at) ==> self@.steady(at) ==> r == self@.upright(
                at,
            ).spec_normalized(),
    {
        reveal(Grid::normal);
        proof {
            if self@.locate(pos) is Some && self@.steady(self@.locate(pos).unwrap()) {
                lemma_normal_is_upright(self@, pos);
            }
        }
        match self.triangle_at(pos) {
            None => Vec3::zero(),
            Some(tri) => tri_normal(tri.v0, tri.v1, tri.v2),
        }
    }

    /// How flat the surface is at `pos`: one on level ground, zero on a
    /// vertical face and outside the grid.
    pub fn get_dot_prod(&self, pos: Vec2) -> (r: Fixed)
        requires
            self.wf(),
        ensures
            r == self@.flatness(pos),
            -ONE_RAW <= r.raw <= ONE_RAW,
    {
        proof {
            lemma_flatness_range(self@, pos);
        }
        let up = Vec3 { x: Fixed::zero(), y: Fixed::zero(), z: Fixed::one() };
        self.get_normal(pos).dot(up)
    }
}

} // verus!
