//! How bodies move over the terrain: they fall, and the ground pushes back.

use vstd::prelude::*;
use crate::fixed::Fixed;
use crate::heightfield::{Grid, PerlinMap};
use crate::vector::{Vec2, Vec3};

verus! {

/// A thing that moves: where it is and how fast it goes, per tick.
#[derive(Clone, Copy, Debug, PartialEq, Eq, Structural)]
pub struct Body {
    pub pos: Vec3,
    pub vel: Vec3,
}

/// How much speed a body gains downward in one tick.
pub open spec fn gravity_spec() -> Fixed {
    Fixed::spec_ratio(1, 4000)
}

/// How strongly the ground pushes a sunken body along its normal.
pub open spec fn push_spec() -> Fixed {
    Fixed::spec_ratio(1, 10)
}

/// Below this speed over ground a body counts as standing.
pub open spec fn standing_speed_spec() -> Fixed {
    Fixed::spec_ratio(1, 20)
}

/// How deep a body may sink into the ground.
pub open spec fn bump_limit_spec() -> Fixed {
    Fixed::spec_ratio(1, 2000)
}

/// The part of its velocity a body keeps while it touches the ground.
pub open spec fn friction_spec() -> Fixed {
    Fixed::spec_ratio(4, 5)
}

/// The body after one tick of free fall: it has gained speed downward and
/// moved by its new velocity.
pub open spec fn fallen_spec(body: Body) -> Body {
    let vel = Vec3 { x: body.vel.x, y: body.vel.y, z: body.vel.z.spec_sub(gravity_spec()) };
    Body { pos: body.pos.spec_add(vel), vel }
}

impl Grid {
    /// Whether the point lies under the surface.
    pub open spec fn buries(self, pos: Vec3) -> bool {
        pos.z.raw < self.height(pos.spec_xy()).raw
    }

    /// The body one tick later.
    ///
    /// It gains speed downward and moves by its velocity. If that takes it
    /// to the surface or under it, the ground pushes it along the normal,
    /// the more the deeper it has sunk; a body that stands is not pushed
    /// sideways, so that it does not slip. A body that has sunk beyond the
    /// limit is lifted to the limit, and a body on the ground is slowed by
    /// friction.
    pub open spec fn moved(self, body: Body) -> Body {
        let pos = fallen_spec(body).pos;
        let vel = fallen_spec(body).vel;
        let feet_height = self.height(pos.spec_xy());
        if pos.z.raw <= feet_height.raw {
            let normal = self.normal(pos.spec_xy());
            let d = feet_height.spec_sub(pos.z);
            let pushed = vel.spec_add(normal.spec_scale(push_spec()).spec_scale(d));
            let steadied = if pushed.spec_xy().spec_length().raw < standing_speed_spec().raw {
                let feet_normal = Vec3 {
                    x: normal.x.spec_neg(),
                    y: normal.y.spec_neg(),
                    z: Fixed::spec_zero(),
                };
                pushed.spec_add(feet_normal.spec_scale(push_spec()).spec_scale(d))
            } else {
                pushed
            };
            let lifted = if feet_height.spec_sub(pos.z).raw >= bump_limit_spec().raw {
                Vec3 { x: pos.x, y: pos.y, z: feet_height.spec_sub(bump_limit_spec()) }
            } else {
                pos
            };
            Body { pos: lifted, vel: steadied.spec_scale(friction_spec()) }
        } else {
            Body { pos, vel }
        }
    }
}

impl PerlinMap {
    /// Whether the point lies under the surface.
    pub fn buries(&self, pos: Vec3) -> (r: bool)
        requires
            self.wf(),
        ensures
            r == self@.buries(pos),
    {
        pos.z.raw < self.get_z_interpolated(pos.xy()).raw
    }

    /// The body one tick later: fallen, moved, and pushed back by the
    /// ground where it touches it.
    pub fn move_body(&self, body: Body) -> (r: Body)
        requires
            self.wf(),
        ensures
            r == self@.moved(body),
    {
        let vel = Vec3 { x: body.vel.x, y: body.vel.y, z: body.vel.z.sub(Fixed::ratio(1, 4000)) };
        let pos = body.pos.add(vel);
        let feet_height = self.get_z_interpolated(pos.xy());
        if pos.z.raw <= feet_height.raw {
            let normal = self.get_normal(pos.xy());
            let d = feet_height.sub(pos.z);
            let push = Fixed::ratio(1, 10);
            let mut pushed = vel.add(normal.scale(push).scale(d));
            if pushed.xy().length().raw < Fixed::ratio(1, 20).raw {
                let feet_normal = Vec3 { x: normal.x.neg(), y: normal.y.neg(), z: Fixed::zero() };
                pushed = pushed.add(feet_normal.scale(push).scale(d));
            }
            let bump_limit = Fixed::ratio(1, 2000);
            let lifted = if feet_height.sub(pos.z).raw >= bump_limit.raw {
                Vec3 { x: pos.x, y: pos.y, z: feet_height.sub(bump_limit) }
            } else {
                pos
            };
            Body { pos: lifted, vel: pushed.scale(Fixed::ratio(4, 5)) }
        } else {
            Body { pos, vel }
        }
    }
}

/// A body that ends its fall above the surface is in free fall: the ground
/// does nothing to it.
pub proof fn lemma_free_fall(grid: Grid, body: Body)
    requires
        fallen_spec(body).pos.z.raw > grid.height(fallen_spec(body).pos.spec_xy()).raw,
    ensures
        grid.moved(body) == fallen_spec(body),
{
}

/// A body never ends a tick deeper under the surface at its place than the
/// limit, as long as heights stay away from the ends of the number range.
pub proof fn lemma_never_deep(grid: Grid, body: Body)
    requires
        -0x4000_0000_0000_0000 <= grid.height(grid.moved(body).pos.spec_xy()).raw
            <= 0x4000_0000_0000_0000,
    ensures
        grid.height(grid.moved(body).pos.spec_xy()).raw - grid.moved(body).pos.z.raw
            <= bump_limit_spec().raw,
{
    let pos = fallen_spec(body).pos;
    assert(grid.moved(body).pos.spec_xy() == pos.spec_xy());
    assert(0 <= bump_limit_spec().raw <= 0x1_0000_0000) by {
        assert((1 * 0x1_0000_0000int) / 2000 == 2147483);
    }
}

} // verus!
