//! Particle-based hydraulic erosion.
//!
//! A particle of water starts on land, runs downhill with some momentum,
//! picks up sediment where it runs fast and drops it where it slows or
//! climbs, loses water as it goes, and is gone when it leaves the grid,
//! stalls, dries up or grows old. Particles run one after another, each to
//! its end.

use vstd::prelude::*;
use crate::fixed::{Fixed, ONE_RAW, lemma_mul_shrinks};
use crate::cascade::{around, lemma_cascade_conserves, lemma_cascade_local, threshold_spec};
use crate::influence::{
    incr_influence, incr_influence_spec, lemma_incr_influence_total, lemma_shares_bounded,
    rest_spec, shares_total_spec,
};
use crate::params::ErosionParams;
use crate::query::Footing;
use crate::rng::{draw_below, seeded_rng};
use crate::heightfield::{
    Grid, PerlinMap, MAX_WIDTH, all_within_limit, lemma_cell_index, total_spec, within_limit,
};
use crate::vector::Vec2;

verus! {

/// A unit of water on its way down.
#[derive(Clone, Copy, Debug, PartialEq, Eq, Structural)]
pub struct Particle {
    pub position: Vec2,
    pub velocity: Vec2,
    /// The water left.
    pub volume: Fixed,
    /// The solid matter carried.
    pub sediment: Fixed,
    /// The steps taken so far.
    pub age: usize,
}

/// What became of a particle in a step.
#[derive(Clone, Copy, Debug, PartialEq, Eq, Structural)]
pub enum Fate {
    /// It moved on and will take another step.
    Descending,
    /// It stood, or would have come to stand, where the grid has no four
    /// cells around it.
    OutOfBounds,
    /// Its velocity came to nothing.
    Stalled,
    /// It has too little water left.
    Evaporated,
}

/// The outcome of one step.
pub struct Stepped {
    pub grid: Grid,
    pub particle: Particle,
    pub fate: Fate,
}

/// The previous velocity and the downhill direction, mixed by the inertia.
pub open spec fn blend_spec(params: ErosionParams, velocity: Vec2, downhill: Vec2) -> Vec2 {
    velocity.spec_scale(params.inertia).spec_add(downhill.spec_scale(rest_spec(params.inertia)))
}

/// The sediment that water of the given speed and volume can carry.
pub open spec fn capacity_spec(params: ErosionParams, speed: Fixed, volume: Fixed) -> Fixed {
    speed.spec_mul(volume).spec_mul(params.capacity_factor).spec_min(params.max_capacity)
}

/// The height that goes from the particle to the ground in one step;
/// negative when the ground loses height to the particle.
///
/// A particle that climbs drops what it carries, but no more than the climb.
/// One that carries more than it can drops a part of the excess. Any other
/// takes up a part of what it could still carry, but no more than it
/// descends.
pub open spec fn transfer_spec(
    params: ErosionParams,
    sediment: Fixed,
    capacity: Fixed,
    delta_height: Fixed,
) -> Fixed {
    if delta_height.raw > 0 {
        sediment.spec_min(delta_height)
    } else if sediment.raw > capacity.raw {
        sediment.spec_sub(capacity).spec_mul(params.deposit_rate)
    } else {
        capacity.spec_sub(sediment).spec_mul(params.erode_rate).spec_min(
            delta_height.spec_neg(),
        ).spec_neg()
    }
}

/// The particle as it starts at `spawn`: at rest, with its full water and no
/// sediment.
pub open spec fn spawned_spec(params: ErosionParams, spawn: Vec2) -> Particle {
    Particle {
        position: spawn,
        velocity: Vec2::spec_zero(),
        volume: params.initial_volume,
        sediment: Fixed::spec_zero(),
        age: 0,
    }
}

/// The most steps a particle takes on a grid of the given width, whatever
/// its age limit.
pub open spec fn step_limit_spec(width: int) -> nat {
    (width / 4) as nat
}

impl Grid {
    /// The grid after `amount` of height has been spread over the four cells
    /// around the footing.
    pub open spec fn raised(self, at: Footing, amount: Fixed) -> Grid {
        Grid {
            heights: incr_influence_spec(
                self.heights,
                self.width,
                self.index_of(at.x as int, at.y as int),
                at.offset,
                amount,
            ),
            flow: self.flow,
            width: self.width,
        }
    }

    /// The grid after `volume` of water has been counted at the four cells
    /// around the footing.
    pub open spec fn wetted(self, at: Footing, volume: Fixed) -> Grid {
        Grid {
            heights: self.heights,
            flow: incr_influence_spec(
                self.flow,
                self.width,
                self.index_of(at.x as int, at.y as int),
                at.offset,
                volume,
            ),
            width: self.width,
        }
    }

    /// The velocity of the particle after it has turned toward the downhill
    /// direction, before it is brought to unit length.
    pub open spec fn turned(self, params: ErosionParams, p: Particle) -> Vec2 {
        blend_spec(params, p.velocity, self.normal(p.position).spec_xy())
    }

    /// The direction of the particle's next move: its turned velocity at
    /// unit length.
    pub open spec fn heading(self, params: ErosionParams, p: Particle) -> Vec2 {
        let velocity = self.turned(params, p);
        let speed = velocity.spec_length();
        Vec2 { x: velocity.x.spec_div(speed), y: velocity.y.spec_div(speed) }
    }

    /// Where the particle's next move takes it: one unit along its heading.
    pub open spec fn destination(self, params: ErosionParams, p: Particle) -> Vec2 {
        p.position.spec_add(self.heading(params, p))
    }

    /// The height that the particle's next move gives to the ground;
    /// negative when it takes height from the ground.
    pub open spec fn exchanged(self, params: ErosionParams, p: Particle) -> Fixed {
        let delta_height = self.height(self.destination(params, p)).spec_sub(
            self.height(p.position),
        );
        let capacity = capacity_spec(params, self.turned(params, p).spec_length(), p.volume);
        transfer_spec(params, p.sediment, capacity, delta_height)
    }

    /// One step of a particle.
    ///
    /// The particle turns toward the downhill direction, moves one unit, and
    /// exchanges height with the four cells around the place it left; the
    /// flow there grows by its water. Then it loses water and sediment to
    /// evaporation, and the ground around its new place relaxes. A particle
    /// that has no four cells around it before or after the move, or that
    /// does not move, changes nothing.
    pub open spec fn step(self, params: ErosionParams, p: Particle) -> Stepped {
        match self.interior(p.position) {
            None => Stepped { grid: self, particle: p, fate: Fate::OutOfBounds },
            Some(at) => {
                if self.turned(params, p).spec_length().raw == 0 {
                    Stepped { grid: self, particle: p, fate: Fate::Stalled }
                } else {
                    let position = self.destination(params, p);
                    if self.interior(position) is None {
                        Stepped { grid: self, particle: p, fate: Fate::OutOfBounds }
                    } else {
                        let delta_z = self.exchanged(params, p);
                        let changed = self.raised(at, delta_z).wetted(at, p.volume);
                        let kept = rest_spec(params.evaporation);
                        let moved = Particle {
                            position,
                            velocity: self.heading(params, p),
                            volume: p.volume.spec_mul(kept),
                            sediment: p.sediment.spec_sub(delta_z).spec_mul(kept),
                            age: (p.age + 1) as usize,
                        };
                        if moved.volume.raw < params.min_volume.raw {
                            Stepped { grid: changed, particle: moved, fate: Fate::Evaporated }
                        } else {
                            Stepped {
                                grid: changed.cascade(params, position),
                                particle: moved,
                                fate: Fate::Descending,
                            }
                        }
                    }
                }
            },
        }
    }

    /// The grid after a particle at its end has dropped all it carries
    /// around its last position. Where that position has no four cells around
    /// it, nothing is dropped.
    pub open spec fn settled(self, p: Particle) -> Grid {
        match self.interior(p.position) {
            None => self,
            Some(at) => self.raised(at, p.sediment),
        }
    }

    /// The grid after the particle has run to its end, taking at most
    /// `steps` more steps. A particle that dries up, grows old or runs out
    /// of steps settles; one that leaves the grid or stalls is gone as it
    /// is.
    pub open spec fn run(self, params: ErosionParams, p: Particle, steps: nat) -> Grid
        decreases steps,
    {
        if steps == 0 || p.age >= params.max_age {
            self.settled(p)
        } else {
            let next = self.step(params, p);
            match next.fate {
                Fate::Descending => next.grid.run(params, next.particle, (steps - 1) as nat),
                Fate::Evaporated => next.grid.settled(next.particle),
                Fate::OutOfBounds => next.grid,
                Fate::Stalled => next.grid,
            }
        }
    }

    /// The grid after one particle spawned at `spawn` has run to its end. A
    /// spawn point below sea level starts no particle.
    pub open spec fn simulate(self, params: ErosionParams, spawn: Vec2) -> Grid {
        if self.height(spawn).raw < params.sea_level.raw {
            self
        } else {
            self.run(params, spawned_spec(params, spawn), step_limit_spec(self.width))
        }
    }

    /// The grid after one particle has run from each of the spawn points, in
    /// their order.
    pub open spec fn eroded(self, params: ErosionParams, spawns: Seq<Vec2>) -> Grid
        decreases spawns.len(),
    {
        if spawns.len() == 0 {
            self
        } else {
            self.eroded(params, spawns.drop_last()).simulate(params, spawns.last())
        }
    }

    /// The position lies on the grid: neither coordinate is negative or
    /// reaches the width.
    pub open spec fn covers(self, pos: Vec2) -> bool {
        &&& 0 <= pos.x.raw < self.width * ONE_RAW
        &&& 0 <= pos.y.raw < self.width * ONE_RAW
    }
}

/// A climbing particle drops no more than the climb and no more than it
/// carries. A descending particle with room left takes no more than the
/// descent. An overloaded particle drops no more than its excess. The rates
/// are taken to lie between zero and one.
pub proof fn lemma_transfer_bounded(
    params: ErosionParams,
    sediment: Fixed,
    capacity: Fixed,
    delta_height: Fixed,
)
    requires
        0 <= params.deposit_rate.raw <= ONE_RAW,
        0 <= params.erode_rate.raw <= ONE_RAW,
    ensures
        delta_height.raw > 0 ==> transfer_spec(params, sediment, capacity, delta_height).raw
            <= delta_height.raw && transfer_spec(params, sediment, capacity, delta_height).raw
            <= sediment.raw,
        delta_height.raw <= 0 && sediment.raw <= capacity.raw ==> delta_height.raw
            <= transfer_spec(params, sediment, capacity, delta_height).raw <= 0,
        delta_height.raw <= 0 && sediment.raw > capacity.raw ==> 0 <= transfer_spec(
            params,
            sediment,
            capacity,
            delta_height,
        ).raw <= sediment.spec_sub(capacity).raw,
{
    if delta_height.raw <= 0 {
        if sediment.raw > capacity.raw {
            lemma_mul_shrinks(sediment.spec_sub(capacity), params.deposit_rate);
        } else {
            lemma_mul_shrinks(capacity.spec_sub(sediment), params.erode_rate);
        }
    }
}

/// The cell with index `i` is one of the four cells around the footing: the
/// footing's own cell, the next in its row, and the two below those.
pub open spec fn beside(width: int, at: Footing, i: int) -> bool {
    let first = at.x + at.y * width;
    i == first || i == first + 1 || i == first + width || i == first + 1 + width
}

/// A transfer of height at a footing inside the grid changes the four cells
/// around the footing and no other; the flow and the size stay.
pub proof fn lemma_transfer_local(grid: Grid, at: Footing, amount: Fixed)
    requires
        grid.wf(),
        at.x + 1 < grid.width,
        at.y + 1 < grid.width,
    ensures
        grid.raised(at, amount).wf(),
        grid.raised(at, amount).width == grid.width,
        grid.raised(at, amount).flow == grid.flow,
        forall|i: int|
            0 <= i < grid.heights.len() && !beside(grid.width, at, i) ==> grid.raised(
                at,
                amount,
            ).heights[i] == grid.heights[i],
{
    lemma_cell_index(at.x as int, at.y as int, grid.width);
    lemma_cell_index(at.x + 1, at.y + 1, grid.width);
    assert((at.x + 1) + (at.y + 1) * grid.width == at.x + at.y * grid.width + 1 + grid.width)
        by (nonlinear_arith);
}

/// Counting water at a footing inside the grid changes the flow of the four
/// cells around the footing and no other; the heights and the size stay.
pub proof fn lemma_wetting_local(grid: Grid, at: Footing, volume: Fixed)
    requires
        grid.wf(),
        at.x + 1 < grid.width,
        at.y + 1 < grid.width,
    ensures
        grid.wetted(at, volume).wf(),
        grid.wetted(at, volume).width == grid.width,
        grid.wetted(at, volume).heights == grid.heights,
        forall|i: int|
            0 <= i < grid.flow.len() && !beside(grid.width, at, i) ==> grid.wetted(
                at,
                volume,
            ).flow[i] == grid.flow[i],
{
    lemma_cell_index(at.x as int, at.y as int, grid.width);
    lemma_cell_index(at.x + 1, at.y + 1, grid.width);
    assert((at.x + 1) + (at.y + 1) * grid.width == at.x + at.y * grid.width + 1 + grid.width)
        by (nonlinear_arith);
}

/// A particle that has no four cells around it changes nothing and is out of
/// bounds; so is one whose next position has no four cells around it.
pub proof fn lemma_step_outside(grid: Grid, params: ErosionParams, p: Particle)
    requires
        grid.interior(p.position) is None,
    ensures
        grid.step(params, p).grid == grid,
        grid.step(params, p).particle == p,
        grid.step(params, p).fate == Fate::OutOfBounds,
{
}

/// One step of a particle keeps the grid well-formed. It changes the flow at
/// no cell but the four around the place the particle leaves, and the height
/// at no cell but those four, the cell the particle arrives in, and that
/// cell's neighbours.
pub proof fn lemma_step_local(grid: Grid, params: ErosionParams, p: Particle)
    requires
        grid.wf(),
    ensures
        grid.step(params, p).grid.wf(),
        grid.step(params, p).grid.width == grid.width,
        grid.step(params, p).fate == Fate::OutOfBounds || grid.step(params, p).fate
            == Fate::Stalled ==> grid.step(params, p).grid == grid,
        grid.interior(p.position) matches Some(at) ==> {
            &&& forall|i: int|
                0 <= i < grid.flow.len() && !beside(grid.width, at, i) ==> grid.step(
                    params,
                    p,
                ).grid.flow[i] == grid.flow[i]
            &&& grid.locate(grid.step(params, p).particle.position) matches Some(to)
                ==> forall|i: int|
                0 <= i < grid.heights.len() && !beside(grid.width, at, i) && !around(
                    grid.width,
                    to.x as int,
                    to.y as int,
                    i,
                ) ==> grid.step(params, p).grid.heights[i] == grid.heights[i]
        },
{
    match grid.interior(p.position) {
        None => {},
        Some(at) => {
            let next = grid.step(params, p);
            if next.fate == Fate::Evaporated || next.fate == Fate::Descending {
                let delta_z = grid.exchanged(params, p);
                lemma_transfer_local(grid, at, delta_z);
                let raised = grid.raised(at, delta_z);
                lemma_wetting_local(raised, at, p.volume);
                let changed = raised.wetted(at, p.volume);
                if next.fate == Fate::Descending {
                    lemma_cascade_local(changed, params, next.particle.position);
                    assert(changed.locate(next.particle.position) == grid.locate(
                        next.particle.position,
                    ));
                }
            }
        },
    }
}

/// A step that moves the particle changes the sum of all heights by what
/// the particle gives to the ground, less at most three raw units of
/// rounding. The relaxation that follows moves height and makes none. This
/// holds as long as the heights stay within the limit.
pub proof fn lemma_step_keeps_mass(grid: Grid, params: ErosionParams, p: Particle)
    requires
        grid.wf(),
        all_within_limit(grid.heights),
        0 <= threshold_spec(params).raw,
        grid.interior(p.position) is Some,
        grid.step(params, p).fate == Fate::Descending || grid.step(params, p).fate
            == Fate::Evaporated,
        within_limit(grid.exchanged(params, p)),
        all_within_limit(
            grid.raised(grid.interior(p.position).unwrap(), grid.exchanged(params, p)).heights,
        ),
    ensures
        ({
            let given = grid.exchanged(params, p).raw;
            let gained = total_spec(grid.step(params, p).grid.heights) - total_spec(grid.heights);
            &&& given >= 0 ==> given - 3 <= gained <= given
            &&& given <= 0 ==> given <= gained <= given + 3
        }),
{
    let at = grid.interior(p.position).unwrap();
    let delta_z = grid.exchanged(params, p);
    lemma_cell_index(at.x as int, at.y as int, grid.width);
    lemma_cell_index(at.x + 1, at.y + 1, grid.width);
    assert((at.x + 1) + (at.y + 1) * grid.width == at.x + at.y * grid.width + 1 + grid.width)
        by (nonlinear_arith);
    lemma_shares_bounded(delta_z, at.offset);
    lemma_incr_influence_total(
        grid.heights,
        grid.width,
        grid.index_of(at.x as int, at.y as int),
        at.offset,
        delta_z,
    );
    lemma_transfer_local(grid, at, delta_z);
    let raised = grid.raised(at, delta_z);
    lemma_wetting_local(raised, at, p.volume);
    let changed = raised.wetted(at, p.volume);
    if grid.step(params, p).fate == Fate::Descending {
        lemma_cascade_conserves(changed, params, grid.destination(params, p));
    }
}

/// Counting water that is not negative lowers the flow of no cell.
pub proof fn lemma_wetting_grows(grid: Grid, at: Footing, volume: Fixed)
    requires
        grid.wf(),
        at.x + 1 < grid.width,
        at.y + 1 < grid.width,
        0 <= at.offset.x.raw <= ONE_RAW,
        0 <= at.offset.y.raw <= ONE_RAW,
        0 <= volume.raw,
    ensures
        forall|i: int|
            0 <= i < grid.flow.len() ==> grid.wetted(at, volume).flow[i].raw >= grid.flow[i].raw,
{
    lemma_cell_index(at.x as int, at.y as int, grid.width);
    lemma_cell_index(at.x + 1, at.y + 1, grid.width);
    assert((at.x + 1) + (at.y + 1) * grid.width == at.x + at.y * grid.width + 1 + grid.width)
        by (nonlinear_arith);
    lemma_shares_bounded(volume, at.offset);
}

/// A particle that settles keeps the grid well-formed and as wide as it
/// was.
pub proof fn lemma_settled_wf(grid: Grid, p: Particle)
    requires
        grid.wf(),
    ensures
        grid.settled(p).wf(),
        grid.settled(p).width == grid.width,
{
    match grid.interior(p.position) {
        None => {},
        Some(at) => {
            lemma_transfer_local(grid, at, p.sediment);
        },
    }
}

/// However a particle runs, the grid stays well-formed and as wide as it
/// was: no cell is added and none is lost.
pub proof fn lemma_run_wf(grid: Grid, params: ErosionParams, p: Particle, steps: nat)
    requires
        grid.wf(),
    ensures
        grid.run(params, p, steps).wf(),
        grid.run(params, p, steps).width == grid.width,
    decreases steps,
{
    if steps == 0 || p.age >= params.max_age {
        lemma_settled_wf(grid, p);
    } else {
        let next = grid.step(params, p);
        lemma_step_local(grid, params, p);
        match next.fate {
            Fate::Descending => {
                lemma_run_wf(next.grid, params, next.particle, (steps - 1) as nat);
            },
            Fate::Evaporated => {
                lemma_settled_wf(next.grid, next.particle);
            },
            Fate::OutOfBounds => {},
            Fate::Stalled => {},
        }
    }
}

/// Wherever particles are spawned, on the grid or off it, erosion keeps the
/// grid well-formed and as wide as it was.
pub proof fn lemma_eroded_wf(grid: Grid, params: ErosionParams, spawns: Seq<Vec2>)
    requires
        grid.wf(),
    ensures
        grid.eroded(params, spawns).wf(),
        grid.eroded(params, spawns).width == grid.width,
    decreases spawns.len(),
{
    if spawns.len() > 0 {
        lemma_eroded_wf(grid, params, spawns.drop_last());
        let before = grid.eroded(params, spawns.drop_last());
        lemma_run_wf(
            before,
            params,
            spawned_spec(params, spawns.last()),
            step_limit_spec(before.width),
        );
    }
}

/// The terrain follows from the numbers it is made from: two terrains
/// built from the same width, frequency, seed and amplitude, shaped the same
/// way and eroded from the same spawn points under the same parameters are
/// equal cell by cell, in height and in flow.
pub proof fn lemma_same_inputs_same_terrain(
    a: Grid,
    b: Grid,
    width: int,
    frequency: Fixed,
    seed: i32,
    amplitude: Fixed,
    params: ErosionParams,
    spawns: Seq<Vec2>,
)
    requires
        a == Grid::noise(width, frequency, seed, amplitude).normalized().bulged().eroded(
            params,
            spawns,
        ),
        b == Grid::noise(width, frequency, seed, amplitude).normalized().bulged().eroded(
            params,
            spawns,
        ),
    ensures
        a.heights == b.heights,
        a.flow == b.flow,
        a.width == b.width,
{
}

fn blend(params: &ErosionParams, velocity: Vec2, downhill: Vec2) -> (r: Vec2)
    ensures
        r == blend_spec(*params, velocity, downhill),
{
    velocity.scale(params.inertia).add(downhill.scale(Fixed::one().sub(params.inertia)))
}

fn capacity(params: &ErosionParams, speed: Fixed, volume: Fixed) -> (r: Fixed)
    ensures
        r == capacity_spec(*params, speed, volume),
{
    speed.mul(volume).mul(params.capacity_factor).min(params.max_capacity)
}

/// The height that goes from the particle to the ground in one step;
/// negative when the ground loses height to the particle.
pub fn transfer(params: &ErosionParams, sediment: Fixed, capacity: Fixed, delta_height: Fixed) -> (r:
    Fixed)
    ensures
        r == transfer_spec(*params, sediment, capacity, delta_height),
{
    if delta_height.raw > 0 {
        sediment.min(delta_height)
    } else if sediment.raw > capacity.raw {
        sediment.sub(capacity).mul(params.deposit_rate)
    } else {
        capacity.sub(sediment).mul(params.erode_rate).min(delta_height.neg()).neg()
    }
}

impl PerlinMap {
    /// One step of a particle: see [`Grid::step`]. Height changes only at
    /// the four cells around the place the particle leaves and, through the
    /// relaxation, at the cell it arrives in and that cell's neighbours.
    pub fn step(&mut self, params: &ErosionParams, p: Particle) -> (r: (Particle, Fate))
        requires
            old(self).wf(),
            p.age < usize::MAX,
        ensures
            final(self).wf(),
            final(self).map_size == old(self).map_size,
            final(self)@ == old(self)@.step(*params, p).grid,
            r.0 == old(self)@.step(*params, p).particle,
            r.1 == old(self)@.step(*params, p).fate,
    {
        let size: usize = self.map_size;
        let (at, idx) = match self.interior(p.position) {
            None => {
                return (p, Fate::OutOfBounds);
            },
            Some(found) => found,
        };
        let velocity = blend(params, p.velocity, self.get_normal(p.position).xy());
        let speed = velocity.length();
        if speed.raw == 0 {
            return (p, Fate::Stalled);
        }
        let direction = Vec2 { x: velocity.x.div(speed), y: velocity.y.div(speed) };
        let position = p.position.add(direction);
        if self.interior(position).is_none() {
            return (p, Fate::OutOfBounds);
        }
        let old_height = self.get_z_interpolated(p.position);
        let new_height = self.get_z_interpolated(position);
        let delta_height = new_height.sub(old_height);
        let sediment_capacity = capacity(params, speed, p.volume);
        let delta_z = transfer(params, p.sediment, sediment_capacity, delta_height);
        incr_influence(&mut self.data, size, idx, at.offset, delta_z);
        incr_influence(&mut self.flow, size, idx, at.offset, p.volume);
        let kept = Fixed::one().sub(params.evaporation);
        let moved = Particle {
            position,
            velocity: direction,
            volume: p.volume.mul(kept),
            sediment: p.sediment.sub(delta_z).mul(kept),
            age: p.age + 1,
        };
        assert(self@ == old(self)@.raised(at, delta_z).wetted(at, p.volume));
        if moved.volume.raw < params.min_volume.raw {
            return (moved, Fate::Evaporated);
        }
        self.cascade(params, position);
        (moved, Fate::Descending)
    }

    /// Drops all that the particle carries around its last position.
    pub fn settle(&mut self, p: Particle)
        requires
            old(self).wf(),
        ensures
            final(self).wf(),
            final(self).map_size == old(self).map_size,
            final(self)@ == old(self)@.settled(p),
    {
        let size: usize = self.map_size;
        match self.interior(p.position) {
            None => {},
            Some((at, idx)) => {
                incr_influence(&mut self.data, size, idx, at.offset, p.sediment);
            },
        }
    }

    /// Runs one particle from `spawn` to its end. A spawn point below sea
    /// level starts no particle, and one off the grid changes nothing.
    pub fn simulate(&mut self, params: &ErosionParams, spawn: Vec2)
        requires
            old(self).wf(),
        ensures
            final(self).wf(),
            final(self).map_size == old(self).map_size,
            final(self)@ == old(self)@.simulate(*params, spawn),
            old(self)@.height(spawn).raw < params.sea_level.raw ==> final(self)@ == old(self)@,
    {
        if self.get_z_interpolated(spawn).raw < params.sea_level.raw {
            return ;
        }
        let limit: usize = self.map_size / 4;
        let mut p = Particle {
            position: spawn,
            velocity: Vec2::zero(),
            volume: params.initial_volume,
            sediment: Fixed::zero(),
            age: 0,
        };
        let ghost goal = old(self)@.run(*params, p, limit as nat);
        let mut taken: usize = 0;
        let mut running: bool = true;
        while running
            invariant
                self.wf(),
                self.map_size == old(self).map_size,
                taken <= limit,
                running ==> self@.run(*params, p, (limit - taken) as nat) == goal,
                !running ==> self@ == goal,
            decreases limit - taken, (if running { 1int } else { 0int }),
        {
            if taken >= limit || p.age >= params.max_age {
                self.settle(p);
                running = false;
            } else {
                let (next, fate) = self.step(params, p);
                match fate {
                    Fate::Descending => {
                        p = next;
                        taken = taken + 1;
                    },
                    Fate::Evaporated => {
                        self.settle(next);
                        running = false;
                    },
                    Fate::OutOfBounds => {
                        running = false;
                    },
                    Fate::Stalled => {
                        running = false;
                    },
                }
            }
        }
    }

    /// Runs one particle from each of the spawn points, in their order, and
    /// returns the flow that has gathered in each cell.
    pub fn erode_from(&mut self, params: &ErosionParams, spawns: &Vec<Vec2>) -> (r: Vec<Fixed>)
        requires
            old(self).wf(),
        ensures
            final(self).wf(),
            final(self).map_size == old(self).map_size,
            final(self)@ == old(self)@.eroded(*params, spawns@),
            r@ == final(self)@.flow,
    {
        let mut i: usize = 0;
        while i < spawns.len()
            invariant
                self.wf(),
                self.map_size == old(self).map_size,
                i <= spawns@.len(),
                self@ == old(self)@.eroded(*params, spawns@.take(i as int)),
            decreases spawns@.len() - i,
        {
            proof {
                assert(spawns@.take(i + 1).drop_last() =~= spawns@.take(i as int));
            }
            self.simulate(params, spawns[i]);
            i = i + 1;
        }
        proof {
            assert(spawns@.take(i as int) =~= spawns@);
        }
        self.flow.clone()
    }

    /// Draws `count` spawn points on a grid of the given width from the
    /// generator seeded with `seed`.
    pub fn random_spawns(width: usize, count: usize, seed: u64) -> (r: Vec<Vec2>)
        requires
            0 < width <= MAX_WIDTH,
        ensures
            r@.len() == count,
            forall|i: int|
                0 <= i < count ==> 0 <= (#[trigger] r@[i]).x.raw < width * ONE_RAW && 0
                    <= r@[i].y.raw < width * ONE_RAW,
    {
        let mut rng = seeded_rng(seed);
        let bound: u64 = (width as u64) * 0x1_0000_0000;
        let mut spawns: Vec<Vec2> = Vec::new();
        let mut i: usize = 0;
        while i < count
            invariant
                i <= count,
                spawns@.len() == i,
                bound == width * ONE_RAW,
                0 < bound <= 0x7fff_ffff_0000_0000,
                forall|k: int|
                    0 <= k < i ==> 0 <= (#[trigger] spawns@[k]).x.raw < width * ONE_RAW && 0
                        <= spawns@[k].y.raw < width * ONE_RAW,
            decreases count - i,
        {
            let x: u64 = draw_below(&mut rng, bound);
            let y: u64 = draw_below(&mut rng, bound);
            spawns.push(Vec2 { x: Fixed { raw: x as i64 }, y: Fixed { raw: y as i64 } });
            i = i + 1;
        }
        spawns
    }

    /// Erodes the terrain with `particle_count` particles, whose spawn
    /// points are drawn from the generator seeded with `seed`, and returns
    /// the flow that has gathered in each cell.
    ///
    /// Whatever points are drawn, each lies on the grid, and the terrain is
    /// the one that [`PerlinMap::erode_from`] makes of them. Without
    /// particles nothing changes.
    pub fn erode_with(&mut self, params: &ErosionParams, particle_count: usize, seed: u64) -> (r:
        Vec<Fixed>)
        requires
            old(self).wf(),
        ensures
            final(self).wf(),
            final(self).map_size == old(self).map_size,
            exists|spawns: Seq<Vec2>|
                {
                    &&& spawns.len() == particle_count
                    &&& forall|i: int|
                        0 <= i < spawns.len() ==> old(self)@.covers(#[trigger] spawns[i])
                    &&& final(self)@ == old(self)@.eroded(*params, spawns)
                },
            particle_count == 0 ==> final(self)@ == old(self)@,
            r@ == final(self)@.flow,
    {
        let spawns = PerlinMap::random_spawns(self.map_size, particle_count, seed);
        let flow = self.erode_from(params, &spawns);
        proof {
            assert(forall|i: int|
                0 <= i < spawns@.len() ==> old(self)@.covers(#[trigger] spawns@[i]));
        }
        flow
    }

    /// An island made in one go: noise, stretched, shaped, and eroded with
    /// `particle_count` particles under the standard parameters.
    ///
    /// Without particles the island is the shaped noise. With particles it
    /// is what [`PerlinMap::erode_from`] makes of the shaped noise and of
    /// spawn points on the grid, whichever are drawn.
    pub fn generate(
        width: usize,
        frequency: Fixed,
        seed: i32,
        amplitude: Fixed,
        particle_count: usize,
        erosion_seed: u64,
    ) -> (r: PerlinMap)
        requires
            0 < width <= MAX_WIDTH,
            width * width <= usize::MAX,
        ensures
            r.wf(),
            r.map_size == width,
            particle_count == 0 ==> r@ == Grid::noise(
                width as int,
                frequency,
                seed,
                amplitude,
            ).normalized().bulged(),
            exists|spawns: Seq<Vec2>|
                {
                    &&& spawns.len() == particle_count
                    &&& forall|i: int| 0 <= i < spawns.len() ==> r@.covers(#[trigger] spawns[i])
                    &&& r@ == Grid::noise(
                        width as int,
                        frequency,
                        seed,
                        amplitude,
                    ).normalized().bulged().eroded(ErosionParams::spec_standard(), spawns)
                },
    {
        let mut map = PerlinMap::new(width, frequency, seed, amplitude);
        map.normalize();
        map.create_bulge();
        let ghost shaped = map@;
        map.erode(particle_count, erosion_seed);
        proof {
            let spawns = choose|spawns: Seq<Vec2>|
                {
                    &&& spawns.len() == particle_count
                    &&& forall|i: int| 0 <= i < spawns.len() ==> shaped.covers(#[trigger] spawns[i])
                    &&& map@ == shaped.eroded(ErosionParams::spec_standard(), spawns)
                };
            assert forall|i: int| 0 <= i < spawns.len() implies map@.covers(
                #[trigger] spawns[i],
            ) by {
                assert(shaped.covers(spawns[i]));
            }
        }
        map
    }

    /// Erodes the terrain with `particle_count` particles under the standard
    /// parameters: see [`PerlinMap::erode_with`].
    pub fn erode(&mut self, particle_count: usize, seed: u64) -> (r: Vec<Fixed>)
        requires
            old(self).wf(),
        ensures
            final(self).wf(),
            final(self).map_size == old(self).map_size,
            exists|spawns: Seq<Vec2>|
                {
                    &&& spawns.len() == particle_count
                    &&& forall|i: int|
                        0 <= i < spawns.len() ==> old(self)@.covers(#[trigger] spawns[i])
                    &&& final(self)@ == old(self)@.eroded(
                        ErosionParams::spec_standard(),
                        spawns,
                    )
                },
            particle_count == 0 ==> final(self)@ == old(self)@,
            r@ == final(self)@.flow,
    {
        let params = ErosionParams::standard();
        self.erode_with(&params, particle_count, seed)
    }
}

} // verus!
