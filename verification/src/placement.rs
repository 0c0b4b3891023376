//! Choosing places on the finished terrain: where the player starts, and
//! where trees, bushes and treasure go.

use vstd::prelude::*;
use crate::fixed::{Fixed, ONE_RAW};
use crate::heightfield::{Grid, PerlinMap};
use crate::rng::{draw_below, seeded_rng};
use crate::vector::{Vec2, Vec3};

verus! {

/// How often a place is drawn for one thing before it is given up.
pub const ATTEMPTS: usize = 102;

/// What is to be placed.
#[derive(Clone, Copy, Debug, PartialEq, Eq, Structural)]
pub enum Growth {
    Tree,
    Bush,
    Treasure,
}

/// A place that was found.
#[derive(Clone, Copy, Debug, PartialEq, Eq, Structural)]
pub struct Spot {
    /// The place on the surface.
    pub position: Vec3,
    /// A number at least zero and below one, drawn with the place, by which
    /// the thing placed may vary in size.
    pub variation: Fixed,
}

/// A place as it was drawn, before the ground there has been looked at.
#[derive(Clone, Copy, Debug, PartialEq, Eq, Structural)]
pub struct Candidate {
    /// The place on the grid.
    pub position: Vec2,
    /// The number drawn with the place.
    pub variation: Fixed,
}

/// Whether ground of the given height, flatness and flow suits what is to be
/// placed.
///
/// A tree wants high, nearly level, well-watered ground. A bush wants a
/// slope somewhat above the beach. Treasure lies low, between the beach
/// and the hills, on ground that is flat for its height.
pub open spec fn suits_spec(kind: Growth, height: Fixed, flatness: Fixed, flow: Fixed) -> bool {
    let level = flatness.spec_abs();
    match kind {
        Growth::Tree => {
            &&& height.raw >= Fixed::spec_from_int(1).raw
            &&& level.raw > Fixed::spec_ratio(99, 100).raw
            &&& flow.raw > Fixed::spec_from_int(20).raw
        },
        Growth::Bush => {
            &&& height.raw >= Fixed::spec_ratio(66, 100).raw
            &&& level.raw >= Fixed::spec_ratio(8, 10).raw
            &&& level.raw <= Fixed::spec_ratio(9, 10).raw
        },
        Growth::Treasure => {
            &&& height.raw >= Fixed::spec_ratio(1, 2).raw
            &&& height.raw <= Fixed::spec_ratio(8, 10).raw
            &&& height.raw < Fixed::spec_ratio(3, 4).spec_mul(level).raw
        },
    }
}

/// The height from which ground counts as land.
pub open spec fn land_level_spec() -> Fixed {
    Fixed::spec_ratio(1, 2)
}

/// The largest raw coordinate at which things are placed, and one more: all
/// of the grid but its last row and column. On a grid of one cell, only the
/// origin.
pub open spec fn placing_bound_spec(width: int) -> int {
    if width <= 1 {
        1
    } else {
        (width - 1) * ONE_RAW
    }
}

impl Grid {
    /// The point on the middle column, `steps` rows beyond the middle row.
    pub open spec fn mid_column(self, steps: int) -> Vec2 {
        Vec2 {
            x: Fixed::spec_from_int((self.width / 2) as i32),
            y: Fixed::spec_from_int((steps + self.width / 2) as i32),
        }
    }

    /// The first of the `upto` points on the middle column, from the middle
    /// row on, that lies on land.
    pub open spec fn first_land(self, upto: int) -> Option<int>
        decreases upto,
    {
        if upto <= 0 {
            None
        } else {
            match self.first_land(upto - 1) {
                Some(y) => Some(y),
                None => if self.height(self.mid_column(upto - 1)).raw >= land_level_spec().raw {
                    Some(upto - 1)
                } else {
                    None
                },
            }
        }
    }

    /// Where the player starts: on the middle column, at the first point
    /// from the middle of the grid toward its edge that lies on land; in the
    /// middle of the grid if there is none.
    pub open spec fn spawn_point(self) -> Vec3 {
        let found = match self.first_land(self.width / 2) {
            Some(y) => self.mid_column(y),
            None => self.mid_column(0),
        };
        Vec3 { x: found.x, y: found.y, z: self.height(found) }
    }

    /// Whether the ground at `pos` suits what is to be placed.
    pub open spec fn suits(self, kind: Growth, pos: Vec2) -> bool {
        suits_spec(kind, self.height(pos), self.flatness(pos), self.flow_at(pos))
    }

    /// The candidate lies where things are placed, and its variation is at
    /// least zero and below one.
    pub open spec fn drawn_on(self, c: Candidate) -> bool {
        &&& 0 <= c.position.x.raw < placing_bound_spec(self.width)
        &&& 0 <= c.position.y.raw < placing_bound_spec(self.width)
        &&& 0 <= c.variation.raw < ONE_RAW
    }

    /// The spot that a candidate becomes: its place, at the height of the
    /// surface there, with its variation.
    pub open spec fn spot_of(self, c: Candidate) -> Spot {
        Spot {
            position: Vec3 { x: c.position.x, y: c.position.y, z: self.height(c.position) },
            variation: c.variation,
        }
    }

    /// What becomes of one candidate: its spot if the ground there suits
    /// what is to be placed, nothing if not.
    pub open spec fn tried(self, kind: Growth, c: Candidate) -> Option<Spot> {
        if self.suits(kind, c.position) {
            Some(self.spot_of(c))
        } else {
            None
        }
    }

    /// The spot of the first candidate whose ground suits what is to be
    /// placed, if there is one.
    pub open spec fn first_fit(self, kind: Growth, candidates: Seq<Candidate>) -> Option<Spot>
        decreases candidates.len(),
    {
        if candidates.len() == 0 {
            None
        } else {
            match self.first_fit(kind, candidates.drop_last()) {
                Some(spot) => Some(spot),
                None => self.tried(kind, candidates.last()),
            }
        }
    }

    /// The candidates are what is drawn for one thing: at least one and at
    /// most as many as there are attempts, each where things are placed,
    /// and none after one whose ground suits.
    pub open spec fn tried_in_turn(self, kind: Growth, candidates: Seq<Candidate>) -> bool {
        &&& 1 <= candidates.len() <= ATTEMPTS
        &&& forall|j: int| 0 <= j < candidates.len() ==> self.drawn_on(#[trigger] candidates[j])
        &&& forall|j: int|
            0 <= j < candidates.len() - 1 ==> !self.suits(kind, (#[trigger] candidates[j]).position)
        &&& candidates.len() < ATTEMPTS ==> self.suits(kind, candidates.last().position)
    }

    /// The spots that come of the candidates drawn for each of a number of
    /// things: for each thing in turn the spot of its first candidate whose
    /// ground suits; a thing without such a candidate is left out.
    pub open spec fn placed(self, kind: Growth, tries: Seq<Seq<Candidate>>) -> Seq<Spot>
        decreases tries.len(),
    {
        if tries.len() == 0 {
            Seq::empty()
        } else {
            let before = self.placed(kind, tries.drop_last());
            match self.first_fit(kind, tries.last()) {
                Some(spot) => before.push(spot),
                None => before,
            }
        }
    }

    /// The spot is a place on the surface where things are placed, its
    /// ground suits what is to be placed, and its variation is at least zero
    /// and below one.
    pub open spec fn holds(self, kind: Growth, spot: Spot) -> bool {
        let pos = spot.position.spec_xy();
        &&& 0 <= pos.x.raw < placing_bound_spec(self.width)
        &&& 0 <= pos.y.raw < placing_bound_spec(self.width)
        &&& spot.position.z == self.height(pos)
        &&& self.suits(kind, pos)
        &&& 0 <= spot.variation.raw < ONE_RAW
    }
}

/// Whether ground of the given height, flatness and flow suits what is to be
/// placed.
pub fn suits(kind: Growth, height: Fixed, flatness: Fixed, flow: Fixed) -> (r: bool)
    ensures
        r == suits_spec(kind, height, flatness, flow),
{
    let level = flatness.abs();
    match kind {
        Growth::Tree => height.raw >= Fixed::from_int(1).raw && level.raw > Fixed::ratio(
            99,
            100,
        ).raw && flow.raw > Fixed::from_int(20).raw,
        Growth::Bush => height.raw >= Fixed::ratio(66, 100).raw && level.raw >= Fixed::ratio(
            8,
            10,
        ).raw && level.raw <= Fixed::ratio(9, 10).raw,
        Growth::Treasure => height.raw >= Fixed::ratio(1, 2).raw && height.raw <= Fixed::ratio(
            8,
            10,
        ).raw && height.raw < Fixed::ratio(3, 4).mul(level).raw,
    }
}

impl PerlinMap {
    fn mid_column(&self, steps: usize) -> (r: Vec2)
        requires
            self.wf(),
            steps <= self.map_size / 2,
        ensures
            r == self@.mid_column(steps as int),
    {
        let half: usize = self.map_size / 2;
        Vec2 { x: Fixed::from_int(half as i32), y: Fixed::from_int((steps + half) as i32) }
    }

    /// Where the player starts: on the middle column, at the first point
    /// from the middle of the grid toward its edge that lies on land; in the
    /// middle of the grid if there is none.
    pub fn spawn_point(&self) -> (r: Vec3)
        requires
            self.wf(),
        ensures
            r == self@.spawn_point(),
    {
        let half: usize = self.map_size / 2;
        let land = Fixed::ratio(1, 2);
        let mut y: usize = 0;
        while y < half
            invariant
                self.wf(),
                half == self.map_size / 2,
                land == land_level_spec(),
                y <= half,
                self@.first_land(y as int) is None,
            decreases half - y,
        {
            let pos = self.mid_column(y);
            let height = self.get_z_interpolated(pos);
            if height.raw >= land.raw {
                proof {
                    lemma_first_land_stays(self@, y as int + 1, half as int);
                }
                return Vec3 { x: pos.x, y: pos.y, z: height };
            }
            y = y + 1;
        }
        let pos = self.mid_column(0);
        Vec3 { x: pos.x, y: pos.y, z: self.get_z_interpolated(pos) }
    }

    /// Whether the ground at `pos` suits what is to be placed.
    pub fn suits(&self, kind: Growth, pos: Vec2) -> (r: bool)
        requires
            self.wf(),
        ensures
            r == self@.suits(kind, pos),
    {
        suits(kind, self.get_z_interpolated(pos), self.get_dot_prod(pos), self.flow(pos))
    }

    /// What becomes of one candidate: its spot if the ground there suits
    /// what is to be placed, nothing if not.
    pub fn try_place(&self, kind: Growth, candidate: Candidate) -> (r: Option<Spot>)
        requires
            self.wf(),
        ensures
            r == self@.tried(kind, candidate),
    {
        if self.suits(kind, candidate.position) {
            let height = self.get_z_interpolated(candidate.position);
            Some(
                Spot {
                    position: Vec3 { x: candidate.position.x, y: candidate.position.y, z: height },
                    variation: candidate.variation,
                },
            )
        } else {
            None
        }
    }

    /// Looks for places for `count` things of one kind, with places drawn
    /// from the generator seeded with `seed`. For each thing, places are
    /// drawn until one suits, a fixed number of times at most; a thing
    /// without a place is left out.
    ///
    /// Whatever is drawn, the spots returned are those of the first
    /// candidate that suits among the candidates drawn for each thing, in
    /// the order of the things; so every spot is a place on the surface
    /// whose ground suits the kind.
    pub fn scatter(&self, kind: Growth, count: usize, seed: u64) -> (r: Vec<Spot>)
        requires
            self.wf(),
        ensures
            r@.len() <= count,
            forall|i: int| 0 <= i < r@.len() ==> self@.holds(kind, #[trigger] r@[i]),
            exists|tries: Seq<Seq<Candidate>>|
                {
                    &&& tries.len() == count
                    &&& forall|k: int|
                        0 <= k < tries.len() ==> self@.tried_in_turn(kind, #[trigger] tries[k])
                    &&& r@ == self@.placed(kind, tries)
                },
    {
        let mut rng = seeded_rng(seed);
        let bound: u64 = if self.map_size <= 1 {
            1
        } else {
            ((self.map_size - 1) as u64) * 0x1_0000_0000
        };
        let mut spots: Vec<Spot> = Vec::new();
        let ghost mut tries: Seq<Seq<Candidate>> = Seq::empty();
        let mut wanted: usize = 0;
        while wanted < count
            invariant
                self.wf(),
                bound == placing_bound_spec(self.map_size as int),
                0 < bound <= 0x7fff_ffff_0000_0000,
                wanted <= count,
                spots@.len() <= wanted,
                forall|i: int| 0 <= i < spots@.len() ==> self@.holds(kind, #[trigger] spots@[i]),
                tries.len() == wanted,
                forall|k: int|
                    0 <= k < tries.len() ==> self@.tried_in_turn(kind, #[trigger] tries[k]),
                spots@ == self@.placed(kind, tries),
            decreases count - wanted,
        {
            let ghost before = spots@;
            let ghost mut current: Seq<Candidate> = Seq::empty();
            let mut attempts: usize = 0;
            let mut placed: bool = false;
            while attempts < ATTEMPTS && !placed
                invariant
                    self.wf(),
                    bound == placing_bound_spec(self.map_size as int),
                    0 < bound <= 0x7fff_ffff_0000_0000,
                    attempts <= ATTEMPTS,
                    wanted < count,
                    before.len() <= wanted,
                    forall|i: int|
                        0 <= i < spots@.len() ==> self@.holds(kind, #[trigger] spots@[i]),
                    current.len() == attempts,
                    forall|j: int|
                        0 <= j < current.len() ==> self@.drawn_on(#[trigger] current[j]),
                    forall|j: int|
                        0 <= j < current.len() - 1 ==> !self@.suits(
                            kind,
                            (#[trigger] current[j]).position,
                        ),
                    !placed ==> spots@ == before && self@.first_fit(kind, current) is None
                        && (current.len() > 0 ==> !self@.suits(kind, current.last().position)),
                    placed ==> current.len() > 0 && self@.suits(kind, current.last().position)
                        && self@.first_fit(kind, current) == Some(self@.spot_of(current.last()))
                        && spots@ == before.push(self@.spot_of(current.last())),
                decreases ATTEMPTS - attempts, (if placed { 0int } else { 1int }),
            {
                let x: u64 = draw_below(&mut rng, bound);
                let y: u64 = draw_below(&mut rng, bound);
                let variation: u64 = draw_below(&mut rng, 0x1_0000_0000);
                let candidate = Candidate {
                    position: Vec2 { x: Fixed { raw: x as i64 }, y: Fixed { raw: y as i64 } },
                    variation: Fixed { raw: variation as i64 },
                };
                proof {
                    assert(current.push(candidate).drop_last() =~= current);
                    current = current.push(candidate);
                }
                match self.try_place(kind, candidate) {
                    Some(spot) => {
                        spots.push(spot);
                        placed = true;
                    },
                    None => {},
                }
                attempts = attempts + 1;
            }
            proof {
                assert(tries.push(current).drop_last() =~= tries);
                tries = tries.push(current);
            }
            wanted = wanted + 1;
        }
        spots
    }
}

/// The place lies at the height of `centre` and within half a unit of it
/// along each axis.
pub open spec fn near_spec(centre: Vec3, place: Vec3) -> bool {
    let half = Fixed::spec_ratio(1, 2);
    &&& place.z == centre.z
    &&& centre.x.spec_sub(half).raw <= place.x.raw <= centre.x.spec_add(half).raw
    &&& centre.y.spec_sub(half).raw <= place.y.raw <= centre.y.spec_add(half).raw
}

/// Places `count` things around `centre`, at its height and within half a
/// unit of it along each axis, drawn from the generator seeded with `seed`.
pub fn scatter_around(centre: Vec3, count: usize, seed: u64) -> (r: Vec<Vec3>)
    ensures
        r@.len() == count,
        forall|i: int| 0 <= i < count ==> near_spec(centre, #[trigger] r@[i]),
{
    let mut rng = seeded_rng(seed);
    let mut places: Vec<Vec3> = Vec::new();
    let mut i: usize = 0;
    while i < count
        invariant
            i <= count,
            places@.len() == i,
            forall|k: int| 0 <= k < i ==> near_spec(centre, #[trigger] places@[k]),
        decreases count - i,
    {
        let a: u64 = draw_below(&mut rng, 0x1_0000_0000);
        let b: u64 = draw_below(&mut rng, 0x1_0000_0000);
        let dx = Fixed { raw: a as i64 - 0x8000_0000 };
        let dy = Fixed { raw: b as i64 - 0x8000_0000 };
        places.push(Vec3 { x: dx.add(centre.x), y: dy.add(centre.y), z: centre.z });
        i = i + 1;
    }
    places
}

/// Once a point on land has been found, looking further finds the same
/// point.
pub proof fn lemma_first_land_stays(grid: Grid, found: int, upto: int)
    requires
        0 <= found <= upto,
        grid.first_land(found) is Some,
    ensures
        grid.first_land(upto) == grid.first_land(found),
    decreases upto - found,
{
    if found < upto {
        lemma_first_land_stays(grid, found, upto - 1);
    }
}

} // verus!
