//! Slope relaxation: one pass that evens out the height differences between
//! a cell and its eight neighbours where they exceed the talus threshold.
//!
//! A pass visits the neighbours from the lowest to the highest and does not
//! repeat; the terrain settles because a pass runs at every particle step.

use vstd::prelude::*;
use crate::fixed::Fixed;
use crate::params::ErosionParams;
use crate::heightfield::{
    Grid, PerlinMap, all_within_limit, lemma_cell_index, lemma_total_update, total_spec,
    within_limit,
};
use crate::vector::Vec2;

verus! {

/// The number of neighbours of a cell.
pub const NEIGHBOURS: usize = 8;

/// The column offset of the neighbour in `slot`; the slots run row by row
/// and leave out the cell itself.
pub open spec fn slot_dx_spec(slot: int) -> int {
    if slot == 0 || slot == 3 || slot == 5 {
        -1
    } else if slot == 1 || slot == 6 {
        0
    } else {
        1
    }
}

/// The row offset of the neighbour in `slot`.
pub open spec fn slot_dy_spec(slot: int) -> int {
    if slot < 3 {
        -1
    } else if slot < 5 {
        0
    } else {
        1
    }
}

/// The height difference above which two neighbouring cells exchange
/// height.
pub open spec fn threshold_spec(params: ErosionParams) -> Fixed {
    params.talus.spec_mul(params.settling)
}

impl Grid {
    /// The index of the neighbour of `(cx, cy)` in `slot`, if the grid has
    /// that cell.
    pub open spec fn neighbour(self, cx: int, cy: int, slot: int) -> Option<int> {
        let nx = cx + slot_dx_spec(slot);
        let ny = cy + slot_dy_spec(slot);
        if 0 <= nx < self.width && 0 <= ny < self.width {
            Some(nx + ny * self.width)
        } else {
            None
        }
    }

    /// Among the first `upto` slots, the one whose neighbour exists, is not
    /// yet done and is lowest; of several equally low, the first.
    pub open spec fn lowest_neighbour(self, cx: int, cy: int, done: Seq<bool>, upto: int) -> Option<
        int,
    >
        decreases upto,
    {
        if upto <= 0 {
            None
        } else {
            let before = self.lowest_neighbour(cx, cy, done, upto - 1);
            let slot = upto - 1;
            match self.neighbour(cx, cy, slot) {
                None => before,
                Some(i) => if done[slot] {
                    before
                } else {
                    match before {
                        None => Some(slot),
                        Some(b) => if self.heights[i].raw < self.heights[self.neighbour(
                            cx,
                            cy,
                            b,
                        ).unwrap()].raw {
                            Some(slot)
                        } else {
                            Some(b)
                        },
                    }
                },
            }
        }
    }

    /// The grid after the cells at `c` and `n` have evened out: where their
    /// heights differ by more than the threshold, half of the excess moves
    /// from the higher to the lower.
    pub open spec fn relax_pair(self, params: ErosionParams, c: int, n: int) -> Grid {
        let hc = self.heights[c];
        let hn = self.heights[n];
        let diff = hc.spec_sub(hn);
        let excess = diff.spec_abs().spec_sub(threshold_spec(params));
        if excess.raw > 0 {
            let amount = excess.spec_half();
            if diff.raw > 0 {
                Grid {
                    heights: self.heights.update(c, hc.spec_sub(amount)).update(
                        n,
                        hn.spec_add(amount),
                    ),
                    flow: self.flow,
                    width: self.width,
                }
            } else {
                Grid {
                    heights: self.heights.update(c, hc.spec_add(amount)).update(
                        n,
                        hn.spec_sub(amount),
                    ),
                    flow: self.flow,
                    width: self.width,
                }
            }
        } else {
            self
        }
    }

    /// The grid after up to `rounds` more neighbours of `(cx, cy)` have
    /// evened out with it, lowest first.
    pub open spec fn relax_rounds(
        self,
        params: ErosionParams,
        cx: int,
        cy: int,
        done: Seq<bool>,
        rounds: nat,
    ) -> Grid
        decreases rounds,
    {
        if rounds == 0 {
            self
        } else {
            match self.lowest_neighbour(cx, cy, done, NEIGHBOURS as int) {
                None => self,
                Some(slot) => self.relax_pair(
                    params,
                    cx + cy * self.width,
                    self.neighbour(cx, cy, slot).unwrap(),
                ).relax_rounds(params, cx, cy, done.update(slot, true), (rounds - 1) as nat),
            }
        }
    }

    /// The grid after one relaxation pass around the cell that holds `pos`.
    /// A position outside the grid changes nothing.
    #[verifier::opaque]
    pub open spec fn cascade(self, params: ErosionParams, pos: Vec2) -> Grid {
        match self.locate(pos) {
            None => self,
            Some(at) => self.relax_rounds(
                params,
                at.x as int,
                at.y as int,
                Seq::new(NEIGHBOURS as nat, |i: int| false),
                NEIGHBOURS as nat,
            ),
        }
    }
}

fn slot_dx(slot: usize) -> (r: i64)
    ensures
        r == slot_dx_spec(slot as int),
{
    if slot == 0 || slot == 3 || slot == 5 {
        -1
    } else if slot == 1 || slot == 6 {
        0
    } else {
        1
    }
}

fn slot_dy(slot: usize) -> (r: i64)
    ensures
        r == slot_dy_spec(slot as int),
{
    if slot < 3 {
        -1
    } else if slot < 5 {
        0
    } else {
        1
    }
}

impl PerlinMap {
    /// The index of the neighbour of `(cx, cy)` in `slot`, if the grid has
    /// that cell.
    pub fn neighbour(&self, cx: usize, cy: usize, slot: usize) -> (r: Option<usize>)
        requires
            self.wf(),
            cx < self.map_size,
            cy < self.map_size,
        ensures
            r matches Some(i) ==> self@.neighbour(cx as int, cy as int, slot as int) == Some(
                i as int,
            ) && i < self.data@.len(),
            r is None ==> self@.neighbour(cx as int, cy as int, slot as int) is None,
    {
        let nx: i64 = cx as i64 + slot_dx(slot);
        let ny: i64 = cy as i64 + slot_dy(slot);
        if 0 <= nx && nx < self.map_size as i64 && 0 <= ny && ny < self.map_size as i64 {
            proof {
                lemma_cell_index(nx as int, ny as int, self.map_size as int);
                assert(0 <= ny * self.map_size) by (nonlinear_arith)
                    requires
                        0 <= ny,
                        0 <= self.map_size,
                ;
            }
            Some(nx as usize + ny as usize * self.map_size)
        } else {
            None
        }
    }

    /// The slot and index of the lowest neighbour of `(cx, cy)` that is not
    /// yet done.
    fn lowest_neighbour(&self, cx: usize, cy: usize, done: &Vec<bool>) -> (r: Option<
        (usize, usize),
    >)
        requires
            self.wf(),
            cx < self.map_size,
            cy < self.map_size,
            done@.len() == NEIGHBOURS,
        ensures
            match r {
                None => self@.lowest_neighbour(cx as int, cy as int, done@, NEIGHBOURS as int)
                    is None,
                Some((slot, i)) => {
                    &&& self@.lowest_neighbour(cx as int, cy as int, done@, NEIGHBOURS as int)
                        == Some(slot as int)
                    &&& self@.neighbour(cx as int, cy as int, slot as int) == Some(i as int)
                    &&& slot < NEIGHBOURS
                    &&& i < self.data@.len()
                },
            },
    {
        let mut best: Option<(usize, usize)> = None;
        let mut slot: usize = 0;
        while slot < NEIGHBOURS
            invariant
                self.wf(),
                cx < self.map_size,
                cy < self.map_size,
                done@.len() == NEIGHBOURS,
                slot <= NEIGHBOURS,
                match best {
                    None => self@.lowest_neighbour(cx as int, cy as int, done@, slot as int)
                        is None,
                    Some((b, i)) => {
                        &&& self@.lowest_neighbour(cx as int, cy as int, done@, slot as int)
                            == Some(b as int)
                        &&& self@.neighbour(cx as int, cy as int, b as int) == Some(i as int)
                        &&& b < NEIGHBOURS
                        &&& i < self.data@.len()
                    },
                },
            decreases NEIGHBOURS - slot,
        {
            match self.neighbour(cx, cy, slot) {
                None => {},
                Some(i) => {
                    if !done[slot] {
                        match best {
                            None => {
                                best = Some((slot, i));
                            },
                            Some((_, j)) => {
                                if self.data[i].raw < self.data[j].raw {
                                    best = Some((slot, i));
                                }
                            },
                        }
                    }
                },
            }
            slot = slot + 1;
        }
        best
    }

    /// Evens out the cells at `c` and `n`: where their heights differ by more
    /// than the threshold, half of the excess moves from the higher to the
    /// lower.
    fn relax_pair(&mut self, params: &ErosionParams, c: usize, n: usize)
        requires
            old(self).wf(),
            c < old(self).data@.len(),
            n < old(self).data@.len(),
        ensures
            final(self).wf(),
            final(self).map_size == old(self).map_size,
            final(self)@ == old(self)@.relax_pair(*params, c as int, n as int),
    {
        let hc = self.data[c];
        let hn = self.data[n];
        let diff = hc.sub(hn);
        let excess = diff.abs().sub(params.talus.mul(params.settling));
        if excess.raw > 0 {
            let amount = excess.half();
            if diff.raw > 0 {
                self.data.set(c, hc.sub(amount));
                self.data.set(n, hn.add(amount));
            } else {
                self.data.set(c, hc.add(amount));
                self.data.set(n, hn.sub(amount));
            }
        }
    }

    /// One relaxation pass around the cell that holds `position`: each
    /// neighbour in the grid, from the lowest to the highest, evens out with
    /// the cell where their heights differ by more than the talus threshold.
    /// A position outside the grid changes nothing.
    pub fn cascade(&mut self, params: &ErosionParams, position: Vec2)
        requires
            old(self).wf(),
        ensures
            final(self).wf(),
            final(self).map_size == old(self).map_size,
            final(self)@ == old(self)@.cascade(*params, position),
    {
        reveal(Grid::cascade);
        match self.locate(position) {
            None => {},
            Some(at) => {
                let mut done: Vec<bool> = Vec::new();
                let mut k: usize = 0;
                while k < NEIGHBOURS
                    invariant
                        k <= NEIGHBOURS,
                        done@.len() == k,
                        forall|i: int| 0 <= i < k ==> !done@[i],
                    decreases NEIGHBOURS - k,
                {
                    done.push(false);
                    k = k + 1;
                }
                assert(done@ =~= Seq::new(NEIGHBOURS as nat, |i: int| false));
                proof {
                    lemma_cell_index(at.x as int, at.y as int, self.map_size as int);
                    assert(0 <= at.y * self.map_size) by (nonlinear_arith);
                }
                let centre: usize = at.x + at.y * self.map_size;
                let ghost start = self@;
                let ghost fresh = done@;
                let mut round: usize = 0;
                while round < NEIGHBOURS
                    invariant
                        self.wf(),
                        self.map_size == old(self).map_size,
                        at.x < self.map_size,
                        at.y < self.map_size,
                        centre == at.x + at.y * self.map_size,
                        centre < self.data@.len(),
                        done@.len() == NEIGHBOURS,
                        round <= NEIGHBOURS,
                        self@.relax_rounds(
                            *params,
                            at.x as int,
                            at.y as int,
                            done@,
                            (NEIGHBOURS - round) as nat,
                        ) == start.relax_rounds(
                            *params,
                            at.x as int,
                            at.y as int,
                            fresh,
                            NEIGHBOURS as nat,
                        ),
                    decreases NEIGHBOURS - round,
                {
                    match self.lowest_neighbour(at.x, at.y, &done) {
                        None => {
                            proof {
                                lemma_rounds_without_neighbour(
                                    self@,
                                    *params,
                                    at.x as int,
                                    at.y as int,
                                    done@,
                                    (NEIGHBOURS - round) as nat,
                                );
                                lemma_rounds_without_neighbour(
                                    self@,
                                    *params,
                                    at.x as int,
                                    at.y as int,
                                    done@,
                                    0,
                                );
                            }
                            round = NEIGHBOURS;
                        },
                        Some((slot, i)) => {
                            self.relax_pair(params, centre, i);
                            done.set(slot, true);
                            round = round + 1;
                        },
                    }
                }
            },
        }
    }
}

/// The cell with index `i` is the cell `(cx, cy)` or one of its neighbours.
pub open spec fn around(width: int, cx: int, cy: int, i: int) -> bool {
    &&& cx - 1 <= i % width <= cx + 1
    &&& cy - 1 <= i / width <= cy + 1
}

/// Evening out two cells changes no other cell, nor the flow, nor the size.
pub proof fn lemma_relax_pair_local(grid: Grid, params: ErosionParams, c: int, n: int)
    requires
        0 <= c < grid.heights.len(),
        0 <= n < grid.heights.len(),
    ensures
        grid.relax_pair(params, c, n).width == grid.width,
        grid.relax_pair(params, c, n).flow == grid.flow,
        grid.relax_pair(params, c, n).heights.len() == grid.heights.len(),
        forall|i: int|
            0 <= i < grid.heights.len() && i != c && i != n ==> grid.relax_pair(
                params,
                c,
                n,
            ).heights[i] == grid.heights[i],
{
}

/// The slot that `lowest_neighbour` finds is one of the first `upto` slots
/// and has a neighbour in the grid.
pub proof fn lemma_lowest_neighbour_exists(grid: Grid, cx: int, cy: int, done: Seq<bool>, upto: int)
    requires
        0 <= upto,
    ensures
        grid.lowest_neighbour(cx, cy, done, upto) matches Some(slot) ==> 0 <= slot < upto
            && grid.neighbour(cx, cy, slot) is Some,
    decreases upto,
{
    if upto > 0 {
        lemma_lowest_neighbour_exists(grid, cx, cy, done, upto - 1);
    }
}

/// A relaxation pass around `(cx, cy)` changes no height but those of that
/// cell and its neighbours, and changes neither the flow nor the size.
pub proof fn lemma_relax_rounds_local(
    grid: Grid,
    params: ErosionParams,
    cx: int,
    cy: int,
    done: Seq<bool>,
    rounds: nat,
)
    requires
        grid.wf(),
        0 <= cx < grid.width,
        0 <= cy < grid.width,
    ensures
        grid.relax_rounds(params, cx, cy, done, rounds).wf(),
        grid.relax_rounds(params, cx, cy, done, rounds).width == grid.width,
        grid.relax_rounds(params, cx, cy, done, rounds).flow == grid.flow,
        forall|i: int|
            0 <= i < grid.heights.len() && !around(grid.width, cx, cy, i) ==> grid.relax_rounds(
                params,
                cx,
                cy,
                done,
                rounds,
            ).heights[i] == grid.heights[i],
    decreases rounds,
{
    if rounds > 0 {
        lemma_lowest_neighbour_exists(grid, cx, cy, done, NEIGHBOURS as int);
        match grid.lowest_neighbour(cx, cy, done, NEIGHBOURS as int) {
            None => {},
            Some(slot) => {
                let c = cx + cy * grid.width;
                let n = grid.neighbour(cx, cy, slot).unwrap();
                let nx = cx + slot_dx_spec(slot);
                let ny = cy + slot_dy_spec(slot);
                lemma_cell_index(cx, cy, grid.width);
                lemma_cell_index(nx, ny, grid.width);
                lemma_relax_pair_local(grid, params, c, n);
                let next = grid.relax_pair(params, c, n);
                lemma_relax_rounds_local(
                    next,
                    params,
                    cx,
                    cy,
                    done.update(slot, true),
                    (rounds - 1) as nat,
                );
            },
        }
    }
}

/// A relaxation pass around the cell that holds `pos` changes no height but
/// those of that cell and its neighbours, and changes neither the flow nor
/// the size.
pub proof fn lemma_cascade_local(grid: Grid, params: ErosionParams, pos: Vec2)
    requires
        grid.wf(),
    ensures
        grid.cascade(params, pos).wf(),
        grid.cascade(params, pos).width == grid.width,
        grid.cascade(params, pos).flow == grid.flow,
        grid.locate(pos) is None ==> grid.cascade(params, pos) == grid,
        grid.locate(pos) matches Some(at) ==> forall|i: int|
            0 <= i < grid.heights.len() && !around(grid.width, at.x as int, at.y as int, i)
                ==> grid.cascade(params, pos).heights[i] == grid.heights[i],
{
    reveal(Grid::cascade);
    match grid.locate(pos) {
        None => {},
        Some(at) => {
            lemma_relax_rounds_local(
                grid,
                params,
                at.x as int,
                at.y as int,
                Seq::new(NEIGHBOURS as nat, |i: int| false),
                NEIGHBOURS as nat,
            );
        },
    }
}

/// Evening out two different cells whose heights are within the limit, with
/// a threshold that is not negative, keeps the sum of the two heights, keeps
/// both within the limit, and leaves them no farther apart than the
/// threshold and one raw unit, unless they were no farther apart than the
/// threshold before.
pub proof fn lemma_relax_pair_settles(grid: Grid, params: ErosionParams, c: int, n: int)
    requires
        0 <= c < grid.heights.len(),
        0 <= n < grid.heights.len(),
        c != n,
        within_limit(grid.heights[c]),
        within_limit(grid.heights[n]),
        0 <= threshold_spec(params).raw,
    ensures
        ({
            let after = grid.relax_pair(params, c, n).heights;
            let before = grid.heights;
            let limit = threshold_spec(params).raw;
            let gap = before[c].raw - before[n].raw;
            let left = after[c].raw - after[n].raw;
            &&& after[c].raw + after[n].raw == before[c].raw + before[n].raw
            &&& within_limit(after[c])
            &&& within_limit(after[n])
            &&& -limit <= gap <= limit ==> after == before
            &&& gap > limit ==> limit <= left <= limit + 1
            &&& gap < -limit ==> -limit - 1 <= left <= -limit
        }),
{
}

/// Evening out two different cells keeps the sum of all heights, and keeps
/// all heights within the limit, if they were.
pub proof fn lemma_relax_pair_conserves(grid: Grid, params: ErosionParams, c: int, n: int)
    requires
        0 <= c < grid.heights.len(),
        0 <= n < grid.heights.len(),
        c != n,
        all_within_limit(grid.heights),
        0 <= threshold_spec(params).raw,
    ensures
        total_spec(grid.relax_pair(params, c, n).heights) == total_spec(grid.heights),
        all_within_limit(grid.relax_pair(params, c, n).heights),
{
    lemma_relax_pair_settles(grid, params, c, n);
    lemma_relax_pair_local(grid, params, c, n);
    let hc = grid.heights[c];
    let hn = grid.heights[n];
    let after = grid.relax_pair(params, c, n).heights;
    if after != grid.heights {
        let mid = grid.heights.update(c, after[c]);
        assert(after =~= mid.update(n, after[n]));
        lemma_total_update(grid.heights, c, after[c]);
        lemma_total_update(mid, n, after[n]);
    }
}

/// A relaxation pass keeps the sum of all heights, and keeps all heights
/// within the limit, if they were and the threshold is not negative.
pub proof fn lemma_relax_rounds_conserves(
    grid: Grid,
    params: ErosionParams,
    cx: int,
    cy: int,
    done: Seq<bool>,
    rounds: nat,
)
    requires
        grid.wf(),
        0 <= cx < grid.width,
        0 <= cy < grid.width,
        all_within_limit(grid.heights),
        0 <= threshold_spec(params).raw,
    ensures
        total_spec(grid.relax_rounds(params, cx, cy, done, rounds).heights) == total_spec(
            grid.heights,
        ),
        all_within_limit(grid.relax_rounds(params, cx, cy, done, rounds).heights),
    decreases rounds,
{
    if rounds > 0 {
        lemma_lowest_neighbour_exists(grid, cx, cy, done, NEIGHBOURS as int);
        match grid.lowest_neighbour(cx, cy, done, NEIGHBOURS as int) {
            None => {},
            Some(slot) => {
                let c = cx + cy * grid.width;
                let n = grid.neighbour(cx, cy, slot).unwrap();
                let nx = cx + slot_dx_spec(slot);
                let ny = cy + slot_dy_spec(slot);
                lemma_cell_index(cx, cy, grid.width);
                lemma_cell_index(nx, ny, grid.width);
                assert(c != n);
                lemma_relax_pair_conserves(grid, params, c, n);
                lemma_relax_pair_local(grid, params, c, n);
                let next = grid.relax_pair(params, c, n);
                lemma_relax_rounds_conserves(
                    next,
                    params,
                    cx,
                    cy,
                    done.update(slot, true),
                    (rounds - 1) as nat,
                );
            },
        }
    }
}

/// A relaxation pass moves height between cells and makes none: the sum of
/// all heights stays, as long as all heights are within the limit and the
/// threshold is not negative.
pub proof fn lemma_cascade_conserves(grid: Grid, params: ErosionParams, pos: Vec2)
    requires
        grid.wf(),
        all_within_limit(grid.heights),
        0 <= threshold_spec(params).raw,
    ensures
        total_spec(grid.cascade(params, pos).heights) == total_spec(grid.heights),
        all_within_limit(grid.cascade(params, pos).heights),
{
    reveal(Grid::cascade);
    match grid.locate(pos) {
        None => {},
        Some(at) => {
            lemma_relax_rounds_conserves(
                grid,
                params,
                at.x as int,
                at.y as int,
                Seq::new(NEIGHBOURS as nat, |i: int| false),
                NEIGHBOURS as nat,
            );
        },
    }
}

/// With no neighbour left, further rounds change nothing.
pub proof fn lemma_rounds_without_neighbour(
    grid: Grid,
    params: ErosionParams,
    cx: int,
    cy: int,
    done: Seq<bool>,
    rounds: nat,
)
    requires
        grid.lowest_neighbour(cx, cy, done, NEIGHBOURS as int) is None,
    ensures
        grid.relax_rounds(params, cx, cy, done, rounds) == grid,
{
}

} // verus!
