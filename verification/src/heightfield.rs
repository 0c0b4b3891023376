//! The height field: a square grid of heights with a flow accumulator beside
//! it, built from fractal noise and reshaped in place.

use vstd::prelude::*;
use crate::fixed::{Fixed, ONE_RAW, lemma_mul_fraction, lemma_mul_shrinks};
use crate::noise::{lemma_perlin2d_range, lin_inter, lin_inter_spec, perlin2d, perlin2d_spec};

verus! {

/// How many octaves of noise a height is summed from.
pub const OCTAVES: u32 = 10;

/// The widest grid whose coordinates a fixed-point number can hold.
pub const MAX_WIDTH: usize = 0x7fff_ffff;

/// Heights up to this size in magnitude are added, subtracted and
/// interpolated without clamping.
pub const HEIGHT_LIMIT_RAW: i64 = 0x1000_0000_0000_0000;

/// The height is no larger in magnitude than the limit up to which sums and
/// differences of heights are exact.
pub open spec fn within_limit(z: Fixed) -> bool {
    -HEIGHT_LIMIT_RAW <= z.raw <= HEIGHT_LIMIT_RAW
}

/// The sum of all raw heights.
pub open spec fn total_spec(heights: Seq<Fixed>) -> int
    decreases heights.len(),
{
    if heights.len() == 0 {
        0
    } else {
        total_spec(heights.drop_last()) + heights.last().raw
    }
}

/// Every height is within the limit up to which sums and differences are
/// exact.
pub open spec fn all_within_limit(heights: Seq<Fixed>) -> bool {
    forall|i: int| 0 <= i < heights.len() ==> within_limit(#[trigger] heights[i])
}

/// Replacing one height changes the sum by the difference.
pub proof fn lemma_total_update(heights: Seq<Fixed>, i: int, v: Fixed)
    requires
        0 <= i < heights.len(),
    ensures
        total_spec(heights.update(i, v)) == total_spec(heights) - heights[i].raw + v.raw,
    decreases heights.len(),
{
    let last = heights.len() - 1;
    if i == last {
        assert(heights.update(i, v).drop_last() =~= heights.drop_last());
    } else {
        assert(heights.update(i, v).drop_last() =~= heights.drop_last().update(i, v));
        lemma_total_update(heights.drop_last(), i, v);
    }
}

/// A square grid in row-major order: the cell `(x, y)` is at `x + y * width`.
pub struct PerlinMap {
    /// The height of each cell.
    pub data: Vec<Fixed>,
    /// How much water has passed each cell.
    pub flow: Vec<Fixed>,
    /// The number of cells along one side.
    pub map_size: usize,
}

/// What one cell of the grid holds.
#[derive(Clone, Copy, Debug, PartialEq, Eq, Structural)]
pub struct Cell {
    /// The elevation of the terrain.
    pub height: Fixed,
    /// How much water has passed.
    pub flow: Fixed,
}

/// A finished terrain, held for the consumers that only read it.
pub struct PerlinMapResource {
    pub map: PerlinMap,
}

/// The mathematical content of a height field.
pub struct Grid {
    /// The height of each cell, row by row.
    pub heights: Seq<Fixed>,
    /// The flow through each cell, row by row.
    pub flow: Seq<Fixed>,
    /// The number of cells along one side.
    pub width: int,
}

impl Grid {
    /// The grid is square, not empty, and small enough for its coordinates
    /// to be fixed-point numbers.
    pub open spec fn wf(self) -> bool {
        &&& 0 < self.width <= MAX_WIDTH
        &&& self.heights.len() == self.width * self.width
        &&& self.flow.len() == self.width * self.width
    }

    /// The height of the cell `(x, y)`, zero outside the grid.
    pub open spec fn get_z(self, x: int, y: int) -> Fixed {
        if 0 <= x < self.width && 0 <= y < self.width {
            self.heights[x + y * self.width]
        } else {
            Fixed::spec_zero()
        }
    }
}

impl Grid {
    /// The cell `(x, y)`; outside the grid, a cell without height or flow.
    pub open spec fn cell(self, x: int, y: int) -> Cell {
        if 0 <= x < self.width && 0 <= y < self.width {
            Cell { height: self.heights[x + y * self.width], flow: self.flow[x + y * self.width] }
        } else {
            Cell { height: Fixed::spec_zero(), flow: Fixed::spec_zero() }
        }
    }
}

impl Grid {
    /// The grid `width` cells wide whose heights are `amplitude` times the
    /// fractal noise at each cell's coordinates scaled by `frequency`, and
    /// whose flow is zero everywhere.
    pub open spec fn noise(width: int, frequency: Fixed, seed: i32, amplitude: Fixed) -> Grid {
        Grid {
            heights: Seq::new(
                (width * width) as nat,
                |i: int| noise_height_spec(i, width, frequency, seed, amplitude),
            ),
            flow: Seq::new((width * width) as nat, |i: int| Fixed::spec_zero()),
            width,
        }
    }

    /// The grid with its heights stretched so that the lowest becomes zero
    /// and the highest one.
    pub open spec fn normalized(self) -> Grid {
        Grid { heights: normalize_spec(self.heights), flow: self.flow, width: self.width }
    }

    /// The grid with every height blended with the island profile.
    pub open spec fn bulged(self) -> Grid {
        Grid {
            heights: Seq::new(
                self.heights.len(),
                |i: int| bulge_height_spec(self.heights[i], i, self.width),
            ),
            flow: self.flow,
            width: self.width,
        }
    }
}

impl View for PerlinMap {
    type V = Grid;

    open spec fn view(&self) -> Grid {
        Grid { heights: self.data@, flow: self.flow@, width: self.map_size as int }
    }
}

/// The height that noise gives the cell at index `i` of a grid `width` wide.
pub open spec fn noise_height_spec(
    i: int,
    width: int,
    frequency: Fixed,
    seed: i32,
    amplitude: Fixed,
) -> Fixed {
    amplitude.spec_mul(
        perlin2d_spec(
            Fixed::spec_from_int((i % width) as i32),
            Fixed::spec_from_int((i / width) as i32),
            frequency,
            OCTAVES,
            seed,
        ),
    )
}

/// With a frequency and an amplitude that are not negative, the height that
/// noise gives a cell lies between zero and the amplitude.
pub proof fn lemma_noise_height_range(
    i: int,
    width: int,
    frequency: Fixed,
    seed: i32,
    amplitude: Fixed,
)
    requires
        0 < width <= MAX_WIDTH,
        0 <= i < width * width,
        0 <= frequency.raw,
        0 <= amplitude.raw,
    ensures
        0 <= noise_height_spec(i, width, frequency, seed, amplitude).raw <= amplitude.raw,
{
    lemma_row_in_range(i, width);
    let x = Fixed::spec_from_int((i % width) as i32);
    let y = Fixed::spec_from_int((i / width) as i32);
    lemma_perlin2d_range(x, y, frequency, OCTAVES, seed);
    lemma_mul_fraction(amplitude, perlin2d_spec(x, y, frequency, OCTAVES, seed));
}

/// An index below `width * width` has a row below `width`.
pub proof fn lemma_row_in_range(i: int, width: int)
    requires
        0 < width,
        0 <= i < width * width,
    ensures
        0 <= i / width < width,
        0 <= i % width < width,
{
    vstd::arithmetic::div_mod::lemma_fundamental_div_mod(i, width);
    vstd::arithmetic::div_mod::lemma_mod_bound(i, width);
    vstd::arithmetic::div_mod::lemma_div_pos_is_pos(i, width);
    if i / width >= width {
        assert(width * (i / width) >= width * width) by (nonlinear_arith)
            requires
                i / width >= width,
                width > 0,
        ;
    }
}

/// A cell inside the grid has an index inside the data.
pub proof fn lemma_cell_index(x: int, y: int, width: int)
    requires
        0 <= x < width,
        0 <= y < width,
    ensures
        0 <= x + y * width < width * width,
        (x + y * width) % width == x,
        (x + y * width) / width == y,
{
    assert(0 <= y * width && y * width + width <= width * width) by (nonlinear_arith)
        requires
            0 <= y < width,
    ;
    vstd::arithmetic::div_mod::lemma_fundamental_div_mod_converse(x + y * width, width, y, x);
}

/// The smallest raw height in `s`; the largest representable value when `s`
/// is empty.
pub open spec fn lowest(s: Seq<Fixed>) -> int
    decreases s.len(),
{
    if s.len() == 0 {
        i64::MAX as int
    } else {
        let rest = lowest(s.drop_last());
        if s.last().raw < rest {
            s.last().raw as int
        } else {
            rest
        }
    }
}

/// The largest raw height in `s`; the smallest representable value when `s`
/// is empty.
pub open spec fn highest(s: Seq<Fixed>) -> int
    decreases s.len(),
{
    if s.len() == 0 {
        i64::MIN as int
    } else {
        let rest = highest(s.drop_last());
        if s.last().raw > rest {
            s.last().raw as int
        } else {
            rest
        }
    }
}

/// Where the raw height `h` lands when `lo` is stretched to zero and `hi` to
/// one. A flat range sends everything to zero.
pub open spec fn rescale_spec(h: int, lo: int, hi: int) -> int {
    if lo < hi {
        ((h - lo) * ONE_RAW) / (hi - lo)
    } else {
        0
    }
}

/// The heights `s` stretched linearly so that the lowest becomes zero and the
/// highest becomes one.
pub open spec fn normalize_spec(s: Seq<Fixed>) -> Seq<Fixed> {
    Seq::new(s.len(), |i: int| Fixed { raw: rescale_spec(s[i].raw as int, lowest(s), highest(s)) as i64 })
}

/// Every height lies between the lowest and the highest, and both are
/// attained.
pub proof fn lemma_extremes(s: Seq<Fixed>)
    requires
        s.len() > 0,
    ensures
        forall|i: int| 0 <= i < s.len() ==> lowest(s) <= #[trigger] s[i].raw <= highest(s),
        exists|i: int| 0 <= i < s.len() && #[trigger] s[i].raw == lowest(s),
        exists|i: int| 0 <= i < s.len() && #[trigger] s[i].raw == highest(s),
    decreases s.len(),
{
    let rest = s.drop_last();
    let last = s.len() - 1;
    if rest.len() == 0 {
        assert(s[last].raw == lowest(s));
        assert(s[last].raw == highest(s));
    } else {
        lemma_extremes(rest);
        assert forall|i: int| 0 <= i < s.len() implies lowest(s) <= #[trigger] s[i].raw
            <= highest(s) by {
            if i < last {
                assert(rest[i] == s[i]);
            }
        }
        let a = choose|i: int| 0 <= i < rest.len() && #[trigger] rest[i].raw == lowest(rest);
        let b = choose|i: int| 0 <= i < rest.len() && #[trigger] rest[i].raw == highest(rest);
        assert(rest[a] == s[a]);
        assert(rest[b] == s[b]);
        if s[last].raw < lowest(rest) {
            assert(s[last].raw == lowest(s));
        } else {
            assert(s[a].raw == lowest(s));
        }
        if s[last].raw > highest(rest) {
            assert(s[last].raw == highest(s));
        } else {
            assert(s[b].raw == highest(s));
        }
    }
}

/// A height between the bounds lands between zero and one; the lower bound
/// lands on zero and the upper bound on one.
pub proof fn lemma_rescale_range(h: int, lo: int, hi: int)
    requires
        lo <= h <= hi,
    ensures
        0 <= rescale_spec(h, lo, hi) <= ONE_RAW,
        rescale_spec(lo, lo, hi) == 0,
        lo < hi ==> rescale_spec(hi, lo, hi) == ONE_RAW,
{
    if lo < hi {
        let d = hi - lo;
        let n = h - lo;
        assert(0 <= (n * 0x1_0000_0000) / d <= 0x1_0000_0000) by (nonlinear_arith)
            requires
                0 <= n <= d,
                0 < d,
        ;
        assert((0int * 0x1_0000_0000) / d == 0) by (nonlinear_arith)
            requires
                0 < d,
        ;
        assert((d * 0x1_0000_0000) / d == 0x1_0000_0000) by (nonlinear_arith)
            requires
                0 < d,
        ;
    }
}

/// After stretching, every height lies between zero and one.
pub proof fn lemma_normalize_bounded(s: Seq<Fixed>)
    ensures
        forall|i: int|
            0 <= i < s.len() ==> 0 <= (#[trigger] normalize_spec(s)[i]).raw <= ONE_RAW,
{
    if s.len() > 0 {
        lemma_extremes(s);
        assert forall|i: int| 0 <= i < s.len() implies 0 <= (#[trigger] normalize_spec(
            s,
        )[i]).raw <= ONE_RAW by {
            lemma_rescale_range(s[i].raw as int, lowest(s), highest(s));
        }
    }
}

/// After stretching heights that are not all equal, some cell is exactly
/// zero and some cell is exactly one.
pub proof fn lemma_normalize_attains(s: Seq<Fixed>)
    requires
        s.len() > 0,
        lowest(s) < highest(s),
    ensures
        exists|i: int| 0 <= i < s.len() && (#[trigger] normalize_spec(s)[i]).raw == 0,
        exists|i: int| 0 <= i < s.len() && (#[trigger] normalize_spec(s)[i]).raw == ONE_RAW,
{
    lemma_extremes(s);
    let a = choose|i: int| 0 <= i < s.len() && #[trigger] s[i].raw == lowest(s);
    let b = choose|i: int| 0 <= i < s.len() && #[trigger] s[i].raw == highest(s);
    lemma_rescale_range(s[a].raw as int, lowest(s), highest(s));
    lemma_rescale_range(s[b].raw as int, lowest(s), highest(s));
    assert(normalize_spec(s)[a].raw == 0);
    assert(normalize_spec(s)[b].raw == ONE_RAW);
}

/// Stretching heights that are all equal gives zero everywhere.
pub proof fn lemma_normalize_flat(s: Seq<Fixed>)
    requires
        forall|i: int, j: int| 0 <= i < s.len() && 0 <= j < s.len() ==> s[i] == s[j],
    ensures
        forall|i: int| 0 <= i < s.len() ==> (#[trigger] normalize_spec(s)[i]).raw == 0,
{
    if s.len() > 0 {
        lemma_extremes(s);
        let a = choose|i: int| 0 <= i < s.len() && #[trigger] s[i].raw == lowest(s);
        let b = choose|i: int| 0 <= i < s.len() && #[trigger] s[i].raw == highest(s);
        assert(s[a] == s[b]);
    }
}

/// Stretching twice gives the same heights as stretching once.
pub proof fn lemma_normalize_idempotent(s: Seq<Fixed>)
    ensures
        normalize_spec(normalize_spec(s)) == normalize_spec(s),
{
    let t = normalize_spec(s);
    if s.len() > 0 {
        lemma_extremes(s);
        lemma_extremes(t);
        lemma_normalize_bounded(s);
        let a = choose|i: int| 0 <= i < t.len() && #[trigger] t[i].raw == lowest(t);
        let b = choose|i: int| 0 <= i < t.len() && #[trigger] t[i].raw == highest(t);
        if lowest(s) < highest(s) {
            lemma_normalize_attains(s);
            let z = choose|i: int| 0 <= i < s.len() && (#[trigger] normalize_spec(s)[i]).raw == 0;
            let o = choose|i: int|
                0 <= i < s.len() && (#[trigger] normalize_spec(s)[i]).raw == ONE_RAW;
            assert(lowest(t) <= t[z].raw);
            assert(t[o].raw <= highest(t));
            assert(0 <= t[a].raw);
            assert(t[b].raw <= ONE_RAW);
            assert(lowest(t) == 0);
            assert(highest(t) == ONE_RAW);
            assert forall|i: int| 0 <= i < t.len() implies (#[trigger] normalize_spec(t)[i]) == t[i] by {
                let h = t[i].raw as int;
                assert((h * 0x1_0000_0000) / 0x1_0000_0000 == h) by (nonlinear_arith);
            }
        } else {
            assert(forall|i: int| 0 <= i < t.len() ==> (#[trigger] t[i]).raw == 0);
            assert(t[a].raw == 0);
            assert(t[b].raw == 0);
        }
    }
    assert(normalize_spec(t) =~= t);
}

/// How much of the island profile goes into a shaped height; the rest is
/// the height as it was.
pub open spec fn bulge_mix_spec() -> Fixed {
    Fixed::spec_ratio(7, 10)
}

/// The radius of the island profile in half cells: the distance from the
/// centre at which the profile has fallen to one half.
pub open spec fn bulge_spread_spec(width: int) -> int {
    if width / 2 < 1 {
        1
    } else {
        width / 2
    }
}

/// The island profile at the cell with index `i`: a bell over the distance
/// `d` from the centre of the grid, `s^2 / (s^2 + d^2)` for the spread `s`.
/// It is one at the centre and falls toward the edges. Distances are
/// measured in half cells, so that the centre of an even grid is exact.
pub open spec fn falloff_spec(i: int, width: int) -> Fixed {
    let spread = bulge_spread_spec(width);
    Fixed {
        raw: ((spread * spread * ONE_RAW) / (spread * spread + centre_distance_spec(i, width)))
            as i64,
    }
}

/// The square of the distance, in half cells, of the cell with index `i`
/// from the centre of the grid.
pub open spec fn centre_distance_spec(i: int, width: int) -> int {
    let dx = 2 * (i % width) - (width - 1);
    let dy = 2 * (i / width) - (width - 1);
    dx * dx + dy * dy
}

/// A cell farther from the centre has no higher island profile.
pub proof fn lemma_falloff_falls(i: int, j: int, width: int)
    requires
        0 < width <= MAX_WIDTH,
        0 <= i < width * width,
        0 <= j < width * width,
        centre_distance_spec(i, width) <= centre_distance_spec(j, width),
    ensures
        falloff_spec(i, width).raw >= falloff_spec(j, width).raw,
{
    lemma_falloff_range(i, width);
    lemma_falloff_range(j, width);
    let spread = bulge_spread_spec(width);
    let s2 = spread * spread;
    let di = centre_distance_spec(i, width);
    let dj = centre_distance_spec(j, width);
    assert(1 <= s2) by (nonlinear_arith)
        requires
            s2 == spread * spread,
            1 <= spread,
    ;
    assert(0 <= di) by (nonlinear_arith)
        requires
            di == centre_distance_spec(i, width),
    ;
    assert(0 <= s2 * 0x1_0000_0000) by (nonlinear_arith)
        requires
            1 <= s2,
    ;
    vstd::arithmetic::div_mod::lemma_div_is_ordered_by_denominator(
        s2 * 0x1_0000_0000,
        s2 + di,
        s2 + dj,
    );
    assert(0 <= (s2 * 0x1_0000_0000) / (s2 + di) <= 0x1_0000_0000) by (nonlinear_arith)
        requires
            1 <= s2,
            0 <= di,
    ;
    assert(0 <= (s2 * 0x1_0000_0000) / (s2 + dj) <= 0x1_0000_0000) by (nonlinear_arith)
        requires
            1 <= s2,
            0 <= dj,
    ;
}

/// A shaped height lies between zero and one if the height did.
pub proof fn lemma_bulge_height_range(h: Fixed, i: int, width: int)
    requires
        0 < width <= MAX_WIDTH,
        0 <= i < width * width,
        0 <= h.raw <= ONE_RAW,
    ensures
        0 <= bulge_height_spec(h, i, width).raw <= ONE_RAW,
{
    lemma_falloff_range(i, width);
    let mix = bulge_mix_spec();
    assert(0 <= mix.raw <= ONE_RAW) by {
        assert(0 <= (7 * 0x1_0000_0000int) / 10 <= 0x1_0000_0000);
    }
    lemma_mul_shrinks(falloff_spec(i, width).spec_sub(h), mix);
}

/// The shaped height of the cell with index `i`: the blend of its height
/// and the island profile.
pub open spec fn bulge_height_spec(h: Fixed, i: int, width: int) -> Fixed {
    lin_inter_spec(h, falloff_spec(i, width), bulge_mix_spec())
}

/// The island profile lies above zero and at most at one.
pub proof fn lemma_falloff_range(i: int, width: int)
    requires
        0 < width <= MAX_WIDTH,
        0 <= i < width * width,
    ensures
        0 <= falloff_spec(i, width).raw <= ONE_RAW,
        2 * (i % width) == width - 1 && 2 * (i / width) == width - 1 ==> falloff_spec(
            i,
            width,
        ).raw == ONE_RAW,
{
    lemma_row_in_range(i, width);
    let dx = 2 * (i % width) - (width - 1);
    let dy = 2 * (i / width) - (width - 1);
    let spread = bulge_spread_spec(width);
    let s2 = spread * spread;
    let d2 = centre_distance_spec(i, width);
    assert(1 <= s2 <= 0x4000_0000_0000_0000) by (nonlinear_arith)
        requires
            s2 == spread * spread,
            1 <= spread <= 0x8000_0000,
    ;
    assert(0 <= d2) by (nonlinear_arith)
        requires
            d2 == dx * dx + dy * dy,
    ;
    assert(0 <= (s2 * 0x1_0000_0000) / (s2 + d2) <= 0x1_0000_0000) by (nonlinear_arith)
        requires
            1 <= s2,
            0 <= d2,
    ;
    if d2 == 0 {
        assert((s2 * 0x1_0000_0000) / s2 == 0x1_0000_0000) by (nonlinear_arith)
            requires
                1 <= s2,
        ;
    }
    if dx == 0 && dy == 0 {
        assert(d2 == 0) by (nonlinear_arith)
            requires
                d2 == dx * dx + dy * dy,
                dx == 0,
                dy == 0,
        ;
    }
}

/// Stretching a grid twice gives the same grid as stretching it once.
pub proof fn lemma_normalized_idempotent(grid: Grid)
    ensures
        grid.normalized().normalized() == grid.normalized(),
{
    lemma_normalize_idempotent(grid.heights);
}

impl PerlinMap {
    /// The content is a well-formed grid whose cells can be indexed.
    pub open spec fn wf(&self) -> bool {
        &&& self@.wf()
        &&& self.map_size * self.map_size <= usize::MAX
    }

    /// A grid `width` cells wide whose heights are `amplitude` times the
    /// fractal noise at each cell's coordinates scaled by `frequency`, and
    /// whose flow is zero everywhere.
    pub fn new(width: usize, frequency: Fixed, seed: i32, amplitude: Fixed) -> (r: PerlinMap)
        requires
            0 < width <= MAX_WIDTH,
            width * width <= usize::MAX,
        ensures
            r.wf(),
            r.map_size == width,
            r@ == Grid::noise(width as int, frequency, seed, amplitude),
            forall|i: int|
                0 <= i < width * width ==> r.data@[i] == noise_height_spec(
                    i,
                    width as int,
                    frequency,
                    seed,
                    amplitude,
                ),
            forall|i: int| 0 <= i < width * width ==> r.flow@[i] == Fixed::spec_zero(),
            0 <= frequency.raw && 0 <= amplitude.raw ==> forall|i: int|
                0 <= i < width * width ==> 0 <= (#[trigger] r.data@[i]).raw <= amplitude.raw,
    {
        let total: usize = width * width;
        let mut data: Vec<Fixed> = Vec::new();
        let mut flow: Vec<Fixed> = Vec::new();
        let mut i: usize = 0;
        while i < total
            invariant
                0 < width <= MAX_WIDTH,
                total == width * width,
                i <= total,
                data@.len() == i,
                flow@.len() == i,
                forall|k: int|
                    0 <= k < i ==> data@[k] == noise_height_spec(
                        k,
                        width as int,
                        frequency,
                        seed,
                        amplitude,
                    ),
                forall|k: int| 0 <= k < i ==> flow@[k] == Fixed::spec_zero(),
            decreases total - i,
        {
            proof {
                lemma_row_in_range(i as int, width as int);
            }
            let x: i32 = (i % width) as i32;
            let y: i32 = (i / width) as i32;
            let noise = perlin2d(Fixed::from_int(x), Fixed::from_int(y), frequency, OCTAVES, seed);
            data.push(amplitude.mul(noise));
            flow.push(Fixed::zero());
            i = i + 1;
        }
        proof {
            assert(data@ =~= Grid::noise(width as int, frequency, seed, amplitude).heights);
            assert(flow@ =~= Grid::noise(width as int, frequency, seed, amplitude).flow);
            if 0 <= frequency.raw && 0 <= amplitude.raw {
                assert forall|k: int| 0 <= k < width * width implies 0 <= (#[trigger] data@[k]).raw
                    <= amplitude.raw by {
                    lemma_noise_height_range(k, width as int, frequency, seed, amplitude);
                }
            }
        }
        PerlinMap { data, flow, map_size: width }
    }

    /// The cell `(x, y)`; outside the grid, a cell without height or flow.
    pub fn cell(&self, x: usize, y: usize) -> (r: Cell)
        requires
            self.wf(),
        ensures
            r == self@.cell(x as int, y as int),
    {
        if x >= self.map_size || y >= self.map_size {
            return Cell { height: Fixed::zero(), flow: Fixed::zero() };
        }
        proof {
            lemma_cell_index(x as int, y as int, self.map_size as int);
            assert(0 <= y * self.map_size <= x + y * self.map_size) by (nonlinear_arith)
                requires
                    0 <= y,
                    0 <= x,
                    0 <= self.map_size,
            ;
        }
        let i: usize = x + y * self.map_size;
        Cell { height: self.data[i], flow: self.flow[i] }
    }

    /// The height of the cell `(x, y)`, zero outside the grid.
    pub fn get_z(&self, x: usize, y: usize) -> (r: Fixed)
        requires
            self.wf(),
        ensures
            r == self@.get_z(x as int, y as int),
    {
        if x >= self.map_size || y >= self.map_size {
            return Fixed::zero();
        }
        proof {
            lemma_cell_index(x as int, y as int, self.map_size as int);
            assert(0 <= y * self.map_size <= x + y * self.map_size) by (nonlinear_arith)
                requires
                    0 <= y,
                    0 <= x,
                    0 <= self.map_size,
            ;
        }
        self.data[x + y * self.map_size]
    }
    /// Stretches the heights linearly so that the lowest cell becomes zero
    /// and the highest becomes one. Heights that are all equal become zero.
    /// The flow is left alone.
    pub fn normalize(&mut self)
        requires
            old(self).wf(),
        ensures
            final(self).wf(),
            final(self).map_size == old(self).map_size,
            final(self)@ == old(self)@.normalized(),
            forall|i: int|
                0 <= i < final(self).data@.len() ==> 0 <= (#[trigger] final(self).data@[i]).raw
                    <= ONE_RAW,
            lowest(old(self).data@) < highest(old(self).data@) ==> {
                &&& exists|i: int|
                    0 <= i < final(self).data@.len() && (#[trigger] final(self).data@[i]).raw == 0
                &&& exists|i: int|
                    0 <= i < final(self).data@.len() && (#[trigger] final(self).data@[i]).raw
                        == ONE_RAW
            },
            lowest(old(self).data@) >= highest(old(self).data@) ==> forall|i: int|
                0 <= i < final(self).data@.len() ==> (#[trigger] final(self).data@[i]).raw == 0,
    {
        let ghost before = self.data@;
        let n: usize = self.data.len();
        let mut lo: i64 = 0x7fff_ffff_ffff_ffff;
        let mut hi: i64 = -0x8000_0000_0000_0000;
        let mut i: usize = 0;
        while i < n
            invariant
                i <= n,
                n == self.data@.len(),
                self.data@ == before,
                lo == lowest(before.take(i as int)),
                hi == highest(before.take(i as int)),
            decreases n - i,
        {
            proof {
                assert(before.take(i + 1).drop_last() =~= before.take(i as int));
            }
            let h: i64 = self.data[i].raw;
            if h < lo {
                lo = h;
            }
            if h > hi {
                hi = h;
            }
            i = i + 1;
        }
        proof {
            assert(before.take(n as int) =~= before);
            let w = old(self).map_size as int;
            assert(0 < w * w) by (nonlinear_arith)
                requires
                    0 < w,
            ;
            lemma_extremes(before);
        }
        let mut k: usize = 0;
        while k < n
            invariant
                k <= n,
                n == self.data@.len(),
                n == before.len(),
                n > 0,
                self.map_size == old(self).map_size,
                self.flow@ == old(self).flow@,
                lo == lowest(before),
                hi == highest(before),
                forall|j: int| 0 <= j < n ==> lo <= (#[trigger] before[j]).raw <= hi,
                forall|j: int| 0 <= j < k ==> self.data@[j] == normalize_spec(before)[j],
                forall|j: int| k <= j < n ==> self.data@[j] == before[j],
            decreases n - k,
        {
            let h: i64 = self.data[k].raw;
            assert(h == before[k as int].raw);
            let scaled: i64 = if lo < hi {
                let num: i128 = (h as i128 - lo as i128) * 0x1_0000_0000;
                let den: i128 = hi as i128 - lo as i128;
                proof {
                    lemma_rescale_range(h as int, lo as int, hi as int);
                }
                (num / den) as i64
            } else {
                0
            };
            self.data.set(k, Fixed { raw: scaled });
            k = k + 1;
        }
        proof {
            assert(self.data@ =~= normalize_spec(before));
            lemma_normalize_bounded(before);
            if lo < hi {
                lemma_normalize_attains(before);
            } else {
                assert forall|i: int| 0 <= i < n implies (#[trigger] self.data@[i]).raw == 0 by {}
            }
        }
    }
    /// The island profile at the cell with index `i`.
    fn falloff(&self, i: usize) -> (r: Fixed)
        requires
            self.wf(),
            i < self.map_size * self.map_size,
        ensures
            r == falloff_spec(i as int, self.map_size as int),
    {
        let width: i128 = self.map_size as i128;
        proof {
            lemma_row_in_range(i as int, self.map_size as int);
            lemma_falloff_range(i as int, self.map_size as int);
        }
        let dx: i128 = 2 * ((i % self.map_size) as i128) - (width - 1);
        let dy: i128 = 2 * ((i / self.map_size) as i128) - (width - 1);
        let spread: i128 = if width / 2 < 1 {
            1
        } else {
            width / 2
        };
        assert(1 <= spread * spread <= 0x4000_0000_0000_0000) by (nonlinear_arith)
            requires
                1 <= spread <= 0x8000_0000,
        ;
        assert(0 <= dx * dx <= 0x1_0000_0000_0000_0000) by (nonlinear_arith)
            requires
                -0x1_0000_0000 <= dx <= 0x1_0000_0000,
        ;
        assert(0 <= dy * dy <= 0x1_0000_0000_0000_0000) by (nonlinear_arith)
            requires
                -0x1_0000_0000 <= dy <= 0x1_0000_0000,
        ;
        let s2: i128 = spread * spread;
        let d2: i128 = dx * dx + dy * dy;
        Fixed { raw: ((s2 * 0x1_0000_0000) / (s2 + d2)) as i64 }
    }

    /// Shapes the terrain into an island: every height becomes the blend of
    /// itself and a bell-shaped profile that is one at the centre of the
    /// grid and falls toward the edges. The flow is left alone.
    pub fn create_bulge(&mut self)
        requires
            old(self).wf(),
        ensures
            final(self).wf(),
            final(self).map_size == old(self).map_size,
            final(self)@ == old(self)@.bulged(),
            forall|i: int|
                0 <= i < old(self).data@.len() && 0 <= old(self).data@[i].raw <= ONE_RAW ==> 0 <= (
                #[trigger] final(self).data@[i]).raw <= ONE_RAW,
    {
        let n: usize = self.data.len();
        let mix = Fixed::ratio(7, 10);
        let mut i: usize = 0;
        while i < n
            invariant
                self.wf(),
                self.map_size == old(self).map_size,
                self.flow@ == old(self).flow@,
                n == self.data@.len(),
                n == old(self).data@.len(),
                i <= n,
                mix == bulge_mix_spec(),
                forall|k: int|
                    0 <= k < i ==> self.data@[k] == bulge_height_spec(
                        old(self).data@[k],
                        k,
                        old(self).map_size as int,
                    ),
                forall|k: int| i <= k < n ==> self.data@[k] == old(self).data@[k],
            decreases n - i,
        {
            let profile = self.falloff(i);
            let shaped = lin_inter(self.data[i], profile, mix);
            self.data.set(i, shaped);
            i = i + 1;
        }
        proof {
            assert(self.data@ =~= old(self)@.bulged().heights);
            assert forall|i: int|
                0 <= i < old(self).data@.len() && 0 <= old(self).data@[i].raw
                    <= ONE_RAW implies 0 <= (#[trigger] self.data@[i]).raw <= ONE_RAW by {
                lemma_bulge_height_range(old(self).data@[i], i, old(self).map_size as int);
            }
        }
    }
}

} // verus!
