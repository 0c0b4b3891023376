//! Bilinear reading and writing of the four cells around a position.

use vstd::prelude::*;
use crate::fixed::{Fixed, ONE_RAW};
use crate::heightfield::{
    HEIGHT_LIMIT_RAW, all_within_limit, lemma_total_update, total_spec, within_limit,
};
use crate::vector::Vec2;

verus! {

/// The part of `amount` that goes to a corner with the weights `wx` and `wy`.
pub open spec fn share_spec(amount: Fixed, wx: Fixed, wy: Fixed) -> Fixed {
    amount.spec_mul(wx).spec_mul(wy)
}

/// One minus `w`: the weight of the near corner when `w` is the offset.
pub open spec fn rest_spec(w: Fixed) -> Fixed {
    Fixed::spec_one().spec_sub(w)
}

/// The bilinear blend of the four cells whose first is at `idx`: the cell
/// itself, its right neighbour, the one below it in the next row, and that
/// one's right neighbour.
pub open spec fn get_influence_spec(map: Seq<Fixed>, width: int, idx: int, offset: Vec2) -> Fixed {
    let near_x = rest_spec(offset.x);
    let near_y = rest_spec(offset.y);
    Fixed::spec_zero().spec_add(share_spec(map[idx], near_x, near_y)).spec_add(
        share_spec(map[idx + 1], offset.x, near_y),
    ).spec_add(share_spec(map[idx + width], near_x, offset.y)).spec_add(
        share_spec(map[idx + 1 + width], offset.x, offset.y),
    )
}

/// The map after `amount` has been spread over the four cells whose first
/// is at `idx`, each cell getting its bilinear share.
pub open spec fn incr_influence_spec(
    map: Seq<Fixed>,
    width: int,
    idx: int,
    offset: Vec2,
    amount: Fixed,
) -> Seq<Fixed> {
    let near_x = rest_spec(offset.x);
    let near_y = rest_spec(offset.y);
    let m1 = map.update(idx, map[idx].spec_add(share_spec(amount, near_x, near_y)));
    let m2 = m1.update(idx + 1, m1[idx + 1].spec_add(share_spec(amount, offset.x, near_y)));
    let m3 = m2.update(
        idx + width,
        m2[idx + width].spec_add(share_spec(amount, near_x, offset.y)),
    );
    m3.update(
        idx + 1 + width,
        m3[idx + 1 + width].spec_add(share_spec(amount, offset.x, offset.y)),
    )
}

/// Spreading an amount changes no cell but the four around the position,
/// and keeps the number of cells.
pub proof fn lemma_incr_influence_local(
    map: Seq<Fixed>,
    width: int,
    idx: int,
    offset: Vec2,
    amount: Fixed,
)
    requires
        0 <= idx,
        0 <= width,
        idx + 1 + width < map.len(),
    ensures
        incr_influence_spec(map, width, idx, offset, amount).len() == map.len(),
        forall|i: int|
            0 <= i < map.len() && i != idx && i != idx + 1 && i != idx + width && i != idx + 1
                + width ==> incr_influence_spec(map, width, idx, offset, amount)[i] == map[i],
{
}

/// The sum of the four shares of `amount` at the given offsets.
pub open spec fn shares_total_spec(amount: Fixed, offset: Vec2) -> int {
    let near_x = rest_spec(offset.x);
    let near_y = rest_spec(offset.y);
    share_spec(amount, near_x, near_y).raw + share_spec(amount, offset.x, near_y).raw
        + share_spec(amount, near_x, offset.y).raw + share_spec(amount, offset.x, offset.y).raw
}

/// Two parts of a quantity, taken by weights that sum to one and each
/// rounded down, sum to the quantity or one raw unit less.
pub proof fn lemma_parts_sum(p: int, u: int, v: int)
    requires
        0 <= p,
        0 <= u,
        0 <= v,
        u + v == ONE_RAW,
    ensures
        p - 1 <= (p * u) / (ONE_RAW as int) + (p * v) / (ONE_RAW as int) <= p,
        0 <= (p * u) / (ONE_RAW as int) <= p,
        0 <= (p * v) / (ONE_RAW as int) <= p,
{
    let k = 0x1_0000_0000int;
    let a = (p * u) / k;
    let b = (p * v) / k;
    let ra = (p * u) % k;
    let rb = (p * v) % k;
    assert(p * u == k * a + ra && 0 <= ra < k) by {
        vstd::arithmetic::div_mod::lemma_fundamental_div_mod(p * u, k);
    }
    assert(p * v == k * b + rb && 0 <= rb < k) by {
        vstd::arithmetic::div_mod::lemma_fundamental_div_mod(p * v, k);
    }
    assert(p * u + p * v == p * k) by (nonlinear_arith)
        requires
            u + v == k,
    ;
    assert(0 <= p * u && 0 <= p * v) by (nonlinear_arith)
        requires
            0 <= p,
            0 <= u,
            0 <= v,
    ;
    assert(k * (a + b) == k * a + k * b) by (nonlinear_arith);
    assert(p * k == k * p) by (nonlinear_arith);
    assert(k * (a + b) + ra + rb == k * p);
    assert(a + b <= p && a + b >= p - 1) by (nonlinear_arith)
        requires
            k * (a + b) + ra + rb == k * p,
            0 <= ra < k,
            0 <= rb < k,
            k == 0x1_0000_0000,
    ;
    assert(0 <= a && 0 <= b) by (nonlinear_arith)
        requires
            a == (p * u) / k,
            b == (p * v) / k,
            0 <= p * u,
            0 <= p * v,
            k == 0x1_0000_0000,
    ;
}

/// The four shares of an amount, at offsets between zero and one, have the
/// sign of the amount and sum to the amount or up to three raw units less
/// in magnitude: spreading makes no mass, and loses next to none.
pub proof fn lemma_shares_bounded(amount: Fixed, offset: Vec2)
    requires
        0 <= offset.x.raw <= ONE_RAW,
        0 <= offset.y.raw <= ONE_RAW,
        i64::MIN < amount.raw,
    ensures
        amount.raw >= 0 ==> amount.raw - 3 <= shares_total_spec(amount, offset) <= amount.raw,
        amount.raw <= 0 ==> amount.raw <= shares_total_spec(amount, offset) <= amount.raw + 3,
        amount.raw >= 0 ==> {
            &&& 0 <= share_spec(amount, rest_spec(offset.x), rest_spec(offset.y)).raw <= amount.raw
            &&& 0 <= share_spec(amount, offset.x, rest_spec(offset.y)).raw <= amount.raw
            &&& 0 <= share_spec(amount, rest_spec(offset.x), offset.y).raw <= amount.raw
            &&& 0 <= share_spec(amount, offset.x, offset.y).raw <= amount.raw
        },
        amount.raw <= 0 ==> {
            &&& amount.raw <= share_spec(amount, rest_spec(offset.x), rest_spec(offset.y)).raw <= 0
            &&& amount.raw <= share_spec(amount, offset.x, rest_spec(offset.y)).raw <= 0
            &&& amount.raw <= share_spec(amount, rest_spec(offset.x), offset.y).raw <= 0
            &&& amount.raw <= share_spec(amount, offset.x, offset.y).raw <= 0
        },
{
    let k = 0x1_0000_0000int;
    let m: int = if amount.raw >= 0 { amount.raw as int } else { -(amount.raw as int) };
    let ox = offset.x.raw as int;
    let oy = offset.y.raw as int;
    let nx = k - ox;
    let ny = k - oy;
    assert(rest_spec(offset.x).raw == nx);
    assert(rest_spec(offset.y).raw == ny);
    let p = (m * nx) / k;
    let q = (m * ox) / k;
    lemma_parts_sum(m, nx, ox);
    lemma_parts_sum(p, ny, oy);
    lemma_parts_sum(q, ny, oy);
    assert(amount.raw * nx == (if amount.raw >= 0 { m * nx } else { -(m * nx) })
        && amount.raw * ox == (if amount.raw >= 0 { m * ox } else { -(m * ox) }) && 0 <= m * nx
        && 0 <= m * ox) by (nonlinear_arith)
        requires
            m == amount.raw || m == -amount.raw,
            0 <= m,
            amount.raw >= 0 ==> m == amount.raw,
            amount.raw < 0 ==> m == -amount.raw,
            0 <= nx,
            0 <= ox,
    ;
    let sp = amount.spec_mul(rest_spec(offset.x));
    let sq = amount.spec_mul(offset.x);
    assert(sp.raw == (if amount.raw >= 0 { p } else { -p }));
    assert(sq.raw == (if amount.raw >= 0 { q } else { -q }));
    assert(sp.raw * ny == (if amount.raw >= 0 { p * ny } else { -(p * ny) }) && sp.raw * oy == (
    if amount.raw >= 0 { p * oy } else { -(p * oy) }) && sq.raw * ny == (if amount.raw >= 0 {
        q * ny
    } else {
        -(q * ny)
    }) && sq.raw * oy == (if amount.raw >= 0 { q * oy } else { -(q * oy) }) && 0 <= p * ny && 0
        <= p * oy && 0 <= q * ny && 0 <= q * oy) by (nonlinear_arith)
        requires
            amount.raw >= 0 ==> sp.raw == p && sq.raw == q,
            amount.raw < 0 ==> sp.raw == -p && sq.raw == -q,
            0 <= p,
            0 <= q,
            0 <= ny,
            0 <= oy,
    ;
}

/// Spreading an amount over cells whose heights are within the limit adds
/// the four shares to the sum of all heights, and nothing else.
pub proof fn lemma_incr_influence_total(
    map: Seq<Fixed>,
    width: int,
    idx: int,
    offset: Vec2,
    amount: Fixed,
)
    requires
        0 <= idx,
        2 <= width,
        idx + 1 + width < map.len(),
        all_within_limit(map),
        within_limit(amount),
        0 <= offset.x.raw <= ONE_RAW,
        0 <= offset.y.raw <= ONE_RAW,
    ensures
        total_spec(incr_influence_spec(map, width, idx, offset, amount)) == total_spec(map)
            + shares_total_spec(amount, offset),
{
    lemma_shares_bounded(amount, offset);
    let near_x = rest_spec(offset.x);
    let near_y = rest_spec(offset.y);
    let m1 = map.update(idx, map[idx].spec_add(share_spec(amount, near_x, near_y)));
    let m2 = m1.update(idx + 1, m1[idx + 1].spec_add(share_spec(amount, offset.x, near_y)));
    let m3 = m2.update(
        idx + width,
        m2[idx + width].spec_add(share_spec(amount, near_x, offset.y)),
    );
    assert(within_limit(map[idx]));
    assert(within_limit(map[idx + 1]));
    assert(within_limit(map[idx + width]));
    assert(within_limit(map[idx + 1 + width]));
    lemma_total_update(map, idx, map[idx].spec_add(share_spec(amount, near_x, near_y)));
    lemma_total_update(m1, idx + 1, m1[idx + 1].spec_add(share_spec(amount, offset.x, near_y)));
    lemma_total_update(
        m2,
        idx + width,
        m2[idx + width].spec_add(share_spec(amount, near_x, offset.y)),
    );
    lemma_total_update(
        m3,
        idx + 1 + width,
        m3[idx + 1 + width].spec_add(share_spec(amount, offset.x, offset.y)),
    );
}

fn share(amount: Fixed, wx: Fixed, wy: Fixed) -> (r: Fixed)
    ensures
        r == share_spec(amount, wx, wy),
{
    amount.mul(wx).mul(wy)
}

/// The bilinear blend of the four cells whose first is at `idx`.
pub fn get_influence(map: &Vec<Fixed>, map_size: usize, idx: usize, offset: Vec2) -> (r: Fixed)
    requires
        idx + 1 + map_size < map@.len(),
    ensures
        r == get_influence_spec(map@, map_size as int, idx as int, offset),
{
    let cells: usize = map.len();
    let near_x = Fixed::one().sub(offset.x);
    let near_y = Fixed::one().sub(offset.y);
    let mut influence = Fixed::zero();
    influence = influence.add(share(map[idx], near_x, near_y));
    influence = influence.add(share(map[idx + 1], offset.x, near_y));
    influence = influence.add(share(map[idx + map_size], near_x, offset.y));
    influence = influence.add(share(map[idx + 1 + map_size], offset.x, offset.y));
    influence
}

/// Spreads `amt` over the four cells whose first is at `idx`, each cell
/// getting its bilinear share. No other cell changes.
pub fn incr_influence(map: &mut Vec<Fixed>, map_size: usize, idx: usize, offset: Vec2, amt: Fixed)
    requires
        idx + 1 + map_size < old(map)@.len(),
    ensures
        final(map)@ == incr_influence_spec(old(map)@, map_size as int, idx as int, offset, amt),
        final(map)@.len() == old(map)@.len(),
        forall|i: int|
            0 <= i < old(map)@.len() && i != idx && i != idx + 1 && i != idx + map_size && i
                != idx + 1 + map_size ==> final(map)@[i] == old(map)@[i],
{
    let cells: usize = map.len();
    let near_x = Fixed::one().sub(offset.x);
    let near_y = Fixed::one().sub(offset.y);
    let a = map[idx].add(share(amt, near_x, near_y));
    map.set(idx, a);
    let b = map[idx + 1].add(share(amt, offset.x, near_y));
    map.set(idx + 1, b);
    let c = map[idx + map_size].add(share(amt, near_x, offset.y));
    map.set(idx + map_size, c);
    let d = map[idx + 1 + map_size].add(share(amt, offset.x, offset.y));
    map.set(idx + 1 + map_size, d);
}

} // verus!
