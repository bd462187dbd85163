//! The hex grid indexer: a deterministic mapping from integer lattice index
//! pairs to exact positions on the canonical unit-side hexagonal lattice.
//!
//! The lattice of hexagon corners is the union of four interleaved
//! rectangular sub-lattices with horizontal period 3 and vertical period
//! `sqrt(3)`.  Each index is split into a coarse cell number (floor of half)
//! and a parity bit; the pair of parity bits selects one of four fixed
//! offsets.  Positions are kept exact: the horizontal coordinate is counted
//! in half-units, the vertical one in units of `sqrt(3)/2`.

use vstd::prelude::*;
use vstd::arithmetic::div_mod::{
    lemma_fundamental_div_mod, lemma_fundamental_div_mod_converse, lemma_mod_bound,
    lemma_add_mod_noop,
};

verus! {

/// Largest magnitude a lattice index may have in `split_index`.  Far beyond
/// any window the mesh builder enumerates, but small enough that the shift
/// trick below stays inside `i64`.
pub const INDEX_MAX: i64 = 1099511627776;

/// Half of `INDEX_MAX`, used to undo the shift that `split_index` applies
/// to work on non-negative numbers.
const HALF_INDEX_MAX: i64 = 549755813888;

/// Coarse cell number of an index: the floor of half the index.
/// In spec arithmetic `/` is Euclidean division, which floors for a
/// positive divisor, so this is exact for negative indices too.
pub open spec fn high_part(v: int) -> int {
    v / 2
}

/// Parity bit of an index, always 0 or 1, also for negative indices.
pub open spec fn low_part(v: int) -> int {
    v % 2
}

/// Horizontal offset, in half-units, of the sub-lattice selected by the two
/// parity bits: (0,0) sits at 0, (1,0) at 1, (0,1) at -1/2, (1,1) at 3/2.
pub open spec fn offset_xh(li: int, lj: int) -> int {
    if lj == 0 {
        if li == 0 {
            0
        } else {
            2
        }
    } else {
        if li == 0 {
            -1
        } else {
            3
        }
    }
}

/// Vertical offset, in units of `sqrt(3)/2`, of the selected sub-lattice:
/// rows with odd `j` sit half a period above rows with even `j`.
pub open spec fn offset_yr(lj: int) -> int {
    if lj == 0 {
        0
    } else {
        1
    }
}

/// Horizontal position of lattice vertex `(i, j)`, in half-units: the base
/// cell contributes three whole units, the parity bits the offset.
pub open spec fn pure_xh(i: int, j: int) -> int {
    6 * high_part(i) + offset_xh(low_part(i), low_part(j))
}

/// Vertical position of lattice vertex `(i, j)`, in units of `sqrt(3)/2`:
/// the base cell contributes a whole period `sqrt(3)`, the parity bit half.
pub open spec fn pure_yr(j: int) -> int {
    2 * high_part(j) + offset_yr(low_part(j))
}

/// A lattice vertex position prior to any transform: `xh` half-units across,
/// `yr` units of `sqrt(3)/2` up.
#[derive(Clone, Copy, Debug, PartialEq, Eq, Structural)]
pub struct PureCoord {
    pub xh: i64,
    pub yr: i64,
}

/// Four times the squared distance between two pure lattice positions.
/// A half-unit across contributes 1, a `sqrt(3)/2` step up contributes 3,
/// so two positions one unit apart have a gap of exactly 4.
pub open spec fn sq_gap_quarters(xh1: int, yr1: int, xh2: int, yr2: int) -> int {
    (xh1 - xh2) * (xh1 - xh2) + 3 * ((yr1 - yr2) * (yr1 - yr2))
}

/// Two lattice positions are adjacent on the honeycomb when they lie exactly
/// one hexagon side (one unit) apart.
pub open spec fn lattice_adjacent(xh1: int, yr1: int, xh2: int, yr2: int) -> bool {
    sq_gap_quarters(xh1, yr1, xh2, yr2) == 4
}

/// Splits an index into its coarse cell number and parity bit, flooring
/// toward negative infinity: `split_index(-1)` is `(-1, 1)`, not `(0, -1)`.
pub fn split_index(v: i64) -> (r: (i64, i64))
    requires
        -INDEX_MAX <= v <= INDEX_MAX,
    ensures
        r.0 == high_part(v as int),
        r.1 == low_part(v as int),
        v == 2 * r.0 + r.1,
        0 <= r.1 <= 1,
{
    let shifted: u64 = (v + INDEX_MAX) as u64;
    let q: u64 = shifted / 2;
    let l: u64 = shifted % 2;
    let high: i64 = q as i64 - HALF_INDEX_MAX;
    let low: i64 = l as i64;
    proof {
        lemma_fundamental_div_mod_converse(v as int, 2, high as int, low as int);
    }
    (high, low)
}

/// The offset, in (half-unit, `sqrt(3)/2`-unit) counts, of the sub-lattice
/// selected by a pair of parity bits.  Exactly four combinations exist; any
/// other pair would be a logic error, so the last arm is proved unreachable.
fn lattice_offset(li: i64, lj: i64) -> (o: (i64, i64))
    requires
        0 <= li <= 1,
        0 <= lj <= 1,
    ensures
        o.0 == offset_xh(li as int, lj as int),
        o.1 == offset_yr(lj as int),
{
    match (li, lj) {
        (0i64, 0i64) => (0i64, 0i64),
        (1i64, 0i64) => (2i64, 0i64),
        (0i64, 1i64) => (-1i64, 1i64),
        (1i64, 1i64) => (3i64, 1i64),
        _ => {
            proof {
                assert(false);
            }
            (0i64, 0i64)
        },
    }
}

/// Position of lattice vertex `(i, j)` on the canonical lattice, computed by
/// the split / select / sum scheme.  The extra bound clauses let callers
/// chain the result into further exact arithmetic without overflow.
pub fn pure_vertex(i: i64, j: i64) -> (p: PureCoord)
    requires
        -INDEX_MAX <= i <= INDEX_MAX,
        -INDEX_MAX <= j <= INDEX_MAX,
    ensures
        p.xh == pure_xh(i as int, j as int),
        p.yr == pure_yr(j as int),
        3 * i - 4 <= p.xh <= 3 * i + 3,
        j - 1 <= p.yr <= j + 1,
{
    let (hi, li) = split_index(i);
    let (hj, lj) = split_index(j);
    let (ox, oy) = lattice_offset(li, lj);
    PureCoord { xh: 6 * hi + ox, yr: 2 * hj + oy }
}

/// How the split of `v + 1` relates to the split of `v`: the parity bit
/// alternates and the coarse cell number advances when the bit wraps.
pub proof fn lemma_split_succ(v: int)
    ensures
        low_part(v) == 0 ==> high_part(v + 1) == high_part(v) && low_part(v + 1) == 1,
        low_part(v) == 1 ==> high_part(v + 1) == high_part(v) + 1 && low_part(v + 1) == 0,
{
    lemma_fundamental_div_mod(v, 2);
    lemma_mod_bound(v, 2);
    if v % 2 == 0 {
        lemma_fundamental_div_mod_converse(v + 1, 2, v / 2, 1);
    } else {
        lemma_fundamental_div_mod_converse(v + 1, 2, v / 2 + 1, 0);
    }
}

/// Indices of equal sum parity have equal parity bits.
pub proof fn lemma_equal_parity(i: int, j: int)
    requires
        (i + j) % 2 == 0,
    ensures
        low_part(i) == low_part(j),
{
    lemma_add_mod_noop(i, j, 2);
    lemma_mod_bound(i, 2);
    lemma_mod_bound(j, 2);
}

/// The vertical lattice coordinate of `(i, j)` is `j` itself: the coarse
/// cell contributes two half-periods and the parity bit the odd half.
pub proof fn lemma_pure_yr_is_index(j: int)
    ensures
        pure_yr(j) == j,
{
    lemma_fundamental_div_mod(j, 2);
    lemma_mod_bound(j, 2);
}

/// The indexer maps distinct index pairs to distinct lattice positions: it
/// is a bijection between index pairs and lattice vertices.
pub proof fn lemma_indexer_injective(i1: int, j1: int, i2: int, j2: int)
    requires
        pure_xh(i1, j1) == pure_xh(i2, j2),
        pure_yr(j1) == pure_yr(j2),
    ensures
        i1 == i2,
        j1 == j2,
{
    lemma_pure_yr_is_index(j1);
    lemma_pure_yr_is_index(j2);
    lemma_fundamental_div_mod(i1, 2);
    lemma_fundamental_div_mod(i2, 2);
    lemma_mod_bound(i1, 2);
    lemma_mod_bound(i2, 2);
    // Both horizontal offsets come from the same row parity, so they
    // differ by less than a full cell; equal positions force equal cells
    // and equal parity bits.
    assert(6 * high_part(i1) + offset_xh(low_part(i1), low_part(j1)) == 6 * high_part(i2)
        + offset_xh(low_part(i2), low_part(j1)));
}

/// Moving one step up the `j` axis always lands on an adjacent lattice
/// vertex: the vertical offset advances by half a period and the horizontal
/// one swings by half a unit, one hexagon side in all.
pub proof fn lemma_vertical_adjacent(i: int, j: int)
    ensures
        lattice_adjacent(pure_xh(i, j), pure_yr(j), pure_xh(i, j + 1), pure_yr(j + 1)),
{
    lemma_split_succ(j);
    lemma_mod_bound(i, 2);
    lemma_mod_bound(j, 2);
    let x1 = pure_xh(i, j);
    let y1 = pure_yr(j);
    let x2 = pure_xh(i, j + 1);
    let y2 = pure_yr(j + 1);
    assert(y1 - y2 == -1);
    assert(x1 - x2 == 1 || x1 - x2 == -1);
    assert((x1 - x2) * (x1 - x2) + 3 * ((y1 - y2) * (y1 - y2)) == 4) by (nonlinear_arith)
        requires
            x1 - x2 == 1 || x1 - x2 == -1,
            y1 - y2 == -1,
    ;
    assert(sq_gap_quarters(x1, y1, x2, y2) == 4);
}

/// Moving one step right along the `i` axis lands on an adjacent lattice
/// vertex exactly when the index sum is even; on odd sums the nearest
/// horizontal neighbour lies to the left instead.
pub proof fn lemma_horizontal_adjacent(i: int, j: int)
    requires
        (i + j) % 2 == 0,
    ensures
        lattice_adjacent(pure_xh(i, j), pure_yr(j), pure_xh(i + 1, j), pure_yr(j)),
{
    lemma_equal_parity(i, j);
    lemma_split_succ(i);
    lemma_mod_bound(i, 2);
    lemma_mod_bound(j, 2);
    let x1 = pure_xh(i, j);
    let y1 = pure_yr(j);
    let x2 = pure_xh(i + 1, j);
    let y2 = pure_yr(j);
    assert(y1 - y2 == 0);
    assert(x1 - x2 == -2);
    assert((x1 - x2) * (x1 - x2) + 3 * ((y1 - y2) * (y1 - y2)) == 4) by (nonlinear_arith)
        requires
            x1 - x2 == -2,
            y1 - y2 == 0,
    ;
    assert(sq_gap_quarters(x1, y1, x2, y2) == 4);
}

} // verus!
