//! The affine transform that carries pure lattice positions to final world
//! coordinates, and the exact coordinate type it produces.
//!
//! Entries are rationals over one common denominator, so the map stays
//! exact.  A pure position `(xh/2, yr*sqrt(3)/2)` lands on
//! `((a + b*sqrt(3)) / den, (c + d*sqrt(3)) / den)`: applying a rational
//! affine map keeps every coordinate inside the ring of numbers
//! `p + q*sqrt(3)` with rational `p`, `q`.

use vstd::prelude::*;
use crate::indexer::{pure_xh, pure_yr, PureCoord};

verus! {

/// Largest magnitude a transform entry or its denominator may have; keeps
/// every product in the application inside `i64`.
pub const COEFF_MAX: i64 = 1048576;

/// Largest magnitude a pure coordinate may have when a transform is applied.
pub const PURE_COORD_MAX: i64 = 16777216;

/// A world coordinate: the exact point
/// `((xa + xb*sqrt(3)) / den, (ya + yb*sqrt(3)) / den)`.
#[derive(Clone, Copy, Debug, PartialEq, Eq, Structural)]
pub struct WorldCoord {
    pub xa: i64,
    pub xb: i64,
    pub ya: i64,
    pub yb: i64,
    pub den: i64,
}

/// An invertibility-agnostic affine map: the top two rows of a 3x3 matrix in
/// homogeneous form, all entries over one positive denominator `den`.  The
/// bottom row is fixed at `(0, 0, den)`, so the homogeneous coordinate stays
/// 1 and no perspective divide is ever needed.  A degenerate matrix is
/// accepted; it yields a degenerate, not an erroneous, grid.
#[derive(Clone, Copy, Debug, PartialEq, Eq, Structural)]
pub struct Transform {
    pub m00: i64,
    pub m01: i64,
    pub m02: i64,
    pub m10: i64,
    pub m11: i64,
    pub m12: i64,
    pub den: i64,
}

/// Rational part of the transformed horizontal coordinate, scaled by the
/// output denominator `2*den`: the pure point is `(xh/2, yr*sqrt(3)/2)`, so
/// `x' = (m00*xh + 2*m02 + m01*yr*sqrt(3)) / (2*den)`.
pub open spec fn world_xa(t: Transform, xh: int) -> int {
    t.m00 * xh + 2 * t.m02
}

/// `sqrt(3)` part of the transformed horizontal coordinate, same scale.
pub open spec fn world_xb(t: Transform, yr: int) -> int {
    t.m01 * yr
}

/// Rational part of the transformed vertical coordinate, same scale.
pub open spec fn world_ya(t: Transform, xh: int) -> int {
    t.m10 * xh + 2 * t.m12
}

/// `sqrt(3)` part of the transformed vertical coordinate, same scale.
pub open spec fn world_yb(t: Transform, yr: int) -> int {
    t.m11 * yr
}

/// Denominator of a transformed coordinate.
pub open spec fn world_den(t: Transform) -> int {
    2 * t.den
}

/// `w` is exactly the image of the pure position `(xh, yr)` under `t`.
pub open spec fn world_matches(t: Transform, xh: int, yr: int, w: WorldCoord) -> bool {
    &&& w.xa == world_xa(t, xh)
    &&& w.xb == world_xb(t, yr)
    &&& w.ya == world_ya(t, xh)
    &&& w.yb == world_yb(t, yr)
    &&& w.den == world_den(t)
}

impl Transform {
    /// The entries are small enough for exact application and the
    /// denominator is positive.
    pub open spec fn wf(self) -> bool {
        &&& 1 <= self.den <= COEFF_MAX
        &&& -COEFF_MAX <= self.m00 <= COEFF_MAX
        &&& -COEFF_MAX <= self.m01 <= COEFF_MAX
        &&& -COEFF_MAX <= self.m02 <= COEFF_MAX
        &&& -COEFF_MAX <= self.m10 <= COEFF_MAX
        &&& -COEFF_MAX <= self.m11 <= COEFF_MAX
        &&& -COEFF_MAX <= self.m12 <= COEFF_MAX
    }

    /// The identity map: pure lattice coordinates pass through unchanged.
    pub fn identity() -> (t: Transform)
        ensures
            t.wf(),
            t.m00 == 1 && t.m01 == 0 && t.m02 == 0,
            t.m10 == 0 && t.m11 == 1 && t.m12 == 0,
            t.den == 1,
    {
        Transform { m00: 1, m01: 0, m02: 0, m10: 0, m11: 1, m12: 0, den: 1 }
    }

    /// A general affine map from the top two rows of a 3x3 matrix whose
    /// entries are the given numerators over `den`.
    pub fn from_rows(
        m00: i64,
        m01: i64,
        m02: i64,
        m10: i64,
        m11: i64,
        m12: i64,
        den: i64,
    ) -> (t: Transform)
        requires
            1 <= den <= COEFF_MAX,
            -COEFF_MAX <= m00 <= COEFF_MAX,
            -COEFF_MAX <= m01 <= COEFF_MAX,
            -COEFF_MAX <= m02 <= COEFF_MAX,
            -COEFF_MAX <= m10 <= COEFF_MAX,
            -COEFF_MAX <= m11 <= COEFF_MAX,
            -COEFF_MAX <= m12 <= COEFF_MAX,
        ensures
            t.wf(),
            t.m00 == m00 && t.m01 == m01 && t.m02 == m02,
            t.m10 == m10 && t.m11 == m11 && t.m12 == m12,
            t.den == den,
    {
        Transform { m00, m01, m02, m10, m11, m12, den }
    }

    /// A uniform scale by the rational `num / den`.
    pub fn uniform_scale(num: i64, den: i64) -> (t: Transform)
        requires
            1 <= den <= COEFF_MAX,
            -COEFF_MAX <= num <= COEFF_MAX,
        ensures
            t.wf(),
            t.m00 == num && t.m01 == 0 && t.m02 == 0,
            t.m10 == 0 && t.m11 == num && t.m12 == 0,
            t.den == den,
    {
        Transform { m00: num, m01: 0, m02: 0, m10: 0, m11: num, m12: 0, den }
    }

    /// Applies the map to a pure lattice position: matrix times homogeneous
    /// point, projected back by dropping the homogeneous coordinate.
    pub fn apply(&self, p: &PureCoord) -> (w: WorldCoord)
        requires
            self.wf(),
            -PURE_COORD_MAX <= p.xh <= PURE_COORD_MAX,
            -PURE_COORD_MAX <= p.yr <= PURE_COORD_MAX,
        ensures
            world_matches(*self, p.xh as int, p.yr as int, w),
    {
        proof {
            lemma_entry_product_bounded(self.m00 as int, p.xh as int);
            lemma_entry_product_bounded(self.m01 as int, p.yr as int);
            lemma_entry_product_bounded(self.m10 as int, p.xh as int);
            lemma_entry_product_bounded(self.m11 as int, p.yr as int);
        }
        WorldCoord {
            xa: self.m00 * p.xh + 2 * self.m02,
            xb: self.m01 * p.yr,
            ya: self.m10 * p.xh + 2 * self.m12,
            yb: self.m11 * p.yr,
            den: 2 * self.den,
        }
    }
}

/// The product of a transform entry and a pure coordinate stays well inside
/// `i64`.
proof fn lemma_entry_product_bounded(m: int, v: int) by (nonlinear_arith)
    requires
        -COEFF_MAX <= m <= COEFF_MAX,
        -PURE_COORD_MAX <= v <= PURE_COORD_MAX,
    ensures
        -0x400000000000000 <= m * v <= 0x400000000000000,
{
}

/// The image of lattice vertex `(i, j)` under `t`: index to pure position,
/// pure position through the transform.
pub fn vertex(t: &Transform, i: i64, j: i64) -> (w: WorldCoord)
    requires
        t.wf(),
        -VERTEX_INDEX_MAX <= i <= VERTEX_INDEX_MAX,
        -VERTEX_INDEX_MAX <= j <= VERTEX_INDEX_MAX,
    ensures
        world_matches(*t, pure_xh(i as int, j as int), pure_yr(j as int), w),
{
    let p = crate::indexer::pure_vertex(i, j);
    t.apply(&p)
}

/// Largest magnitude a lattice index may have in `vertex`, chosen so that
/// the pure coordinates stay within `PURE_COORD_MAX`.
pub const VERTEX_INDEX_MAX: i64 = 4194304;

} // verus!
