//! The mesh builder: enumerates a rectangular window of lattice index pairs,
//! turns each into a transformed vertex, and emits the endpoints of every
//! hexagon side inside the window as a flat index buffer for a line-list
//! draw.
//!
//! The window of extent `E` covers rows `-E ..= E` and columns `-E .. E`,
//! laid out row-major.  Each cell owns its outgoing sides: the side up to
//! the next row always (except from the top row), and the horizontal side
//! to the right exactly when the index sum is even.  A cell with odd index
//! sum has its horizontal side on its left; that side is owned and emitted
//! by its left endpoint, whose index sum is even, so every side inside the
//! window is emitted exactly once and never from both ends.

use vstd::prelude::*;
use vstd::arithmetic::div_mod::lemma_mod_multiples_vanish;
use crate::indexer::{lattice_adjacent, lemma_horizontal_adjacent, lemma_vertical_adjacent,
    pure_vertex, pure_xh, pure_yr};
use crate::transform::{Transform, WorldCoord, world_matches};

verus! {

/// Largest window extent the builder accepts; keeps every vertex index
/// inside `u32` with plenty of room.
pub const EXTENT_MAX: u32 = 4096;

/// Number of rows of the window: the row index ranges over `-e ..= e`.
pub open spec fn window_rows(e: int) -> int {
    2 * e + 1
}

/// Number of columns of the window: the column index ranges over `-e .. e`.
pub open spec fn window_cols(e: int) -> int {
    2 * e
}

/// Number of vertices of the window.
pub open spec fn vertex_total(e: int) -> int {
    window_rows(e) * window_cols(e)
}

/// The cell `(r, c)` lies inside the window of extent `e`.
pub open spec fn in_window(e: int, r: int, c: int) -> bool {
    &&& -e <= r <= e
    &&& -e <= c < e
}

/// Row-major slot of cell `(r, c)` in the vertex buffer.
pub open spec fn linear_index(e: int, r: int, c: int) -> int {
    (r + e) * (2 * e) + (c + e)
}

/// No two distinct cells of the window share a vertex-buffer slot.
pub proof fn lemma_linear_index_injective(e: int, r1: int, c1: int, r2: int, c2: int)
    requires
        e >= 1,
        in_window(e, r1, c1),
        in_window(e, r2, c2),
        linear_index(e, r1, c1) == linear_index(e, r2, c2),
    ensures
        r1 == r2,
        c1 == c2,
{
    assert(r1 == r2) by (nonlinear_arith)
        requires
            e >= 1,
            -e <= r1 <= e,
            -e <= c1 < e,
            -e <= r2 <= e,
            -e <= c2 < e,
            (r1 + e) * (2 * e) + (c1 + e) == (r2 + e) * (2 * e) + (c2 + e),
    ;
}

/// Every cell's slot lies inside the vertex buffer.
pub proof fn lemma_linear_index_in_range(e: int, r: int, c: int)
    requires
        in_window(e, r, c),
    ensures
        0 <= linear_index(e, r, c) < vertex_total(e),
{
    assert(0 <= (r + e) * (2 * e) + (c + e) < (2 * e + 1) * (2 * e)) by (nonlinear_arith)
        requires
            -e <= r <= e,
            -e <= c < e,
    ;
}

/// Lower endpoint slot of the `k`-th edge of the buffer.
pub open spec fn edge_from(edges: Seq<u32>, k: int) -> int {
    edges[2 * k] as int
}

/// Upper endpoint slot of the `k`-th edge of the buffer.
pub open spec fn edge_to(edges: Seq<u32>, k: int) -> int {
    edges[2 * k + 1] as int
}

/// Number of edges held by the flat buffer, consumed pairwise.
pub open spec fn edge_count(edges: Seq<u32>) -> int {
    edges.len() as int / 2
}

/// The buffer holds the edge from slot `a` to slot `b`.
pub open spec fn has_edge(edges: Seq<u32>, a: int, b: int) -> bool {
    exists|k: int|
        0 <= k < edge_count(edges) && #[trigger] edge_from(edges, k) == a && edge_to(edges, k)
            == b
}

/// Cell `(r, c)` generates the edge `(a, b)`: either the vertical side up to
/// the next row, or, on an even index sum, the horizontal side to the right
/// neighbour.
pub open spec fn edge_generated_by(e: int, r: int, c: int, a: int, b: int) -> bool {
    &&& in_window(e, r, c)
    &&& a == linear_index(e, r, c)
    &&& {
        ||| (r < e && b == linear_index(e, r + 1, c))
        ||| ((r + c) % 2 == 0 && c < e - 1 && b == linear_index(e, r, c + 1))
    }
}

/// The edge `(a, b)` is one of the sides the window of extent `e` owns.
pub open spec fn is_mesh_edge(e: int, a: int, b: int) -> bool {
    exists|r: int, c: int| #[trigger] edge_generated_by(e, r, c, a, b)
}

/// Every slot of the buffer is a valid vertex index, and each edge runs
/// from its lower-numbered endpoint to the higher one.
pub open spec fn edges_in_range(e: int, edges: Seq<u32>) -> bool {
    forall|k: int|
        0 <= k < edge_count(edges) ==> 0 <= #[trigger] edge_from(edges, k) < edge_to(edges, k)
            < vertex_total(e)
}

/// The edges appear in strictly increasing lexicographic order, so no edge
/// is ever listed twice.
pub open spec fn edges_sorted(edges: Seq<u32>) -> bool {
    forall|k1: int, k2: int|
        0 <= k1 < k2 < edge_count(edges) ==> #[trigger] edge_from(edges, k1) < #[trigger] edge_from(
            edges,
            k2,
        ) || (edge_from(edges, k1) == edge_from(edges, k2) && edge_to(edges, k1) < edge_to(
            edges,
            k2,
        ))
}

/// Every edge of the buffer is a side the window owns.
pub open spec fn edges_sound(e: int, edges: Seq<u32>) -> bool {
    forall|k: int|
        0 <= k < edge_count(edges) ==> is_mesh_edge(
            e,
            #[trigger] edge_from(edges, k),
            edge_to(edges, k),
        )
}

/// Every side the window owns is in the buffer: each cell's vertical side
/// (below the top row) and, on an even index sum, its right side.
pub open spec fn edges_complete(e: int, edges: Seq<u32>) -> bool {
    &&& forall|r: int, c: int|
        in_window(e, r, c) && r < e ==> has_edge(
            edges,
            #[trigger] linear_index(e, r, c),
            linear_index(e, r + 1, c),
        )
    &&& forall|r: int, c: int|
        in_window(e, r, c) && (r + c) % 2 == 0 && c < e - 1 ==> has_edge(
            edges,
            #[trigger] linear_index(e, r, c),
            linear_index(e, r, c) + 1,
        )
}

/// The full contract of the edge buffer.
pub open spec fn mesh_edges_wf(e: int, edges: Seq<u32>) -> bool {
    &&& edges.len() % 2 == 0
    &&& edges_in_range(e, edges)
    &&& edges_sorted(edges)
    &&& edges_sound(e, edges)
    &&& edges_complete(e, edges)
}

/// The vertex buffer holds, in the slot of every cell of the window, the
/// transformed position of that cell's lattice vertex: row index along the
/// vertical lattice axis, column index along the horizontal one.
pub open spec fn vertices_complete(t: Transform, e: int, vs: Seq<WorldCoord>) -> bool {
    &&& vs.len() == vertex_total(e)
    &&& forall|r: int, c: int|
        in_window(e, r, c) ==> world_matches(
            t,
            pure_xh(c, r),
            pure_yr(r),
            vs[#[trigger] linear_index(e, r, c)],
        )
}

/// A renderable mesh: one transformed vertex per window cell and a flat
/// buffer of vertex-index pairs, one per hexagon side, for a line-list
/// draw.
pub struct Mesh {
    pub vertices: Vec<WorldCoord>,
    pub edges: Vec<u32>,
}

/// Sorted edges are distinct, also as unordered pairs: a buffer in
/// increasing order never lists a side twice, not even with its orientation
/// flipped.
pub proof fn lemma_edges_unique(e: int, edges: Seq<u32>, k1: int, k2: int)
    requires
        edges_in_range(e, edges),
        edges_sorted(edges),
        0 <= k1 < k2 < edge_count(edges),
    ensures
        !(edge_from(edges, k1) == edge_from(edges, k2) && edge_to(edges, k1) == edge_to(
            edges,
            k2,
        )),
        !(edge_from(edges, k1) == edge_to(edges, k2) && edge_to(edges, k1) == edge_from(
            edges,
            k2,
        )),
{
}

/// Every side the window owns joins two lattice-adjacent vertices: the two
/// generating cells lie exactly one hexagon side apart on the pure lattice.
pub proof fn lemma_mesh_edge_adjacent(e: int, a: int, b: int)
    requires
        is_mesh_edge(e, a, b),
    ensures
        exists|r1: int, c1: int, r2: int, c2: int| #[trigger] edge_joins_cells(e, a, b, r1, c1, r2, c2),
{
    let (r, c) = choose|r: int, c: int| edge_generated_by(e, r, c, a, b);
    if r < e && b == linear_index(e, r + 1, c) {
        lemma_vertical_adjacent(c, r);
        assert(edge_joins_cells(e, a, b, r, c, r + 1, c));
    } else {
        lemma_horizontal_adjacent(c, r);
        assert(edge_joins_cells(e, a, b, r, c, r, c + 1));
    }
}

/// The edge `(a, b)` joins the window cells `(r1, c1)` and `(r2, c2)`,
/// whose lattice vertices are adjacent on the honeycomb.
pub open spec fn edge_joins_cells(
    e: int,
    a: int,
    b: int,
    r1: int,
    c1: int,
    r2: int,
    c2: int,
) -> bool {
    &&& in_window(e, r1, c1)
    &&& in_window(e, r2, c2)
    &&& a == linear_index(e, r1, c1)
    &&& b == linear_index(e, r2, c2)
    &&& lattice_adjacent(pure_xh(c1, r1), pure_yr(r1), pure_xh(c2, r2), pure_yr(r2))
}

/// Appends one edge to the buffer, keeping every buffer invariant: the new
/// edge must be a side the window owns and must come lexicographically
/// after everything already stored.
fn push_edge(edges: &mut Vec<u32>, extent: u32, a: u32, b: u32)
    requires
        old(edges)@.len() % 2 == 0,
        old(edges)@.len() + 2 < usize::MAX,
        edges_in_range(extent as int, old(edges)@),
        edges_sorted(old(edges)@),
        edges_sound(extent as int, old(edges)@),
        a < b,
        (b as int) < vertex_total(extent as int),
        is_mesh_edge(extent as int, a as int, b as int),
        forall|k: int|
            0 <= k < edge_count(old(edges)@) ==> #[trigger] edge_from(old(edges)@, k) < a as int
                || (edge_from(old(edges)@, k) == a as int && edge_to(old(edges)@, k) < b as int),
    ensures
        final(edges)@.len() == old(edges)@.len() + 2,
        final(edges)@.len() % 2 == 0,
        edge_count(final(edges)@) == edge_count(old(edges)@) + 1,
        edges_in_range(extent as int, final(edges)@),
        edges_sorted(final(edges)@),
        edges_sound(extent as int, final(edges)@),
        forall|k: int|
            0 <= k < edge_count(old(edges)@) ==> #[trigger] edge_from(final(edges)@, k)
                == edge_from(old(edges)@, k) && edge_to(final(edges)@, k) == edge_to(
                old(edges)@,
                k,
            ),
        edge_from(final(edges)@, edge_count(old(edges)@)) == a as int,
        edge_to(final(edges)@, edge_count(old(edges)@)) == b as int,
        forall|x: int, y: int|
            #[trigger] has_edge(old(edges)@, x, y) ==> has_edge(final(edges)@, x, y),
        has_edge(final(edges)@, a as int, b as int),
        forall|k: int|
            0 <= k < edge_count(final(edges)@) ==> #[trigger] edge_from(final(edges)@, k)
                <= a as int,
{
    let ghost pre = edges@;
    edges.push(a);
    edges.push(b);
    proof {
        let post = edges@;
        let ec0 = edge_count(pre);
        assert(post.len() == pre.len() + 2);
        assert(2 * ec0 == pre.len());
        assert forall|i: int| 0 <= i < pre.len() implies post[i] == pre[i] by {
            assert(post[i] == pre.push(a)[i]);
        }
        assert(post[pre.len() as int] == a);
        assert(post[pre.len() as int + 1] == b);
        assert forall|k: int| 0 <= k < ec0 implies #[trigger] edge_from(post, k) == edge_from(
            pre,
            k,
        ) && edge_to(post, k) == edge_to(pre, k) by {
            assert(0 <= 2 * k < pre.len());
            assert(0 <= 2 * k + 1 < pre.len());
        }
        assert(edge_from(post, ec0) == a as int);
        assert(edge_to(post, ec0) == b as int);
        assert(edge_count(post) == ec0 + 1);
        assert forall|x: int, y: int| #[trigger] has_edge(pre, x, y) implies has_edge(
            post,
            x,
            y,
        ) by {
            let k = choose|k: int|
                0 <= k < edge_count(pre) && #[trigger] edge_from(pre, k) == x && edge_to(pre, k)
                    == y;
            assert(edge_from(post, k) == x && edge_to(post, k) == y);
        }
        assert(has_edge(post, a as int, b as int));
    }
}

/// Builds the mesh for the window of the given extent under the given
/// transform.  Nothing is shared between invocations: each call returns a
/// freshly built mesh.
#[verifier::loop_isolation(false)]
pub fn build_mesh(t: &Transform, extent: u32) -> (m: Mesh)
    requires
        t.wf(),
        extent <= EXTENT_MAX,
    ensures
        vertices_complete(*t, extent as int, m.vertices@),
        mesh_edges_wf(extent as int, m.edges@),
{
    let ghost ee: int = extent as int;
    let e: usize = extent as usize;
    let rows: usize = 2 * e + 1;
    let cols: usize = 2 * e;
    proof {
        assert(vertex_total(ee) == rows * cols) by (nonlinear_arith)
            requires
                rows == 2 * ee + 1,
                cols == 2 * ee,
        ;
        assert(rows * cols <= 67117056) by (nonlinear_arith)
            requires
                0 <= ee <= 4096,
                rows == 2 * ee + 1,
                cols == 2 * ee,
        ;
    }

    let mut vertices: Vec<WorldCoord> = Vec::new();
    let mut ri: usize = 0;
    let mut row_base: usize = 0;
    while ri < rows
        invariant
            ri <= rows,
            row_base == ri * cols,
            row_base <= vertex_total(ee),
            vertices@.len() == row_base,
            forall|r: int, c: int|
                in_window(ee, r, c) && #[trigger] linear_index(ee, r, c) < row_base
                    ==> world_matches(*t, pure_xh(c, r), pure_yr(r), vertices@[linear_index(ee, r, c)]),
        decreases rows - ri,
    {
        proof {
            assert(row_base + cols <= vertex_total(ee)) by (nonlinear_arith)
                requires
                    row_base == ri * cols,
                    ri < rows,
                    vertex_total(ee) == rows * cols,
                    cols >= 0,
            ;
        }
        let mut ci: usize = 0;
        while ci < cols
            invariant
                ri < rows,
                ci <= cols,
                row_base == ri * cols,
                row_base + cols <= vertex_total(ee),
                vertices@.len() == row_base + ci,
                forall|r: int, c: int|
                    in_window(ee, r, c) && #[trigger] linear_index(ee, r, c) < row_base + ci
                        ==> world_matches(*t, pure_xh(c, r), pure_yr(r), vertices@[linear_index(ee, r, c)]),
            decreases cols - ci,
        {
            let ghost r: int = ri as int - ee;
            let ghost c: int = ci as int - ee;
            let i_idx: i64 = ci as i64 - e as i64;
            let j_idx: i64 = ri as i64 - e as i64;
            let p = pure_vertex(i_idx, j_idx);
            let w = t.apply(&p);
            proof {
                assert(in_window(ee, r, c));
                assert(linear_index(ee, r, c) == row_base + ci) by (nonlinear_arith)
                    requires
                        row_base == ri * cols,
                        cols == 2 * ee,
                        r == ri - ee,
                        c == ci - ee,
                        linear_index(ee, r, c) == (r + ee) * (2 * ee) + (c + ee),
                ;
                assert(world_matches(*t, pure_xh(c, r), pure_yr(r), w));
            }
            vertices.push(w);
            proof {
                assert forall|r2: int, c2: int|
                    in_window(ee, r2, c2) && #[trigger] linear_index(ee, r2, c2) < row_base + ci
                        + 1 implies world_matches(
                    *t,
                    pure_xh(c2, r2),
                    pure_yr(r2),
                    vertices@[linear_index(ee, r2, c2)],
                ) by {
                    lemma_linear_index_in_range(ee, r2, c2);
                    if linear_index(ee, r2, c2) == row_base + ci {
                        lemma_linear_index_injective(ee, r2, c2, r, c);
                    }
                }
            }
            ci += 1;
        }
        proof {
            assert((ri + 1) * cols == ri * cols + cols) by (nonlinear_arith);
            assert((ri + 1) * cols <= rows * cols) by (nonlinear_arith)
                requires
                    ri + 1 <= rows,
                    cols >= 0,
            ;
        }
        ri += 1;
        row_base += cols;
    }
    proof {
        assert(row_base == vertex_total(ee)) by (nonlinear_arith)
            requires
                row_base == rows * cols,
                vertex_total(ee) == rows * cols,
        ;
        assert forall|r: int, c: int| in_window(ee, r, c) implies #[trigger] linear_index(ee, r, c)
            < row_base by {
            lemma_linear_index_in_range(ee, r, c);
        }
    }

    let mut edges: Vec<u32> = Vec::new();
    let mut eri: usize = 0;
    let mut erow_base: usize = 0;
    while eri < rows
        invariant
            eri <= rows,
            erow_base == eri * cols,
            erow_base <= vertex_total(ee),
            edges@.len() % 2 == 0,
            edges@.len() <= 4 * erow_base,
            edges_in_range(ee, edges@),
            edges_sorted(edges@),
            edges_sound(ee, edges@),
            forall|k: int|
                0 <= k < edge_count(edges@) ==> #[trigger] edge_from(edges@, k) < erow_base,
            forall|r: int, c: int|
                in_window(ee, r, c) && r < ee && #[trigger] linear_index(ee, r, c) < erow_base
                    ==> has_edge(edges@, linear_index(ee, r, c), linear_index(ee, r + 1, c)),
            forall|r: int, c: int|
                in_window(ee, r, c) && (r + c) % 2 == 0 && c < ee - 1 && #[trigger] linear_index(
                    ee,
                    r,
                    c,
                ) < erow_base ==> has_edge(edges@, linear_index(ee, r, c), linear_index(ee, r, c) + 1),
        decreases rows - eri,
    {
        proof {
            assert(erow_base + cols <= vertex_total(ee)) by (nonlinear_arith)
                requires
                    erow_base == eri * cols,
                    eri < rows,
                    vertex_total(ee) == rows * cols,
                    cols >= 0,
            ;
        }
        let mut eci: usize = 0;
        while eci < cols
            invariant
                eri < rows,
                eci <= cols,
                erow_base == eri * cols,
                erow_base + cols <= vertex_total(ee),
                edges@.len() % 2 == 0,
                edges@.len() <= 4 * (erow_base + eci),
                edges_in_range(ee, edges@),
                edges_sorted(edges@),
                edges_sound(ee, edges@),
                forall|k: int|
                    0 <= k < edge_count(edges@) ==> #[trigger] edge_from(edges@, k) < erow_base
                        + eci,
                forall|r: int, c: int|
                    in_window(ee, r, c) && r < ee && #[trigger] linear_index(ee, r, c) < erow_base
                        + eci ==> has_edge(edges@, linear_index(ee, r, c), linear_index(ee, r + 1, c)),
                forall|r: int, c: int|
                    in_window(ee, r, c) && (r + c) % 2 == 0 && c < ee - 1
                        && #[trigger] linear_index(ee, r, c) < erow_base + eci ==> has_edge(
                        edges@,
                        linear_index(ee, r, c),
                        linear_index(ee, r, c) + 1,
                    ),
            decreases cols - eci,
        {
            let ghost r: int = eri as int - ee;
            let ghost c: int = eci as int - ee;
            let ghost cur: int = erow_base as int + eci as int;
            let a: u32 = (erow_base + eci) as u32;
            proof {
                assert(ee >= 1);
                assert(in_window(ee, r, c));
                assert(linear_index(ee, r, c) == cur) by (nonlinear_arith)
                    requires
                        erow_base == eri * cols,
                        cols == 2 * ee,
                        r == eri - ee,
                        c == eci - ee,
                        cur == erow_base + eci,
                        linear_index(ee, r, c) == (r + ee) * (2 * ee) + (c + ee),
                ;
                lemma_linear_index_in_range(ee, r, c);
                assert(a as int == cur);
            }
            let ghost pre_cell = edges@;
            let horizontal: bool = (eri + eci) % 2 == 0 && eci + 1 < cols;
            proof {
                lemma_mod_multiples_vanish(ee, r + c, 2);
                assert((eri + eci) as int == 2 * ee + (r + c));
                assert(((eri + eci) as int) % 2 == (r + c) % 2);
            }
            if horizontal {
                proof {
                    assert((r + c) % 2 == 0 && c < ee - 1);
                    assert(linear_index(ee, r, c + 1) == cur + 1);
                    lemma_linear_index_in_range(ee, r, c + 1);
                    assert(edge_generated_by(ee, r, c, a as int, a as int + 1));
                }
                push_edge(&mut edges, extent, a, a + 1);
            }
            let ghost mid_cell = edges@;
            if eri + 1 < rows {
                proof {
                    assert(r < ee);
                    assert(linear_index(ee, r + 1, c) == cur + cols) by (nonlinear_arith)
                        requires
                            cols == 2 * ee,
                            linear_index(ee, r, c) == cur,
                            linear_index(ee, r, c) == (r + ee) * (2 * ee) + (c + ee),
                            linear_index(ee, r + 1, c) == (r + 1 + ee) * (2 * ee) + (c + ee),
                    ;
                    lemma_linear_index_in_range(ee, r + 1, c);
                    assert(edge_generated_by(ee, r, c, a as int, a as int + cols as int));
                    assert(cols >= 2);
                    assert forall|k: int| 0 <= k < edge_count(edges@) implies #[trigger] edge_from(
                        edges@,
                        k,
                    ) < a as int || (edge_from(edges@, k) == a as int && edge_to(edges@, k)
                        < a as int + cols as int) by {
                        if horizontal {
                            if k < edge_count(pre_cell) {
                                assert(edge_from(edges@, k) == edge_from(pre_cell, k));
                                assert(edge_from(pre_cell, k) < cur);
                            } else {
                                assert(k == edge_count(pre_cell));
                                assert(edge_from(edges@, k) == a as int);
                                assert(edge_to(edges@, k) == a as int + 1);
                            }
                        } else {
                            assert(edge_from(edges@, k) == edge_from(pre_cell, k) && edge_from(
                                pre_cell,
                                k,
                            ) < cur);
                        }
                    }
                }
                push_edge(&mut edges, extent, a, a + cols as u32);
            }
            proof {
                let post = edges@;
                assert forall|r2: int, c2: int|
                    in_window(ee, r2, c2) && r2 < ee && #[trigger] linear_index(ee, r2, c2) < cur
                        + 1 implies has_edge(post, linear_index(ee, r2, c2), linear_index(ee, r2 + 1, c2)) by {
                    lemma_linear_index_in_range(ee, r2, c2);
                    if linear_index(ee, r2, c2) == cur {
                        lemma_linear_index_injective(ee, r2, c2, r, c);
                    } else {
                        assert(has_edge(pre_cell, linear_index(ee, r2, c2), linear_index(ee, r2 + 1, c2)));
                        assert(has_edge(mid_cell, linear_index(ee, r2, c2), linear_index(ee, r2 + 1, c2)));
                    }
                }
                assert forall|r2: int, c2: int|
                    in_window(ee, r2, c2) && (r2 + c2) % 2 == 0 && c2 < ee - 1
                        && #[trigger] linear_index(ee, r2, c2) < cur + 1 implies has_edge(
                    post,
                    linear_index(ee, r2, c2),
                    linear_index(ee, r2, c2) + 1,
                ) by {
                    lemma_linear_index_in_range(ee, r2, c2);
                    if linear_index(ee, r2, c2) == cur {
                        lemma_linear_index_injective(ee, r2, c2, r, c);
                        assert(has_edge(mid_cell, cur, cur + 1));
                    } else {
                        assert(has_edge(pre_cell, linear_index(ee, r2, c2), linear_index(ee, r2, c2) + 1));
                        assert(has_edge(mid_cell, linear_index(ee, r2, c2), linear_index(ee, r2, c2) + 1));
                    }
                }
            }
            eci += 1;
        }
        proof {
            assert((eri + 1) * cols == eri * cols + cols) by (nonlinear_arith);
            assert((eri + 1) * cols <= rows * cols) by (nonlinear_arith)
                requires
                    eri + 1 <= rows,
                    cols >= 0,
            ;
        }
        eri += 1;
        erow_base += cols;
    }
    proof {
        assert(erow_base == vertex_total(ee)) by (nonlinear_arith)
            requires
                erow_base == rows * cols,
                vertex_total(ee) == rows * cols,
        ;
        assert forall|r: int, c: int| in_window(ee, r, c) implies #[trigger] linear_index(ee, r, c)
            < erow_base by {
            lemma_linear_index_in_range(ee, r, c);
        }
    }
    Mesh { vertices, edges }
}

} // verus!
