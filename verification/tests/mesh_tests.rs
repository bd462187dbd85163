//! Mesh building: window layout, edge enumeration, and the hexagon around
//! the origin.

use hexgrid::indexer::pure_vertex;
use hexgrid::mesh::{build_mesh, Mesh};
use hexgrid::transform::Transform;

/// Row-major slot of cell `(r, c)` in the window of extent `e`.
fn li(e: i64, r: i64, c: i64) -> u32 {
    ((r + e) * (2 * e) + (c + e)) as u32
}

fn vertex_count(e: i64) -> usize {
    ((2 * e + 1) * (2 * e)) as usize
}

fn edge_pairs(m: &Mesh) -> Vec<(u32, u32)> {
    assert!(m.edges.len() % 2 == 0);
    m.edges.chunks(2).map(|p| (p[0], p[1])).collect()
}

fn has_pair(pairs: &[(u32, u32)], a: u32, b: u32) -> bool {
    pairs.iter().any(|&(x, y)| (x, y) == (a, b) || (x, y) == (b, a))
}

/// The lattice index pair of the cell at window position (row, col).
fn hex_indices(r: i64, c: i64) -> (i64, i64) {
    (c, r)
}

fn check_window_properties(extent: i64) {
    let t = Transform::identity();
    let m = build_mesh(&t, extent as u32);

    // One vertex per cell, each in its own slot: linear_index is injective
    // over the window, so all slots are covered exactly once.
    assert_eq!(m.vertices.len(), vertex_count(extent));
    let mut seen = vec![false; vertex_count(extent)];
    for r in -extent..=extent {
        for c in -extent..extent {
            let slot = li(extent, r, c) as usize;
            assert!(slot < seen.len());
            assert!(!seen[slot], "two cells share slot {}", slot);
            seen[slot] = true;
        }
    }
    assert!(seen.iter().all(|&s| s));

    // Every edge endpoint is a valid vertex slot and no edge appears twice,
    // in either orientation.
    let pairs = edge_pairs(&m);
    for &(a, b) in &pairs {
        assert!((a as usize) < m.vertices.len());
        assert!((b as usize) < m.vertices.len());
        assert!(a != b);
    }
    for i in 0..pairs.len() {
        for j in (i + 1)..pairs.len() {
            let (a1, b1) = pairs[i];
            let (a2, b2) = pairs[j];
            assert!((a1, b1) != (a2, b2), "duplicate edge");
            assert!((a1, b1) != (b2, a2), "duplicate edge, flipped");
        }
    }

    // Every edge spans exactly one unit on the pure lattice.
    for &(a, b) in &pairs {
        let (ra, ca) = slot_cell(extent, a);
        let (rb, cb) = slot_cell(extent, b);
        let (ia, ja) = hex_indices(ra, ca);
        let (ib, jb) = hex_indices(rb, cb);
        let pa = pure_vertex(ia, ja);
        let pb = pure_vertex(ib, jb);
        let dx = pa.xh - pb.xh;
        let dy = pa.yr - pb.yr;
        assert_eq!(dx * dx + 3 * dy * dy, 4, "edge ({}, {}) is not one unit", a, b);
    }

    // The hexagon immediately northeast of the origin is traced completely:
    // all six of its sides are in the buffer.
    let ring = [(0, 0), (1, 0), (1, 1), (1, 2), (0, 2), (0, 1)];
    for k in 0..6 {
        let (i1, j1) = ring[k];
        let (i2, j2) = ring[(k + 1) % 6];
        let a = li(extent, j1, i1);
        let b = li(extent, j2, i2);
        assert!(has_pair(&pairs, a, b), "hexagon side {:?} -> {:?} missing", ring[k], ring[(k + 1) % 6]);
    }
}

/// Inverse of `li`: the cell sitting in a vertex-buffer slot.
fn slot_cell(e: i64, slot: u32) -> (i64, i64) {
    let s = slot as i64;
    (s / (2 * e) - e, s % (2 * e) - e)
}

#[test]
fn window_extent_two() {
    check_window_properties(2);
}

#[test]
fn window_extent_three() {
    check_window_properties(3);
}

#[test]
fn builds_are_independent() {
    let t = Transform::identity();
    let first = build_mesh(&t, 2);
    let other = build_mesh(&t, 3);
    let again = build_mesh(&t, 2);
    assert_eq!(first.vertices.len(), again.vertices.len());
    assert_eq!(first.edges, again.edges);
    for (w1, w2) in first.vertices.iter().zip(again.vertices.iter()) {
        assert_eq!(w1, w2);
    }
    assert!(other.vertices.len() != first.vertices.len());
}

#[test]
fn hexagon_is_closed_convex_with_equal_sides() {
    // The six vertices around the hexagon northeast of the origin, in ring
    // order, under the identity transform.
    let ring = [(0, 0), (1, 0), (1, 1), (1, 2), (0, 2), (0, 1)];
    let pure: Vec<_> = ring.iter().map(|&(i, j)| pure_vertex(i, j)).collect();

    // Equal sides: every squared side length is exactly one unit.
    for k in 0..6 {
        let p = &pure[k];
        let q = &pure[(k + 1) % 6];
        let dx = q.xh - p.xh;
        let dy = q.yr - p.yr;
        assert_eq!(dx * dx + 3 * dy * dy, 4);
    }

    // Convex and closed: walking the ring turns consistently to the left,
    // with no straight or reflex corner, and returns to the start.
    for k in 0..6 {
        let p = &pure[k];
        let q = &pure[(k + 1) % 6];
        let r = &pure[(k + 2) % 6];
        let (ux, uy) = (q.xh - p.xh, q.yr - p.yr);
        let (vx, vy) = (r.xh - q.xh, r.yr - q.yr);
        // Cross product sign in the mixed half-unit / sqrt(3)-half basis.
        let cross = ux * vy - vx * uy;
        assert!(cross > 0, "corner {} does not turn left", k);
    }

    // Side lengths in floating point, for good measure: all equal to 1.
    let s3 = 3.0_f64.sqrt();
    for k in 0..6 {
        let p = &pure[k];
        let q = &pure[(k + 1) % 6];
        let x1 = p.xh as f64 * 0.5;
        let y1 = p.yr as f64 * s3 / 2.0;
        let x2 = q.xh as f64 * 0.5;
        let y2 = q.yr as f64 * s3 / 2.0;
        let len = ((x2 - x1).powi(2) + (y2 - y1).powi(2)).sqrt();
        assert!((len - 1.0).abs() < 1e-12);
    }
}

#[test]
fn unit_edge_from_origin() {
    // With the identity transform the edge from (0,0) to (1,0) spans
    // exactly one unit horizontally.
    let a = pure_vertex(0, 0);
    let b = pure_vertex(1, 0);
    assert_eq!(b.xh - a.xh, 2);
    assert_eq!(b.yr - a.yr, 0);
}

#[test]
fn extent_one_is_exactly_one_hexagon() {
    // The window of extent 1 holds six vertices joined into a single
    // six-cycle.  The builder walks cells row-major and emits, per cell,
    // the owned horizontal side first and then the vertical side, so the
    // whole buffer is pinned.
    let t = Transform::identity();
    let m = build_mesh(&t, 1);
    assert_eq!(m.vertices.len(), 6);
    assert_eq!(m.edges, vec![0, 1, 0, 2, 1, 3, 2, 4, 3, 5, 4, 5]);
}

#[test]
fn empty_window_builds_empty_mesh() {
    let t = Transform::identity();
    let m = build_mesh(&t, 0);
    assert_eq!(m.vertices.len(), 0);
    assert_eq!(m.edges.len(), 0);
}
