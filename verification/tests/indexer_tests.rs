//! Index splitting and single-vertex placement.

use hexgrid::indexer::{pure_vertex, split_index, PureCoord};
use hexgrid::transform::{vertex, Transform, WorldCoord};

/// Converts an exact world coordinate to floating point.
fn to_f64(w: &WorldCoord) -> (f64, f64) {
    let s3 = 3.0_f64.sqrt();
    let den = w.den as f64;
    (
        (w.xa as f64 + w.xb as f64 * s3) / den,
        (w.ya as f64 + w.yb as f64 * s3) / den,
    )
}

#[test]
fn split_floors_toward_negative_infinity() {
    assert_eq!(split_index(0), (0, 0));
    assert_eq!(split_index(1), (0, 1));
    assert_eq!(split_index(2), (1, 0));
    assert_eq!(split_index(-1), (-1, 1));
    assert_eq!(split_index(-2), (-1, 0));
    assert_eq!(split_index(-3), (-2, 1));
    assert_eq!(split_index(-4), (-2, 0));
}

#[test]
fn negative_index_uses_floored_high_part() {
    // The vertex at (-1, 0) must come from high = -1, low = 1: base -3
    // units plus a one-unit offset puts it at x = -2.  Truncating division
    // would give high = 0, low = -1, which selects no sub-lattice at all.
    let p = pure_vertex(-1, 0);
    assert_eq!(p, PureCoord { xh: -4, yr: 0 });
    let t = Transform::identity();
    let w = vertex(&t, -1, 0);
    let (x, y) = to_f64(&w);
    assert!((x - (-2.0)).abs() < 1e-12);
    assert!(y.abs() < 1e-12);
}

#[test]
fn identity_transform_places_first_vertices() {
    let t = Transform::identity();

    let (x0, y0) = to_f64(&vertex(&t, 0, 0));
    assert!(x0.abs() < 1e-12 && y0.abs() < 1e-12);

    let (x1, y1) = to_f64(&vertex(&t, 1, 0));
    assert!((x1 - 1.0).abs() < 1e-12 && y1.abs() < 1e-12);

    let (x2, y2) = to_f64(&vertex(&t, 0, 1));
    let s3 = 3.0_f64.sqrt();
    assert!((x2 - (-0.5)).abs() < 1e-12);
    assert!((y2 - s3 / 2.0).abs() < 1e-12);
}

#[test]
fn exact_coordinates_of_first_vertices() {
    let t = Transform::identity();
    let w0 = vertex(&t, 0, 0);
    assert_eq!((w0.xa, w0.xb, w0.ya, w0.yb, w0.den), (0, 0, 0, 0, 2));
    let w1 = vertex(&t, 1, 0);
    assert_eq!((w1.xa, w1.xb, w1.ya, w1.yb, w1.den), (2, 0, 0, 0, 2));
    let w2 = vertex(&t, 0, 1);
    assert_eq!((w2.xa, w2.xb, w2.ya, w2.yb, w2.den), (-1, 0, 0, 1, 2));
}

#[test]
fn uniform_scale_scales_coordinates() {
    let t = Transform::uniform_scale(3, 4);
    let w = vertex(&t, 1, 0);
    // x = (3/4) * 1 = (xa + xb*sqrt(3)) / den with xa = 6, den = 8.
    let (x, y) = to_f64(&w);
    assert!((x - 0.75).abs() < 1e-12);
    assert!(y.abs() < 1e-12);
}
