//! Per-frame uniform logic: aspect scale, fold radius, events.

use hexgrid::frame::{
    aspect_scale, fold_radius_milli, frame_uniforms, handle_event, SceneEvent, ViewState,
    FOLD_TRIM_MILLI,
};
use hexgrid::numeric::isqrt;

#[test]
fn aspect_scale_wide_viewport() {
    let s = aspect_scale(800, 600);
    assert_eq!((s.x_num, s.x_den, s.y_num, s.y_den), (600, 800, 1, 1));
    assert!((s.x_num as f32 / s.x_den as f32 - 0.75).abs() < 1e-6);
    assert!((s.y_num as f32 / s.y_den as f32 - 1.0).abs() < 1e-6);
}

#[test]
fn aspect_scale_tall_viewport() {
    let s = aspect_scale(600, 800);
    assert_eq!((s.x_num, s.x_den, s.y_num, s.y_den), (1, 1, 600, 800));
    assert!((s.x_num as f32 / s.x_den as f32 - 1.0).abs() < 1e-6);
    assert!((s.y_num as f32 / s.y_den as f32 - 0.75).abs() < 1e-6);
}

#[test]
fn aspect_scale_square_viewport() {
    let s = aspect_scale(512, 512);
    assert_eq!((s.x_num, s.x_den, s.y_num, s.y_den), (512, 512, 1, 1));
}

#[test]
fn fold_radius_at_center_is_zero() {
    assert_eq!(fold_radius_milli(400, 300, 800, 600, FOLD_TRIM_MILLI), 0);
    assert_eq!(fold_radius_milli(320, 320, 640, 640, FOLD_TRIM_MILLI), 0);
}

#[test]
fn fold_radius_near_center_is_clamped_to_zero() {
    // A pointer just off center has norm below the trim of 1/20.
    assert_eq!(fold_radius_milli(402, 301, 800, 600, FOLD_TRIM_MILLI), 0);
}

#[test]
fn fold_radius_at_corner_is_sqrt_two_minus_trim() {
    // Every corner normalizes to (±1, ±1), norm sqrt(2); in thousandths,
    // floored: 1414 - 50.
    for &(px, py) in &[(0, 0), (800, 0), (0, 600), (800, 600)] {
        let r = fold_radius_milli(px, py, 800, 600, FOLD_TRIM_MILLI);
        assert_eq!(r, 1364);
        let exact = 2.0_f64.sqrt() - 0.05;
        assert!((r as f64 / 1000.0 - exact).abs() < 2e-3);
    }
}

#[test]
fn fold_radius_on_axis() {
    // Pointer at the middle of the right edge: normalized (1, 0), so the
    // radius is 1 - 1/20.
    assert_eq!(fold_radius_milli(800, 300, 800, 600, FOLD_TRIM_MILLI), 950);
}

#[test]
fn isqrt_small_values() {
    assert_eq!(isqrt(0), 0);
    assert_eq!(isqrt(1), 1);
    assert_eq!(isqrt(2), 1);
    assert_eq!(isqrt(3), 1);
    assert_eq!(isqrt(4), 2);
    assert_eq!(isqrt(15), 3);
    assert_eq!(isqrt(16), 4);
    assert_eq!(isqrt(2000000), 1414);
}

#[test]
fn isqrt_large_values() {
    let n: u128 = (u64::MAX as u128) * (u64::MAX as u128);
    assert_eq!(isqrt(n), u64::MAX);
    assert_eq!(isqrt(n - 1), u64::MAX - 1);
}

#[test]
fn close_event_is_terminal() {
    let mut s = ViewState::new(800, 600);
    assert!(s.running);
    handle_event(&mut s, SceneEvent::Closed);
    assert!(!s.running);
    handle_event(&mut s, SceneEvent::Resized(640, 480));
    assert!(!s.running);
    handle_event(&mut s, SceneEvent::PointerMoved(10, 10));
    assert!(!s.running);
    handle_event(&mut s, SceneEvent::Other);
    assert!(!s.running);
}

#[test]
fn resize_updates_cached_dimensions() {
    let mut s = ViewState::new(800, 600);
    handle_event(&mut s, SceneEvent::Resized(640, 480));
    assert_eq!((s.width, s.height), (640, 480));
    assert!(s.running);
    // A degenerate resize is clamped, never stored as zero.
    handle_event(&mut s, SceneEvent::Resized(0, 0));
    assert_eq!((s.width, s.height), (1, 1));
}

#[test]
fn pointer_moves_update_in_order() {
    let mut s = ViewState::new(800, 600);
    handle_event(&mut s, SceneEvent::PointerMoved(100, 100));
    handle_event(&mut s, SceneEvent::PointerMoved(0, 0));
    assert_eq!((s.pointer_x, s.pointer_y), (0, 0));
    let u = frame_uniforms(&s);
    assert_eq!(u.fold_radius_milli, 1364);
}

#[test]
fn other_events_change_nothing() {
    let mut s = ViewState::new(800, 600);
    let before = s;
    handle_event(&mut s, SceneEvent::Other);
    assert_eq!(s, before);
}

#[test]
fn frame_uniforms_combine_scale_and_radius() {
    let s = ViewState::new(800, 600);
    let u = frame_uniforms(&s);
    assert_eq!((u.scale.x_num, u.scale.x_den), (600, 800));
    assert_eq!((u.scale.y_num, u.scale.y_den), (1, 1));
    assert_eq!(u.fold_radius_milli, 0);
}
