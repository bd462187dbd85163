//! Per-frame uniform logic of the render loop: the aspect-correction scale,
//! the pointer-driven fold radius, and the small state machine that consumes
//! window events.
//!
//! The loop has two states, running and closed, and closing is terminal.
//! Each frame recomputes the uniforms from the cached framebuffer size and
//! the last known pointer position; events only ever update that cache, the
//! mesh itself is built once at startup.

use vstd::prelude::*;
use crate::numeric::{isqrt, sqrt_floor};

verus! {

/// Amount subtracted from the normalized pointer distance, in thousandths:
/// the default trim of one twentieth.
pub const FOLD_TRIM_MILLI: u64 = 50;

/// Default window extent of the hex scene.
pub const DEFAULT_EXTENT: u32 = 8;

/// Largest framebuffer dimension the uniform logic accepts.
pub const DIM_MAX: u32 = 16384;

/// Largest pointer coordinate magnitude the uniform logic accepts.
pub const POINTER_MAX: i64 = 1000000;

/// The aspect-correction scale, one exact rational per axis.
#[derive(Clone, Copy, Debug, PartialEq, Eq, Structural)]
pub struct AspectScale {
    pub x_num: u32,
    pub x_den: u32,
    pub y_num: u32,
    pub y_den: u32,
}

/// `s` is the aspect correction for a `w` by `h` framebuffer: the wider
/// axis is shrunk by the inverse aspect ratio, the other is left alone.
pub open spec fn aspect_matches(w: int, h: int, s: AspectScale) -> bool {
    if w >= h {
        s.x_num == h && s.x_den == w && s.y_num == 1 && s.y_den == 1
    } else {
        s.x_num == 1 && s.x_den == 1 && s.y_num == w && s.y_den == h
    }
}

/// Aspect-correction scale for a framebuffer: `(h/w, 1)` when the viewport
/// is at least as wide as tall, `(1, w/h)` otherwise, so neither scene is
/// distorted by a non-square viewport.
pub fn aspect_scale(width: u32, height: u32) -> (s: AspectScale)
    requires
        1 <= width,
        1 <= height,
    ensures
        aspect_matches(width as int, height as int, s),
        s.x_den >= 1 && s.y_den >= 1,
{
    if width >= height {
        AspectScale { x_num: height, x_den: width, y_num: 1, y_den: 1 }
    } else {
        AspectScale { x_num: 1, x_den: 1, y_num: width, y_den: height }
    }
}

/// Squared distance of the pointer from the viewport center after per-axis
/// normalization into `[-1, 1]`, scaled by `(w*h)^2` to stay integral:
/// the normalized offsets are `(2*px - w)/w` and `(2*py - h)/h`.
pub open spec fn norm_sq_scaled(px: int, py: int, w: int, h: int) -> int {
    (2 * px - w) * (2 * px - w) * h * h + (2 * py - h) * (2 * py - h) * w * w
}

/// The fold radius in thousandths: the normalized pointer distance floored
/// to thousandths, minus the trim, clamped at zero.
pub open spec fn fold_radius_spec(px: int, py: int, w: int, h: int, trim: int) -> int {
    let norm_milli = sqrt_floor(1000000 * norm_sq_scaled(px, py, w, h)) / (w * h);
    if norm_milli >= trim {
        norm_milli - trim
    } else {
        0
    }
}

/// Fold radius for a pointer at `(px, py)` pixels in a `width` by `height`
/// viewport, in thousandths: the Euclidean norm of the normalized pointer
/// position, less the trim, never below zero.  A centered pointer gives
/// zero; a cornered one gives about `sqrt(2)` minus the trim.
pub fn fold_radius_milli(px: i64, py: i64, width: u32, height: u32, trim_milli: u64) -> (r: u64)
    requires
        1 <= width <= DIM_MAX,
        1 <= height <= DIM_MAX,
        -POINTER_MAX <= px <= POINTER_MAX,
        -POINTER_MAX <= py <= POINTER_MAX,
    ensures
        r as int == fold_radius_spec(
            px as int,
            py as int,
            width as int,
            height as int,
            trim_milli as int,
        ),
{
    let dx: i64 = 2 * px - width as i64;
    let dy: i64 = 2 * py - height as i64;
    proof {
        lemma_norm_component_bounds(dx as int, height as int);
        lemma_norm_component_bounds(dy as int, width as int);
    }
    let dx2: u128 = (dx * dx) as u128;
    let dy2: u128 = (dy * dy) as u128;
    let h2: u128 = (height as u128) * (height as u128);
    let w2: u128 = (width as u128) * (width as u128);
    let scaled: u128 = dx2 * h2 + dy2 * w2;
    let milli_sq: u128 = 1000000 * scaled;
    proof {
        assert(milli_sq as int == 1000000 * norm_sq_scaled(
            px as int,
            py as int,
            width as int,
            height as int,
        )) by (nonlinear_arith)
            requires
                dx == 2 * px - width,
                dy == 2 * py - height,
                dx2 == dx * dx,
                dy2 == dy * dy,
                h2 == height * height,
                w2 == width * width,
                scaled == dx2 * h2 + dy2 * w2,
                milli_sq == 1000000 * scaled,
                norm_sq_scaled(px as int, py as int, width as int, height as int) == (2 * px
                    - width) * (2 * px - width) * height * height + (2 * py - height) * (2 * py
                    - height) * width * width,
        ;
    }
    let t: u64 = isqrt(milli_sq);
    proof {
        assert(0 < (width as int) * (height as int) <= 268435456) by (nonlinear_arith)
            requires
                1 <= width <= 16384,
                1 <= height <= 16384,
        ;
    }
    let area: u64 = (width as u64) * (height as u64);
    let norm_milli: u64 = t / area;
    if norm_milli >= trim_milli {
        norm_milli - trim_milli
    } else {
        0
    }
}

/// The products feeding the scaled squared norm all stay far inside their
/// integer types.
proof fn lemma_norm_component_bounds(d: int, dim: int) by (nonlinear_arith)
    requires
        -3000000 <= d <= 3000000,
        0 <= dim <= 16384,
    ensures
        0 <= d * d <= 9000000000000,
        0 <= dim * dim <= 268435456,
        0 <= (d * d) * (dim * dim) <= 2415919104000000000000,
{
}

/// One window event as far as the uniform logic cares: a close request, a
/// framebuffer resize, a pointer move, or anything else.
#[derive(Clone, Copy, Debug, PartialEq, Eq, Structural)]
pub enum SceneEvent {
    Closed,
    Resized(u32, u32),
    PointerMoved(i64, i64),
    Other,
}

/// The per-frame state of the render loop: whether it still runs, the
/// cached framebuffer size, and the last known pointer position.
#[derive(Clone, Copy, Debug, PartialEq, Eq, Structural)]
pub struct ViewState {
    pub running: bool,
    pub width: u32,
    pub height: u32,
    pub pointer_x: i64,
    pub pointer_y: i64,
}

/// A framebuffer dimension forced into the accepted range.
pub open spec fn clamp_dim_spec(v: int) -> int {
    if v < 1 {
        1
    } else if v > DIM_MAX {
        DIM_MAX as int
    } else {
        v
    }
}

/// A pointer coordinate forced into the accepted range.
pub open spec fn clamp_pointer_spec(v: int) -> int {
    if v < -POINTER_MAX {
        -POINTER_MAX as int
    } else if v > POINTER_MAX {
        POINTER_MAX as int
    } else {
        v
    }
}

fn clamp_dim(v: u32) -> (r: u32)
    ensures
        r as int == clamp_dim_spec(v as int),
{
    if v < 1 {
        1
    } else if v > DIM_MAX {
        DIM_MAX
    } else {
        v
    }
}

fn clamp_pointer(v: i64) -> (r: i64)
    ensures
        r as int == clamp_pointer_spec(v as int),
{
    if v < -POINTER_MAX {
        -POINTER_MAX
    } else if v > POINTER_MAX {
        POINTER_MAX
    } else {
        v
    }
}

impl ViewState {
    /// Dimensions and pointer position are inside the ranges the uniform
    /// computations accept.
    pub open spec fn wf(self) -> bool {
        &&& 1 <= self.width <= DIM_MAX
        &&& 1 <= self.height <= DIM_MAX
        &&& -POINTER_MAX <= self.pointer_x <= POINTER_MAX
        &&& -POINTER_MAX <= self.pointer_y <= POINTER_MAX
    }

    /// A freshly opened, running view: the pointer starts at the viewport
    /// center, so the initial fold radius is zero.
    pub fn new(width: u32, height: u32) -> (s: ViewState)
        ensures
            s.wf(),
            s.running,
            s.width as int == clamp_dim_spec(width as int),
            s.height as int == clamp_dim_spec(height as int),
            s.pointer_x == s.width as int / 2,
            s.pointer_y == s.height as int / 2,
    {
        let w = clamp_dim(width);
        let h = clamp_dim(height);
        ViewState {
            running: true,
            width: w,
            height: h,
            pointer_x: (w / 2) as i64,
            pointer_y: (h / 2) as i64,
        }
    }
}

/// Feeds one event into the loop state.  A close request ends the loop for
/// good, a resize updates the cached framebuffer size, a pointer move
/// updates the cached pointer, and anything else changes nothing.  Nothing
/// ever restarts a closed loop.
pub fn handle_event(s: &mut ViewState, ev: SceneEvent)
    requires
        old(s).wf(),
    ensures
        final(s).wf(),
        final(s).running ==> old(s).running,
        (match ev {
            SceneEvent::Closed => {
                &&& !final(s).running
                &&& final(s).width == old(s).width
                &&& final(s).height == old(s).height
                &&& final(s).pointer_x == old(s).pointer_x
                &&& final(s).pointer_y == old(s).pointer_y
            },
            SceneEvent::Resized(w, h) => {
                &&& final(s).running == old(s).running
                &&& final(s).width as int == clamp_dim_spec(w as int)
                &&& final(s).height as int == clamp_dim_spec(h as int)
                &&& final(s).pointer_x == old(s).pointer_x
                &&& final(s).pointer_y == old(s).pointer_y
            },
            SceneEvent::PointerMoved(x, y) => {
                &&& final(s).running == old(s).running
                &&& final(s).width == old(s).width
                &&& final(s).height == old(s).height
                &&& final(s).pointer_x as int == clamp_pointer_spec(x as int)
                &&& final(s).pointer_y as int == clamp_pointer_spec(y as int)
            },
            SceneEvent::Other => *final(s) == *old(s),
        }),
{
    match ev {
        SceneEvent::Closed => {
            s.running = false;
        },
        SceneEvent::Resized(w, h) => {
            s.width = clamp_dim(w);
            s.height = clamp_dim(h);
        },
        SceneEvent::PointerMoved(x, y) => {
            s.pointer_x = clamp_pointer(x);
            s.pointer_y = clamp_pointer(y);
        },
        SceneEvent::Other => {},
    }
}

/// The uniforms of one frame: the aspect scale shared by both scenes and
/// the fold radius of the hex scene, in thousandths.
#[derive(Clone, Copy, Debug, PartialEq, Eq, Structural)]
pub struct FrameUniforms {
    pub scale: AspectScale,
    pub fold_radius_milli: u64,
}

/// Recomputes the per-frame uniforms from the current loop state, using the
/// default trim.
pub fn frame_uniforms(s: &ViewState) -> (u: FrameUniforms)
    requires
        s.wf(),
    ensures
        aspect_matches(s.width as int, s.height as int, u.scale),
        u.fold_radius_milli as int == fold_radius_spec(
            s.pointer_x as int,
            s.pointer_y as int,
            s.width as int,
            s.height as int,
            FOLD_TRIM_MILLI as int,
        ),
{
    FrameUniforms {
        scale: aspect_scale(s.width, s.height),
        fold_radius_milli: fold_radius_milli(
            s.pointer_x,
            s.pointer_y,
            s.width,
            s.height,
            FOLD_TRIM_MILLI,
        ),
    }
}

} // verus!
