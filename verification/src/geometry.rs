//! Integer geometry: coordinates in milli-pixels, velocities in
//! milli-pixels per second, time in milliseconds.

use vstd::prelude::*;

verus! {

/// Milli-pixels per pixel.
pub const MILLI: i64 = 1000;

/// Largest magnitude a stored coordinate may have (one million pixels).
pub const POS_LIMIT: i64 = 1_000_000_000_000;

/// Largest magnitude a stored velocity component may have
/// (one million pixels per second).
pub const SPEED_LIMIT: i64 = 1_000_000_000;

/// Largest screen dimension (ten thousand pixels).
pub const SCREEN_LIMIT: i64 = 10_000_000;

/// Largest visual extent of an entity (one thousand pixels).
pub const EXTENT_LIMIT: i64 = 1_000_000;

/// Longest frame the simulation accepts, in milliseconds.
pub const DT_LIMIT: u32 = 60_000;

/// A point or vector in world space, in milli-pixels.
#[derive(Clone, Copy, PartialEq, Eq, Structural, Debug)]
pub struct Vec2i {
    pub x: i64,
    pub y: i64,
}

/// The screen dimensions the world wraps entities into, in milli-pixels.
#[derive(Clone, Copy, PartialEq, Eq, Structural, Debug)]
pub struct Screen {
    pub w: i64,
    pub h: i64,
}

impl Screen {
    pub open spec fn wf(self) -> bool {
        0 < self.w <= SCREEN_LIMIT && 0 < self.h <= SCREEN_LIMIT
    }
}

/// Division by the milli-pixel scale with machine semantics: the quotient
/// is truncated toward zero, as `/` does on `i64`.
pub open spec fn div_milli(a: int) -> int {
    if a >= 0 {
        a / (MILLI as int)
    } else {
        -((-a) / (MILLI as int))
    }
}

/// One coordinate after one frame of motion: the displacement a velocity
/// produces over `dt` milliseconds, clamped so a coordinate never leaves
/// the representable band.
pub open spec fn spec_step_coord(p: int, v: int, dt: int) -> int {
    clamped(p + div_milli(v * dt), POS_LIMIT as int)
}

/// `x` clamped to `[-limit, limit]`.
pub open spec fn clamped(x: int, limit: int) -> int {
    if x < -limit {
        -limit
    } else if x > limit {
        limit
    } else {
        x
    }
}

/// Advances one coordinate by `v` milli-pixels per second for `dt`
/// milliseconds, clamping to the representable band.
pub fn step_coord(p: i64, v: i64, dt: u32) -> (r: i64)
    requires
        -POS_LIMIT <= p <= POS_LIMIT,
        -SPEED_LIMIT <= v <= SPEED_LIMIT,
        dt <= DT_LIMIT,
    ensures
        r == spec_step_coord(p as int, v as int, dt as int),
        -POS_LIMIT <= r <= POS_LIMIT,
{
    assert((-SPEED_LIMIT * DT_LIMIT) <= v * (dt as i64) <= SPEED_LIMIT * DT_LIMIT)
        by (nonlinear_arith)
        requires
            -SPEED_LIMIT <= v <= SPEED_LIMIT,
            0 <= dt <= DT_LIMIT,
    ;
    let moved: i64 = p + (v * (dt as i64)) / MILLI;
    if moved < -POS_LIMIT {
        -POS_LIMIT
    } else if moved > POS_LIMIT {
        POS_LIMIT
    } else {
        moved
    }
}

/// One coordinate after the wrap pass: a coordinate more than the
/// entity's extent past either edge reappears at the opposite edge minus
/// the entity's own extent, the same rule on both sides.
pub open spec fn spec_wrap_coord(p: int, extent: int, limit: int) -> int {
    if p < -extent {
        limit - extent
    } else if p > limit {
        -extent
    } else {
        p
    }
}

/// Wraps one coordinate across the screen edge.
pub fn wrap_coord(p: i64, extent: i64, limit: i64) -> (r: i64)
    requires
        0 <= extent,
        0 < limit,
    ensures
        r == spec_wrap_coord(p as int, extent as int, limit as int),
        -extent <= r <= limit,
{
    if p < -extent {
        limit - extent
    } else if p > limit {
        -extent
    } else {
        p
    }
}

/// After the wrap pass a coordinate always lies in the drawable band
/// `[-extent, limit]`, whatever it was before.
pub proof fn lemma_wrap_in_band(p: int, extent: int, limit: int)
    requires
        0 <= extent,
        0 < limit,
    ensures
        -extent <= spec_wrap_coord(p, extent, limit) <= limit,
{
}

} // verus!
