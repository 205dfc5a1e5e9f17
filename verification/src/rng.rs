//! The one random source the simulation uses, behind a single wrapper.

use vstd::prelude::*;

use crate::geometry::{Vec2i, MILLI};

verus! {

/// Bound far enough below 2^53 that `i64` endpoints pass through `f64`
/// exactly.
pub const RNG_BOUND: i64 = 1_000_000_000_000;

/// Relies on quad_rand::gen_range (the generator macroquad re-exports as
/// its `rand` module): for integers it computes `low + (high - low) * r`
/// in `f64` with `r` drawn from `[0, 1)` and casts back with `as`,
/// truncating toward zero. Within these bounds `low`, `high` and
/// `high - low` are exactly representable, so the rounded product lies in
/// `[0, high - low]` and the rounded sum in `[low, high]`; truncation
/// toward zero of a real in that range, with integer endpoints, stays in
/// it. Rounding of the sum can land exactly on `high` (when
/// `(high - low) * 2^-32` is below half an ulp of `high`), so only the
/// closed bound is promised; callers re-test where the open bound
/// matters.
#[verifier::external_body]
pub(crate) fn gen_range_i64(low: i64, high: i64) -> (r: i64)
    requires
        low < high,
        -RNG_BOUND <= low,
        high <= RNG_BOUND,
    ensures
        low <= r <= high,
{
    quad_rand::gen_range(low, high)
}

/// A random value in `[low, high)`: one draw, with the closed upper end
/// the generator can produce folded back onto the last admitted value.
pub(crate) fn gen_below(low: i64, high: i64) -> (r: i64)
    requires
        low < high,
        -RNG_BOUND <= low,
        high <= RNG_BOUND,
    ensures
        low <= r < high,
{
    let r: i64 = gen_range_i64(low, high);
    if r >= high {
        high - 1
    } else {
        r
    }
}

/// How far below one milli-unit a drift direction's length may fall.
pub const DIR_TOLERANCE: i64 = 50;

/// A random drift direction: a vector whose length is within
/// `DIR_TOLERANCE` milli-units of the milli-unit circle, drawn by
/// rejection from the square (an exact unit vector would take
/// trigonometry, which the integer model does not have). A bounded number
/// of draws is tried; the axis direction stands in on the vanishingly
/// rare run where every draw misses the ring.
pub(crate) fn random_dir() -> (d: Vec2i)
    ensures
        -MILLI <= d.x <= MILLI,
        -MILLI <= d.y <= MILLI,
        (MILLI - DIR_TOLERANCE) * (MILLI - DIR_TOLERANCE) <= d.x * d.x + d.y * d.y <= MILLI
            * MILLI,
{
    let mut tries: u32 = 0;
    while tries < 128
        decreases 128 - tries,
    {
        let x: i64 = gen_below(-MILLI, MILLI + 1);
        let y: i64 = gen_below(-MILLI, MILLI + 1);
        assert(0 <= x * x <= MILLI * MILLI && 0 <= y * y <= MILLI * MILLI) by (nonlinear_arith)
            requires
                -MILLI <= x <= MILLI,
                -MILLI <= y <= MILLI,
        ;
        let norm2: i64 = x * x + y * y;
        if (MILLI - DIR_TOLERANCE) * (MILLI - DIR_TOLERANCE) <= norm2 && norm2 <= MILLI * MILLI {
            return Vec2i { x, y };
        }
        tries = tries + 1;
    }
    Vec2i { x: MILLI, y: 0 }
}

} // verus!
