//! The circle overlap test every collision decision reduces to.

use vstd::prelude::*;

use crate::entity::Data;
use crate::geometry::{EXTENT_LIMIT, SCREEN_LIMIT};

verus! {

/// Whether two circular proxies overlap. Each entity's collision radius is
/// a quarter of the sum of its visual extents, so with `s` the sum of all
/// four extents, the circles overlap iff
/// `dist <= s / 4`, i.e. iff `16 * dist^2 <= s^2` — exact in integers.
pub open spec fn spec_circle_hit(a: Data, b: Data) -> bool {
    let dx = a.position.x - b.position.x;
    let dy = a.position.y - b.position.y;
    let s = a.extent.w + a.extent.h + b.extent.w + b.extent.h;
    16 * (dx * dx + dy * dy) <= s * s
}

/// Decides overlap of the two entities' circular collision proxies.
pub fn circle_test(a: &Data, b: &Data) -> (r: bool)
    requires
        a.wf(),
        b.wf(),
        a.in_band(),
        b.in_band(),
    ensures
        r == spec_circle_hit(*a, *b),
{
    let dx: i64 = a.position.x - b.position.x;
    let dy: i64 = a.position.y - b.position.y;
    let s: i64 = a.extent.w + a.extent.h + b.extent.w + b.extent.h;
    assert(0 <= dx * dx <= 484_000_000_000_000i64 && 0 <= dy * dy
        <= 484_000_000_000_000i64) by (nonlinear_arith)
        requires
            -22_000_000 <= dx <= 22_000_000,
            -22_000_000 <= dy <= 22_000_000,
    ;
    assert(0 <= s * s <= 16_000_000_000_000i64) by (nonlinear_arith)
        requires
            0 <= s <= 4_000_000,
    ;
    16 * (dx * dx + dy * dy) <= s * s
}

} // verus!
