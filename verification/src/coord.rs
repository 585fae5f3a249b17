//! Mapping of pixel positions onto plane coordinates.

use vstd::prelude::*;
use crate::num::{clamp_coord, clamp_coord_i128, iabs, tdiv, tdiv_i128, COORD_LIMIT};

verus! {

/// The affine remap of `value` from the span `low1..high1` onto the span
/// `low2..high2`, with truncated division.
pub open spec fn map_spec(value: int, low1: int, high1: int, low2: int, high2: int) -> int
    recommends
        high1 != low1,
{
    low2 + tdiv((value - low1) * (high2 - low2), high1 - low1)
}

/// Remaps `value` from the range `low1..high1` onto the range `low2..high2`:
/// the pixel-to-plane conversion, done on each axis independently.
///
/// The result is the exact truncated-division remap, pulled into the
/// coordinate range.
pub fn map(value: i64, low1: i64, high1: i64, low2: i64, high2: i64) -> (r: i64)
    requires
        high1 != low1,
        -COORD_LIMIT <= value <= COORD_LIMIT,
        -COORD_LIMIT <= low1 <= COORD_LIMIT,
        -COORD_LIMIT <= high1 <= COORD_LIMIT,
        -COORD_LIMIT <= low2 <= COORD_LIMIT,
        -COORD_LIMIT <= high2 <= COORD_LIMIT,
    ensures
        r == clamp_coord(map_spec(value as int, low1 as int, high1 as int, low2 as int, high2 as int)),
        -COORD_LIMIT <= r <= COORD_LIMIT,
{
    let d1: i128 = value as i128 - low1 as i128;
    let d2: i128 = high2 as i128 - low2 as i128;
    proof {
        assert(-0x1_0000_0000_0000_0000 <= d1 as int * d2 as int <= 0x1_0000_0000_0000_0000)
            by (nonlinear_arith)
            requires
                -0x1_0000_0000 <= d1 as int <= 0x1_0000_0000,
                -0x1_0000_0000 <= d2 as int <= 0x1_0000_0000,
        ;
    }
    let num: i128 = d1 * d2;
    let den: i128 = high1 as i128 - low1 as i128;
    let q: i128 = tdiv_i128(num, den);
    proof {
        crate::num::lemma_tdiv_abs_bound(num as int, iabs(den as int));
        assert(iabs(q as int) <= iabs(num as int));
    }
    clamp_coord_i128(low2 as i128 + q)
}

} // verus!
