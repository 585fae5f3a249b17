//! Axis-aligned rectangles in plane coordinates, and the geometric operations
//! the selection state machine performs on them: normalization on commit,
//! aspect fixing, and the aspect-locked drag corner.

use vstd::prelude::*;
use crate::num::{clamp_coord, clamp_coord_i128, iabs, isqrt, isqrt_u128, tdiv,
    tdiv_i128, COORD_LIMIT};

verus! {

/// A point of the plane, in millionths of a plane unit.
#[derive(Clone, Copy, PartialEq, Eq, Structural, Debug)]
pub struct Vec2I {
    pub x: i64,
    pub y: i64,
}

/// An axis-aligned rectangle in plane coordinates. While a drag is in
/// progress no corner ordering is enforced; a committed region is normalized
/// so that `top_left <= bottom_right` componentwise.
#[derive(Clone, Copy, PartialEq, Eq, Structural, Debug)]
pub struct Region {
    pub top_left: Vec2I,
    pub bottom_right: Vec2I,
}

pub open spec fn coord_ok(v: int) -> bool {
    -(COORD_LIMIT as int) <= v <= COORD_LIMIT as int
}

pub open spec fn vec2_ok(v: Vec2I) -> bool {
    coord_ok(v.x as int) && coord_ok(v.y as int)
}

pub open spec fn region_ok(r: Region) -> bool {
    vec2_ok(r.top_left) && vec2_ok(r.bottom_right)
}

pub const DEFAULT_LEFT: i64 = -2_200_000;

pub const DEFAULT_TOP: i64 = -1_400_000;

pub const DEFAULT_RIGHT: i64 = 600_000;

pub const DEFAULT_BOTTOM: i64 = 1_400_000;

/// The fixed rectangle that shows the whole Mandelbrot set.
pub open spec fn default_region() -> Region {
    Region {
        top_left: Vec2I { x: DEFAULT_LEFT, y: DEFAULT_TOP },
        bottom_right: Vec2I { x: DEFAULT_RIGHT, y: DEFAULT_BOTTOM },
    }
}

impl Default for Region {
    /// The default view: the whole Mandelbrot set.
    fn default() -> (r: Region)
        ensures
            r == default_region(),
            region_ok(r),
    {
        Region {
            top_left: Vec2I { x: DEFAULT_LEFT, y: DEFAULT_TOP },
            bottom_right: Vec2I { x: DEFAULT_RIGHT, y: DEFAULT_BOTTOM },
        }
    }
}

/// Componentwise reordering of the corners so that `top_left` is the
/// componentwise minimum and `bottom_right` the componentwise maximum.
pub open spec fn normalize_spec(r: Region) -> Region {
    Region {
        top_left: Vec2I {
            x: if r.top_left.x <= r.bottom_right.x {
                r.top_left.x
            } else {
                r.bottom_right.x
            },
            y: if r.top_left.y <= r.bottom_right.y {
                r.top_left.y
            } else {
                r.bottom_right.y
            },
        },
        bottom_right: Vec2I {
            x: if r.top_left.x <= r.bottom_right.x {
                r.bottom_right.x
            } else {
                r.top_left.x
            },
            y: if r.top_left.y <= r.bottom_right.y {
                r.bottom_right.y
            } else {
                r.top_left.y
            },
        },
    }
}

/// Reorders the corners of `r` so the region is normalized.
pub fn normalize(r: Region) -> (out: Region)
    ensures
        out == normalize_spec(r),
{
    let left = if r.top_left.x <= r.bottom_right.x {
        r.top_left.x
    } else {
        r.bottom_right.x
    };
    let right = if r.top_left.x <= r.bottom_right.x {
        r.bottom_right.x
    } else {
        r.top_left.x
    };
    let top = if r.top_left.y <= r.bottom_right.y {
        r.top_left.y
    } else {
        r.bottom_right.y
    };
    let bottom = if r.top_left.y <= r.bottom_right.y {
        r.bottom_right.y
    } else {
        r.top_left.y
    };
    Region { top_left: Vec2I { x: left, y: top }, bottom_right: Vec2I { x: right, y: bottom } }
}

/// A normalized region committed from a drag between plane points `a` and
/// `b` has the componentwise minimum as `top_left` and the componentwise
/// maximum as `bottom_right`.
pub proof fn lemma_normalize_min_max(a: Vec2I, b: Vec2I)
    ensures
        ({
            let n = normalize_spec(Region { top_left: a, bottom_right: b });
            &&& n.top_left.x == if a.x <= b.x { a.x } else { b.x }
            &&& n.top_left.y == if a.y <= b.y { a.y } else { b.y }
            &&& n.bottom_right.x == if a.x <= b.x { b.x } else { a.x }
            &&& n.bottom_right.y == if a.y <= b.y { b.y } else { a.y }
            &&& n.top_left.x <= n.bottom_right.x
            &&& n.top_left.y <= n.bottom_right.y
        }),
{
}

/// The rectangle with the width recomputed from the height so that
/// width = height * num / den, holding `top_left` and the height fixed:
/// height is authoritative, width is derived.
pub open spec fn fix_aspect_spec(r: Region, num: u32, den: u32) -> Region
    recommends
        den > 0,
{
    let height = r.bottom_right.y - r.top_left.y;
    Region {
        top_left: r.top_left,
        bottom_right: Vec2I {
            x: clamp_coord(r.top_left.x + tdiv(height * num, den as int)) as i64,
            y: r.bottom_right.y,
        },
    }
}

/// Recomputes the right edge of `r` so the rectangle's width matches the
/// viewport aspect ratio `num / den`, holding height and `top_left` fixed.
pub fn fix_aspect_region(r: Region, num: u32, den: u32) -> (out: Region)
    requires
        den > 0,
        region_ok(r),
    ensures
        out == fix_aspect_spec(r, num, den),
        region_ok(out),
{
    let height: i128 = r.bottom_right.y as i128 - r.top_left.y as i128;
    proof {
        assert(-0x2_0000_0000_0000_0000 <= height as int * num as int <= 0x2_0000_0000_0000_0000)
            by (nonlinear_arith)
            requires
                -0x2_0000_0000 <= height as int <= 0x2_0000_0000,
                0 <= num as int <= 0x1_0000_0000,
        ;
    }
    let prod: i128 = height * num as i128;
    let q: i128 = tdiv_i128(prod, den as i128);
    proof {
        crate::num::lemma_tdiv_abs_bound(prod as int, den as int);
        assert(iabs(q as int) <= iabs(prod as int));
    }
    let x = clamp_coord_i128(r.top_left.x as i128 + q);
    Region {
        top_left: r.top_left,
        bottom_right: Vec2I { x, y: r.bottom_right.y },
    }
}

/// The sign convention of the drag logic: nonnegative displacements count as
/// positive, mirroring the sign the pointer math takes for a zero offset.
pub open spec fn sgn(v: int) -> int {
    if v >= 0 {
        1
    } else {
        -1
    }
}

/// Half the diagonal of the unconstrained drag rectangle: the distance from
/// the anchor to the cursor, divided by the square root of two (as the floor
/// square root of half the squared distance).
pub open spec fn half_diag(dx: int, dy: int) -> int {
    isqrt((((dx * dx + dy * dy) / 2) as nat)) as int
}

/// The drag corner with the aspect lock engaged: the distance from the
/// anchor to the cursor is divided by the square root of two and applied
/// along each axis scaled by `(num / den, 1)`, with the sign taken from the
/// cursor's direction relative to the anchor. This keeps the diagonal length
/// while forcing the rectangle's proportions to the viewport's.
pub open spec fn aspect_locked_br(anchor: Vec2I, cursor: Vec2I, num: u32, den: u32) -> Vec2I
    recommends
        den > 0,
{
    let dx = cursor.x - anchor.x;
    let dy = cursor.y - anchor.y;
    let h = half_diag(dx, dy);
    let w = tdiv(h * num, den as int);
    Vec2I {
        x: clamp_coord(anchor.x + sgn(dx) * w) as i64,
        y: clamp_coord(anchor.y + sgn(dy) * h) as i64,
    }
}

/// Computes the aspect-locked drag corner.
pub fn aspect_locked_corner(anchor: Vec2I, cursor: Vec2I, num: u32, den: u32) -> (out: Vec2I)
    requires
        den > 0,
        vec2_ok(anchor),
        vec2_ok(cursor),
    ensures
        out == aspect_locked_br(anchor, cursor, num, den),
        vec2_ok(out),
{
    let dx: i128 = cursor.x as i128 - anchor.x as i128;
    let dy: i128 = cursor.y as i128 - anchor.y as i128;
    let ax: u128 = if dx >= 0 {
        dx as u128
    } else {
        (-dx) as u128
    };
    let ay: u128 = if dy >= 0 {
        dy as u128
    } else {
        (-dy) as u128
    };
    proof {
        assert(ax as int * ax as int == dx as int * dx as int && ax as int <= 0x2_0000_0000)
            by (nonlinear_arith)
            requires
                ax as int == iabs(dx as int),
                iabs(dx as int) <= 0x2_0000_0000,
        ;
        assert(ay as int * ay as int == dy as int * dy as int && ay as int <= 0x2_0000_0000)
            by (nonlinear_arith)
            requires
                ay as int == iabs(dy as int),
                iabs(dy as int) <= 0x2_0000_0000,
        ;
        assert(ax as int * ax as int <= 0x4_0000_0000_0000_0000
            && ay as int * ay as int <= 0x4_0000_0000_0000_0000) by (nonlinear_arith)
            requires
                0 <= ax as int <= 0x2_0000_0000,
                0 <= ay as int <= 0x2_0000_0000,
        ;
    }
    let s: u128 = ax * ax + ay * ay;
    let n: u128 = s / 2;
    let h: u128 = isqrt_u128(n);
    proof {
        vstd::arithmetic::div_mod::lemma_div_is_ordered(
            s as int,
            0x8_0000_0000_0000_0000,
            2,
        );
        assert(h as int <= 0x4_0000_0000) by (nonlinear_arith)
            requires
                h as int * h as int <= 0x4_0000_0000_0000_0000,
                h as int >= 0,
        ;
        assert(h as int * num as int <= 0x4_0000_0000 * 0x1_0000_0000) by (nonlinear_arith)
            requires
                0 <= h as int <= 0x4_0000_0000,
                0 <= num as int <= 0x1_0000_0000,
        ;
    }
    let w: i128 = tdiv_i128((h as i128) * (num as i128), den as i128);
    proof {
        crate::num::lemma_tdiv_abs_bound((h as i128 * num as i128) as int, den as int);
        assert(0 <= w as int <= h as int * num as int);
    }
    let x: i64 = if dx >= 0 {
        clamp_coord_i128(anchor.x as i128 + w)
    } else {
        clamp_coord_i128(anchor.x as i128 - w)
    };
    let y: i64 = if dy >= 0 {
        clamp_coord_i128(anchor.y as i128 + h as i128)
    } else {
        clamp_coord_i128(anchor.y as i128 - h as i128)
    };
    Vec2I { x, y }
}

/// Whether the aspect-locked corner for this anchor, cursor and viewport
/// stays inside the coordinate range without clamping.
pub open spec fn aspect_lock_fits(anchor: Vec2I, cursor: Vec2I, num: u32, den: u32) -> bool {
    let dx = cursor.x - anchor.x;
    let dy = cursor.y - anchor.y;
    let h = half_diag(dx, dy);
    let w = tdiv(h * num, den as int);
    coord_ok(anchor.x + sgn(dx) * w) && coord_ok(anchor.y + sgn(dy) * h)
}

/// With the aspect lock engaged, the drag rectangle's width and height stand
/// in the viewport's ratio `num / den` to within one unit of width:
/// `den * width <= num * height < den * (width + 1)`. Anchors and cursors
/// whose locked corner would be clamped at the coordinate range are excluded.
pub proof fn lemma_aspect_lock_ratio(anchor: Vec2I, cursor: Vec2I, num: u32, den: u32)
    requires
        den > 0,
        aspect_lock_fits(anchor, cursor, num, den),
    ensures
        ({
            let br = aspect_locked_br(anchor, cursor, num, den);
            let width = iabs(br.x - anchor.x);
            let height = iabs(br.y - anchor.y);
            den * width <= num * height < den * (width + 1)
        }),
{
    let dx: int = cursor.x - anchor.x;
    let dy: int = cursor.y - anchor.y;
    let h: int = half_diag(dx, dy);
    let a: int = h * num;
    assert(h >= 0);
    vstd::arithmetic::mul::lemma_mul_nonnegative(h, num as int);
    crate::num::lemma_tdiv_abs_bound(a, den as int);
    crate::num::lemma_tdiv_mul_range(a, den as int);
    let w: int = tdiv(a, den as int);
    let br = aspect_locked_br(anchor, cursor, num, den);
    assert(br.x == anchor.x + sgn(dx) * w);
    assert(br.y == anchor.y + sgn(dy) * h);
    assert(iabs(sgn(dx) * w) == w);
    assert(iabs(sgn(dy) * h) == h);
    assert(num as int * h == a) by (nonlinear_arith)
        requires
            a == h * num as int,
    ;
}

} // verus!
