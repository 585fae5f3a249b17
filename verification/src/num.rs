//! Fixed-point integer arithmetic used throughout the crate.
//!
//! Plane coordinates are held in millionths of a plane unit; all executable
//! arithmetic rounds toward zero, which `tdiv` makes precise.

use vstd::prelude::*;

verus! {

/// Largest magnitude a plane coordinate may take, in millionths of a unit.
pub const COORD_LIMIT: i64 = 0x8000_0000;

/// Absolute value of a mathematical integer.
pub open spec fn iabs(a: int) -> int {
    if a >= 0 {
        a
    } else {
        -a
    }
}

/// Truncated (round-toward-zero) division: the semantics of every division
/// performed by the executable fixed-point code in this crate.
pub open spec fn tdiv(a: int, b: int) -> int
    recommends
        b != 0,
{
    if (a >= 0) == (b >= 0) {
        iabs(a) / iabs(b)
    } else {
        -(iabs(a) / iabs(b))
    }
}

/// `v` pulled into the closed interval `[lo, hi]`.
pub open spec fn clamp(v: int, lo: int, hi: int) -> int {
    if v < lo {
        lo
    } else if v > hi {
        hi
    } else {
        v
    }
}

/// `v` pulled into the coordinate range.
pub open spec fn clamp_coord(v: int) -> int {
    clamp(v, -(COORD_LIMIT as int), COORD_LIMIT as int)
}

/// The magnitude of a truncated quotient is at most the magnitude of the
/// dividend, and a nonnegative dividend gives a nonnegative quotient.
pub proof fn lemma_tdiv_abs_bound(a: int, b: int)
    requires
        b >= 1,
    ensures
        iabs(tdiv(a, b)) <= iabs(a),
        a >= 0 ==> 0 <= tdiv(a, b) <= a,
{
    vstd::arithmetic::div_mod::lemma_div_pos_is_pos(iabs(a), b);
    vstd::arithmetic::div_mod::lemma_div_nonincreasing(iabs(a), b);
}

/// A nonnegative dividend lies within one multiple of the divisor of its
/// truncated quotient.
pub proof fn lemma_tdiv_mul_range(a: int, b: int)
    requires
        b >= 1,
        a >= 0,
    ensures
        b * tdiv(a, b) <= a,
        a < b * (tdiv(a, b) + 1),
{
    vstd::arithmetic::div_mod::lemma_fundamental_div_mod(a, b);
    vstd::arithmetic::div_mod::lemma_remainder_upper(a, b);
    vstd::arithmetic::div_mod::lemma_remainder_lower(a, b);
    assert(b * (tdiv(a, b) + 1) == b * tdiv(a, b) + b) by (nonlinear_arith);
    assert(b * tdiv(a, b) == a / b * b) by (nonlinear_arith)
        requires
            tdiv(a, b) == a / b,
    ;
}

/// Truncated division on machine integers.
pub fn tdiv_i128(a: i128, b: i128) -> (r: i128)
    requires
        b != 0,
        a != i128::MIN,
        b != i128::MIN,
    ensures
        r == tdiv(a as int, b as int),
{
    let an: u128 = if a >= 0 {
        a as u128
    } else {
        (-a) as u128
    };
    let bn: u128 = if b >= 0 {
        b as u128
    } else {
        (-b) as u128
    };
    let q: u128 = an / bn;
    proof {
        assert(an as int == iabs(a as int));
        assert(bn as int == iabs(b as int));
        assert(q == iabs(a as int) / iabs(b as int));
        vstd::arithmetic::div_mod::lemma_div_nonincreasing(an as int, bn as int);
    }
    if (a >= 0) == (b >= 0) {
        q as i128
    } else {
        -(q as i128)
    }
}

/// Pulls a wide intermediate value back into the coordinate range.
pub fn clamp_coord_i128(v: i128) -> (r: i64)
    ensures
        r == clamp_coord(v as int),
{
    if v < -(COORD_LIMIT as i128) {
        -COORD_LIMIT
    } else if v > COORD_LIMIT as i128 {
        COORD_LIMIT
    } else {
        v as i64
    }
}

/// Floor of the square root, as a mathematical function.
pub open spec fn isqrt(n: nat) -> nat
    decreases n,
{
    if n == 0 {
        0
    } else {
        let r = isqrt((n - 1) as nat);
        if (r + 1) * (r + 1) <= n {
            r + 1
        } else {
            r
        }
    }
}

/// `isqrt(n)` is the floor of the square root of `n`.
pub proof fn lemma_isqrt_bounds(n: nat)
    ensures
        isqrt(n) * isqrt(n) <= n,
        (isqrt(n) + 1) * (isqrt(n) + 1) > n,
    decreases n,
{
    let s = isqrt(n);
    if n > 0 {
        let m = (n - 1) as nat;
        lemma_isqrt_bounds(m);
        let r = isqrt(m);
        assert(r * r <= m && (r + 1) * (r + 1) > m);
        if (r + 1) * (r + 1) <= n {
            assert(s == r + 1);
            assert((r + 2) * (r + 2) > (r + 1) * (r + 1)) by (nonlinear_arith)
                requires
                    r >= 0,
            ;
            assert(s * s <= n);
            assert((s + 1) * (s + 1) == (r + 2) * (r + 2)) by (nonlinear_arith)
                requires
                    s == r + 1,
            ;
            assert((s + 1) * (s + 1) > n);
        } else {
            assert(s == r);
            assert(s * s <= n);
            assert((s + 1) * (s + 1) > n);
        }
    } else {
        assert(s == 0);
        assert((s + 1) * (s + 1) == 1) by (nonlinear_arith)
            requires
                s == 0,
        ;
        assert(s * s <= n);
        assert((s + 1) * (s + 1) > n);
    }
}

/// Any `r` with `r * r <= n < (r + 1) * (r + 1)` is `isqrt(n)`.
pub proof fn lemma_isqrt_unique(n: nat, r: nat)
    requires
        r * r <= n,
        (r + 1) * (r + 1) > n,
    ensures
        r == isqrt(n),
{
    lemma_isqrt_bounds(n);
    assert(r == isqrt(n)) by (nonlinear_arith)
        requires
            r * r <= n,
            (r + 1) * (r + 1) > n,
            isqrt(n) * isqrt(n) <= n,
            (isqrt(n) + 1) * (isqrt(n) + 1) > n,
    ;
}

/// Floor of the square root.
pub fn isqrt_u128(n: u128) -> (r: u128)
    ensures
        r * r <= n,
        (r + 1) * (r + 1) > n,
        r == isqrt(n as nat),
{
    let mut lo: u128 = 0;
    let mut hi: u128 = 0x1_0000_0000_0000_0000;
    proof {
        assert(hi * hi > n) by (nonlinear_arith)
            requires
                hi == 0x1_0000_0000_0000_0000u128,
                n <= u128::MAX,
        ;
    }
    while lo + 1 < hi
        invariant
            lo < hi <= 0x1_0000_0000_0000_0000u128,
            lo * lo <= n,
            hi * hi > n,
        decreases hi - lo,
    {
        let mid: u128 = lo + (hi - lo) / 2;
        proof {
            assert(lo < mid < hi);
            assert(mid * mid <= u128::MAX) by (nonlinear_arith)
                requires
                    mid < 0x1_0000_0000_0000_0000u128,
            ;
        }
        if mid * mid <= n {
            lo = mid;
        } else {
            hi = mid;
        }
    }
    proof {
        lemma_isqrt_unique(n as nat, lo as nat);
    }
    lo
}

} // verus!
