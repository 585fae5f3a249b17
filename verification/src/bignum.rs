//! Arbitrary-precision integers for the deep-zoom arithmetic.
//!
//! A magnitude is a little-endian vector of 64-bit digits whose mathematical
//! value `mag_val` the contracts speak of; the magnitude operations are
//! carried out by GMP through rug. Signed values and fixed-point scaling are
//! built on top of them in verified code.

use vstd::prelude::*;
use vstd::arithmetic::power2::pow2;
use crate::num::{clamp, iabs, tdiv};

verus! {

/// The value of a little-endian sequence of 64-bit digits.
pub open spec fn mag_val(s: Seq<u64>) -> nat
    decreases s.len(),
{
    if s.len() == 0 {
        0
    } else {
        s[0] as nat + 0x1_0000_0000_0000_0000 * mag_val(s.subrange(1, s.len() as int))
    }
}

/// Minimal form: no leading (most significant) zero digit. This is the form
/// GMP's digit export produces.
pub open spec fn mag_min(s: Seq<u64>) -> bool {
    s.len() == 0 || s[s.len() - 1] != 0
}

/// The value of a one-digit sequence is its digit.
pub proof fn lemma_mag_val_singleton(s: Seq<u64>)
    requires
        s.len() == 1,
    ensures
        mag_val(s) == s[0],
{
    assert(s.subrange(1, 1).len() == 0);
    assert(mag_val(s.subrange(1, 1)) == 0);
    assert(mag_val(s) == s[0] as nat + 0x1_0000_0000_0000_0000 * mag_val(s.subrange(1, 1)));
}

/// A nonempty minimal-form magnitude is at least 1, and one of two or more
/// digits is at least 2^64.
pub proof fn lemma_mag_min_lower(s: Seq<u64>)
    requires
        mag_min(s),
        s.len() >= 1,
    ensures
        mag_val(s) >= 1,
        s.len() >= 2 ==> mag_val(s) >= 0x1_0000_0000_0000_0000,
    decreases s.len(),
{
    let tail = s.subrange(1, s.len() as int);
    if s.len() == 1 {
        lemma_mag_val_singleton(s);
    } else {
        assert(mag_min(tail)) by {
            assert(tail[tail.len() - 1] == s[s.len() - 1]);
        }
        lemma_mag_min_lower(tail);
        assert(mag_val(s) >= 0x1_0000_0000_0000_0000 * mag_val(tail)) by (nonlinear_arith)
            requires
                mag_val(s) == s[0] as nat + 0x1_0000_0000_0000_0000 * mag_val(tail),
        ;
        assert(0x1_0000_0000_0000_0000 * mag_val(tail) >= 0x1_0000_0000_0000_0000)
            by (nonlinear_arith)
            requires
                mag_val(tail) >= 1,
        ;
    }
}

/// Relies on rug's `Integer::from_digits` / `Integer::to_digits` (GMP digit
/// import and export) and GMP multiplication: the product of the two values,
/// in minimal form.
#[verifier::external_body]
fn mag_mul(a: &Vec<u64>, b: &Vec<u64>) -> (r: Vec<u64>)
    ensures
        mag_val(r@) == mag_val(a@) * mag_val(b@),
        mag_min(r@),
{
    let x = rug::Integer::from_digits(a.as_slice(), rug::integer::Order::Lsf);
    let y = rug::Integer::from_digits(b.as_slice(), rug::integer::Order::Lsf);
    let z = rug::Integer::from(&x * &y);
    z.to_digits::<u64>(rug::integer::Order::Lsf)
}

/// Relies on rug's digit import/export and GMP addition: the sum of the two
/// values, in minimal form.
#[verifier::external_body]
fn mag_add(a: &Vec<u64>, b: &Vec<u64>) -> (r: Vec<u64>)
    ensures
        mag_val(r@) == mag_val(a@) + mag_val(b@),
        mag_min(r@),
{
    let x = rug::Integer::from_digits(a.as_slice(), rug::integer::Order::Lsf);
    let y = rug::Integer::from_digits(b.as_slice(), rug::integer::Order::Lsf);
    let z = rug::Integer::from(&x + &y);
    z.to_digits::<u64>(rug::integer::Order::Lsf)
}

/// Relies on rug's digit import/export and GMP subtraction: the difference
/// of the two values (the smaller taken from the larger), in minimal form.
#[verifier::external_body]
fn mag_sub(a: &Vec<u64>, b: &Vec<u64>) -> (r: Vec<u64>)
    requires
        mag_val(b@) <= mag_val(a@),
    ensures
        mag_val(r@) == mag_val(a@) - mag_val(b@),
        mag_min(r@),
{
    let x = rug::Integer::from_digits(a.as_slice(), rug::integer::Order::Lsf);
    let y = rug::Integer::from_digits(b.as_slice(), rug::integer::Order::Lsf);
    let z = rug::Integer::from(&x - &y);
    z.to_digits::<u64>(rug::integer::Order::Lsf)
}

/// Relies on rug's digit import/export and GMP comparison (`Ord` on
/// `Integer`): whether the first value is smaller.
#[verifier::external_body]
fn mag_lt(a: &Vec<u64>, b: &Vec<u64>) -> (r: bool)
    ensures
        r == (mag_val(a@) < mag_val(b@)),
{
    let x = rug::Integer::from_digits(a.as_slice(), rug::integer::Order::Lsf);
    let y = rug::Integer::from_digits(b.as_slice(), rug::integer::Order::Lsf);
    x < y
}

/// Relies on rug's digit import/export and GMP left shift: the value times
/// 2^k, in minimal form.
#[verifier::external_body]
fn mag_shl(a: &Vec<u64>, k: u32) -> (r: Vec<u64>)
    ensures
        mag_val(r@) == mag_val(a@) * pow2(k as nat),
        mag_min(r@),
{
    let mut x = rug::Integer::from_digits(a.as_slice(), rug::integer::Order::Lsf);
    x <<= k;
    x.to_digits::<u64>(rug::integer::Order::Lsf)
}

/// Relies on rug's digit import/export and GMP right shift (floor division
/// by 2^k; the value is nonnegative): the value divided by 2^k, in minimal
/// form.
#[verifier::external_body]
fn mag_shr(a: &Vec<u64>, k: u32) -> (r: Vec<u64>)
    ensures
        mag_val(r@) == mag_val(a@) / pow2(k as nat),
        mag_min(r@),
{
    let mut x = rug::Integer::from_digits(a.as_slice(), rug::integer::Order::Lsf);
    x >>= k;
    x.to_digits::<u64>(rug::integer::Order::Lsf)
}

/// A signed arbitrary-precision integer: a sign and a magnitude.
pub struct Big {
    pub neg: bool,
    pub mag: Vec<u64>,
}

impl Big {
    /// The mathematical value.
    pub open spec fn value(&self) -> int {
        if self.neg {
            -(mag_val(self.mag@) as int)
        } else {
            mag_val(self.mag@) as int
        }
    }

    /// The magnitude is in minimal form.
    pub open spec fn wf(&self) -> bool {
        mag_min(self.mag@)
    }

    /// The integer `v`.
    pub fn from_i64(v: i64) -> (r: Big)
        ensures
            r.value() == v as int,
            r.wf(),
    {
        if v == 0 {
            let r = Big { neg: false, mag: Vec::new() };
            proof {
                assert(r.mag@.len() == 0);
            }
            r
        } else {
            let m: u64 = if v >= 0 {
                v as u64
            } else {
                ((-(v as i128)) as u64)
            };
            let mut mag: Vec<u64> = Vec::new();
            mag.push(m);
            let r = Big { neg: v < 0, mag };
            proof {
                lemma_mag_val_singleton(r.mag@);
            }
            r
        }
    }

    /// A copy with the same value.
    pub fn duplicate(&self) -> (r: Big)
        ensures
            r.neg == self.neg,
            r.mag@ == self.mag@,
            r.value() == self.value(),
            self.wf() ==> r.wf(),
    {
        let mut mag: Vec<u64> = Vec::new();
        let mut i: usize = 0;
        while i < self.mag.len()
            invariant
                i <= self.mag.len(),
                mag@ == self.mag@.subrange(0, i as int),
            decreases self.mag.len() - i,
        {
            mag.push(self.mag[i]);
            proof {
                assert(mag@ =~= self.mag@.subrange(0, i + 1));
            }
            i += 1;
        }
        proof {
            assert(mag@ =~= self.mag@);
        }
        Big { neg: self.neg, mag }
    }
}

/// The signed sum `a + b` (or `a - b` with `flip_b`).
fn combine(a: &Big, b: &Big, flip_b: bool) -> (r: Big)
    ensures
        r.value() == a.value() + if flip_b {
            -b.value()
        } else {
            b.value()
        },
        r.wf(),
{
    let b_neg = if flip_b {
        !b.neg
    } else {
        b.neg
    };
    if a.neg == b_neg {
        Big { neg: a.neg, mag: mag_add(&a.mag, &b.mag) }
    } else {
        if mag_lt(&a.mag, &b.mag) {
            Big { neg: b_neg, mag: mag_sub(&b.mag, &a.mag) }
        } else {
            Big { neg: a.neg, mag: mag_sub(&a.mag, &b.mag) }
        }
    }
}

/// The sum of the two values.
pub fn big_add(a: &Big, b: &Big) -> (r: Big)
    ensures
        r.value() == a.value() + b.value(),
        r.wf(),
{
    combine(a, b, false)
}

/// The difference of the two values.
pub fn big_sub(a: &Big, b: &Big) -> (r: Big)
    ensures
        r.value() == a.value() - b.value(),
        r.wf(),
{
    combine(a, b, true)
}

/// The product of the two values.
pub fn big_mul(a: &Big, b: &Big) -> (r: Big)
    ensures
        r.value() == a.value() * b.value(),
        r.wf(),
{
    let mag = mag_mul(&a.mag, &b.mag);
    let r = Big { neg: a.neg != b.neg, mag };
    proof {
        let ma = mag_val(a.mag@) as int;
        let mb = mag_val(b.mag@) as int;
        assert(r.value() == a.value() * b.value()) by (nonlinear_arith)
            requires
                mag_val(r.mag@) == ma * mb,
                ma >= 0,
                mb >= 0,
                a.value() == if a.neg {
                    -ma
                } else {
                    ma
                },
                b.value() == if b.neg {
                    -mb
                } else {
                    mb
                },
                r.value() == if a.neg != b.neg {
                    -(ma * mb)
                } else {
                    ma * mb
                },
        ;
    }
    r
}

/// The value times 2^k.
pub fn big_shl(a: &Big, k: u32) -> (r: Big)
    ensures
        r.value() == a.value() * pow2(k as nat),
        r.wf(),
{
    let mag = mag_shl(&a.mag, k);
    let r = Big { neg: a.neg, mag };
    proof {
        vstd::arithmetic::power2::lemma_pow2_pos(k as nat);
        let ma = mag_val(a.mag@) as int;
        let p = pow2(k as nat) as int;
        assert(r.value() == a.value() * p) by (nonlinear_arith)
            requires
                mag_val(r.mag@) == ma * p,
                ma >= 0,
                p >= 1,
                a.value() == if a.neg {
                    -ma
                } else {
                    ma
                },
                r.value() == if a.neg {
                    -(ma * p)
                } else {
                    ma * p
                },
        ;
    }
    r
}

/// The value divided by 2^k, rounded toward zero.
pub fn big_shr_trunc(a: &Big, k: u32) -> (r: Big)
    ensures
        r.value() == tdiv(a.value(), pow2(k as nat) as int),
        r.wf(),
{
    let mag = mag_shr(&a.mag, k);
    let r = Big { neg: a.neg, mag };
    proof {
        vstd::arithmetic::power2::lemma_pow2_pos(k as nat);
        let ma = mag_val(a.mag@) as int;
        let p = pow2(k as nat) as int;
        assert(iabs(a.value()) == ma);
        assert(mag_val(r.mag@) == ma / p);
    }
    r
}

/// The value pulled into `[-2^62, 2^62]` as a machine integer.
pub fn big_to_i64_clamp(b: &Big) -> (r: i64)
    requires
        b.wf(),
    ensures
        r as int == clamp(b.value(), -0x4000_0000_0000_0000, 0x4000_0000_0000_0000),
{
    if b.mag.len() == 0 {
        0
    } else if b.mag.len() == 1 {
        proof {
            lemma_mag_val_singleton(b.mag@);
        }
        let m: u64 = b.mag[0];
        if m > 0x4000_0000_0000_0000u64 {
            if b.neg {
                -0x4000_0000_0000_0000i64
            } else {
                0x4000_0000_0000_0000i64
            }
        } else {
            if b.neg {
                -(m as i64)
            } else {
                m as i64
            }
        }
    } else {
        proof {
            lemma_mag_min_lower(b.mag@);
        }
        if b.neg {
            -0x4000_0000_0000_0000i64
        } else {
            0x4000_0000_0000_0000i64
        }
    }
}

} // verus!
