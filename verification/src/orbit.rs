//! The deep-zoom reference orbit: the escape-time trajectory of the
//! quadratic map `z <- z^2 + c` at a single high-precision reference point,
//! emitted as doubled, narrowed fixed-point samples for a perturbation-based
//! renderer, truncated at the first escape or at the iteration cap.

use vstd::prelude::*;
use vstd::arithmetic::power2::pow2;
use crate::bignum::{big_add, big_mul, big_shl, big_shr_trunc, big_sub, big_to_i64_clamp, Big};
use crate::num::{clamp, tdiv};

verus! {

/// Fractional bits of the narrowed orbit samples.
pub const OUT_FRAC_BITS: u32 = 16;

/// The escape bound on a narrowed sample, in sample scale: 4096 plane units.
pub const ESCAPE_BOUND: i64 = 0x1000_0000;

/// Division by 2^k, rounded toward zero.
pub open spec fn tdiv_pow2(v: int, k: nat) -> int {
    tdiv(v, pow2(k) as int)
}

/// The real part of one step of the quadratic map at scale 2^f:
/// `(zr^2 - zi^2) / 2^f + cr`, rounded toward zero.
pub open spec fn step_re(zr: int, zi: int, cr: int, f: nat) -> int {
    tdiv_pow2(zr * zr - zi * zi, f) + cr
}

/// The imaginary part of one step at scale 2^f:
/// `2 * zr * zi / 2^f + ci`, rounded toward zero.
pub open spec fn step_im(zr: int, zi: int, ci: int, f: nat) -> int {
    tdiv_pow2(2 * zr * zi, f) + ci
}

/// The n-th iterate of the map, starting from the reference point itself
/// (the point is its own seed), at scale 2^f.
pub open spec fn orbit_z(cr: int, ci: int, f: nat, n: nat) -> (int, int)
    decreases n,
{
    if n == 0 {
        (cr, ci)
    } else {
        let z = orbit_z(cr, ci, f, (n - 1) as nat);
        (step_re(z.0, z.1, cr, f), step_im(z.0, z.1, ci, f))
    }
}

/// A narrowed sample value: pulled into the machine range `[-2^62, 2^62]`.
pub open spec fn emit_clamp(v: int) -> int {
    clamp(v, -0x4000_0000_0000_0000, 0x4000_0000_0000_0000)
}

/// The n-th emitted orbit sample: the doubled iterate, rescaled from 2^f to
/// sample scale and narrowed.
pub open spec fn emit_at(cr: int, ci: int, f: nat, n: nat) -> (int, int)
    recommends
        f >= OUT_FRAC_BITS,
{
    let z = orbit_z(cr, ci, f, n);
    (
        emit_clamp(tdiv_pow2(2 * z.0, (f - OUT_FRAC_BITS) as nat)),
        emit_clamp(tdiv_pow2(2 * z.1, (f - OUT_FRAC_BITS) as nat)),
    )
}

/// Whether a narrowed sample lies outside the escape range
/// `-ESCAPE_BOUND .. ESCAPE_BOUND` on either axis.
pub open spec fn escaped(e: (int, int)) -> bool {
    e.0 < -(ESCAPE_BOUND as int) || e.0 >= ESCAPE_BOUND as int || e.1 < -(ESCAPE_BOUND as int)
        || e.1 >= ESCAPE_BOUND as int
}

/// What the generated orbit buffer is: the emitted samples in order, every
/// sample but the last within the escape range, cut short of the cap only by
/// an escape, whose sample is the last emitted.
pub open spec fn is_orbit_output(s: Seq<(i64, i64)>, cr: int, ci: int, f: nat, cap: nat) -> bool {
    &&& s.len() <= cap
    &&& forall|j: int|
        0 <= j < s.len() ==> (#[trigger] s[j]).0 as int == emit_at(cr, ci, f, j as nat).0
    &&& forall|j: int|
        0 <= j < s.len() ==> (#[trigger] s[j]).1 as int == emit_at(cr, ci, f, j as nat).1
    &&& forall|j: int| 0 <= j < s.len() - 1 ==> !escaped(#[trigger] emit_at(cr, ci, f, (j as nat)))
    &&& s.len() < cap ==> s.len() > 0 && escaped(emit_at(cr, ci, f, (s.len() - 1) as nat))
}

/// The reference point: a pair of arbitrary-precision reals at a fixed
/// fixed-point precision of `frac_bits` fractional bits.
pub struct DeepZoomPoint {
    pub frac_bits: u32,
    pub re: Big,
    pub im: Big,
}

impl DeepZoomPoint {
    pub open spec fn wf(&self) -> bool {
        &&& self.re.wf()
        &&& self.im.wf()
        &&& self.frac_bits >= OUT_FRAC_BITS
    }

    /// The point whose coordinates are `re_scaled` and `im_scaled` in sample
    /// scale (2^OUT_FRAC_BITS per plane unit), held at `frac_bits` bits.
    pub fn new(frac_bits: u32, re_scaled: i64, im_scaled: i64) -> (p: DeepZoomPoint)
        requires
            frac_bits >= OUT_FRAC_BITS,
        ensures
            p.wf(),
            p.frac_bits == frac_bits,
            p.re.value() == re_scaled * pow2((frac_bits - OUT_FRAC_BITS) as nat),
            p.im.value() == im_scaled * pow2((frac_bits - OUT_FRAC_BITS) as nat),
    {
        let shift: u32 = frac_bits - OUT_FRAC_BITS;
        let re = big_shl(&Big::from_i64(re_scaled), shift);
        let im = big_shl(&Big::from_i64(im_scaled), shift);
        DeepZoomPoint { frac_bits, re, im }
    }

    /// Pans the point by `(dre, dim)` in sample scale.
    pub fn pan(&mut self, dre: i64, dim: i64)
        requires
            old(self).wf(),
        ensures
            final(self).wf(),
            final(self).frac_bits == old(self).frac_bits,
            final(self).re.value() == old(self).re.value() + dre * pow2(
                (old(self).frac_bits - OUT_FRAC_BITS) as nat,
            ),
            final(self).im.value() == old(self).im.value() + dim * pow2(
                (old(self).frac_bits - OUT_FRAC_BITS) as nat,
            ),
    {
        let shift: u32 = self.frac_bits - OUT_FRAC_BITS;
        let dre_big = big_shl(&Big::from_i64(dre), shift);
        let dim_big = big_shl(&Big::from_i64(dim), shift);
        self.re = big_add(&self.re, &dre_big);
        self.im = big_add(&self.im, &dim_big);
    }
}

/// Computes the reference orbit of `point`, with at most `cap` samples:
/// each sample is the doubled current iterate, narrowed to sample scale; the
/// sequence stops at the first sample outside the escape range, or at the
/// cap. The output is a function of the point and the cap alone.
pub fn generate(point: &DeepZoomPoint, cap: u32) -> (out: Vec<(i64, i64)>)
    requires
        point.wf(),
    ensures
        is_orbit_output(
            out@,
            point.re.value(),
            point.im.value(),
            point.frac_bits as nat,
            cap as nat,
        ),
{
    let ghost cr: int = point.re.value();
    let ghost ci: int = point.im.value();
    let ghost f: nat = point.frac_bits as nat;
    let shift: u32 = point.frac_bits - OUT_FRAC_BITS;
    let mut out: Vec<(i64, i64)> = Vec::new();
    let mut zr = point.re.duplicate();
    let mut zi = point.im.duplicate();
    let mut i: u32 = 0;
    while i < cap
        invariant
            point.wf(),
            cr == point.re.value(),
            ci == point.im.value(),
            f == point.frac_bits as nat,
            shift == point.frac_bits - OUT_FRAC_BITS,
            i <= cap,
            out@.len() == i as int,
            zr.wf(),
            zi.wf(),
            zr.value() == orbit_z(cr, ci, f, i as nat).0,
            zi.value() == orbit_z(cr, ci, f, i as nat).1,
            forall|j: int|
                0 <= j < i ==> (#[trigger] out@[j]).0 as int == emit_at(cr, ci, f, j as nat).0,
            forall|j: int|
                0 <= j < i ==> (#[trigger] out@[j]).1 as int == emit_at(cr, ci, f, j as nat).1,
            forall|j: int| 0 <= j < i ==> !escaped(#[trigger] emit_at(cr, ci, f, (j as nat))),
        decreases cap - i,
    {
        let two_zr = big_add(&zr, &zr);
        let two_zi = big_add(&zi, &zi);
        let er_big = big_shr_trunc(&two_zr, shift);
        let ei_big = big_shr_trunc(&two_zi, shift);
        let er = big_to_i64_clamp(&er_big);
        let ei = big_to_i64_clamp(&ei_big);
        proof {
            let z = orbit_z(cr, ci, f, i as nat);
            assert(two_zr.value() == 2 * z.0);
            assert(two_zi.value() == 2 * z.1);
            assert(er as int == emit_at(cr, ci, f, i as nat).0);
            assert(ei as int == emit_at(cr, ci, f, i as nat).1);
        }
        out.push((er, ei));
        if er < -ESCAPE_BOUND || er >= ESCAPE_BOUND || ei < -ESCAPE_BOUND || ei >= ESCAPE_BOUND {
            proof {
                assert(escaped(emit_at(cr, ci, f, i as nat)));
                assert(out@.len() == i + 1);
            }
            return out;
        }
        proof {
            assert(!escaped(emit_at(cr, ci, f, i as nat)));
        }
        let zr2 = big_mul(&zr, &zr);
        let zi2 = big_mul(&zi, &zi);
        let diff = big_sub(&zr2, &zi2);
        let dshift = big_shr_trunc(&diff, point.frac_bits);
        let new_zr = big_add(&dshift, &point.re);
        let cross = big_mul(&two_zr, &zi);
        let cshift = big_shr_trunc(&cross, point.frac_bits);
        let new_zi = big_add(&cshift, &point.im);
        proof {
            let z = orbit_z(cr, ci, f, i as nat);
            assert(orbit_z(cr, ci, f, (i + 1) as nat) == (
                step_re(z.0, z.1, cr, f),
                step_im(z.0, z.1, ci, f),
            ));
            assert(new_zr.value() == step_re(z.0, z.1, cr, f));
            assert(cross.value() == 2 * z.0 * z.1);
            assert(new_zi.value() == step_im(z.0, z.1, ci, f));
        }
        zr = new_zr;
        zi = new_zi;
        i += 1;
    }
    out
}

/// The orbit buffer and its valid length, as the renderer consumes them.
pub fn points(point: &DeepZoomPoint, cap: u32) -> (r: (Vec<(i64, i64)>, u32))
    requires
        point.wf(),
    ensures
        is_orbit_output(
            r.0@,
            point.re.value(),
            point.im.value(),
            point.frac_bits as nat,
            cap as nat,
        ),
        r.1 as int == r.0@.len(),
{
    let out = generate(point, cap);
    let n: u32 = out.len() as u32;
    (out, n)
}

/// The movement and zoom keys held during one fixed-timestep update.
#[derive(Clone, Copy, PartialEq, Eq, Structural, Debug)]
pub struct PanKeys {
    pub left: bool,
    pub right: bool,
    pub up: bool,
    pub down: bool,
    pub zoom_in: bool,
    pub zoom_out: bool,
}

/// The net signed amount of one axis' pan: `step` forward, backward, or
/// nothing, per the two opposing keys.
pub open spec fn pan_amount(fwd: bool, bwd: bool, step: int) -> int {
    (if fwd {
        step
    } else {
        0
    }) - (if bwd {
        step
    } else {
        0
    })
}

/// The deep-zoom state: the reference point, the zoom exponent in tenths,
/// and the cached orbit buffer the renderer consumes.
pub struct DeepZoom {
    pub point: DeepZoomPoint,
    pub zoom_tenths: i64,
    pub orbit: Vec<(i64, i64)>,
}

impl DeepZoom {
    pub open spec fn wf(&self) -> bool {
        self.point.wf()
    }

    /// A fresh deep-zoom state at the given point, with an empty orbit
    /// cache and zoom exponent 1.0 (ten tenths).
    pub fn new(frac_bits: u32, re_scaled: i64, im_scaled: i64) -> (d: DeepZoom)
        requires
            frac_bits >= OUT_FRAC_BITS,
        ensures
            d.wf(),
            d.point.frac_bits == frac_bits,
            d.point.re.value() == re_scaled * pow2((frac_bits - OUT_FRAC_BITS) as nat),
            d.point.im.value() == im_scaled * pow2((frac_bits - OUT_FRAC_BITS) as nat),
            d.zoom_tenths == 10,
            d.orbit@.len() == 0,
    {
        DeepZoom {
            point: DeepZoomPoint::new(frac_bits, re_scaled, im_scaled),
            zoom_tenths: 10,
            orbit: Vec::new(),
        }
    }

    /// A scroll wheel notch: each unit, on either axis, zooms in by a tenth
    /// of the zoom exponent, saturating.
    pub fn scroll_zoom(&mut self, dx: i32, dy: i32)
        requires
            old(self).wf(),
        ensures
            final(self).wf(),
            final(self).point.frac_bits == old(self).point.frac_bits,
            final(self).point.re.value() == old(self).point.re.value(),
            final(self).point.im.value() == old(self).point.im.value(),
            final(self).orbit@ == old(self).orbit@,
            final(self).zoom_tenths as int == clamp(
                old(self).zoom_tenths - dx - dy,
                i64::MIN as int,
                i64::MAX as int,
            ),
    {
        let v: i128 = self.zoom_tenths as i128 - dx as i128 - dy as i128;
        self.zoom_tenths = if v > i64::MAX as i128 {
            i64::MAX
        } else if v < i64::MIN as i128 {
            i64::MIN
        } else {
            v as i64
        };
    }

    /// One fixed-timestep keyboard update. Zoom keys move the zoom exponent
    /// by a tenth each, saturating. Movement keys pan the reference point by
    /// `step` (in sample scale) along their axis; any movement regenerates
    /// the orbit cache from scratch, with at most `cap` samples. Returns
    /// whether the point moved.
    pub fn update(&mut self, keys: PanKeys, step: i64, cap: u32) -> (moved: bool)
        requires
            old(self).wf(),
            -0x4000_0000_0000_0000 <= step <= 0x4000_0000_0000_0000,
        ensures
            final(self).wf(),
            final(self).point.frac_bits == old(self).point.frac_bits,
            moved == (keys.left || keys.right || keys.up || keys.down),
            final(self).zoom_tenths as int == clamp(
                old(self).zoom_tenths + (if keys.zoom_in {
                    1int
                } else {
                    0
                }) - (if keys.zoom_out {
                    1int
                } else {
                    0
                }),
                i64::MIN as int,
                i64::MAX as int,
            ),
            final(self).point.re.value() == old(self).point.re.value() + pan_amount(
                keys.right,
                keys.left,
                step as int,
            ) * pow2((old(self).point.frac_bits - OUT_FRAC_BITS) as nat),
            final(self).point.im.value() == old(self).point.im.value() + pan_amount(
                keys.up,
                keys.down,
                step as int,
            ) * pow2((old(self).point.frac_bits - OUT_FRAC_BITS) as nat),
            moved ==> is_orbit_output(
                final(self).orbit@,
                final(self).point.re.value(),
                final(self).point.im.value(),
                final(self).point.frac_bits as nat,
                cap as nat,
            ),
            !moved ==> final(self).orbit@ == old(self).orbit@,
    {
        let zd: i64 = (if keys.zoom_in {
            1i64
        } else {
            0i64
        }) - (if keys.zoom_out {
            1i64
        } else {
            0i64
        });
        let v: i128 = self.zoom_tenths as i128 + zd as i128;
        self.zoom_tenths = if v > i64::MAX as i128 {
            i64::MAX
        } else if v < i64::MIN as i128 {
            i64::MIN
        } else {
            v as i64
        };
        let dre: i64 = (if keys.right {
            step
        } else {
            0i64
        }) - (if keys.left {
            step
        } else {
            0i64
        });
        let dim: i64 = (if keys.up {
            step
        } else {
            0i64
        }) - (if keys.down {
            step
        } else {
            0i64
        });
        let moved = keys.left || keys.right || keys.up || keys.down;
        if moved {
            self.point.pan(dre, dim);
            self.orbit = generate(&self.point, cap);
        } else {
            proof {
                let p: int = pow2((old(self).point.frac_bits - OUT_FRAC_BITS) as nat) as int;
                assert(pan_amount(keys.right, keys.left, step as int) == 0);
                assert(0int * p == 0) by (nonlinear_arith);
            }
        }
        moved
    }
}

/// Two orbit buffers generated for the same point, precision and cap hold
/// the same samples: the generator is deterministic.
pub proof fn lemma_generate_deterministic(
    s1: Seq<(i64, i64)>,
    s2: Seq<(i64, i64)>,
    cr: int,
    ci: int,
    f: nat,
    cap: nat,
)
    requires
        is_orbit_output(s1, cr, ci, f, cap),
        is_orbit_output(s2, cr, ci, f, cap),
    ensures
        s1 == s2,
{
    // A shorter output could only have stopped on an escape, but the longer
    // output shows that sample did not escape: the lengths must agree.
    if s1.len() < s2.len() {
        assert(s1.len() < cap);
        assert(escaped(emit_at(cr, ci, f, (s1.len() - 1) as nat)));
        assert(!escaped(emit_at(cr, ci, f, (s1.len() - 1) as nat)));
    }
    if s2.len() < s1.len() {
        assert(s2.len() < cap);
        assert(escaped(emit_at(cr, ci, f, (s2.len() - 1) as nat)));
        assert(!escaped(emit_at(cr, ci, f, (s2.len() - 1) as nat)));
    }
    assert(s1.len() == s2.len());
    assert forall|j: int| 0 <= j < s1.len() implies s1[j] == s2[j] by {
        assert(s1[j].0 as int == emit_at(cr, ci, f, j as nat).0);
        assert(s2[j].0 as int == emit_at(cr, ci, f, j as nat).0);
        assert(s1[j].1 as int == emit_at(cr, ci, f, j as nat).1);
        assert(s2[j].1 as int == emit_at(cr, ci, f, j as nat).1);
    }
    assert(s1 =~= s2);
}

} // verus!
