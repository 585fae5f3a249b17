//! An interactive Mandelbrot-set explorer's core: the viewport, selection and
//! history state machine driven by pointer and keyboard events, and the
//! deep-zoom reference-orbit generator backed by arbitrary-precision
//! arithmetic.

pub mod bignum;
pub mod coord;
pub mod num;
pub mod orbit;
pub mod region;
pub mod view;
