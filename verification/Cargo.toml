[package]
name = "fractal_view"
version = "0.1.0"
edition = "2021"
publish = false

[dependencies]
rug = { version = "=1.19.2", default-features = false, features = ["integer"] }
gmp-mpfr-sys = { version = ">=1.4, <1.6", default-features = false, features = ["use-system-libs"] }
parking_lot = "=0.12.5"
itertools = "=0.15.0"
