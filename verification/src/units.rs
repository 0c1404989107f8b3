//! Fixed-point units shared by the whole crate.
//!
//! A "fixed" value is an `i64` counting ten-millionths: `SCALE` stands for
//! the real number 1.0.  Normalized control values use the coarser
//! `NORM_ONE` so that every slot's cook mapping has an integer slope and the
//! cook/uncook round trip is exact.

use vstd::prelude::*;

verus! {

/// 1.0 in fixed-point engineering units (samples, gains, dB, milliseconds).
pub const SCALE: i64 = 10_000_000;

/// 1.0 of a normalized control value.
pub const NORM_ONE: i64 = 1_000_000;

/// Largest admissible sample magnitude (100.0, i.e. +40 dBFS of headroom).
pub const MAX_SAMPLE: i64 = 1_000_000_000;

/// Bounds on a time constant in fixed-point milliseconds (up to 10 s).
pub const MS_MIN: i64 = 1;
pub const MS_MAX: i64 = 100_000_000_000;

/// Bounds on the sample rate in hertz.
pub const SR_MIN: i64 = 1;
pub const SR_MAX: i64 = 1_000_000;

/// Bound on the magnitude of a threshold in fixed-point decibels (100 dB).
pub const DB_BOUND: i64 = 1_000_000_000;

/// Bounds on a compression ratio (1.0 up to 100 000.0).
pub const RATIO_MAX: i64 = 1_000_000_000_000;

/// Bound on the makeup gain in fixed-point decibels (40 dB).
pub const MAKEUP_MAX: i64 = 400_000_000;

/// Magnitude of an `i64`, widened so it is total.
pub open spec fn abs_spec(x: int) -> int {
    if x < 0 {
        -x
    } else {
        x
    }
}

} // verus!
