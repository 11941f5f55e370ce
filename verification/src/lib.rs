//! Core of a small modular software synthesizer.
//!
//! A signal path is an ordered chain of modules (oscillator, amplifier,
//! low-pass filter). An edit side builds new chains and publishes them to a
//! store; a render side borrows the published chain and fills fixed-size
//! blocks of samples, mirroring them into a visualization ring buffer.
//!
//! All signal arithmetic is fixed point: a sample is an `i64` in units of
//! `1 / SAMPLE_SCALE` of full scale, so the nominal output range [-1, 1]
//! is [-SAMPLE_SCALE, SAMPLE_SCALE]. Gains are in thousandths, frequencies
//! in millihertz, and oscillator phase in ticks of `1 / (1000 * sample_rate)`
//! of a period.

use vstd::prelude::*;

pub mod chain;
pub mod edit;
pub mod render;
pub mod viz;
pub mod store;
pub mod text;
pub mod module;
pub mod wave;

verus! {

/// Full-scale amplitude: a sample value of 32768 stands for +1.0.
pub const SAMPLE_SCALE: i64 = 32768;

/// Gains are expressed in thousandths: 1000 stands for a gain of 1.0.
pub const GAIN_SCALE: i64 = 1000;

/// Largest gain magnitude the fixed-point representation can process, in
/// thousandths: 2^30 - 1, the machine limit at which an amplifier's
/// product against a rail-bounded input still fits the i64 headroom. Any
/// finite gain up to roughly a million full units is accepted; beyond
/// this the value is not representable here, and is rejected the way a
/// non-finite gain is.
pub const GAIN_LIMIT: i64 = 1073741823;

/// Internal headroom rail: running values inside a chain are kept within
/// [-RAIL, RAIL] (an amplifier saturates here), so chain arithmetic never
/// overflows an `i64`. This is far above full scale (RAIL == 2^32).
pub const RAIL: i64 = 4294967296;

/// Largest accepted sample rate, in hertz.
pub const MAX_SAMPLE_RATE: u32 = 1000000;

/// The sample rates the library accepts.
pub open spec fn valid_sr(sr: u32) -> bool {
    0 < sr <= MAX_SAMPLE_RATE
}

/// The errors an edit command can be rejected with, plus the fatal
/// startup error of a missing audio device (raised only by the program
/// around the library, never by a verified function).
///
/// `InvalidFrequency` covers a frequency of zero or one above Nyquist;
/// `InvalidGain` covers a gain the fixed-point representation cannot
/// carry (the counterpart of a non-finite gain in a float model).
#[derive(Clone, Copy, PartialEq, Eq, Structural, Debug)]
pub enum SynthError {
    InvalidFrequency,
    InvalidGain,
    IndexOutOfRange,
    DeviceUnavailable,
}

/// Division truncating toward zero, as Rust's `/` on signed integers does;
/// spec-level `/` on `int` is Euclidean, so the two are related here once.
pub open spec fn spec_div_trunc(a: int, b: int) -> int
    recommends
        b > 0,
{
    if a >= 0 {
        a / b
    } else {
        -((-a) / b)
    }
}

/// Truncating signed division on values well inside the `i64` range.
pub fn div_trunc(a: i64, b: i64) -> (q: i64)
    requires
        -0x4000000000000000 < a < 0x4000000000000000,
        0 < b,
    ensures
        q as int == spec_div_trunc(a as int, b as int),
{
    if a >= 0 {
        proof {
            vstd::arithmetic::div_mod::lemma_div_nonincreasing(a as int, b as int);
            vstd::arithmetic::div_mod::lemma_div_pos_is_pos(a as int, b as int);
        }
        let q: u64 = (a as u64) / (b as u64);
        q as i64
    } else {
        proof {
            vstd::arithmetic::div_mod::lemma_div_nonincreasing(-a as int, b as int);
            vstd::arithmetic::div_mod::lemma_div_pos_is_pos(-a as int, b as int);
        }
        let q: u64 = ((-a) as u64) / (b as u64);
        -(q as i64)
    }
}

/// For a factor `w` within `[0, d]`, scaling a nonnegative `t` by `w/d`
/// (truncating) keeps the result within `[0, t]`.
pub proof fn lemma_mul_div_le(t: int, w: int, d: int)
    requires
        0 <= t,
        0 <= w <= d,
        0 < d,
    ensures
        0 <= t * w / d <= t,
        t * w <= d * t,
{
    vstd::arithmetic::mul::lemma_mul_nonnegative(t, w);
    vstd::arithmetic::div_mod::lemma_div_pos_is_pos(t * w, d);
    assert(t * w <= d * t) by (nonlinear_arith)
        requires
            0 <= t,
            0 <= w <= d,
    ;
    vstd::arithmetic::div_mod::lemma_div_is_ordered(t * w, d * t, d);
    vstd::arithmetic::div_mod::lemma_div_multiples_vanish(t, d);
}

/// Saturate a value to the internal headroom rail [-RAIL, RAIL].
pub open spec fn spec_clamp_rail(v: int) -> int {
    if v > RAIL {
        RAIL as int
    } else if v < -RAIL {
        -RAIL as int
    } else {
        v
    }
}

pub fn clamp_rail(v: i64) -> (r: i64)
    ensures
        r as int == spec_clamp_rail(v as int),
        -RAIL <= r <= RAIL,
{
    if v > RAIL {
        RAIL
    } else if v < -RAIL {
        -RAIL
    } else {
        v
    }
}

/// Hard clip to full scale, applied to every sample just before emission.
pub open spec fn spec_clamp_out(v: int) -> int {
    if v > SAMPLE_SCALE {
        SAMPLE_SCALE as int
    } else if v < -SAMPLE_SCALE {
        -SAMPLE_SCALE as int
    } else {
        v
    }
}

pub fn clamp_out(v: i64) -> (r: i64)
    ensures
        r as int == spec_clamp_out(v as int),
        -SAMPLE_SCALE <= r <= SAMPLE_SCALE,
{
    if v > SAMPLE_SCALE {
        SAMPLE_SCALE
    } else if v < -SAMPLE_SCALE {
        -SAMPLE_SCALE
    } else {
        v
    }
}

} // verus!
