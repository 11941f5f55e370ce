//! Waveform generation: oscillator phase arithmetic and the three periodic
//! forms, in fixed point.
//!
//! Phase is held in ticks of `1 / (1000 * sample_rate)` of one period, so a
//! frequency of `f` millihertz advances the phase by exactly `f` ticks per
//! sample and one period is `1000 * sample_rate` ticks.

use vstd::prelude::*;
use vstd::arithmetic::div_mod::{
    lemma_add_mod_noop_right, lemma_div_is_ordered, lemma_div_multiples_vanish,
    lemma_div_pos_is_pos, lemma_mod_division_less_than_divisor, lemma_multiply_divide_lt,
    lemma_small_mod,
};
use vstd::arithmetic::mul::{lemma_mul_nonnegative, lemma_mul_strict_inequality};
use crate::{lemma_mul_div_le, valid_sr, SAMPLE_SCALE};

verus! {

/// The canonical periodic forms an oscillator can generate.
#[derive(Clone, Copy, PartialEq, Eq, Structural, Debug)]
pub enum WaveForm {
    Sine,
    Square,
    Sawtooth,
}

/// Ticks per period at a given sample rate.
pub open spec fn phase_mod(sr: u32) -> int {
    (sr as int) * 1000
}

/// Phase reduced to a 16-bit fraction of the period:
/// `floor(t * 65536 / phase_mod(sr))`, in [0, 65536) for a valid phase.
/// The square and sawtooth forms work at this granularity.
pub open spec fn spec_phase16(t: u64, sr: u32) -> int {
    (t as int) * 65536 / phase_mod(sr)
}

/// Phase reduced to a 20-bit fraction of the period, in [0, 1048576) for
/// a valid phase: the finer granularity the sine evaluation works at, so
/// that phase quantization contributes well under one output unit.
pub open spec fn spec_phase20(t: u64, sr: u32) -> int {
    (t as int) * 1048576 / phase_mod(sr)
}

/// `sin(pi/2 * q / 262144)` at full scale, for a quarter-wave position
/// `q` in [0, 262144]: the odd Taylor polynomial of the ninth order,
/// evaluated by Horner's rule in fixed point. `w` is the squared position
/// in 1/32768 units; 51472, 21167, 2611, 153 and 5 are `(pi/2)^k / k!`
/// for k = 1, 3, 5, 7, 9 in 1/32768 units. The series remainder is under
/// `(pi/2)^11 / 11!` (about 4e-6 of full scale) and each truncating stage
/// loses under one unit, so the result stays within a few units of
/// 1/32768 of the real-valued sine; the final cap only absorbs that
/// rounding at the crest.
pub open spec fn spec_sine_quarter(q: int) -> int {
    let w = q * q / 2097152;
    let t9 = 5 * w / 32768;
    let t7 = (153 - t9) * w / 32768;
    let t5 = (2611 - t7) * w / 32768;
    let t3 = (21167 - t5) * w / 32768;
    let s = q * (51472 - t3) / 262144;
    if s > 32768 {
        32768
    } else {
        s
    }
}

/// `sin(2*pi*phase)` at full scale from a 20-bit phase fraction: the
/// quarter-wave polynomial, unfolded by the sine's symmetries (mirrored
/// about the quarter period, negated over the second half period).
pub open spec fn spec_sine(p20: int) -> int {
    let pos = if p20 < 524288 {
        p20
    } else {
        p20 - 524288
    };
    let q = if pos < 262144 {
        pos
    } else {
        524288 - pos
    };
    if p20 < 524288 {
        spec_sine_quarter(q)
    } else {
        -spec_sine_quarter(q)
    }
}

/// One waveform sample at full scale for the phase `t`:
/// - Sine: `sin(2*pi*phase)` via `spec_sine`, within a few units of
///   1/32768 of the real-valued sine;
/// - Square: plus full scale for the first half period, minus for the
///   second (50% duty cycle);
/// - Sawtooth: a linear ramp from minus full scale at the period's start
///   to just under plus full scale at its end (`2*phase - 1`).
pub open spec fn spec_wave(form: WaveForm, t: u64, sr: u32) -> int {
    match form {
        WaveForm::Sine => spec_sine(spec_phase20(t, sr)),
        WaveForm::Square => if spec_phase16(t, sr) < 32768 {
            SAMPLE_SCALE as int
        } else {
            -SAMPLE_SCALE as int
        },
        WaveForm::Sawtooth => spec_phase16(t, sr) - 32768,
    }
}

/// A valid phase always reduces to a 16-bit fraction in [0, 65536).
pub proof fn lemma_phase16_range(t: u64, sr: u32)
    requires
        valid_sr(sr),
        (t as int) < phase_mod(sr),
    ensures
        0 <= spec_phase16(t, sr) < 65536,
{
    let md = phase_mod(sr);
    lemma_div_pos_is_pos((t as int) * 65536, md);
    lemma_mul_strict_inequality(t as int, md, 65536);
    lemma_multiply_divide_lt((t as int) * 65536, md, 65536);
}

/// A valid phase always reduces to a 20-bit fraction in [0, 1048576).
pub proof fn lemma_phase20_range(t: u64, sr: u32)
    requires
        valid_sr(sr),
        (t as int) < phase_mod(sr),
    ensures
        0 <= spec_phase20(t, sr) < 1048576,
{
    let md = phase_mod(sr);
    lemma_div_pos_is_pos((t as int) * 1048576, md);
    lemma_mul_strict_inequality(t as int, md, 1048576);
    lemma_multiply_divide_lt((t as int) * 1048576, md, 1048576);
}

/// The quarter-wave polynomial stays within [0, 32768], and each Horner
/// stage within the bounds the next stage needs.
pub proof fn lemma_sine_quarter_range(q: int)
    requires
        0 <= q <= 262144,
    ensures
        0 <= spec_sine_quarter(q) <= 32768,
        q * q / 2097152 <= 32768,
        5 * (q * q / 2097152) / 32768 <= 5,
{
    let w = q * q / 2097152;
    lemma_mul_nonnegative(q, q);
    lemma_div_pos_is_pos(q * q, 2097152);
    assert(q * q <= 262144int * 262144) by (nonlinear_arith)
        requires
            0 <= q <= 262144,
    ;
    lemma_div_is_ordered(q * q, 262144int * 262144, 2097152);
    lemma_div_multiples_vanish(32768, 2097152);
    assert(w <= 32768);
    lemma_mul_div_le(5, w, 32768);
    let t9 = 5 * w / 32768;
    lemma_mul_div_le(153 - t9, w, 32768);
    let t7 = (153 - t9) * w / 32768;
    lemma_mul_div_le(2611 - t7, w, 32768);
    let t5 = (2611 - t7) * w / 32768;
    lemma_mul_div_le(21167 - t5, w, 32768);
    let t3 = (21167 - t5) * w / 32768;
    lemma_mul_nonnegative(q, 51472 - t3);
    lemma_div_pos_is_pos(q * (51472 - t3), 262144);
}

/// Every form stays within full scale for every valid phase: the waveform
/// generator's output is always inside the nominal [-1, 1] range.
pub proof fn lemma_wave_range(form: WaveForm, t: u64, sr: u32)
    requires
        valid_sr(sr),
        (t as int) < phase_mod(sr),
    ensures
        -SAMPLE_SCALE <= spec_wave(form, t, sr) <= SAMPLE_SCALE,
{
    match form {
        WaveForm::Sine => {
            lemma_phase20_range(t, sr);
            let p20 = spec_phase20(t, sr);
            let pos = if p20 < 524288 {
                p20
            } else {
                p20 - 524288
            };
            let q = if pos < 262144 {
                pos
            } else {
                524288 - pos
            };
            lemma_sine_quarter_range(q);
        },
        WaveForm::Square => {},
        WaveForm::Sawtooth => {
            lemma_phase16_range(t, sr);
        },
    }
}

/// One sample of the given form at the given phase.
pub fn wave_sample(form: WaveForm, t: u64, sr: u32) -> (s: i64)
    requires
        valid_sr(sr),
        (t as int) < phase_mod(sr),
    ensures
        s as int == spec_wave(form, t, sr),
        -SAMPLE_SCALE <= s <= SAMPLE_SCALE,
{
    proof {
        lemma_wave_range(form, t, sr);
    }
    let md: u64 = (sr as u64) * 1000;
    match form {
        WaveForm::Sine => {
            proof {
                lemma_phase20_range(t, sr);
            }
            let p20: u64 = t * 1048576 / md;
            let pos: u64 = if p20 < 524288 {
                p20
            } else {
                p20 - 524288
            };
            let q: u64 = if pos < 262144 {
                pos
            } else {
                524288 - pos
            };
            proof {
                lemma_sine_quarter_range(q as int);
                lemma_mul_nonnegative(q as int, q as int);
                vstd::arithmetic::mul::lemma_mul_upper_bound(q as int, 262144, q as int, 262144);
            }
            let w: u64 = q * q / 2097152;
            let t9: u64 = 5 * w / 32768;
            proof {
                lemma_mul_div_le(153 - (t9 as int), w as int, 32768);
            }
            let t7: u64 = (153 - t9) * w / 32768;
            proof {
                lemma_mul_div_le(2611 - (t7 as int), w as int, 32768);
            }
            let t5: u64 = (2611 - t7) * w / 32768;
            proof {
                lemma_mul_div_le(21167 - (t5 as int), w as int, 32768);
            }
            let t3: u64 = (21167 - t5) * w / 32768;
            proof {
                lemma_mul_div_le(51472 - (t3 as int), q as int, 262144);
                let qi = q as int;
                let t3i = t3 as int;
                assert(qi * (51472 - t3i) <= 262144int * 51472) by (nonlinear_arith)
                    requires
                        0 <= qi <= 262144,
                        0 <= t3i <= 51472,
                ;
            }
            let raw: u64 = q * (51472 - t3) / 262144;
            let s: u64 = if raw > 32768 {
                32768
            } else {
                raw
            };
            if p20 < 524288 {
                s as i64
            } else {
                -(s as i64)
            }
        },
        WaveForm::Square => {
            proof {
                lemma_phase16_range(t, sr);
            }
            let p16: u64 = t * 65536 / md;
            if p16 < 32768 {
                SAMPLE_SCALE
            } else {
                -SAMPLE_SCALE
            }
        },
        WaveForm::Sawtooth => {
            proof {
                lemma_phase16_range(t, sr);
            }
            let p16: u64 = t * 65536 / md;
            (p16 as i64) - 32768
        },
    }
}

/// Advance the phase by one sample's worth of the given frequency:
/// `(t + f) mod period`.
pub fn advance_phase(t: u64, freq_mhz: u32, sr: u32) -> (t2: u64)
    requires
        valid_sr(sr),
        (t as int) < phase_mod(sr),
    ensures
        t2 as int == ((t as int) + (freq_mhz as int)) % phase_mod(sr),
        (t2 as int) < phase_mod(sr),
{
    proof {
        lemma_mod_division_less_than_divisor((t as int) + (freq_mhz as int), phase_mod(sr));
    }
    let md: u64 = (sr as u64) * 1000;
    (t + (freq_mhz as u64)) % md
}

/// The phase after `n` samples at a fixed tick increment `f`, starting
/// from `t0`, with period `md`.
pub open spec fn spec_phase_after(t0: int, f: int, md: int, n: nat) -> int
    decreases n,
{
    if n == 0 {
        t0
    } else {
        (spec_phase_after(t0, f, md, (n - 1) as nat) + f) % md
    }
}

/// Advancing the phase `n` times adds `n * f` ticks, reduced mod the period.
pub proof fn lemma_phase_after_linear(t0: int, f: int, md: int, n: nat)
    requires
        0 < md,
        0 <= t0 < md,
        0 <= f,
    ensures
        spec_phase_after(t0, f, md, n) == (t0 + n * f) % md,
    decreases n,
{
    if n == 0 {
        lemma_small_mod(t0 as nat, md as nat);
    } else {
        lemma_phase_after_linear(t0, f, md, (n - 1) as nat);
        assert(t0 + (n - 1) * f + f == t0 + n * f) by (nonlinear_arith);
        lemma_add_mod_noop_right(f, t0 + (n - 1) * f, md);
    }
}

/// Periodicity: when `n` samples advance the phase by an exact whole
/// number of periods (`(n * f) % md == 0`), the phase returns to its
/// starting value. In particular, with frequency `f` ticks per sample and
/// a period of `md` ticks, this holds after `md / gcd(f, md)` samples —
/// for a frequency that divides the sample rate, after exactly
/// `sample_rate / frequency` samples.
pub proof fn lemma_phase_periodic(t0: int, f: int, md: int, n: nat)
    requires
        0 < md,
        0 <= t0 < md,
        0 <= f,
        (n * f) % md == 0,
    ensures
        spec_phase_after(t0, f, md, n) == t0,
{
    lemma_phase_after_linear(t0, f, md, n);
    lemma_add_mod_noop_right(t0, n * f, md);
    lemma_small_mod(t0 as nat, md as nat);
}

} // verus!
