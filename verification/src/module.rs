//! A chain element: its kind, its parameters, and its per-sample
//! processing step.
//!
//! A module carries two runtime cells (oscillator phase, filter history)
//! that advance on every processed sample; everything else is fixed at
//! construction. Editing never mutates a module in place — it builds a new
//! one with fresh runtime state.

use vstd::prelude::*;
use vstd::arithmetic::div_mod::{
    lemma_div_is_ordered, lemma_div_multiples_vanish, lemma_div_nonincreasing,
    lemma_div_pos_is_pos, lemma_multiply_divide_lt,
};
use crate::wave::{advance_phase, phase_mod, spec_wave, wave_sample, WaveForm};
use crate::{
    clamp_rail, div_trunc, lemma_mul_div_le, spec_clamp_rail, spec_div_trunc, valid_sr,
    SynthError, GAIN_LIMIT, GAIN_SCALE, RAIL,
};

verus! {

/// What a module does to the running sample value.
#[derive(Clone, Copy, PartialEq, Eq, Structural, Debug)]
pub enum ModuleKind {
    Oscillator,
    Amplifier,
    Filter,
}

/// One stage of the signal chain.
///
/// `freq_mhz` is the oscillator rate or the filter cutoff, in millihertz;
/// `gain_milli` is the amplifier factor in thousandths; `form` is
/// meaningful only for an oscillator. `phase_ticks` and `filt_prev` are
/// the runtime cells.
#[derive(Clone, Copy, PartialEq, Eq, Structural, Debug)]
pub struct Module {
    pub kind: ModuleKind,
    pub form: WaveForm,
    pub freq_mhz: u32,
    pub gain_milli: i64,
    pub phase_ticks: u64,
    pub filt_prev: i64,
}

/// A frequency the library accepts: positive and at most the Nyquist
/// frequency (half the sample rate; `500 * sr` in millihertz).
pub open spec fn freq_ok(freq_mhz: u32, sr: u32) -> bool {
    0 < freq_mhz && (freq_mhz as int) <= 500 * (sr as int)
}

/// A gain the fixed point can carry: within the i64 headroom against
/// rail-bounded inputs — the machine-limit counterpart of requiring a
/// finite gain.
pub open spec fn gain_ok(gain_milli: i64) -> bool {
    -GAIN_LIMIT <= gain_milli <= GAIN_LIMIT
}

/// Well-formed module: valid parameters and runtime cells in range.
pub open spec fn wf_module(m: Module, sr: u32) -> bool {
    &&& freq_ok(m.freq_mhz, sr)
    &&& gain_ok(m.gain_milli)
    &&& (m.phase_ticks as int) < phase_mod(sr)
    &&& -RAIL <= m.filt_prev <= RAIL
}

/// Runtime cells at their defaults, as every freshly built module has them.
pub open spec fn fresh_state(m: Module) -> bool {
    m.phase_ticks == 0 && m.filt_prev == 0
}

/// The module a successful edit command builds from the given parameters.
pub open spec fn spec_fresh_module(
    kind: ModuleKind,
    form: WaveForm,
    freq_mhz: u32,
    gain_milli: i64,
) -> Module {
    Module { kind, form, freq_mhz, gain_milli, phase_ticks: 0, filt_prev: 0 }
}

/// Validate parameters and build a module with fresh runtime state.
/// Rejects a frequency of zero or above Nyquist, then a gain outside the
/// representable rail; returns the module exactly otherwise.
pub fn module_new(
    kind: ModuleKind,
    form: WaveForm,
    freq_mhz: u32,
    gain_milli: i64,
    sr: u32,
) -> (r: Result<Module, SynthError>)
    requires
        valid_sr(sr),
    ensures
        freq_ok(freq_mhz, sr) && gain_ok(gain_milli) <==> r is Ok,
        r is Ok ==> r->Ok_0 == spec_fresh_module(kind, form, freq_mhz, gain_milli)
            && wf_module(r->Ok_0, sr) && fresh_state(r->Ok_0),
        !freq_ok(freq_mhz, sr) ==> r == Result::<Module, SynthError>::Err(
            SynthError::InvalidFrequency,
        ),
        freq_ok(freq_mhz, sr) && !gain_ok(gain_milli) ==> r == Result::<Module, SynthError>::Err(
            SynthError::InvalidGain,
        ),
{
    if freq_mhz == 0 || (freq_mhz as u64) > 500 * (sr as u64) {
        Err(SynthError::InvalidFrequency)
    } else if gain_milli < -GAIN_LIMIT || gain_milli > GAIN_LIMIT {
        Err(SynthError::InvalidGain)
    } else {
        Ok(Module { kind, form, freq_mhz, gain_milli, phase_ticks: 0, filt_prev: 0 })
    }
}

/// `e^(-y/65536)` in 16-bit fixed point, for `y` up to about 0.4 in those
/// units: the fifth-order series `1 - y(1 - y/2(1 - y/3(1 - y/4(1 - y/5))))`
/// by Horner's rule. Its remainder is under `y^6/720` (below 6e-6 here).
pub open spec fn spec_exp_small(y: int) -> int {
    let h5 = 65536 - y / 5;
    let h4 = 65536 - y * h5 / 65536 / 4;
    let h3 = 65536 - y * h4 / 65536 / 3;
    let h2 = 65536 - y * h3 / 65536 / 2;
    65536 - y * h2 / 65536
}

/// The filter coefficient, a 16-bit fraction in [0, 65536): the standard
/// continuous-time one-pole law `1 - e^(-x)` with `x = 2*pi*f/sr`. The
/// exponential is `(e^(-x/8))^8` — three squarings of the small-argument
/// series — which keeps the whole coefficient within about ten units of
/// 1/65536 of the real-valued `1 - e^(-x)` for every cutoff up to
/// Nyquist. 411775 is `2*pi` in 16-bit fixed point.
pub open spec fn spec_alpha(freq_mhz: u32, sr: u32) -> int {
    let x = (freq_mhz as int) * 411775 / ((sr as int) * 1000);
    let e1 = spec_exp_small(x / 8);
    let e2 = e1 * e1 / 65536;
    let e4 = e2 * e2 / 65536;
    let e8 = e4 * e4 / 65536;
    65536 - e8
}

/// For a cutoff up to Nyquist, the angular rate per sample `2*pi*f/sr`
/// stays within [0, pi] — at most 205887 in 16-bit fixed point.
proof fn lemma_rate_bound(freq_mhz: u32, sr: u32)
    requires
        valid_sr(sr),
        freq_ok(freq_mhz, sr),
    ensures
        0 <= (freq_mhz as int) * 411775 / ((sr as int) * 1000) <= 205887,
{
    let md = (sr as int) * 1000;
    lemma_div_pos_is_pos((freq_mhz as int) * 411775, md);
    assert((freq_mhz as int) * 411775 < md * 205888) by (nonlinear_arith)
        requires
            0 < sr,
            (freq_mhz as int) <= 500 * (sr as int),
            md == (sr as int) * 1000,
    ;
    lemma_multiply_divide_lt((freq_mhz as int) * 411775, md, 205888);
}

/// The small-argument exponential stays within [39801, 65536] for the
/// arguments the coefficient uses (`y <= 25735`, i.e. up to pi/8).
proof fn lemma_exp_small_range(y: int)
    requires
        0 <= y <= 25735,
    ensures
        39801 <= spec_exp_small(y) <= 65536,
{
    let h5 = 65536 - y / 5;
    lemma_div_pos_is_pos(y, 5);
    lemma_div_nonincreasing(y, 5);
    lemma_mul_div_le(y, h5, 65536);
    let h4 = 65536 - y * h5 / 65536 / 4;
    lemma_div_pos_is_pos(y * h5 / 65536, 4);
    lemma_div_nonincreasing(y * h5 / 65536, 4);
    lemma_mul_div_le(y, h4, 65536);
    let h3 = 65536 - y * h4 / 65536 / 3;
    lemma_div_pos_is_pos(y * h4 / 65536, 3);
    lemma_div_nonincreasing(y * h4 / 65536, 3);
    lemma_mul_div_le(y, h3, 65536);
    let h2 = 65536 - y * h3 / 65536 / 2;
    lemma_div_pos_is_pos(y * h3 / 65536, 2);
    lemma_div_nonincreasing(y * h3 / 65536, 2);
    lemma_mul_div_le(y, h2, 65536);
}

/// One squaring step in 16-bit fixed point keeps values within
/// monotone bounds.
proof fn lemma_square_step(v: int, lo: int, hi: int)
    requires
        0 <= lo <= v <= hi,
    ensures
        lo * lo / 65536 <= v * v / 65536 <= hi * hi / 65536,
{
    assert(lo * lo <= v * v <= hi * hi) by (nonlinear_arith)
        requires
            0 <= lo <= v <= hi,
    ;
    lemma_div_is_ordered(lo * lo, v * v, 65536);
    lemma_div_is_ordered(v * v, hi * hi, 65536);
}

/// The filter coefficient is always inside [0, 65536) for a valid cutoff.
pub proof fn lemma_alpha_range(freq_mhz: u32, sr: u32)
    requires
        valid_sr(sr),
        freq_ok(freq_mhz, sr),
    ensures
        0 <= spec_alpha(freq_mhz, sr) < 65536,
{
    lemma_rate_bound(freq_mhz, sr);
    let x = (freq_mhz as int) * 411775 / ((sr as int) * 1000);
    lemma_div_pos_is_pos(x, 8);
    lemma_div_is_ordered(x, 205887, 8);
    let y = x / 8;
    lemma_exp_small_range(y);
    let e1 = spec_exp_small(y);
    lemma_square_step(e1, 32768, 65536);
    assert(32768 * 32768 / 65536 == 16384) by {
        lemma_div_multiples_vanish(16384, 65536);
    }
    assert(65536 * 65536 / 65536 == 65536) by {
        lemma_div_multiples_vanish(65536, 65536);
    }
    let e2 = e1 * e1 / 65536;
    lemma_square_step(e2, 16384, 65536);
    assert(16384 * 16384 / 65536 == 4096) by {
        lemma_div_multiples_vanish(4096, 65536);
    }
    let e4 = e2 * e2 / 65536;
    lemma_square_step(e4, 4096, 65536);
    assert(4096 * 4096 / 65536 == 256) by {
        lemma_div_multiples_vanish(256, 65536);
    }
}

/// Compute the filter coefficient.
pub fn alpha_q16(freq_mhz: u32, sr: u32) -> (a: i64)
    requires
        valid_sr(sr),
        freq_ok(freq_mhz, sr),
    ensures
        a as int == spec_alpha(freq_mhz, sr),
        0 <= a < 65536,
{
    proof {
        lemma_alpha_range(freq_mhz, sr);
        lemma_rate_bound(freq_mhz, sr);
        lemma_div_pos_is_pos((freq_mhz as int) * 411775 / ((sr as int) * 1000), 8);
        lemma_div_is_ordered((freq_mhz as int) * 411775 / ((sr as int) * 1000), 205887, 8);
        lemma_exp_small_range(
            (freq_mhz as int) * 411775 / ((sr as int) * 1000) / 8,
        );
    }
    let x: u64 = (freq_mhz as u64) * 411775 / ((sr as u64) * 1000);
    let y: u64 = x / 8;
    let h5: u64 = 65536 - y / 5;
    proof {
        lemma_mul_div_le(y as int, h5 as int, 65536);
    }
    let h4: u64 = 65536 - y * h5 / 65536 / 4;
    proof {
        lemma_mul_div_le(y as int, h4 as int, 65536);
    }
    let h3: u64 = 65536 - y * h4 / 65536 / 3;
    proof {
        lemma_mul_div_le(y as int, h3 as int, 65536);
    }
    let h2: u64 = 65536 - y * h3 / 65536 / 2;
    proof {
        lemma_mul_div_le(y as int, h2 as int, 65536);
    }
    let e1: u64 = 65536 - y * h2 / 65536;
    proof {
        lemma_mul_div_le(e1 as int, e1 as int, 65536);
    }
    let e2: u64 = e1 * e1 / 65536;
    proof {
        lemma_mul_div_le(e2 as int, e2 as int, 65536);
    }
    let e4: u64 = e2 * e2 / 65536;
    proof {
        lemma_mul_div_le(e4 as int, e4 as int, 65536);
    }
    let e8: u64 = e4 * e4 / 65536;
    (65536 - e8) as i64
}

/// One processing step: what the module emits for a running input value,
/// and the module as it stands afterwards (runtime cells advanced).
///
/// - Oscillator: emits its own waveform sample and advances its phase;
///   the running input is overwritten, not mixed — this is the chain's
///   composition rule for sources.
/// - Amplifier: scales the input by `gain_milli` thousandths, truncating
///   toward zero, and saturates at the internal headroom rail.
/// - Filter: one-pole low pass, `prev + alpha * (input - prev)` with the
///   16-bit coefficient `spec_alpha`; the new output is persisted.
pub open spec fn spec_process(m: Module, input: int, sr: u32) -> (int, Module) {
    match m.kind {
        ModuleKind::Oscillator => (
            spec_wave(m.form, m.phase_ticks, sr),
            Module {
                phase_ticks: (((m.phase_ticks as int) + (m.freq_mhz as int)) % phase_mod(
                    sr,
                )) as u64,
                ..m
            },
        ),
        ModuleKind::Amplifier => (
            spec_clamp_rail(spec_div_trunc(input * (m.gain_milli as int), GAIN_SCALE as int)),
            m,
        ),
        ModuleKind::Filter => {
            let out = (m.filt_prev as int) + spec_div_trunc(
                spec_alpha(m.freq_mhz, sr) * (input - m.filt_prev),
                65536,
            );
            (out, Module { filt_prev: out as i64, ..m })
        },
    }
}

/// A filter step keeps the output between its two arguments: with a
/// coefficient in [0, 65536), `prev + trunc(alpha * (input - prev) / 65536)`
/// never leaves the closed interval spanned by `prev` and `input`.
pub proof fn lemma_filter_between(prev: int, input: int, alpha: int)
    requires
        0 <= alpha < 65536,
    ensures
        prev <= input ==> prev <= prev + spec_div_trunc(alpha * (input - prev), 65536) <= input,
        input <= prev ==> input <= prev + spec_div_trunc(alpha * (input - prev), 65536) <= prev,
{
    let d = input - prev;
    if d >= 0 {
        assert(0 <= alpha * d <= 65536 * d) by (nonlinear_arith)
            requires
                0 <= alpha < 65536,
                d >= 0,
        ;
        lemma_div_pos_is_pos(alpha * d, 65536);
        lemma_div_is_ordered(alpha * d, 65536 * d, 65536);
        assert(65536 * d / 65536 == d) by {
            vstd::arithmetic::div_mod::lemma_div_multiples_vanish(d, 65536);
        }
    } else {
        let nd = -d;
        assert(0 <= alpha * nd <= 65536 * nd) by (nonlinear_arith)
            requires
                0 <= alpha < 65536,
                nd >= 0,
        ;
        assert(alpha * nd == -(alpha * d)) by (nonlinear_arith)
            requires
                nd == -d,
        ;
        lemma_div_pos_is_pos(alpha * nd, 65536);
        lemma_div_is_ordered(alpha * nd, 65536 * nd, 65536);
        assert(65536 * nd / 65536 == nd) by {
            vstd::arithmetic::div_mod::lemma_div_multiples_vanish(nd, 65536);
        }
    }
}

/// Process one sample through one module.
pub fn process_module(m: &mut Module, input: i64, sr: u32) -> (out: i64)
    requires
        valid_sr(sr),
        wf_module(*old(m), sr),
        -RAIL <= input <= RAIL,
    ensures
        out as int == spec_process(*old(m), input as int, sr).0,
        *final(m) == spec_process(*old(m), input as int, sr).1,
        wf_module(*final(m), sr),
        -RAIL <= out <= RAIL,
{
    match m.kind {
        ModuleKind::Oscillator => {
            let s = wave_sample(m.form, m.phase_ticks, sr);
            m.phase_ticks = advance_phase(m.phase_ticks, m.freq_mhz, sr);
            s
        },
        ModuleKind::Amplifier => {
            proof {
                let g = old(m).gain_milli as int;
                assert(-0x4000000000000000 < (input as int) * g < 0x4000000000000000)
                    by (nonlinear_arith)
                    requires
                        -RAIL <= input <= RAIL,
                        -GAIN_LIMIT <= g <= GAIN_LIMIT,
                ;
            }
            let scaled = div_trunc(input * m.gain_milli, GAIN_SCALE);
            clamp_rail(scaled)
        },
        ModuleKind::Filter => {
            let a = alpha_q16(m.freq_mhz, sr);
            proof {
                lemma_filter_between(m.filt_prev as int, input as int, a as int);
                let p = old(m).filt_prev as int;
                assert(-0x4000000000000000 < (a as int) * ((input as int) - p)
                    < 0x4000000000000000) by (nonlinear_arith)
                    requires
                        0 <= a < 65536,
                        -RAIL <= input <= RAIL,
                        -RAIL <= p <= RAIL,
                ;
            }
            let delta = div_trunc(a * (input - m.filt_prev), 65536);
            let out = m.filt_prev + delta;
            m.filt_prev = out;
            out
        },
    }
}

} // verus!
