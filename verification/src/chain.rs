//! The signal chain: an ordered sequence of modules folded, left to right,
//! over a running sample value, and block rendering on top of it.
//!
//! The composition rule: each module transforms the single running scalar;
//! an oscillator overwrites the running value with its own generated
//! sample (it is a source, not a transformer of upstream signal).

use vstd::prelude::*;
use vstd::arithmetic::div_mod::{
    lemma_div_is_ordered, lemma_div_multiples_vanish, lemma_div_pos_is_pos,
    lemma_mod_division_less_than_divisor,
};
use crate::module::{
    process_module, spec_process, wf_module, Module, ModuleKind,
};
use crate::wave::{lemma_wave_range, phase_mod};
use crate::{
    clamp_out, spec_clamp_out, spec_div_trunc, valid_sr, GAIN_SCALE, RAIL, SAMPLE_SCALE,
};

verus! {

/// All modules of a chain are well formed.
pub open spec fn wf_chain(ms: Seq<Module>, sr: u32) -> bool {
    forall|i: int| 0 <= i < ms.len() ==> wf_module(#[trigger] ms[i], sr)
}

/// The running value after folding one sample through the whole chain,
/// starting from `r` (0 at the chain's head).
pub open spec fn spec_run(ms: Seq<Module>, r: int, sr: u32) -> int
    decreases ms.len(),
{
    if ms.len() == 0 {
        r
    } else {
        spec_run(ms.drop_first(), spec_process(ms[0], r, sr).0, sr)
    }
}

/// The chain as it stands after folding that sample: every module's
/// runtime cells advanced.
pub open spec fn spec_adv(ms: Seq<Module>, r: int, sr: u32) -> Seq<Module>
    decreases ms.len(),
{
    if ms.len() == 0 {
        ms
    } else {
        seq![spec_process(ms[0], r, sr).1] + spec_adv(
            ms.drop_first(),
            spec_process(ms[0], r, sr).0,
            sr,
        )
    }
}

/// Advancing a chain keeps its length.
pub proof fn lemma_adv_len(ms: Seq<Module>, r: int, sr: u32)
    ensures
        spec_adv(ms, r, sr).len() == ms.len(),
    decreases ms.len(),
{
    if ms.len() > 0 {
        lemma_adv_len(ms.drop_first(), spec_process(ms[0], r, sr).0, sr);
    }
}

/// Folding through `ms.push(m)` is folding through `ms`, then one step
/// through `m` on the value `ms` produced.
pub proof fn lemma_run_adv_push(ms: Seq<Module>, r: int, m: Module, sr: u32)
    ensures
        spec_run(ms.push(m), r, sr) == spec_process(m, spec_run(ms, r, sr), sr).0,
        spec_adv(ms.push(m), r, sr) == spec_adv(ms, r, sr).push(
            spec_process(m, spec_run(ms, r, sr), sr).1,
        ),
    decreases ms.len(),
{
    if ms.len() == 0 {
        let e = Seq::<Module>::empty();
        let p0 = spec_process(m, r, sr).0;
        assert(ms.push(m)[0] == m);
        assert(ms.push(m).drop_first() =~= e);
        assert(spec_run(e, p0, sr) == p0);
        assert(spec_adv(e, p0, sr) == e);
        assert(spec_run(ms, r, sr) == r);
        assert(spec_adv(ms, r, sr) == ms);
        assert(spec_adv(ms.push(m), r, sr) =~= spec_adv(ms, r, sr).push(
            spec_process(m, spec_run(ms, r, sr), sr).1,
        ));
    } else {
        assert(ms.push(m)[0] == ms[0]);
        assert(ms.push(m).drop_first() =~= ms.drop_first().push(m));
        let r1 = spec_process(ms[0], r, sr).0;
        lemma_run_adv_push(ms.drop_first(), r1, m, sr);
        assert(spec_adv(ms.push(m), r, sr) =~= spec_adv(ms, r, sr).push(
            spec_process(m, spec_run(ms, r, sr), sr).1,
        ));
    }
}

/// Fold one sample through the chain in place, returning the (unclamped)
/// running value left at the chain's tail.
pub fn process_chain(ms: &mut Vec<Module>, sr: u32) -> (out: i64)
    requires
        valid_sr(sr),
        wf_chain(old(ms)@, sr),
    ensures
        out as int == spec_run(old(ms)@, 0, sr),
        final(ms)@ == spec_adv(old(ms)@, 0, sr),
        wf_chain(final(ms)@, sr),
        -RAIL <= out <= RAIL,
{
    let ghost ms0 = ms@;
    let mut running: i64 = 0;
    let n = ms.len();
    let mut j: usize = 0;
    proof {
        assert(ms0.take(0) =~= Seq::<Module>::empty());
        assert(ms@ =~= spec_adv(ms0.take(0), 0, sr) + ms0.skip(0));
    }
    while j < n
        invariant
            valid_sr(sr),
            j <= n,
            n == ms0.len(),
            ms@.len() == n,
            wf_chain(ms@, sr),
            running as int == spec_run(ms0.take(j as int), 0, sr),
            -RAIL <= running <= RAIL,
            ms@ == spec_adv(ms0.take(j as int), 0, sr) + ms0.skip(j as int),
        decreases n - j,
    {
        proof {
            lemma_adv_len(ms0.take(j as int), 0, sr);
            assert(ms@[j as int] == ms0.skip(j as int)[0]);
            assert(ms0.skip(j as int)[0] == ms0[j as int]);
        }
        let mut m = ms[j];
        let next = process_module(&mut m, running, sr);
        let _replaced = ms.remove(j);
        ms.insert(j, m);
        proof {
            let ji = j as int;
            assert(ms0.take(ji + 1) =~= ms0.take(ji).push(ms0[ji]));
            lemma_run_adv_push(ms0.take(ji), 0, ms0[ji], sr);
            lemma_adv_len(ms0.take(ji + 1), 0, sr);
            assert(ms@ =~= spec_adv(ms0.take(ji + 1), 0, sr) + ms0.skip(ji + 1));
        }
        running = next;
        j += 1;
    }
    proof {
        assert(ms0.take(n as int) =~= ms0);
        assert(ms0.skip(n as int) =~= Seq::<Module>::empty());
        lemma_adv_len(ms0, 0, sr);
        assert(ms@ =~= spec_adv(ms0, 0, sr));
    }
    running
}

/// The chain after `k` whole samples have been folded through it.
pub open spec fn spec_after(ms: Seq<Module>, k: nat, sr: u32) -> Seq<Module>
    decreases k,
{
    if k == 0 {
        ms
    } else {
        spec_adv(spec_after(ms, (k - 1) as nat, sr), 0, sr)
    }
}

/// The emitted (hard-clipped) sample at index `k` of a block rendered
/// from the chain state `ms`.
pub open spec fn spec_sample_at(ms: Seq<Module>, k: nat, sr: u32) -> int {
    spec_clamp_out(spec_run(spec_after(ms, k, sr), 0, sr))
}

/// Render a block of `n` samples, advancing the chain's runtime state.
/// Every emitted sample is the chain's running value hard-clipped to full
/// scale; sample `k` of the block is exactly `spec_sample_at(ms, k)`.
pub fn render(ms: &mut Vec<Module>, n: usize, sr: u32) -> (out: Vec<i64>)
    requires
        valid_sr(sr),
        wf_chain(old(ms)@, sr),
    ensures
        out@.len() == n,
        forall|k: int| 0 <= k < n ==> (out@[k] as int) == spec_sample_at(old(ms)@, k as nat, sr),
        forall|k: int| 0 <= k < n ==> -SAMPLE_SCALE <= #[trigger] out@[k] <= SAMPLE_SCALE,
        final(ms)@ == spec_after(old(ms)@, n as nat, sr),
        wf_chain(final(ms)@, sr),
{
    let ghost ms0 = ms@;
    let mut out: Vec<i64> = Vec::new();
    let mut i: usize = 0;
    while i < n
        invariant
            valid_sr(sr),
            i <= n,
            out@.len() == i,
            wf_chain(ms@, sr),
            ms@ == spec_after(ms0, i as nat, sr),
            forall|k: int| 0 <= k < i ==> (out@[k] as int) == spec_sample_at(ms0, k as nat, sr),
            forall|k: int| 0 <= k < i ==> -SAMPLE_SCALE <= #[trigger] out@[k] <= SAMPLE_SCALE,
        decreases n - i,
    {
        let v = process_chain(ms, sr);
        let s = clamp_out(v);
        out.push(s);
        i += 1;
    }
    out
}

/// An empty chain renders silence: at every sample index the emitted
/// value is exactly zero.
pub proof fn lemma_render_empty(k: nat, sr: u32)
    ensures
        spec_after(Seq::<Module>::empty(), k, sr) == Seq::<Module>::empty(),
        spec_sample_at(Seq::<Module>::empty(), k, sr) == 0,
    decreases k,
{
    if k > 0 {
        lemma_render_empty((k - 1) as nat, sr);
    }
}

/// A one-oscillator chain advances its phase exactly as the phase model
/// says: after `k` samples the module's phase is the start phase advanced
/// `k` times.
pub proof fn lemma_osc_phase_after(o: Module, k: nat, sr: u32)
    requires
        valid_sr(sr),
        wf_module(o, sr),
        o.kind == ModuleKind::Oscillator,
    ensures
        spec_after(seq![o], k, sr).len() == 1,
        wf_module(spec_after(seq![o], k, sr)[0], sr),
        spec_after(seq![o], k, sr)[0].kind == ModuleKind::Oscillator,
        spec_after(seq![o], k, sr)[0].freq_mhz == o.freq_mhz,
        spec_after(seq![o], k, sr)[0].phase_ticks as int == crate::wave::spec_phase_after(
            o.phase_ticks as int,
            o.freq_mhz as int,
            phase_mod(sr),
            k,
        ),
    decreases k,
{
    if k > 0 {
        lemma_osc_phase_after(o, (k - 1) as nat, sr);
        let ok = spec_after(seq![o], (k - 1) as nat, sr)[0];
        lemma_mod_division_less_than_divisor((ok.phase_ticks as int) + (ok.freq_mhz as int),
            phase_mod(sr));
        assert(spec_after(seq![o], (k - 1) as nat, sr) =~= seq![ok]);
        lemma_run_one(ok, 0, sr);
    }
}

/// Phase wrap at the chain level: when `n` samples advance an oscillator
/// by a whole number of its periods (`(n * f) % period == 0`; for a
/// frequency that divides the sample rate, `n == sample_rate / frequency`),
/// the oscillator in the rendered chain stands at its starting phase again.
pub proof fn lemma_chain_phase_wraps(o: Module, n: nat, sr: u32)
    requires
        valid_sr(sr),
        wf_module(o, sr),
        o.kind == ModuleKind::Oscillator,
        (n * (o.freq_mhz as int)) % phase_mod(sr) == 0,
    ensures
        spec_after(seq![o], n, sr)[0].phase_ticks == o.phase_ticks,
{
    lemma_osc_phase_after(o, n, sr);
    crate::wave::lemma_phase_periodic(
        o.phase_ticks as int,
        o.freq_mhz as int,
        phase_mod(sr),
        n,
    );
}

/// Scaling by at most one full gain unit (truncating toward zero) never
/// grows a value's magnitude past its bound.
proof fn lemma_scale_bound(s: int, g: int, bound: int)
    requires
        -bound <= s <= bound,
        -GAIN_SCALE <= g <= GAIN_SCALE,
        0 <= bound,
    ensures
        -bound <= spec_div_trunc(s * g, GAIN_SCALE as int) <= bound,
{
    let p = s * g;
    assert(-(1000 * bound) <= p <= 1000 * bound) by (nonlinear_arith)
        requires
            -bound <= s <= bound,
            -1000 <= g <= 1000,
            0 <= bound,
            p == s * g,
    ;
    lemma_div_multiples_vanish(bound, 1000);
    if p >= 0 {
        lemma_div_pos_is_pos(p, 1000);
        lemma_div_is_ordered(p, 1000 * bound, 1000);
    } else {
        lemma_div_pos_is_pos(-p, 1000);
        lemma_div_is_ordered(-p, 1000 * bound, 1000);
    }
}

/// Folding one sample through a one-module chain, spelled out.
proof fn lemma_run_one(m: Module, r: int, sr: u32)
    ensures
        spec_run(seq![m], r, sr) == spec_process(m, r, sr).0,
        spec_adv(seq![m], r, sr) == seq![spec_process(m, r, sr).1],
{
    let e = Seq::<Module>::empty();
    assert(seq![m].drop_first() =~= e);
    assert(spec_run(e, spec_process(m, r, sr).0, sr) == spec_process(m, r, sr).0);
    assert(spec_adv(e, spec_process(m, r, sr).0, sr) == e);
    assert(spec_adv(seq![m], r, sr) =~= seq![spec_process(m, r, sr).1]);
}

/// Folding one sample through a two-module chain, spelled out.
proof fn lemma_run_two(m1: Module, m2: Module, r: int, sr: u32)
    ensures
        spec_run(seq![m1, m2], r, sr) == spec_process(m2, spec_process(m1, r, sr).0, sr).0,
        spec_adv(seq![m1, m2], r, sr) == seq![
            spec_process(m1, r, sr).1,
            spec_process(m2, spec_process(m1, r, sr).0, sr).1,
        ],
{
    let r1 = spec_process(m1, r, sr).0;
    assert(seq![m1, m2].drop_first() =~= seq![m2]);
    lemma_run_one(m2, r1, sr);
    assert(spec_adv(seq![m1, m2], r, sr) =~= seq![
        spec_process(m1, r, sr).1,
        spec_process(m2, r1, sr).1,
    ]);
}

/// How a one-oscillator chain and the same oscillator followed by an
/// amplifier evolve together: after any number of samples the oscillator
/// stands in the same state in both, the amplifier is unchanged, and the
/// oscillator stays well formed.
proof fn lemma_osc_amp_after(o: Module, a: Module, k: nat, sr: u32)
    requires
        valid_sr(sr),
        wf_module(o, sr),
        o.kind == ModuleKind::Oscillator,
        a.kind == ModuleKind::Amplifier,
    ensures
        spec_after(seq![o], k, sr).len() == 1,
        wf_module(spec_after(seq![o], k, sr)[0], sr),
        spec_after(seq![o], k, sr)[0].kind == ModuleKind::Oscillator,
        spec_after(seq![o, a], k, sr) == seq![spec_after(seq![o], k, sr)[0], a],
    decreases k,
{
    if k == 0 {
        assert(spec_after(seq![o, a], 0, sr) =~= seq![spec_after(seq![o], 0, sr)[0], a]);
    } else {
        lemma_osc_amp_after(o, a, (k - 1) as nat, sr);
        let ok = spec_after(seq![o], (k - 1) as nat, sr)[0];
        let ok2 = spec_process(ok, 0, sr).1;
        lemma_mod_division_less_than_divisor((ok.phase_ticks as int) + (ok.freq_mhz as int),
            phase_mod(sr));
        assert(spec_after(seq![o], (k - 1) as nat, sr) =~= seq![ok]);
        lemma_run_one(ok, 0, sr);
        assert(spec_after(seq![o], k, sr) == seq![ok2]);
        lemma_run_two(ok, a, 0, sr);
        assert(spec_process(a, spec_process(ok, 0, sr).0, sr).1 == a);
        assert(spec_after(seq![o, a], k, sr) == seq![ok2, a]);
    }
}

/// An amplifier placed after an oscillator scales the bare oscillator's
/// output: at every sample index, the two-module chain emits exactly the
/// one-module chain's sample scaled by `gain_milli` thousandths and
/// truncated toward zero. With a gain of 500 thousandths each emitted
/// sample is half the bare oscillator's sample at the same index.
pub proof fn lemma_amp_scales_oscillator(o: Module, a: Module, k: nat, sr: u32)
    requires
        valid_sr(sr),
        wf_module(o, sr),
        o.kind == ModuleKind::Oscillator,
        a.kind == ModuleKind::Amplifier,
        -GAIN_SCALE <= a.gain_milli <= GAIN_SCALE,
    ensures
        spec_sample_at(seq![o, a], k, sr) == spec_div_trunc(
            spec_sample_at(seq![o], k, sr) * (a.gain_milli as int),
            GAIN_SCALE as int,
        ),
{
    lemma_osc_amp_after(o, a, k, sr);
    let ok = spec_after(seq![o], k, sr)[0];
    let s = spec_process(ok, 0, sr).0;
    lemma_wave_range(ok.form, ok.phase_ticks, sr);
    // the bare chain's emitted sample is the oscillator sample itself
    assert(spec_after(seq![o], k, sr) =~= seq![ok]);
    lemma_run_one(ok, 0, sr);
    assert(spec_sample_at(seq![o], k, sr) == s);
    // the two-module chain's emitted sample is the scaled oscillator sample
    lemma_run_two(ok, a, 0, sr);
    let scaled = spec_div_trunc(s * (a.gain_milli as int), GAIN_SCALE as int);
    lemma_scale_bound(s, a.gain_milli as int, SAMPLE_SCALE as int);
    assert(spec_run(seq![ok, a], 0, sr) == scaled);
}

} // verus!
