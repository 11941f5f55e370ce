use synthcore::chain::{process_chain, render};
use synthcore::edit::{
    apply_command, create_module, delete_module, edit_module, reorder_module, Command,
};
use synthcore::module::{module_new, process_module, Module, ModuleKind};
use synthcore::render::Renderer;
use synthcore::store::ChainStore;
use synthcore::text::{describe_all, describe_module};
use synthcore::viz::VizBuffer;
use synthcore::wave::{advance_phase, wave_sample, WaveForm};
use synthcore::SynthError;

const SR: u32 = 48000;

fn osc(form: WaveForm, freq_mhz: u32) -> Module {
    module_new(ModuleKind::Oscillator, form, freq_mhz, 1000, SR).unwrap()
}

fn amp(gain_milli: i64) -> Module {
    module_new(ModuleKind::Amplifier, WaveForm::Sine, 1000, gain_milli, SR).unwrap()
}

#[test]
fn wave_output_stays_in_full_scale() {
    // all three forms, a frequency that does not divide the rate, a full
    // second of samples
    for form in [WaveForm::Sine, WaveForm::Square, WaveForm::Sawtooth] {
        let mut chain = vec![osc(form, 440_000)];
        let out = render(&mut chain, SR as usize, SR);
        assert_eq!(out.len(), SR as usize);
        for s in out {
            assert!(-32768 <= s && s <= 32768);
        }
    }
}

#[test]
fn wave_known_values_at_phase_zero() {
    assert_eq!(wave_sample(WaveForm::Sine, 0, SR), 0);
    assert_eq!(wave_sample(WaveForm::Square, 0, SR), 32768);
    assert_eq!(wave_sample(WaveForm::Sawtooth, 0, SR), -32768);
    // one quarter period: phase 12_000_000 of 48_000_000 ticks
    assert_eq!(wave_sample(WaveForm::Sine, 12_000_000, SR), 32768);
    // one eighth period: sin(pi/4) in full-scale units is 23170.47
    assert_eq!(wave_sample(WaveForm::Sine, 6_000_000, SR), 23170);
    // three quarters: the sine's trough
    assert_eq!(wave_sample(WaveForm::Sine, 36_000_000, SR), -32768);
    assert_eq!(wave_sample(WaveForm::Sawtooth, 24_000_000, SR), 0);
    assert_eq!(wave_sample(WaveForm::Square, 24_000_000, SR), -32768);
}

#[test]
fn phase_wraps_after_one_period() {
    // 480 Hz divides 48000 Hz: the period is exactly 100 samples
    let f = 480_000u32;
    let mut t = 0u64;
    for _ in 0..100 {
        t = advance_phase(t, f, SR);
    }
    assert_eq!(t, 0);
    // and it is away from the start midway through
    let mut mid = 0u64;
    for _ in 0..50 {
        mid = advance_phase(mid, f, SR);
    }
    assert_eq!(mid, 24_000_000);
}

#[test]
fn empty_chain_renders_silence() {
    let mut chain: Vec<Module> = Vec::new();
    let out = render(&mut chain, 256, SR);
    assert_eq!(out.len(), 256);
    assert!(out.iter().all(|&s| s == 0));
}

#[test]
fn amplifier_halves_the_bare_oscillator() {
    let mut bare = vec![osc(WaveForm::Sine, 440_000)];
    let mut amped = vec![osc(WaveForm::Sine, 440_000), amp(500)];
    let a = render(&mut bare, 64, SR);
    let b = render(&mut amped, 64, SR);
    for k in 0..64 {
        // truncation toward zero, exactly half at even sample values
        assert_eq!(b[k], a[k] * 500 / 1000);
    }
}

#[test]
fn oscillator_overwrites_upstream_signal() {
    // the chain rule for sources: an oscillator mid-chain replaces the
    // running value, so [osc, osc2] emits what [osc2] emits
    let mut two = vec![osc(WaveForm::Square, 300_000), osc(WaveForm::Sine, 440_000)];
    let mut one = vec![osc(WaveForm::Sine, 440_000)];
    let a = render(&mut two, 32, SR);
    let b = render(&mut one, 32, SR);
    assert_eq!(a, b);
}

#[test]
fn filter_first_step_from_rest() {
    // cutoff at the Nyquist frequency: 1 - exp(-pi) = 0.956786, which the
    // coefficient matches at 62704 of 65536, so the first step toward a
    // full-scale input from rest is 31352
    let mut f = module_new(ModuleKind::Filter, WaveForm::Sine, 24_000_000, 1000, SR).unwrap();
    let out = process_module(&mut f, 32768, SR);
    assert_eq!(out, 31352);
    assert_eq!(f.filt_prev, 31352);
}

#[test]
fn filter_holds_steady_state() {
    // a filter fed its own history moves toward the input and never past it
    let mut f = module_new(ModuleKind::Filter, WaveForm::Sine, 1_000_000, 1000, SR).unwrap();
    let mut last = 0i64;
    for _ in 0..2000 {
        let out = process_module(&mut f, 32768, SR);
        assert!(out >= last);
        assert!(out <= 32768);
        last = out;
    }
}

#[test]
fn publish_then_borrow_returns_newest_chain() {
    let mut store = ChainStore::new(SR);
    create_module(&mut store, ModuleKind::Oscillator, WaveForm::Sine, 440_000, 1000).unwrap();
    let held = store.borrow_for_render();
    // a publish lands while `held` is out: the held copy is untouched,
    // the next borrow sees the newest chain
    create_module(&mut store, ModuleKind::Amplifier, WaveForm::Sine, 1000, 250).unwrap();
    assert_eq!(held.len(), 1);
    let fresh = store.borrow_for_render();
    assert_eq!(fresh.len(), 2);
    assert_eq!(fresh[0].kind, ModuleKind::Oscillator);
    assert_eq!(fresh[1].kind, ModuleKind::Amplifier);
    assert_eq!(store.generation(), 2);
}

#[test]
fn edit_out_of_range_leaves_store_unchanged() {
    let mut store = ChainStore::new(SR);
    create_module(&mut store, ModuleKind::Oscillator, WaveForm::Sine, 440_000, 1000).unwrap();
    let before = store.borrow_for_render();
    let gen_before = store.generation();
    let r = edit_module(&mut store, 1, ModuleKind::Filter, WaveForm::Sine, 1000, 1000);
    assert_eq!(r, Err(SynthError::IndexOutOfRange));
    assert_eq!(store.borrow_for_render(), before);
    assert_eq!(store.generation(), gen_before);
}

#[test]
fn invalid_parameters_are_rejected_in_order() {
    let mut store = ChainStore::new(SR);
    // frequency of zero
    let r = create_module(&mut store, ModuleKind::Oscillator, WaveForm::Sine, 0, 1000);
    assert_eq!(r, Err(SynthError::InvalidFrequency));
    // frequency above Nyquist (more than 24000 Hz at 48000 Hz)
    let r = create_module(&mut store, ModuleKind::Oscillator, WaveForm::Sine, 24_000_001, 1000);
    assert_eq!(r, Err(SynthError::InvalidFrequency));
    // gain beyond what the fixed point can carry
    let r = create_module(&mut store, ModuleKind::Amplifier, WaveForm::Sine, 1000, 1_073_741_824);
    assert_eq!(r, Err(SynthError::InvalidGain));
    // nothing was published
    assert_eq!(store.module_count(), 0);
    assert_eq!(store.generation(), 0);
    // delete on an empty chain
    let r = delete_module(&mut store, 0);
    assert_eq!(r, Err(SynthError::IndexOutOfRange));
}

#[test]
fn create_create_render_scenario() {
    // create Oscillator(Sine, 440 Hz), then Amplifier(gain 0.25), render 4
    let mut store = ChainStore::new(SR);
    create_module(&mut store, ModuleKind::Oscillator, WaveForm::Sine, 440_000, 1000).unwrap();
    assert_eq!(store.module_count(), 1);
    create_module(&mut store, ModuleKind::Amplifier, WaveForm::Sine, 20_000, 250).unwrap();
    assert_eq!(store.module_count(), 2);
    let listed = store.borrow_for_render();
    assert_eq!(listed[0].kind, ModuleKind::Oscillator);
    assert_eq!(listed[1].kind, ModuleKind::Amplifier);

    let mut rend = Renderer::new(&store);
    let mut viz = VizBuffer::new(1024);
    let out = rend.tick(&store, 4, &mut viz);
    // sin(0) = 0, scaled by 0.25: exactly 0
    assert_eq!(out[0], 0);
    // one sample in: 0.25 * sin(2*pi*440/48000) = 0.014389 of full scale,
    // 471.5 in 1/32768 units; the fixed-point chain lands on 471
    assert_eq!(out[1], 471);
    assert_eq!(out[2], 941);
    assert_eq!(out[3], 1408);
    // the block is mirrored, stamped, into the visualization ring
    let snap = viz.snapshot();
    assert_eq!(snap, vec![(0, 0), (1, 471), (2, 941), (3, 1408)]);
}

#[test]
fn delete_keeps_the_surviving_module_fresh() {
    let mut store = ChainStore::new(SR);
    create_module(&mut store, ModuleKind::Oscillator, WaveForm::Sine, 440_000, 1000).unwrap();
    create_module(&mut store, ModuleKind::Amplifier, WaveForm::Sine, 20_000, 250).unwrap();
    delete_module(&mut store, 0).unwrap();
    let left = store.borrow_for_render();
    assert_eq!(left.len(), 1);
    assert_eq!(left[0].kind, ModuleKind::Amplifier);
    assert_eq!(left[0].gain_milli, 250);
    assert_eq!(left[0].phase_ticks, 0);
    assert_eq!(left[0].filt_prev, 0);
}

#[test]
fn reorder_moves_a_module() {
    let mut store = ChainStore::new(SR);
    create_module(&mut store, ModuleKind::Oscillator, WaveForm::Sine, 440_000, 1000).unwrap();
    create_module(&mut store, ModuleKind::Amplifier, WaveForm::Sine, 20_000, 250).unwrap();
    create_module(&mut store, ModuleKind::Filter, WaveForm::Sine, 2_000_000, 1000).unwrap();
    reorder_module(&mut store, 2, 0).unwrap();
    let ms = store.borrow_for_render();
    assert_eq!(ms[0].kind, ModuleKind::Filter);
    assert_eq!(ms[1].kind, ModuleKind::Oscillator);
    assert_eq!(ms[2].kind, ModuleKind::Amplifier);
    // out of range on either side is rejected
    assert_eq!(reorder_module(&mut store, 3, 0), Err(SynthError::IndexOutOfRange));
    assert_eq!(reorder_module(&mut store, 0, 3), Err(SynthError::IndexOutOfRange));
}

#[test]
fn commands_dispatch_like_the_direct_calls() {
    let mut store = ChainStore::new(SR);
    apply_command(
        &mut store,
        Command::Create {
            kind: ModuleKind::Oscillator,
            form: WaveForm::Square,
            freq_mhz: 440_000,
            gain_milli: 1000,
        },
    )
    .unwrap();
    apply_command(
        &mut store,
        Command::Edit {
            index: 0,
            kind: ModuleKind::Oscillator,
            form: WaveForm::Sawtooth,
            freq_mhz: 220_000,
            gain_milli: 1000,
        },
    )
    .unwrap();
    let ms = store.borrow_for_render();
    assert_eq!(ms[0].form, WaveForm::Sawtooth);
    assert_eq!(ms[0].freq_mhz, 220_000);
    let r = apply_command(&mut store, Command::Delete { index: 5 });
    assert_eq!(r, Err(SynthError::IndexOutOfRange));
    apply_command(&mut store, Command::Delete { index: 0 }).unwrap();
    assert_eq!(store.module_count(), 0);
}

#[test]
fn renderer_picks_up_a_publish_and_resets_state() {
    let mut store = ChainStore::new(SR);
    create_module(&mut store, ModuleKind::Oscillator, WaveForm::Sine, 440_000, 1000).unwrap();
    let mut rend = Renderer::new(&store);
    let mut viz = VizBuffer::new(64);
    let first = rend.tick(&store, 8, &mut viz);
    // no publish in between: the oscillator's phase carries over
    let second = rend.tick(&store, 8, &mut viz);
    assert_ne!(first, second);
    // a publish lands: the next tick starts from fresh state, so the
    // block repeats the very first one
    create_module(&mut store, ModuleKind::Oscillator, WaveForm::Sine, 440_000, 1000).unwrap();
    delete_module(&mut store, 1).unwrap();
    let third = rend.tick(&store, 8, &mut viz);
    assert_eq!(first, third);
}

#[test]
fn viz_ring_keeps_the_newest_entries() {
    let mut viz = VizBuffer::new(4);
    for i in 0..6u64 {
        viz.push_sample(i, (i as i64) * 10);
    }
    assert_eq!(viz.len(), 4);
    let snap = viz.snapshot();
    assert_eq!(snap, vec![(2, 20), (3, 30), (4, 40), (5, 50)]);
}

#[test]
fn sawtooth_clips_nothing_and_square_hits_the_rails() {
    let mut chain = vec![osc(WaveForm::Square, 1_000_000)];
    let out = render(&mut chain, 96, SR);
    assert!(out.iter().all(|&s| s == 32768 || s == -32768));
    // an amplifier with gain 2.0 over a square clips at full scale
    let mut loud = vec![osc(WaveForm::Square, 1_000_000), amp(2000)];
    let out = render(&mut loud, 96, SR);
    assert!(out.iter().all(|&s| s == 32768 || s == -32768));
}

#[test]
fn process_chain_returns_the_unclipped_running_value() {
    // gain 2.0 over a full-scale square: the running value is double full
    // scale before the emission clamp
    let mut loud = vec![osc(WaveForm::Square, 1_000_000), amp(2000)];
    let v = process_chain(&mut loud, SR);
    assert_eq!(v, 65536);
}

#[test]
fn describe_module_lists_kind_and_frequency() {
    let m = osc(WaveForm::Sine, 440_000);
    let line: String = describe_module(&m).into_iter().collect();
    assert_eq!(line, "Oscillator, 440 hz");
    let m = module_new(ModuleKind::Filter, WaveForm::Sine, 2_500, 1000, SR).unwrap();
    let line: String = describe_module(&m).into_iter().collect();
    assert_eq!(line, "Filter, 2.500 hz");
    let m = amp(250);
    let line: String = describe_module(&m).into_iter().collect();
    assert_eq!(line, "Amplifier, 1 hz");
}

#[test]
fn describe_all_lists_every_module_in_order() {
    let chain = vec![osc(WaveForm::Sine, 440_000), amp(250)];
    let lines: Vec<String> = describe_all(&chain)
        .into_iter()
        .map(|chars| chars.into_iter().collect())
        .collect();
    assert_eq!(lines, vec!["Oscillator, 440 hz".to_string(), "Amplifier, 1 hz".to_string()]);
}

#[test]
fn device_error_is_distinct() {
    // the startup-only error the program around the library reports
    assert_ne!(SynthError::DeviceUnavailable, SynthError::IndexOutOfRange);
    assert_eq!(SynthError::DeviceUnavailable, SynthError::DeviceUnavailable);
}
