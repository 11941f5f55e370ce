//! The edit controller: turns one interactive command at a time into a
//! new chain snapshot and publishes it.
//!
//! Every command reads the current chain, mutates a copy, and publishes
//! the copy; a rejected command leaves the store untouched and reports
//! why. The render side therefore never observes a torn intermediate
//! state, only whole published chains.

use vstd::prelude::*;
use crate::module::{
    freq_ok, gain_ok, module_new, spec_fresh_module, Module, ModuleKind,
};
use crate::store::{wf_published, ChainStore};
use crate::wave::WaveForm;
use crate::SynthError;

verus! {

/// One interactive command against the current chain.
#[derive(Clone, Copy, PartialEq, Eq, Structural, Debug)]
pub enum Command {
    Create { kind: ModuleKind, form: WaveForm, freq_mhz: u32, gain_milli: i64 },
    Edit { index: usize, kind: ModuleKind, form: WaveForm, freq_mhz: u32, gain_milli: i64 },
    Delete { index: usize },
    Reorder { from: usize, to: usize },
}

/// What a command is owed to do: the exact result it reports and the
/// exact modules the store holds afterwards. Index errors are reported
/// before parameter errors; a frequency error before a gain error; a
/// rejected command leaves the chain as it was.
pub open spec fn spec_apply(ms: Seq<Module>, sr: u32, cmd: Command) -> (Result<
    (),
    SynthError,
>, Seq<Module>) {
    match cmd {
        Command::Create { kind, form, freq_mhz, gain_milli } => {
            if !freq_ok(freq_mhz, sr) {
                (Err(SynthError::InvalidFrequency), ms)
            } else if !gain_ok(gain_milli) {
                (Err(SynthError::InvalidGain), ms)
            } else {
                (Ok(()), ms.push(spec_fresh_module(kind, form, freq_mhz, gain_milli)))
            }
        },
        Command::Edit { index, kind, form, freq_mhz, gain_milli } => {
            if index >= ms.len() {
                (Err(SynthError::IndexOutOfRange), ms)
            } else if !freq_ok(freq_mhz, sr) {
                (Err(SynthError::InvalidFrequency), ms)
            } else if !gain_ok(gain_milli) {
                (Err(SynthError::InvalidGain), ms)
            } else {
                (Ok(()), ms.update(index as int, spec_fresh_module(kind, form, freq_mhz,
                    gain_milli)))
            }
        },
        Command::Delete { index } => {
            if index >= ms.len() {
                (Err(SynthError::IndexOutOfRange), ms)
            } else {
                (Ok(()), ms.remove(index as int))
            }
        },
        Command::Reorder { from, to } => {
            if from >= ms.len() || to >= ms.len() {
                (Err(SynthError::IndexOutOfRange), ms)
            } else {
                (Ok(()), ms.remove(from as int).insert(to as int, ms[from as int]))
            }
        },
    }
}

/// The contract every command function shares, relative to the expected
/// outcome `spec_apply` names: the reported result and the new store
/// content are exactly the expected ones; the rate never changes; the
/// publish counter advances exactly on success.
pub open spec fn applied(
    pre: ChainStore,
    post: ChainStore,
    r: Result<(), SynthError>,
    cmd: Command,
) -> bool {
    &&& r == spec_apply(pre.modules(), pre.rate(), cmd).0
    &&& post.modules() == spec_apply(pre.modules(), pre.rate(), cmd).1
    &&& post.rate() == pre.rate()
    &&& post.inv()
    &&& (r is Ok ==> post.gen_id() == pre.gen_id() + 1)
    &&& (r is Err ==> post.gen_id() == pre.gen_id())
}

/// Validate parameters, append a fresh module to a copy of the chain,
/// publish the copy.
pub fn create_module(
    store: &mut ChainStore,
    kind: ModuleKind,
    form: WaveForm,
    freq_mhz: u32,
    gain_milli: i64,
) -> (r: Result<(), SynthError>)
    requires
        old(store).inv(),
        old(store).gen_id() < u64::MAX,
    ensures
        applied(*old(store), *final(store), r, Command::Create { kind, form, freq_mhz, gain_milli }),
{
    let m = match module_new(kind, form, freq_mhz, gain_milli, store.rate_hz()) {
        Ok(m) => m,
        Err(e) => {
            return Err(e);
        },
    };
    let mut c = store.borrow_for_render();
    c.push(m);
    proof {
        let pre = old(store).modules();
        assert forall|i: int| 0 <= i < c@.len() implies crate::module::wf_module(
            #[trigger] c@[i],
            old(store).rate(),
        ) && crate::module::fresh_state(c@[i]) by {
            if i < pre.len() {
                assert(c@[i] == pre[i]);
            }
        }
    }
    store.publish(c);
    Ok(())
}

/// Validate the index and the parameters, replace the module at the index
/// in a copy (fresh runtime state), publish the copy. An out-of-range
/// index leaves the store's content unchanged and reports it.
pub fn edit_module(
    store: &mut ChainStore,
    index: usize,
    kind: ModuleKind,
    form: WaveForm,
    freq_mhz: u32,
    gain_milli: i64,
) -> (r: Result<(), SynthError>)
    requires
        old(store).inv(),
        old(store).gen_id() < u64::MAX,
    ensures
        applied(
            *old(store),
            *final(store),
            r,
            Command::Edit { index, kind, form, freq_mhz, gain_milli },
        ),
{
    if index >= store.module_count() {
        return Err(SynthError::IndexOutOfRange);
    }
    let m = match module_new(kind, form, freq_mhz, gain_milli, store.rate_hz()) {
        Ok(m) => m,
        Err(e) => {
            return Err(e);
        },
    };
    let mut c = store.borrow_for_render();
    let _replaced = c.remove(index);
    c.insert(index, m);
    proof {
        let pre = old(store).modules();
        assert(c@ =~= pre.update(index as int, m));
        assert forall|i: int| 0 <= i < c@.len() implies crate::module::wf_module(
            #[trigger] c@[i],
            old(store).rate(),
        ) && crate::module::fresh_state(c@[i]) by {
            if i != index {
                assert(c@[i] == pre[i]);
            }
        }
    }
    store.publish(c);
    Ok(())
}

/// Validate the index, remove the module at it from a copy, publish the
/// copy. The surviving modules keep their order; the published chain
/// starts from fresh runtime state, as every published chain does.
pub fn delete_module(store: &mut ChainStore, index: usize) -> (r: Result<(), SynthError>)
    requires
        old(store).inv(),
        old(store).gen_id() < u64::MAX,
    ensures
        applied(*old(store), *final(store), r, Command::Delete { index }),
{
    if index >= store.module_count() {
        return Err(SynthError::IndexOutOfRange);
    }
    let mut c = store.borrow_for_render();
    let _removed = c.remove(index);
    proof {
        let pre = old(store).modules();
        pre.remove_ensures(index as int);
        assert forall|i: int| 0 <= i < c@.len() implies crate::module::wf_module(
            #[trigger] c@[i],
            old(store).rate(),
        ) && crate::module::fresh_state(c@[i]) by {
            if i < index {
                assert(c@[i] == pre[i]);
            } else {
                assert(c@[i] == pre[i + 1]);
            }
        }
    }
    store.publish(c);
    Ok(())
}

/// Validate both indices, move the module at `from` so it stands at `to`
/// in a copy, publish the copy.
pub fn reorder_module(store: &mut ChainStore, from: usize, to: usize) -> (r: Result<
    (),
    SynthError,
>)
    requires
        old(store).inv(),
        old(store).gen_id() < u64::MAX,
    ensures
        applied(*old(store), *final(store), r, Command::Reorder { from, to }),
{
    if from >= store.module_count() || to >= store.module_count() {
        return Err(SynthError::IndexOutOfRange);
    }
    let mut c = store.borrow_for_render();
    let m = c.remove(from);
    c.insert(to, m);
    proof {
        let pre = old(store).modules();
        let f = from as int;
        let t = to as int;
        let rem = pre.remove(f);
        pre.remove_ensures(f);
        rem.insert_ensures(t, pre[f]);
        assert forall|i: int| 0 <= i < c@.len() implies crate::module::wf_module(
            #[trigger] c@[i],
            old(store).rate(),
        ) && crate::module::fresh_state(c@[i]) by {
            let moved = rem.insert(t, pre[f]);
            assert(c@[i] == moved[i]);
            if i == t {
                assert(moved[i] == pre[f]);
            } else if i < t {
                assert(moved[i] == rem[i]);
                if i < f {
                    assert(rem[i] == pre[i]);
                } else {
                    assert(rem[i] == pre[i + 1]);
                }
            } else {
                assert(moved[i] == rem[i - 1]);
                if i - 1 < f {
                    assert(rem[i - 1] == pre[i - 1]);
                } else {
                    assert(rem[i - 1] == pre[i]);
                }
            }
        }
    }
    store.publish(c);
    Ok(())
}

/// Process one command: dispatch to the operation it names.
pub fn apply_command(store: &mut ChainStore, cmd: Command) -> (r: Result<(), SynthError>)
    requires
        old(store).inv(),
        old(store).gen_id() < u64::MAX,
    ensures
        applied(*old(store), *final(store), r, cmd),
{
    match cmd {
        Command::Create { kind, form, freq_mhz, gain_milli } => create_module(
            store,
            kind,
            form,
            freq_mhz,
            gain_milli,
        ),
        Command::Edit { index, kind, form, freq_mhz, gain_milli } => edit_module(
            store,
            index,
            kind,
            form,
            freq_mhz,
            gain_milli,
        ),
        Command::Delete { index } => delete_module(store, index),
        Command::Reorder { from, to } => reorder_module(store, from, to),
    }
}

} // verus!
