//! The chain store: the single holder of the currently published chain.
//!
//! The edit side replaces the whole chain at once with `publish`; the
//! render side takes an independent copy with `borrow_for_render` and a
//! cheap change test with `generation`. A renderer works on its own copy,
//! so a publish never waits on a render in flight, and a borrow never
//! observes a half-edited chain: it sees exactly one published value.
//! (The wiring that shares one store between two threads lives outside
//! the library; the contracts here state what each operation does to the
//! store's value.)

use vstd::prelude::*;
use crate::module::{fresh_state, wf_module, Module};
use crate::valid_sr;

verus! {

/// Modules as every edit publishes them: well formed, runtime cells at
/// their defaults — a newly published chain always starts from fresh
/// state (phase 0, filter history 0).
pub open spec fn wf_published(ms: Seq<Module>, sr: u32) -> bool {
    forall|i: int| 0 <= i < ms.len() ==> wf_module(#[trigger] ms[i], sr) && fresh_state(ms[i])
}

/// Element-for-element copy of a module list.
pub fn copy_modules(v: &Vec<Module>) -> (r: Vec<Module>)
    ensures
        r@ == v@,
{
    let mut r: Vec<Module> = Vec::new();
    let mut i: usize = 0;
    proof {
        assert(v@.take(0) =~= Seq::<Module>::empty());
    }
    while i < v.len()
        invariant
            i <= v@.len(),
            r@ == v@.take(i as int),
        decreases v@.len() - i,
    {
        r.push(v[i]);
        proof {
            assert(v@.take((i as int) + 1) =~= v@.take(i as int).push(v@[i as int]));
        }
        i += 1;
    }
    proof {
        assert(v@.take(v@.len() as int) =~= v@);
    }
    r
}

/// The concurrency-safe holder of the currently active chain.
pub struct ChainStore {
    chain: Vec<Module>,
    sr: u32,
    generation: u64,
}

impl ChainStore {
    /// The published modules.
    pub closed spec fn modules(&self) -> Seq<Module> {
        self.chain@
    }

    /// The process-wide sample rate, in hertz, fixed at construction.
    pub closed spec fn rate(&self) -> u32 {
        self.sr
    }

    /// How many publishes have landed so far.
    pub closed spec fn gen_id(&self) -> u64 {
        self.generation
    }

    /// The store's invariant: a valid sample rate and a published chain
    /// of well-formed, fresh-state modules.
    pub open spec fn inv(&self) -> bool {
        valid_sr(self.rate()) && wf_published(self.modules(), self.rate())
    }

    /// A new store with an empty chain.
    pub fn new(sr: u32) -> (s: ChainStore)
        requires
            valid_sr(sr),
        ensures
            s.inv(),
            s.modules() == Seq::<Module>::empty(),
            s.rate() == sr,
            s.gen_id() == 0,
    {
        ChainStore { chain: Vec::new(), sr, generation: 0 }
    }

    /// The configured sample rate.
    pub fn rate_hz(&self) -> (r: u32)
        ensures
            r == self.rate(),
    {
        self.sr
    }

    /// How many modules the published chain holds.
    pub fn module_count(&self) -> (n: usize)
        ensures
            n == self.modules().len(),
    {
        self.chain.len()
    }

    /// The publish counter, for a renderer's cheap change test.
    pub fn generation(&self) -> (g: u64)
        ensures
            g == self.gen_id(),
    {
        self.generation
    }

    /// Atomically replace the published chain with `chain`. Afterwards
    /// the store holds exactly `chain` — never a mix of old and new.
    pub fn publish(&mut self, chain: Vec<Module>)
        requires
            old(self).inv(),
            wf_published(chain@, old(self).rate()),
            old(self).gen_id() < u64::MAX,
        ensures
            final(self).inv(),
            final(self).modules() == chain@,
            final(self).rate() == old(self).rate(),
            final(self).gen_id() == old(self).gen_id() + 1,
    {
        self.chain = chain;
        self.generation = self.generation + 1;
    }

    /// An independent copy of the chain published at the moment of the
    /// call, for one render pass: later publishes cannot touch it.
    pub fn borrow_for_render(&self) -> (c: Vec<Module>)
        requires
            self.inv(),
        ensures
            c@ == self.modules(),
            wf_published(c@, self.rate()),
    {
        copy_modules(&self.chain)
    }
}

/// Read-after-write visibility: `publish` leaves the store's modules
/// exactly equal to the published chain, and `borrow_for_render` returns
/// exactly the store's modules — so a borrow that starts once a publish
/// has completed returns the newest published chain. (That a publish
/// never waits on an in-flight borrow is a liveness property of the
/// thread wiring around the library; the store itself has no operation
/// that can block on another.)
pub proof fn lemma_read_after_write(
    store_after: ChainStore,
    published: Seq<Module>,
    borrowed: Seq<Module>,
)
    requires
        store_after.modules() == published,
        borrowed == store_after.modules(),
    ensures
        borrowed == published,
{
}

} // verus!
