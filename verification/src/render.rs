//! The audio render side: one object per output stream, driven by the
//! device's pull cadence. Each tick borrows the newest published chain if
//! one has landed (its runtime state starting fresh), renders one block
//! from its working copy, and mirrors the block into the visualization
//! ring under a monotone sample stamp.

use vstd::prelude::*;
use crate::chain::{render, spec_after, spec_sample_at, wf_chain};
use crate::module::Module;
use crate::store::ChainStore;
use crate::viz::{lemma_ring_push, spec_ring, VizBuffer};
use crate::{valid_sr, SAMPLE_SCALE};

verus! {

/// The stamped pairs one block adds to the visualization ring: sample `k`
/// of a block whose first sample has index `t0` carries stamp `t0 + k`.
pub open spec fn spec_stamped(t0: int, vals: Seq<i64>) -> Seq<(u64, i64)> {
    Seq::new(vals.len(), |i: int| (((t0 + i) as u64), vals[i]))
}

/// The chain state a tick renders from: the renderer's working copy, or
/// the store's chain if a publish has landed since the last tick (runtime
/// state then starts from the published — fresh — state).
pub open spec fn spec_tick_source(r: Renderer, store: ChainStore) -> Seq<Module> {
    if r.seen_gen() == store.gen_id() {
        r.chain_state()
    } else {
        store.modules()
    }
}

/// The real-time render side's state.
pub struct Renderer {
    working: Vec<Module>,
    sr: u32,
    seen: u64,
    stamp: u64,
}

impl Renderer {
    /// The working chain, runtime state as far as rendering advanced it.
    pub closed spec fn chain_state(&self) -> Seq<Module> {
        self.working@
    }

    /// The sample rate the renderer was constructed with.
    pub closed spec fn rate(&self) -> u32 {
        self.sr
    }

    /// The publish counter value of the chain the renderer works on.
    pub closed spec fn seen_gen(&self) -> u64 {
        self.seen
    }

    /// The sample index the next rendered sample will carry.
    pub closed spec fn next_stamp(&self) -> u64 {
        self.stamp
    }

    pub open spec fn inv(&self) -> bool {
        valid_sr(self.rate()) && wf_chain(self.chain_state(), self.rate())
    }

    /// A renderer starting from the store's current chain.
    pub fn new(store: &ChainStore) -> (r: Renderer)
        requires
            store.inv(),
        ensures
            r.inv(),
            r.rate() == store.rate(),
            r.chain_state() == store.modules(),
            r.seen_gen() == store.gen_id(),
            r.next_stamp() == 0,
    {
        let working = store.borrow_for_render();
        Renderer { working, sr: store.rate_hz(), seen: store.generation(), stamp: 0 }
    }

    /// One device callback: render `n` samples and mirror them, stamped,
    /// into the visualization ring. Sample `k` of the block is exactly
    /// `spec_sample_at` of the source chain at index `k`, hard-clipped to
    /// full scale; the working chain advances by `n` samples.
    pub fn tick(&mut self, store: &ChainStore, n: usize, viz: &mut VizBuffer) -> (out: Vec<i64>)
        requires
            old(self).inv(),
            store.inv(),
            old(self).rate() == store.rate(),
            old(viz).inv(),
            (old(self).next_stamp() as int) + (n as int) <= u64::MAX as int,
        ensures
            final(self).inv(),
            final(self).rate() == old(self).rate(),
            final(self).seen_gen() == store.gen_id(),
            final(self).next_stamp() == old(self).next_stamp() + n,
            out@.len() == n,
            forall|k: int|
                0 <= k < n ==> (out@[k] as int) == spec_sample_at(
                    spec_tick_source(*old(self), *store),
                    k as nat,
                    store.rate(),
                ),
            forall|k: int| 0 <= k < n ==> -SAMPLE_SCALE <= #[trigger] out@[k] <= SAMPLE_SCALE,
            final(self).chain_state() == spec_after(
                spec_tick_source(*old(self), *store),
                n as nat,
                store.rate(),
            ),
            final(viz).inv(),
            final(viz).capacity() == old(viz).capacity(),
            final(viz).entries() == spec_ring(
                old(viz).entries() + spec_stamped(old(self).next_stamp() as int, out@),
                old(viz).capacity(),
            ),
    {
        if self.seen != store.generation() {
            self.working = store.borrow_for_render();
            self.seen = store.generation();
        }
        let ghost source = self.working@;
        proof {
            assert(source == spec_tick_source(*old(self), *store));
            assert(wf_chain(source, self.sr));
        }
        let out = render(&mut self.working, n, self.sr);
        let ghost base = old(viz).entries();
        let ghost cap0 = old(viz).capacity();
        let ghost t0 = old(self).next_stamp() as int;
        let ghost stamped = spec_stamped(t0, out@);
        let mut i: usize = 0;
        proof {
            assert(base + stamped.take(0) =~= base);
            assert(spec_ring(base, cap0) == base);
        }
        while i < n
            invariant
                i <= n,
                n == out@.len(),
                self.stamp == old(self).next_stamp(),
                (self.stamp as int) + (n as int) <= u64::MAX as int,
                stamped == spec_stamped(self.stamp as int, out@),
                viz.inv(),
                viz.capacity() == cap0,
                0 < cap0,
                viz.entries() == spec_ring(base + stamped.take(i as int), cap0),
            decreases n - i,
        {
            let pair_stamp = self.stamp + (i as u64);
            let v = out[i];
            proof {
                assert(stamped[i as int] == (pair_stamp, v));
            }
            viz.push_sample(pair_stamp, v);
            proof {
                let ii = i as int;
                lemma_ring_push(base + stamped.take(ii), stamped[ii], cap0);
                assert((base + stamped.take(ii)).push(stamped[ii]) =~= base + stamped.take(
                    ii + 1,
                ));
            }
            i += 1;
        }
        proof {
            assert(stamped.take(n as int) =~= stamped);
        }
        self.stamp = self.stamp + (n as u64);
        out
    }
}

} // verus!
