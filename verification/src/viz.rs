//! The visualization buffer: a fixed-capacity ring of recent output
//! samples, each stamped with its monotone sample index. The render side
//! overwrites the oldest entries; the display side reads a snapshot copy,
//! oldest first, never a partially written entry.

use vstd::prelude::*;

verus! {

/// What a ring of capacity `cap` retains of a history: the whole history
/// while it fits, its last `cap` entries afterwards.
pub open spec fn spec_ring(s: Seq<(u64, i64)>, cap: nat) -> Seq<(u64, i64)> {
    if s.len() <= cap {
        s
    } else {
        s.skip(s.len() - cap)
    }
}

/// Ringing a history one entry at a time is ringing it whole: pushing
/// onto an already-ringed history and ringing again retains exactly the
/// last `cap` entries of the extended history.
pub proof fn lemma_ring_push(s: Seq<(u64, i64)>, x: (u64, i64), cap: nat)
    requires
        0 < cap,
    ensures
        spec_ring(spec_ring(s, cap).push(x), cap) == spec_ring(s.push(x), cap),
{
    assert(spec_ring(spec_ring(s, cap).push(x), cap) =~= spec_ring(s.push(x), cap));
}

/// A fixed-capacity ring of `(sample index, sample value)` pairs.
pub struct VizBuffer {
    buf: Vec<(u64, i64)>,
    cap: usize,
}

impl VizBuffer {
    /// The retained entries, oldest first.
    pub closed spec fn entries(&self) -> Seq<(u64, i64)> {
        self.buf@
    }

    /// The fixed capacity.
    pub closed spec fn capacity(&self) -> nat {
        self.cap as nat
    }

    /// A positive capacity, never exceeded.
    pub open spec fn inv(&self) -> bool {
        0 < self.capacity() && self.entries().len() <= self.capacity()
    }

    /// An empty ring of the given capacity.
    pub fn new(cap: usize) -> (b: VizBuffer)
        requires
            0 < cap,
        ensures
            b.inv(),
            b.capacity() == cap,
            b.entries() == Seq::<(u64, i64)>::empty(),
    {
        VizBuffer { buf: Vec::new(), cap }
    }

    /// How many entries a reader would currently see.
    pub fn len(&self) -> (n: usize)
        ensures
            n == self.entries().len(),
    {
        self.buf.len()
    }

    /// Append one stamped sample, dropping the oldest entry when full.
    pub fn push_sample(&mut self, stamp: u64, value: i64)
        requires
            old(self).inv(),
        ensures
            final(self).inv(),
            final(self).capacity() == old(self).capacity(),
            final(self).entries() == spec_ring(
                old(self).entries().push((stamp, value)),
                old(self).capacity(),
            ),
    {
        self.buf.push((stamp, value));
        if self.buf.len() > self.cap {
            let _oldest = self.buf.remove(0);
            proof {
                let grown = old(self).entries().push((stamp, value));
                assert(grown.remove(0) =~= grown.skip(1));
                assert(self.buf@ == spec_ring(grown, old(self).capacity()));
            }
        }
    }

    /// A snapshot copy of the retained entries, oldest first.
    pub fn snapshot(&self) -> (r: Vec<(u64, i64)>)
        ensures
            r@ == self.entries(),
    {
        let mut r: Vec<(u64, i64)> = Vec::new();
        let mut i: usize = 0;
        proof {
            assert(self.buf@.take(0) =~= Seq::<(u64, i64)>::empty());
        }
        while i < self.buf.len()
            invariant
                i <= self.buf@.len(),
                r@ == self.buf@.take(i as int),
            decreases self.buf@.len() - i,
        {
            r.push(self.buf[i]);
            proof {
                assert(self.buf@.take((i as int) + 1) =~= self.buf@.take(i as int).push(
                    self.buf@[i as int],
                ));
            }
            i += 1;
        }
        proof {
            assert(self.buf@.take(self.buf@.len() as int) =~= self.buf@);
        }
        r
    }
}

} // verus!
