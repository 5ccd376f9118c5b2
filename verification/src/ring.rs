//! Bounded single-owner FIFO queue of PCM samples.
//!
//! The queue models the producer/consumer ring of the audio plane: a
//! fixed-capacity sample queue whose overflow policy is to drop what does
//! not fit and whose drain order is first-in first-out.

use vstd::prelude::*;

verus! {

/// How many of `src_len` pushed samples a ring with `len` queued samples and
/// capacity `cap` accepts: everything that fits, the rest is dropped.
pub open spec fn ring_accepted(len: nat, cap: nat, src_len: nat) -> nat {
    if src_len <= cap - len {
        src_len
    } else {
        (cap - len) as nat
    }
}

/// The queue contents after pushing `src` into a ring holding `q`.
pub open spec fn ring_after_push(q: Seq<u32>, cap: nat, src: Seq<u32>) -> Seq<u32> {
    q + src.take(ring_accepted(q.len(), cap, src.len()) as int)
}

/// How many samples a pop into a destination of length `dst_len` drains.
pub open spec fn ring_popped(len: nat, dst_len: nat) -> nat {
    if len <= dst_len {
        len
    } else {
        dst_len
    }
}

pub struct RingBuffer {
    items: Vec<u32>,
    capacity: usize,
}

impl View for RingBuffer {
    type V = Seq<u32>;

    closed spec fn view(&self) -> Seq<u32> {
        self.items@
    }
}

impl RingBuffer {
    /// Well-formedness: the queue never holds more than its capacity.
    pub closed spec fn wf(&self) -> bool {
        self.items@.len() <= self.capacity
    }

    pub closed spec fn cap(&self) -> nat {
        self.capacity as nat
    }

    pub fn new(capacity: usize) -> (r: RingBuffer)
        ensures
            r@ == Seq::<u32>::empty(),
            r.cap() == capacity,
            r.wf(),
    {
        RingBuffer { items: Vec::new(), capacity }
    }

    pub fn capacity(&self) -> (c: usize)
        ensures
            c == self.cap(),
    {
        self.capacity
    }

    pub fn len(&self) -> (n: usize)
        ensures
            n == self@.len(),
    {
        self.items.len()
    }

    pub fn is_empty(&self) -> (b: bool)
        ensures
            b == (self@.len() == 0),
    {
        self.items.len() == 0
    }

    /// Push as many samples of `src` as fit; the overflow is silently dropped.
    /// Returns how many were accepted.
    pub fn push_slice(&mut self, src: &Vec<u32>) -> (n: usize)
        requires
            old(self).wf(),
        ensures
            final(self).wf(),
            n == ring_accepted(old(self)@.len(), old(self).cap(), src@.len()),
            final(self)@ == ring_after_push(old(self)@, old(self).cap(), src@),
            final(self).cap() == old(self).cap(),
    {
        let mut i: usize = 0;
        while i < src.len() && self.items.len() < self.capacity
            invariant
                i <= src@.len(),
                self.capacity == old(self).capacity,
                self.items@.len() <= self.capacity,
                i as nat == ring_accepted(old(self)@.len(), old(self).cap(), i as nat),
                self.items@ == old(self).items@ + src@.take(i as int),
                i < src@.len() ==> self.items@.len() == old(self).items@.len() + i,
            decreases src@.len() - i,
        {
            self.items.push(src[i]);
            proof {
                assert(src@.take(i + 1) =~= src@.take(i as int) + seq![src@[i as int]]);
            }
            i = i + 1;
        }
        proof {
            assert(self.items@ =~= ring_after_push(old(self)@, old(self).cap(), src@));
        }
        i
    }

    /// Drain up to `dst.len()` samples into the front of `dst`, preserving
    /// FIFO order; positions past the drained count keep their old value.
    /// Returns how many were drained.
    pub fn pop_slice(&mut self, dst: &mut Vec<u32>) -> (n: usize)
        requires
            old(self).wf(),
        ensures
            final(self).wf(),
            n == ring_popped(old(self)@.len(), old(dst)@.len()),
            final(self)@ == old(self)@.skip(n as int),
            final(self).cap() == old(self).cap(),
            final(dst)@ == old(self)@.take(n as int) + old(dst)@.skip(n as int),
    {
        let n = if self.items.len() <= dst.len() {
            self.items.len()
        } else {
            dst.len()
        };
        let mut j: usize = 0;
        while j < n
            invariant
                j <= n,
                n as nat == ring_popped(old(self)@.len(), old(dst)@.len()),
                n <= old(self).items@.len(),
                n <= old(dst)@.len(),
                self.capacity == old(self).capacity,
                self.items@ == old(self).items@.skip(j as int),
                dst@ == old(self).items@.take(j as int) + old(dst)@.skip(j as int),
            decreases n - j,
        {
            let x = self.items.remove(0);
            dst.set(j, x);
            proof {
                assert(self.items@ =~= old(self).items@.skip(j + 1));
                assert(dst@ =~= old(self).items@.take(j + 1) + old(dst)@.skip(j + 1));
            }
            j = j + 1;
        }
        n
    }

    /// Pop one sample, oldest first.
    pub fn try_pop(&mut self) -> (r: Option<u32>)
        requires
            old(self).wf(),
        ensures
            final(self).wf(),
            old(self)@.len() == 0 ==> r is None && final(self)@ == old(self)@,
            old(self)@.len() > 0 ==> r == Some(old(self)@[0]) && final(self)@ == old(self)@.skip(
                1,
            ),
            final(self).cap() == old(self).cap(),
    {
        if self.items.len() == 0 {
            None
        } else {
            let x = self.items.remove(0);
            proof {
                assert(self.items@ =~= old(self).items@.skip(1));
            }
            Some(x)
        }
    }
}

/// For any ring of capacity `cap` and any input sequence `s`: after pushing
/// `s` into the empty ring, the queue — which popping everything returns in
/// FIFO order — is exactly the first `min(|s|, cap)` elements of `s`.
pub proof fn lemma_spsc_order(cap: nat, s: Seq<u32>)
    ensures
        ring_after_push(Seq::<u32>::empty(), cap, s) == (if s.len() <= cap {
            s
        } else {
            s.take(cap as int)
        }),
{
    assert(ring_after_push(Seq::<u32>::empty(), cap, s) =~= (if s.len() <= cap {
        s
    } else {
        s.take(cap as int)
    }));
}

/// Pushing `s` into a ring holding `q` with room for all of `s`, then
/// draining past the old contents, returns `s` unchanged, bit for bit.
pub proof fn lemma_push_pop_roundtrip(q: Seq<u32>, cap: nat, s: Seq<u32>)
    requires
        q.len() + s.len() <= cap,
    ensures
        ring_after_push(q, cap, s).skip(q.len() as int) == s,
{
    assert(ring_after_push(q, cap, s).skip(q.len() as int) =~= s);
}

} // verus!
