//! The mixer: one drain/sum/push cycle over all inputs.
//!
//! Each cycle drains every input ring — muted or not, so that no stale
//! backlog builds up — and sums the unmuted inputs, each scaled by its
//! current volume, into one block pushed to the output ring. Volumes and
//! mutes live in shared atomic cells ([`crate::controls`]); a cycle's
//! contract therefore holds for the control values observed during that
//! cycle, and the summation itself is specified exactly by [`mix_at`].

use crate::controls::InputControls;
use crate::controls::InputHandle;
use crate::fbits::add_bits;
use crate::fbits::is_nan_bits;
use crate::fbits::ONE_BITS;
use crate::fbits::mul_bits;
use crate::fbits::sample_add;
use crate::fbits::sample_mul;
use crate::ring::ring_accepted;
use crate::ring::ring_after_push;
use crate::ring::ring_popped;
use crate::ring::RingBuffer;
use std::sync::Arc;
use vstd::prelude::*;

verus! {

/// One input's contribution to a mix cycle: the samples drained from its
/// ring and the control values observed for it.
pub struct MixFeed {
    pub samples: Vec<u32>,
    pub volume_bits: u32,
    pub muted: bool,
}

/// The spec-level shape of a feed: samples, volume bits, muted.
pub type FeedView = (Seq<u32>, u32, bool);

pub open spec fn feed_view(f: MixFeed) -> FeedView {
    (f.samples@, f.volume_bits, f.muted)
}

pub open spec fn feeds_view(feeds: Seq<MixFeed>) -> Seq<FeedView> {
    feeds.map(|j: int, f: MixFeed| feed_view(f))
}

/// The mixed sample at position `i` after summing the first `k` feeds, in
/// feed order: an unmuted feed long enough to cover `i` adds its sample
/// scaled by its volume; every other feed adds exactly nothing.
pub open spec fn mix_at(feeds: Seq<FeedView>, k: int, i: int) -> u32
    decreases k,
{
    if k <= 0 {
        0u32
    } else {
        let prev = mix_at(feeds, k - 1, i);
        let f = feeds[k - 1];
        if !f.2 && i < f.0.len() {
            add_bits(prev, mul_bits(f.0[i], f.1))
        } else {
            prev
        }
    }
}

/// The longest feed among the first `k`.
pub open spec fn max_feed_len(feeds: Seq<FeedView>, k: int) -> nat
    decreases k,
{
    if k <= 0 {
        0
    } else {
        let m = max_feed_len(feeds, k - 1);
        if feeds[k - 1].0.len() > m {
            feeds[k - 1].0.len()
        } else {
            m
        }
    }
}

/// The whole mixed block of a cycle: as long as the longest feed.
pub open spec fn mixed_block(feeds: Seq<FeedView>) -> Seq<u32> {
    Seq::new(max_feed_len(feeds, feeds.len() as int), |i: int| mix_at(feeds, feeds.len() as int, i))
}

/// A feed with empty samples, whatever its controls, adds nothing.
pub open spec fn silence_muted(feeds: Seq<FeedView>) -> Seq<FeedView> {
    feeds.map(
        |j: int, f: FeedView|
            if f.2 {
                (Seq::<u32>::empty(), f.1, f.2)
            } else {
                f
            },
    )
}

/// Muted contributions are exactly zero: the mix equals the mix in which
/// every muted feed's samples are dropped altogether.
pub proof fn lemma_muted_contribute_nothing(feeds: Seq<FeedView>, k: int, i: int)
    requires
        k <= feeds.len(),
    ensures
        mix_at(feeds, k, i) == mix_at(silence_muted(feeds), k, i),
    decreases k,
{
    if k > 0 {
        lemma_muted_contribute_nothing(feeds, k - 1, i);
    }
}

/// A single unmuted input at unit gain passes through a mix cycle
/// unchanged: any sample with a numeric value other than negative zero
/// mixes to itself, bit for bit. (A negative zero comes out as positive
/// zero, because the cycle adds the sample to a zero accumulator.)
pub proof fn lemma_unit_gain_passthrough(feeds: Seq<FeedView>, i: int)
    requires
        feeds.len() == 1,
        feeds[0].1 == ONE_BITS,
        !feeds[0].2,
        0 <= i < feeds[0].0.len(),
        !is_nan_bits(feeds[0].0[i]),
        feeds[0].0[i] != 0x8000_0000u32,
    ensures
        mix_at(feeds, 1, i) == feeds[0].0[i],
{
    assert(mix_at(feeds, 0, i) == 0u32);
    crate::fbits::lemma_mul_identity(feeds[0].0[i]);
    crate::fbits::lemma_add_zero_accumulator(feeds[0].0[i]);
}

/// The control value of one input after storing a mute flag.
pub open spec fn with_muted(c: (u32, bool), m: bool) -> (u32, bool) {
    (c.0, m)
}

/// Muting an input and unmuting it again leaves its controls — and with
/// them every later mix over the same samples — exactly as a plain unmute
/// would; if the input was unmuted to begin with, exactly as they were.
pub proof fn lemma_mute_round_trip(c: (u32, bool))
    ensures
        with_muted(with_muted(c, true), false) == with_muted(c, false),
        !c.1 ==> with_muted(with_muted(c, true), false) == c,
{
}

/// Mix one block out of drained feeds. Every feed must fit the block; the
/// result is as long as the longest feed and each of its samples is the
/// exact IEEE-754 sum of the unmuted, scaled contributions in feed order.
pub fn mix_block(feeds: &Vec<MixFeed>, block: usize) -> (out: Vec<u32>)
    requires
        forall|j: int|
            0 <= j < feeds@.len() ==> (#[trigger] feeds@[j].samples@.len()) <= block,
    ensures
        out@.len() == max_feed_len(feeds_view(feeds@), feeds@.len() as int),
        forall|i: int|
            0 <= i < out@.len() ==> out@[i] == mix_at(
                feeds_view(feeds@),
                feeds@.len() as int,
                i,
            ),
{
    let ghost fv = feeds_view(feeds@);
    let mut maxr: usize = 0;
    let mut j: usize = 0;
    while j < feeds.len()
        invariant
            j <= feeds@.len(),
            fv == feeds_view(feeds@),
            forall|jj: int|
                0 <= jj < feeds@.len() ==> (#[trigger] feeds@[jj].samples@.len()) <= block,
            maxr <= block,
            maxr as nat == max_feed_len(fv, j as int),
        decreases feeds@.len() - j,
    {
        proof {
            assert(fv[j as int] == feed_view(feeds@[j as int]));
        }
        let l = feeds[j].samples.len();
        if l > maxr {
            maxr = l;
        }
        j = j + 1;
    }
    let mut out: Vec<u32> = vec![0u32; maxr];
    proof {
        assert(forall|i: int| 0 <= i < maxr ==> out@[i] == mix_at(fv, 0, i));
    }
    let mut j: usize = 0;
    while j < feeds.len()
        invariant
            j <= feeds@.len(),
            fv == feeds_view(feeds@),
            out@.len() == maxr,
            maxr as nat == max_feed_len(fv, feeds@.len() as int),
            forall|jj: int|
                0 <= jj < feeds@.len() ==> (#[trigger] fv[jj].0.len()) == feeds@[
                    jj
                ].samples@.len(),
            forall|jj: int| 0 <= jj < feeds@.len() ==> (#[trigger] fv[jj].0.len()) <= maxr
                || fv[jj].0.len() <= block,
            forall|i: int| 0 <= i < maxr ==> (#[trigger] out@[i]) == mix_at(fv, j as int, i),
        decreases feeds@.len() - j,
    {
        proof {
            assert(fv[j as int] == feed_view(feeds@[j as int]));
        }
        if !feeds[j].muted {
            let len_j = feeds[j].samples.len();
            proof {
                // the longest feed bounds every feed
                assert(max_feed_len(fv, feeds@.len() as int) >= fv[j as int].0.len()) by {
                    lemma_max_feed_len_bounds(fv, j as int, feeds@.len() as int);
                };
            }
            let mut i: usize = 0;
            while i < len_j
                invariant
                    i <= len_j,
                    j < feeds@.len(),
                    fv == feeds_view(feeds@),
                    fv[j as int] == feed_view(feeds@[j as int]),
                    !fv[j as int].2,
                    len_j == fv[j as int].0.len(),
                    len_j <= maxr,
                    out@.len() == maxr,
                    forall|ii: int|
                        0 <= ii < i ==> (#[trigger] out@[ii]) == mix_at(fv, j + 1, ii),
                    forall|ii: int|
                        i <= ii < maxr ==> (#[trigger] out@[ii]) == mix_at(fv, j as int, ii),
                decreases len_j - i,
            {
                let s = feeds[j].samples[i];
                let v = feeds[j].volume_bits;
                let m = sample_mul(s, v);
                let cur = out[i];
                let acc = sample_add(cur, m);
                out.set(i, acc);
                proof {
                    assert(out@[i as int] == mix_at(fv, j + 1, i as int));
                }
                i = i + 1;
            }
            proof {
                assert(forall|ii: int|
                    len_j <= ii < maxr ==> (#[trigger] out@[ii]) == mix_at(fv, j + 1, ii));
            }
        } else {
            proof {
                assert(forall|ii: int|
                    0 <= ii < maxr ==> (#[trigger] out@[ii]) == mix_at(fv, j + 1, ii));
            }
        }
        j = j + 1;
    }
    out
}

proof fn lemma_max_feed_len_bounds(feeds: Seq<FeedView>, j: int, k: int)
    requires
        0 <= j < k,
    ensures
        max_feed_len(feeds, k) >= feeds[j].0.len(),
    decreases k,
{
    if j < k - 1 {
        lemma_max_feed_len_bounds(feeds, j, k - 1);
    }
}

struct MixerInput {
    ring: RingBuffer,
    controls: InputControls,
}

/// The mixer: owns every input ring and the output ring, and shares each
/// input's control cells with the [`InputHandle`] returned for it.
pub struct Mixer {
    inputs: Vec<MixerInput>,
    output: RingBuffer,
    block: usize,
}

impl Mixer {
    pub closed spec fn wf(&self) -> bool {
        &&& self.output.wf()
        &&& forall|j: int| 0 <= j < self.inputs@.len() ==> (#[trigger] self.inputs@[j].ring).wf()
    }

    pub closed spec fn input_count(&self) -> nat {
        self.inputs@.len()
    }

    pub closed spec fn input_ring(&self, j: int) -> Seq<u32> {
        self.inputs@[j].ring@
    }

    pub closed spec fn input_ring_cap(&self, j: int) -> nat {
        self.inputs@[j].ring.cap()
    }

    pub closed spec fn output_view(&self) -> Seq<u32> {
        self.output@
    }

    pub closed spec fn output_cap(&self) -> nat {
        self.output.cap()
    }

    pub closed spec fn block_size(&self) -> nat {
        self.block as nat
    }

    /// A mixer with no inputs yet, owning the output ring.
    pub fn new(output: RingBuffer, mix_block_size: usize) -> (r: Mixer)
        requires
            output.wf(),
        ensures
            r.wf(),
            r.input_count() == 0,
            r.output_view() == output@,
            r.output_cap() == output.cap(),
            r.block_size() == mix_block_size,
    {
        Mixer { inputs: Vec::new(), output, block: mix_block_size }
    }

    /// Add an input before the mix loop starts: its ring and its initial
    /// controls. The returned handle shares the controls with the mixer.
    pub fn add_input(&mut self, id: &str, ring: RingBuffer, volume_bits: u32, muted: bool) -> (h:
        InputHandle)
        requires
            old(self).wf(),
            ring.wf(),
        ensures
            final(self).wf(),
            h.id_view() == id@,
            final(self).input_count() == old(self).input_count() + 1,
            final(self).input_ring(old(self).input_count() as int) == ring@,
            final(self).input_ring_cap(old(self).input_count() as int) == ring.cap(),
            forall|j: int|
                0 <= j < old(self).input_count() ==> final(self).input_ring(j) == old(self).input_ring(j),
            final(self).output_view() == old(self).output_view(),
            final(self).output_cap() == old(self).output_cap(),
            final(self).block_size() == old(self).block_size(),
    {
        let controls = InputControls::new(id, volume_bits, muted);
        let shared = controls.share();
        let handle = InputHandle::from_arc(Arc::new(controls));
        self.inputs.push(MixerInput { ring, controls: shared });
        handle
    }

    pub fn input_count_exec(&self) -> (n: usize)
        ensures
            n == self.input_count(),
    {
        self.inputs.len()
    }

    /// How many samples one input's ring still holds.
    pub fn input_len(&self, index: usize) -> (n: usize)
        requires
            index < self.input_count(),
        ensures
            n == self.input_ring(index as int).len(),
    {
        self.inputs[index].ring.len()
    }

    /// Push samples into one input's ring; what does not fit is dropped.
    pub fn push_input(&mut self, index: usize, samples: &Vec<u32>) -> (n: usize)
        requires
            old(self).wf(),
            index < old(self).input_count(),
        ensures
            final(self).wf(),
            n == ring_accepted(
                old(self).input_ring(index as int).len(),
                old(self).input_ring_cap(index as int),
                samples@.len(),
            ),
            final(self).input_ring(index as int) == ring_after_push(
                old(self).input_ring(index as int),
                old(self).input_ring_cap(index as int),
                samples@,
            ),
            forall|j: int|
                0 <= j < old(self).input_count() && j != index ==> final(self).input_ring(j)
                    == old(self).input_ring(j),
            final(self).input_count() == old(self).input_count(),
            final(self).input_ring_cap(index as int) == old(self).input_ring_cap(index as int),
            final(self).output_view() == old(self).output_view(),
            final(self).output_cap() == old(self).output_cap(),
            final(self).block_size() == old(self).block_size(),
    {
        let mut mi = self.inputs.remove(index);
        let n = mi.ring.push_slice(samples);
        self.inputs.insert(index, mi);
        proof {
            assert(self.inputs@ =~= old(self).inputs@.update(
                index as int,
                self.inputs@[index as int],
            ));
        }
        n
    }

    /// Drain up to `dst.len()` mixed samples from the output ring.
    pub fn pop_output(&mut self, dst: &mut Vec<u32>) -> (n: usize)
        requires
            old(self).wf(),
        ensures
            final(self).wf(),
            n == ring_popped(old(self).output_view().len(), old(dst)@.len()),
            final(self).output_view() == old(self).output_view().skip(n as int),
            final(dst)@ == old(self).output_view().take(n as int) + old(dst)@.skip(n as int),
            final(self).input_count() == old(self).input_count(),
            forall|j: int|
                0 <= j < old(self).input_count() ==> final(self).input_ring(j) == old(self).input_ring(j),
            final(self).output_cap() == old(self).output_cap(),
            final(self).block_size() == old(self).block_size(),
    {
        self.output.pop_slice(dst)
    }

    /// Pop one mixed sample from the output ring.
    pub fn try_pop_output(&mut self) -> (r: Option<u32>)
        requires
            old(self).wf(),
        ensures
            final(self).wf(),
            old(self).output_view().len() == 0 ==> r is None && final(self).output_view() == old(self).output_view(),
            old(self).output_view().len() > 0 ==> r == Some(old(self).output_view()[0]) && final(self).output_view() == old(self).output_view().skip(1),
            final(self).input_count() == old(self).input_count(),
            final(self).output_cap() == old(self).output_cap(),
            final(self).block_size() == old(self).block_size(),
    {
        self.output.try_pop()
    }

    pub open spec fn input_rings(&self) -> Seq<Seq<u32>> {
        Seq::new(self.input_count(), |j: int| self.input_ring(j))
    }

    /// What one cycle drains from each ring and how it mixes and pushes,
    /// for the control values `ctrl` observed during the cycle.
    pub open spec fn mix_cycle_post(pre: Mixer, post: Mixer, ctrl: Seq<(u32, bool)>, n: nat) -> bool {
        let feeds = cycle_feeds(pre.input_rings(), ctrl, pre.block_size());
        let mixed = mixed_block(feeds);
        &&& ctrl.len() == pre.input_count()
        &&& post.output_view() == ring_after_push(pre.output_view(), pre.output_cap(), mixed)
        &&& n == ring_accepted(pre.output_view().len(), pre.output_cap(), mixed.len())
    }

    /// One mix cycle. Every input ring is drained by up to one block —
    /// muted or not. The output ring receives the mixed block for the
    /// control values observed during the cycle; the return value is how
    /// many mixed samples the output ring accepted.
    pub fn mix_once(&mut self) -> (n: usize)
        requires
            old(self).wf(),
        ensures
            final(self).wf(),
            final(self).input_count() == old(self).input_count(),
            final(self).block_size() == old(self).block_size(),
            final(self).output_cap() == old(self).output_cap(),
            forall|j: int|
                0 <= j < old(self).input_count() ==> final(self).input_ring(j) == old(self).input_ring(j).skip(
                    ring_popped(old(self).input_ring(j).len(), old(self).block_size()) as int,
                ),
            forall|j: int|
                0 <= j < old(self).input_count() ==> final(self).input_ring_cap(j) == old(self).input_ring_cap(j),
            exists|ctrl: Seq<(u32, bool)>|
                #[trigger] Mixer::mix_cycle_post(*old(self), *final(self), ctrl, n as nat),
    {
        let block = self.block;
        let ghost pre = *self;
        let mut feeds: Vec<MixFeed> = Vec::new();
        let ghost mut ctrl = Seq::<(u32, bool)>::empty();
        let mut j: usize = 0;
        while j < self.inputs.len()
            invariant
                self.wf(),
                pre.wf(),
                block == pre.block,
                j <= self.inputs@.len(),
                self.inputs@.len() == pre.inputs@.len(),
                self.output == pre.output,
                self.block == pre.block,
                feeds@.len() == j,
                ctrl.len() == j,
                forall|jj: int|
                    j <= jj < self.inputs@.len() ==> #[trigger] self.inputs@[jj]
                        == pre.inputs@[jj],
                forall|jj: int|
                    0 <= jj < j ==> (#[trigger] self.inputs@[jj].ring@) == pre.input_ring(
                        jj,
                    ).skip(ring_popped(pre.input_ring(jj).len(), block as nat) as int),
                forall|jj: int|
                    0 <= jj < j ==> (#[trigger] self.inputs@[jj].ring.cap()) == pre.input_ring_cap(
                        jj,
                    ),
                forall|jj: int|
                    0 <= jj < j ==> (#[trigger] feeds@[jj].samples@) == pre.input_ring(jj).take(
                        ring_popped(pre.input_ring(jj).len(), block as nat) as int,
                    ),
                forall|jj: int|
                    0 <= jj < j ==> (#[trigger] feeds@[jj].volume_bits) == ctrl[jj].0
                        && feeds@[jj].muted == ctrl[jj].1,
                forall|jj: int|
                    0 <= jj < j ==> (#[trigger] feeds@[jj].samples@.len()) <= block,
            decreases self.inputs@.len() - j,
        {
            let mut dst: Vec<u32> = vec![0u32; block];
            let mut mi = self.inputs.remove(j);
            let got = mi.ring.pop_slice(&mut dst);
            let vol = mi.controls.volume();
            let muted = mi.controls.is_muted();
            self.inputs.insert(j, mi);
            dst.truncate(got);
            feeds.push(MixFeed { samples: dst, volume_bits: vol, muted });
            proof {
                ctrl = ctrl.push((vol, muted));
                assert(feeds@[j as int].samples@ =~= pre.input_ring(j as int).take(
                    ring_popped(pre.input_ring(j as int).len(), block as nat) as int,
                ));
            }
            j = j + 1;
        }
        let out = mix_block(&feeds, block);
        let n = self.output.push_slice(&out);
        proof {
            let feeds_spec = cycle_feeds(pre.input_rings(), ctrl, pre.block_size());
            assert(feeds_view(feeds@) =~= feeds_spec);
            assert(mixed_block(feeds_spec) =~= out@);
            assert(Mixer::mix_cycle_post(pre, *self, ctrl, n as nat));
        }
        n
    }
}

proof fn lemma_max_feed_len_le(feeds: Seq<FeedView>, k: int, bound: nat)
    requires
        forall|j: int| 0 <= j < k ==> (#[trigger] feeds[j].0.len()) <= bound,
    ensures
        max_feed_len(feeds, k) <= bound,
    decreases k,
{
    if k > 0 {
        lemma_max_feed_len_le(feeds, k - 1, bound);
    }
}

/// A mix cycle writes at most one block: whatever the rings hold and
/// whatever controls are observed, the mixed output of a cycle is never
/// longer than the mix block size.
pub proof fn lemma_cycle_output_bounded(rings: Seq<Seq<u32>>, ctrl: Seq<(u32, bool)>, block: nat)
    ensures
        mixed_block(cycle_feeds(rings, ctrl, block)).len() <= block,
{
    let feeds = cycle_feeds(rings, ctrl, block);
    assert forall|j: int| 0 <= j < feeds.len() implies (#[trigger] feeds[j].0.len())
        <= block by {
        assert(feeds[j].0 == rings[j].take(ring_popped(rings[j].len(), block) as int));
    };
    lemma_max_feed_len_le(feeds, feeds.len() as int, block);
}

/// What each ring contributes to a cycle: its first block, with the
/// observed control values.
pub open spec fn cycle_feeds(rings: Seq<Seq<u32>>, ctrl: Seq<(u32, bool)>, block: nat) -> Seq<
    FeedView,
> {
    Seq::new(
        rings.len(),
        |j: int|
            (
                rings[j].take(ring_popped(rings[j].len(), block) as int),
                ctrl[j].0,
                ctrl[j].1,
            ),
    )
}

} // verus!
