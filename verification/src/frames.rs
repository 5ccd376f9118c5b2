//! What one driver callback does, on either edge of the audio plane.
//!
//! The capture callback pushes the received samples into the input ring —
//! overflow silently dropped — and, when a tap is configured, copies them
//! into an [`AudioChunk`] for the recognition plane; a disabled capture
//! discards the buffer entirely, tap copy included. The output callback
//! drains the output ring into the driver buffer and writes silence into
//! every slot it cannot fill — underrun never stalls.

use crate::ring::ring_accepted;
use crate::ring::ring_after_push;
use crate::ring::ring_popped;
use crate::ring::RingBuffer;
use crate::types::AudioChunk;
use vstd::prelude::*;

verus! {

/// One capture callback: push into the ring and copy to the tap.
/// Returns how many samples the ring accepted, and the tap chunk, which
/// carries the configured stream parameters.
pub fn capture_frame(
    enabled: bool,
    ring: &mut RingBuffer,
    data: &Vec<u32>,
    sample_rate: u32,
    channels: u16,
    has_tap: bool,
) -> (r: (usize, Option<AudioChunk>))
    requires
        old(ring).wf(),
    ensures
        final(ring).wf(),
        final(ring).cap() == old(ring).cap(),
        !enabled ==> final(ring)@ == old(ring)@ && r.0 == 0 && r.1 is None,
        enabled ==> {
            &&& r.0 == ring_accepted(old(ring)@.len(), old(ring).cap(), data@.len())
            &&& final(ring)@ == ring_after_push(old(ring)@, old(ring).cap(), data@)
            &&& has_tap ==> (r.1 matches Some(c) && c.samples@ == data@ && c.sample_rate
                == sample_rate && c.channels == channels)
            &&& !has_tap ==> r.1 is None
        },
{
    if !enabled {
        return (0, None);
    }
    let n = ring.push_slice(data);
    if has_tap {
        let chunk = AudioChunk { samples: data.clone(), sample_rate, channels };
        (n, Some(chunk))
    } else {
        (n, None)
    }
}

/// One output callback: fill a driver buffer of `len` slots. When not
/// playing, the buffer is all silence and the ring is left alone; when
/// playing, the available samples come out in order and every slot past
/// them is silence.
pub fn render_output_frame(playing: bool, ring: &mut RingBuffer, len: usize) -> (out: Vec<u32>)
    requires
        old(ring).wf(),
    ensures
        final(ring).wf(),
        final(ring).cap() == old(ring).cap(),
        out@.len() == len,
        !playing ==> final(ring)@ == old(ring)@ && forall|i: int|
            0 <= i < len ==> out@[i] == 0u32,
        playing ==> {
            let n = ring_popped(old(ring)@.len(), len as nat);
            &&& final(ring)@ == old(ring)@.skip(n as int)
            &&& forall|i: int| 0 <= i < n ==> out@[i] == old(ring)@[i]
            &&& forall|i: int| n <= i < len ==> out@[i] == 0u32
        },
{
    let mut out: Vec<u32> = vec![0u32; len];
    if !playing {
        return out;
    }
    let got = ring.pop_slice(&mut out);
    proof {
        assert forall|i: int| got <= i < len implies out@[i] == 0u32 by {
            assert(out@[i] == old(ring)@.take(got as int).add(
                Seq::new(len as nat, |j: int| 0u32).skip(got as int),
            )[i]);
        };
    }
    out
}

} // verus!
