use voxmux::frames::capture_frame;
use voxmux::frames::render_output_frame;
use voxmux::ring::RingBuffer;

fn bits(v: &[f32]) -> Vec<u32> {
    v.iter().map(|x| x.to_bits()).collect()
}

#[test]
fn test_capture_frame_pushes_and_taps() {
    let mut ring = RingBuffer::new(16);
    let data = bits(&[0.1, 0.2, 0.3]);
    let (n, chunk) = capture_frame(true, &mut ring, &data, 48000, 1, true);
    assert_eq!(n, 3);
    assert_eq!(ring.len(), 3);
    let chunk = chunk.expect("tap chunk");
    assert_eq!(chunk.samples, data);
    assert_eq!(chunk.sample_rate, 48000);
    assert_eq!(chunk.channels, 1);
}

#[test]
fn test_capture_frame_disabled_discards_everything() {
    // A disabled capture discards the whole buffer, tap copy included.
    let mut ring = RingBuffer::new(16);
    let data = bits(&[0.1, 0.2, 0.3]);
    let (n, chunk) = capture_frame(false, &mut ring, &data, 48000, 1, true);
    assert_eq!(n, 0);
    assert!(chunk.is_none());
    assert_eq!(ring.len(), 0);
}

#[test]
fn test_capture_frame_without_tap() {
    let mut ring = RingBuffer::new(16);
    let data = bits(&[0.5]);
    let (n, chunk) = capture_frame(true, &mut ring, &data, 48000, 2, false);
    assert_eq!(n, 1);
    assert!(chunk.is_none());
}

#[test]
fn test_capture_frame_overflow_dropped() {
    let mut ring = RingBuffer::new(2);
    let data = bits(&[0.1, 0.2, 0.3, 0.4]);
    let (n, _) = capture_frame(true, &mut ring, &data, 48000, 1, false);
    assert_eq!(n, 2);
    assert_eq!(ring.len(), 2);
}

#[test]
fn test_render_output_frame_underrun_is_silence() {
    // Three queued samples into an eight-slot driver buffer: the rest of
    // the buffer is zeros, never a stall.
    let mut ring = RingBuffer::new(16);
    ring.push_slice(&bits(&[0.1, 0.2, 0.3]));
    let out = render_output_frame(true, &mut ring, 8);
    assert_eq!(out.len(), 8);
    assert_eq!(f32::from_bits(out[0]), 0.1);
    assert_eq!(f32::from_bits(out[1]), 0.2);
    assert_eq!(f32::from_bits(out[2]), 0.3);
    for slot in &out[3..] {
        assert_eq!(*slot, 0);
    }
    assert_eq!(ring.len(), 0);
}

#[test]
fn test_render_output_frame_not_playing_is_silence() {
    let mut ring = RingBuffer::new(16);
    ring.push_slice(&bits(&[0.1, 0.2]));
    let out = render_output_frame(false, &mut ring, 4);
    assert_eq!(out, vec![0u32; 4]);
    // Not playing leaves the ring alone.
    assert_eq!(ring.len(), 2);
}
