use voxmux::ring::RingBuffer;

fn bits(v: &[f32]) -> Vec<u32> {
    v.iter().map(|x| x.to_bits()).collect()
}

fn floats(v: &[u32]) -> Vec<f32> {
    v.iter().map(|x| f32::from_bits(*x)).collect()
}

#[test]
fn test_ring_buffer_push_pop() {
    let mut ring = RingBuffer::new(1024);
    let data = bits(&[0.1, 0.2, 0.3, 0.4, 0.5]);
    ring.push_slice(&data);

    let mut output = vec![0u32; 5];
    ring.pop_slice(&mut output);
    assert_eq!(output, data);
}

#[test]
fn test_ring_buffer_preserves_sample_order() {
    let mut ring = RingBuffer::new(1024);
    let data = bits(&[0.5, -0.5, 0.25, -0.25]);
    ring.push_slice(&data);

    let mut output = vec![0u32; 4];
    ring.pop_slice(&mut output);
    assert_eq!(floats(&output), vec![0.5, -0.5, 0.25, -0.25]);
}

#[test]
fn test_ring_buffer_empty_returns_none() {
    let mut ring = RingBuffer::new(1024);
    assert!(ring.try_pop().is_none());
}

#[test]
fn test_ring_buffer_overflow_behavior() {
    let mut ring = RingBuffer::new(4);
    let data = bits(&[1.0, 2.0, 3.0, 4.0]);
    let pushed = ring.push_slice(&data);
    assert_eq!(pushed, 4);
    let overflow_data = bits(&[5.0, 6.0]);
    let pushed = ring.push_slice(&overflow_data);
    assert_eq!(pushed, 0);
}

#[test]
fn test_ring_buffer_partial_overflow_keeps_prefix() {
    let mut ring = RingBuffer::new(4);
    ring.push_slice(&bits(&[1.0, 2.0, 3.0]));
    let pushed = ring.push_slice(&bits(&[4.0, 5.0, 6.0]));
    assert_eq!(pushed, 1);
    let mut out = vec![0u32; 4];
    let n = ring.pop_slice(&mut out);
    assert_eq!(n, 4);
    assert_eq!(floats(&out), vec![1.0, 2.0, 3.0, 4.0]);
}

#[test]
fn test_ring_buffer_roundtrip_is_bit_exact() {
    // Push-then-pop on a non-full ring returns the data byte for byte,
    // unusual bit patterns included.
    let mut ring = RingBuffer::new(64);
    let data: Vec<u32> = vec![0x0000_0001, 0x8000_0000, 0x7FC0_0001, 0xFF80_0000, 0x3F80_0000];
    assert_eq!(ring.push_slice(&data), 5);
    let mut out = vec![0u32; 5];
    assert_eq!(ring.pop_slice(&mut out), 5);
    assert_eq!(out, data);
}

#[test]
fn test_ring_buffer_pop_limited_by_dst() {
    let mut ring = RingBuffer::new(16);
    ring.push_slice(&bits(&[1.0, 2.0, 3.0, 4.0, 5.0]));
    let mut out = vec![0u32; 2];
    assert_eq!(ring.pop_slice(&mut out), 2);
    assert_eq!(floats(&out), vec![1.0, 2.0]);
    assert_eq!(ring.len(), 3);
    assert_eq!(ring.try_pop(), Some(3.0f32.to_bits()));
}
