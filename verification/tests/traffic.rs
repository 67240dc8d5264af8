use secure_core::clock_align::{
    estimated_skew, init, init_clock_align, monotonic_nanos, record_counter_observation, skew, ClockAlign, SkewRingBuffer,
    DELTA_HISTORY_SIZE, SEEK_WINDOW,
};
use secure_core::constant_flow::{
    build_message_packet, build_noise_packet, fail_constant_flow, next_packet, queue_real_message, start_constant_flow,
    stop_constant_flow, transmitter, ConstantFlow, INTERVAL_SECS, PACKET_SIZE,
};
use secure_core::memory_protection::SecureBuffer;
use secure_core::tail_padding::{add_tail_padding, pad_len, pad_with, strip_tail_padding};

// ---------------------------------------------------------------------------
// Tail padding
// ---------------------------------------------------------------------------

#[test]
fn tail_padding_roundtrip() {
    let data = b"encrypted message payload";
    let padded = add_tail_padding(data);
    let stripped = strip_tail_padding(&padded).expect("strip");
    assert_eq!(data.as_slice(), stripped);
}

#[test]
fn length_in_range() {
    let data = b"test";
    let padded = add_tail_padding(data);
    let len_without_pad: usize = padded.len() - 2;
    let pad_len: usize = u16::from_le_bytes([padded[padded.len() - 2], padded[padded.len() - 1]]) as usize;
    assert!(pad_len >= 16 && pad_len <= 512);
    assert_eq!(data.len() + pad_len, len_without_pad);
}

#[test]
fn padding_lengths_cover_their_range() {
    assert_eq!(pad_len(0), 16);
    assert_eq!(pad_len(496), 512);
    assert_eq!(pad_len(497), 16);
    assert_eq!(pad_len(u32::MAX), (u32::MAX % 497) as usize + 16);
}

#[test]
fn padding_lengths_vary() {
    let first: usize = add_tail_padding(b"x").len();
    let mut varied: bool = false;
    for _ in 0..64 {
        varied = varied || add_tail_padding(b"x").len() != first;
    }
    assert!(varied);
    assert_ne!(add_tail_padding(b"")[..16], [0u8; 16]);
}

#[test]
fn padding_is_laid_out() {
    let noise = [9u8; 300];
    let padded = pad_with(&[1, 2], &noise);
    assert_eq!(padded.len(), 304);
    assert_eq!(&padded[..3], &[1, 2, 9]);
    assert_eq!(&padded[302..], &[0x2c, 0x01]);
    assert_eq!(strip_tail_padding(&padded), Some(vec![1, 2]));
}

#[test]
fn malformed_padding_is_refused() {
    assert_eq!(strip_tail_padding(&[]), None);
    assert_eq!(strip_tail_padding(&[0, 16, 0]), None);
    let mut short = vec![0u8; 17];
    short[15] = 16;
    assert_eq!(strip_tail_padding(&short), None);
    let mut exact = vec![0u8; 18];
    exact[16] = 16;
    assert_eq!(strip_tail_padding(&exact), Some(Vec::new()));
    let mut low = vec![0u8; 18];
    low[16] = 15;
    assert_eq!(strip_tail_padding(&low), None);
    let mut high = vec![0u8; 1000];
    high[998] = 1;
    high[999] = 2;
    assert_eq!(strip_tail_padding(&high), None);
    high[998] = 0;
    assert_eq!(strip_tail_padding(&high), Some(vec![0u8; 486]));
}

// ---------------------------------------------------------------------------
// Constant flow
// ---------------------------------------------------------------------------

#[test]
fn noise_packets_are_full_and_differ() {
    let a = build_noise_packet();
    let b = build_noise_packet();
    assert_eq!(a.len(), 4096);
    assert_eq!(PACKET_SIZE, 4096);
    assert_ne!(a, b);
    assert_ne!(a, vec![0u8; 4096]);
}

#[test]
fn message_packets_carry_the_message_first() {
    let packet = build_message_packet(&[1, 2, 3], &[9u8; 4093]);
    assert_eq!(packet.len(), 4096);
    assert_eq!(&packet[..4], &[1, 2, 3, 9]);
    let long = build_message_packet(&[5u8; 5000], &[]);
    assert_eq!(long, vec![5u8; 4096]);
}

#[test]
fn flow_sends_the_queued_message_once() {
    let mut flow: ConstantFlow<u8> = ConstantFlow::new(true);
    assert_eq!(INTERVAL_SECS, 5);
    assert_eq!(next_packet(&mut flow), None);
    assert_eq!(start_constant_flow(&mut flow, 7), 0);
    assert_eq!(start_constant_flow(&mut flow, 8), 1);
    assert_eq!(transmitter(&flow), Some(7));

    queue_real_message(&mut flow, b"first");
    queue_real_message(&mut flow, b"second");
    let packet = next_packet(&mut flow).unwrap();
    assert_eq!(packet.len(), 4096);
    assert_eq!(&packet[..6], b"second");
    let noise = next_packet(&mut flow).unwrap();
    assert_eq!(noise.len(), 4096);
    assert_ne!(&noise[..6], b"second");

    queue_real_message(&mut flow, &[3u8; 4097]);
    assert_eq!(next_packet(&mut flow), Some(vec![3u8; 4096]));
    queue_real_message(&mut flow, &[4u8; 4096]);
    assert_eq!(next_packet(&mut flow), Some(vec![4u8; 4096]));

    queue_real_message(&mut flow, b"lost");
    assert_eq!(stop_constant_flow(&mut flow), 0);
    assert_eq!(transmitter(&flow), None);
    assert_eq!(next_packet(&mut flow), None);
    assert_eq!(start_constant_flow(&mut flow, 9), 0);
    assert_ne!(&next_packet(&mut flow).unwrap()[..4], b"lost");
}

#[test]
fn failed_flow_keeps_the_message() {
    let mut flow: ConstantFlow<u8> = ConstantFlow::new(true);
    start_constant_flow(&mut flow, 7);
    queue_real_message(&mut flow, b"kept");
    fail_constant_flow(&mut flow);
    assert_eq!(next_packet(&mut flow), None);
    assert_eq!(transmitter(&flow), None);
    assert_eq!(start_constant_flow(&mut flow, 7), 0);
    assert_eq!(&next_packet(&mut flow).unwrap()[..4], b"kept");
}

#[test]
fn unsupported_flow_refuses() {
    let mut flow: ConstantFlow<u8> = ConstantFlow::new(false);
    assert_eq!(start_constant_flow(&mut flow, 7), 1);
    assert_eq!(stop_constant_flow(&mut flow), 1);
    assert_eq!(next_packet(&mut flow), None);
}

// ---------------------------------------------------------------------------
// Clock alignment
// ---------------------------------------------------------------------------

#[test]
fn ring_buffer_push_and_median() {
    let mut buf = SkewRingBuffer::new();
    assert_eq!(buf.median(), 0);

    buf.push(5);
    buf.push(10);
    buf.push(15);
    assert_eq!(buf.median(), 10);
}

#[test]
fn ring_buffer_median_even_count() {
    let mut buf = SkewRingBuffer::new();
    buf.push(10);
    buf.push(20);
    // Sorted: [10, 20], median = (10+20)/2 = 15
    assert_eq!(buf.median(), 15);
}

#[test]
fn ring_buffer_wraps_correctly() {
    let mut buf = SkewRingBuffer::new();
    // Fill past capacity.
    for i in 0..(DELTA_HISTORY_SIZE + 4) {
        buf.push(i as i64);
    }
    assert_eq!(buf.count(), DELTA_HISTORY_SIZE);
    // The oldest entries were evicted; the buffer now holds [4..19].
    let sorted = buf.sorted_entries();
    assert_eq!(sorted.len(), DELTA_HISTORY_SIZE);
    assert_eq!(sorted[0], 4);
}

#[test]
fn median_rounds_towards_zero() {
    let mut buf = SkewRingBuffer::new();
    buf.push(-4);
    buf.push(1);
    assert_eq!(buf.median(), -1);
    let mut odd = SkewRingBuffer::new();
    odd.push(4);
    odd.push(-1);
    assert_eq!(odd.median(), 1);
    let mut wide = SkewRingBuffer::new();
    wide.push(i64::MAX);
    wide.push(i64::MAX);
    assert_eq!(wide.median(), i64::MAX);
    let mut low = SkewRingBuffer::new();
    low.push(i64::MIN);
    low.push(i64::MIN);
    assert_eq!(low.median(), i64::MIN);
}

#[test]
fn entries_are_sorted() {
    let mut buf = SkewRingBuffer::new();
    for x in [3i64, -7, 3, 0, 12, -7] {
        buf.push(x);
    }
    assert_eq!(buf.sorted_entries(), vec![-7, -7, 0, 3, 3, 12]);
    assert_eq!(buf.median(), 1);
}

#[test]
fn skew_is_the_median_of_the_samples() {
    let mut clock = ClockAlign::new();
    assert_eq!(estimated_skew(&clock), 0);
    // Nothing is recorded before the initialisation.
    record_counter_observation(&mut clock, 100, 0, 1);
    assert_eq!(skew(&clock), 0);
    init_clock_align(&mut clock);
    record_counter_observation(&mut clock, 105, 100, 2);
    assert_eq!(skew(&clock), 5);
    record_counter_observation(&mut clock, 90, 100, 3);
    assert_eq!(skew(&clock), -2);
    record_counter_observation(&mut clock, 107, 100, 4);
    assert_eq!(estimated_skew(&clock), 5);
    // A second initialisation changes nothing.
    init(&mut clock);
    record_counter_observation(&mut clock, 107, 100, 5);
    assert_eq!(skew(&clock), 6);
    assert_eq!(SEEK_WINDOW, 10);
}

#[test]
fn nanoseconds_are_counted() {
    assert_eq!(monotonic_nanos(0, 7), 7);
    assert_eq!(monotonic_nanos(3, 999_999_999), 3_999_999_999);
    assert_eq!(monotonic_nanos(u64::MAX, 0), u64::MAX);
}

#[test]
fn constant_skew_is_found() {
    let mut clock = ClockAlign::new();
    init(&mut clock);
    for i in 0..40u64 {
        record_counter_observation(&mut clock, i, i + 3, i);
        assert_eq!(skew(&clock), -3);
    }
}

// ---------------------------------------------------------------------------
// Memory protection
// ---------------------------------------------------------------------------

#[test]
fn secure_buffer_zeroizes_on_drop() {
    let ptr;
    let cap: usize;
    {
        let mut buf = SecureBuffer::from_vec(vec![0xAAu8; 64]);
        buf.as_mut_slice()[0] = 0x42;
        ptr = buf.as_ptr();
        cap = buf.len();
    }
    // The heap bytes may have been reused, so they are not read here.
    let _ = (ptr, cap);
}

#[test]
fn secure_buffer_deref_works() {
    let buf = SecureBuffer::from_vec(vec![1, 2, 3]);
    assert_eq!(&buf[..], &[1, 2, 3]);
}

#[test]
fn clear_resets_buffer() {
    let mut buf = SecureBuffer::from_vec(vec![0xFF; 32]);
    buf.clear();
    assert!(buf.is_empty());
}

#[test]
fn secure_buffer_is_made_and_changed() {
    assert!(SecureBuffer::new().is_empty());
    assert!(SecureBuffer::default().is_empty());
    assert_eq!(SecureBuffer::with_capacity(10).len(), 0);
    let mut buf = SecureBuffer::from(vec![1, 2, 3]);
    buf.as_mut_slice()[1] = 9;
    buf[2] = 8;
    assert_eq!(buf.as_slice(), &[1, 9, 8]);
    assert_eq!(buf.len(), 3);
}
