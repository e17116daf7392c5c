use vc_core::jitter::JitterBuffer;
use vc_core::voice::{VoicePacket, VoiceReceiver, VoiceSender};

#[test]
fn jitter_reorders_into_sequence_order() {
    let f10 = vec![10u8];
    let f11 = vec![11u8];
    let f12 = vec![12u8];
    let f13 = vec![13u8];

    let mut buffer = JitterBuffer::new(10, 4);
    buffer.push(11, f11.clone());
    buffer.push(10, f10.clone());
    buffer.push(13, f13.clone());
    buffer.push(12, f12.clone());

    assert_eq!(buffer.pop(), Some(f10));
    assert_eq!(buffer.pop(), Some(f11));
    assert_eq!(buffer.pop(), Some(f12));
    assert_eq!(buffer.pop(), Some(f13));
    assert_eq!(buffer.pop(), None);
}

#[test]
fn jitter_drops_late_frames() {
    let mut buffer = JitterBuffer::new(100, 4);
    buffer.push(99, vec![1, 2, 3]);
    assert_eq!(buffer.len(), 0);
    assert_eq!(buffer.pop(), None);
}

#[test]
fn jitter_never_exceeds_capacity() {
    let mut buffer = JitterBuffer::new(0, 3);
    for seq in 0..20u32 {
        buffer.push(seq, vec![seq as u8]);
        assert!(buffer.len() <= 3);
    }
}

#[test]
fn jitter_stalls_at_a_gap() {
    let mut buffer = JitterBuffer::new(5, 8);
    buffer.push(5, vec![5]);
    buffer.push(7, vec![7]);

    assert_eq!(buffer.pop(), Some(vec![5]));
    // 6 is missing: no skip-ahead.
    assert_eq!(buffer.pop(), None);
    assert_eq!(buffer.len(), 1);

    buffer.push(6, vec![6]);
    assert_eq!(buffer.pop(), Some(vec![6]));
    assert_eq!(buffer.pop(), Some(vec![7]));
}

#[test]
fn jitter_replaces_duplicate_sequence() {
    let mut buffer = JitterBuffer::new(0, 4);
    buffer.push(0, vec![1]);
    buffer.push(0, vec![2]);
    assert_eq!(buffer.len(), 1);
    assert_eq!(buffer.pop(), Some(vec![2]));
}

#[test]
fn jitter_evicts_oldest_when_full() {
    let mut buffer = JitterBuffer::new(0, 2);
    buffer.push(0, vec![0]);
    buffer.push(1, vec![1]);
    buffer.push(2, vec![2]);
    // Sequence 0 was head-dropped to make room.
    assert_eq!(buffer.len(), 2);
    assert_eq!(buffer.pop(), None);
}

#[test]
fn voice_receiver_seeds_and_reorders() {

    let mut receiver = VoiceReceiver::new(1);

    let from_peer = |seq: u32, byte: u8| VoicePacket { sender_id: 2, seq, payload: vec![byte] }.encode();

    // First packet seeds the buffer at its own sequence.
    receiver.accept_datagram(&from_peer(40, 40));
    assert_eq!(receiver.poll_frame(), Some(vec![40]));

    // Out-of-order arrivals drain in order.
    receiver.accept_datagram(&from_peer(42, 42));
    assert_eq!(receiver.poll_frame(), None);
    receiver.accept_datagram(&from_peer(41, 41));
    assert_eq!(receiver.poll_frame(), Some(vec![41]));
    assert_eq!(receiver.poll_frame(), Some(vec![42]));

    // Our own packets are dropped (loopback protection).
    let own = VoicePacket { sender_id: 1, seq: 43, payload: vec![43] }.encode();
    receiver.accept_datagram(&own);
    assert_eq!(receiver.poll_frame(), None);

    // Garbage does not decode and is dropped.
    receiver.accept_datagram(&[1, 2, 3]);
    assert_eq!(receiver.poll_frame(), None);
}

#[test]
fn voice_sender_counts_up() {

    let mut sender = VoiceSender::new(7);
    let first = sender.next_packet(&vec![0xAA]);
    let second = sender.next_packet(&vec![0xBB]);

    let p1 = VoicePacket::decode(&first).expect("first decodes");
    let p2 = VoicePacket::decode(&second).expect("second decodes");
    assert_eq!(p1.sender_id, 7);
    assert_eq!(p1.seq, 0);
    assert_eq!(p1.payload, vec![0xAA]);
    assert_eq!(p2.seq, 1);
}
