use vc_core::chat::{ChatMessage, ChatText, SystemMessage};
use vc_core::voice::VoicePacket;

#[test]
fn voice_packet_reference_vector() {
    let packet = VoicePacket { sender_id: 1, seq: 7, payload: vec![0xAA, 0xBB] };
    let bytes = packet.encode();
    assert_eq!(
        bytes,
        vec![
            0x01, 0x00, 0x00, 0x00, // sender_id
            0x07, 0x00, 0x00, 0x00, // seq
            0x02, 0x00, 0x00, 0x00, // payload_len
            0xAA, 0xBB, // payload
        ]
    );

    let back = VoicePacket::decode(&bytes).expect("14 bytes decode");
    assert_eq!(back.sender_id, 1);
    assert_eq!(back.seq, 7);
    assert_eq!(back.payload, vec![0xAA, 0xBB]);

    assert!(VoicePacket::decode(&bytes[..13]).is_none());
}

#[test]
fn voice_packet_empty_payload() {
    let packet = VoicePacket { sender_id: 9, seq: 0, payload: vec![] };
    let bytes = packet.encode();
    assert_eq!(bytes.len(), 12);
    let back = VoicePacket::decode(&bytes).expect("header-only packet decodes");
    assert!(back.payload.is_empty());
    assert!(VoicePacket::decode(&bytes[..11]).is_none());
}

#[test]
fn chat_text_round_trip() {
    let msg = ChatMessage::Text(ChatText {
        sender_id: String::from("alice"),
        body: String::from("hello, world"),
    });
    let bytes = msg.encode();
    match ChatMessage::decode(&bytes) {
        Some(ChatMessage::Text(t)) => {
            assert_eq!(t.sender_id, "alice");
            assert_eq!(t.body, "hello, world");
        }
        _ => panic!("text message did not round-trip"),
    }
}

#[test]
fn chat_system_round_trip() {
    let msg = ChatMessage::System(SystemMessage { body: String::from("peer left") });
    let bytes = msg.encode();
    match ChatMessage::decode(&bytes) {
        Some(ChatMessage::System(m)) => assert_eq!(m.body, "peer left"),
        _ => panic!("system message did not round-trip"),
    }
}

#[test]
fn chat_reference_vector() {
    let msg = ChatMessage::Text(ChatText { sender_id: String::from("1"), body: String::from("hi") });
    let bytes = msg.encode();
    assert_eq!(
        bytes,
        vec![
            0, 0, 0, 0, // Text tag, u32 LE
            1, 0, 0, 0, 0, 0, 0, 0, // sender_id length, u64 LE
            b'1', // sender_id bytes
            2, 0, 0, 0, 0, 0, 0, 0, // body length, u64 LE
            b'h', b'i', // body bytes
        ]
    );
}

#[test]
fn chat_unicode_round_trip() {
    let msg = ChatMessage::Text(ChatText {
        sender_id: String::from("péer"),
        body: String::from("προς υγείαν ✓"),
    });
    let bytes = msg.encode();
    match ChatMessage::decode(&bytes) {
        Some(ChatMessage::Text(t)) => {
            assert_eq!(t.sender_id, "péer");
            assert_eq!(t.body, "προς υγείαν ✓");
        }
        _ => panic!("unicode message did not round-trip"),
    }
}

#[test]
fn chat_rejects_malformed_buffers() {
    // too short for a tag
    assert!(ChatMessage::decode(&[0, 0]).is_none());
    // unknown tag
    assert!(ChatMessage::decode(&[9, 0, 0, 0]).is_none());
    // string length runs past the end
    assert!(ChatMessage::decode(&[1, 0, 0, 0, 200, 0, 0, 0, 0, 0, 0, 0, b'x']).is_none());
    // trailing bytes after a well-formed message
    let mut bytes = ChatMessage::System(SystemMessage { body: String::from("ok") }).encode();
    bytes.push(0);
    assert!(ChatMessage::decode(&bytes).is_none());
    // invalid UTF-8 in a string field
    let bad = vec![1, 0, 0, 0, 2, 0, 0, 0, 0, 0, 0, 0, 0xFF, 0xFE];
    assert!(ChatMessage::decode(&bad).is_none());
}
