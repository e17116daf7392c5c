use vc_core::crypto::random_nonce;
use vc_core::session::{SecureSession, SecureSessionError, SessionRole};
use vc_core::stream::{open_record, read_record_len, seal_record, SecureStreamError};
use vc_core::chat::{ChatMessage, ChatText};

#[test]
fn integration_test_test_secure_session_encrypt_decrypt() {
    let peer_id_bytes = random_nonce();
    let session_key = [42u8; 32];

    let mut sender = SecureSession::new(SessionRole::Client, session_key, peer_id_bytes);
    let mut receiver = SecureSession::new(SessionRole::Host, session_key, peer_id_bytes);

    let plaintext = b"Secret message";
    let encrypted = sender.encrypt(plaintext);
    let decrypted = receiver.decrypt(&encrypted).expect("Decryption failed");
    assert_eq!(decrypted, plaintext);

    for i in 0..10 {
        let msg = format!("Message {}", i);
        let enc = sender.encrypt(msg.as_bytes());
        let dec = receiver.decrypt(&enc).expect("Decryption failed");
        assert_eq!(dec, msg.as_bytes());
    }

    println!("✓ Encryption/decryption working");
    println!("✓ Counter increments properly");
}

#[test]
fn integration_test_test_replay_attack_prevention() {
    let peer_id_bytes = random_nonce();
    let session_key = [42u8; 32];

    let mut sender = SecureSession::new(SessionRole::Client, session_key, peer_id_bytes);
    let mut receiver = SecureSession::new(SessionRole::Host, session_key, peer_id_bytes);

    let enc1 = sender.encrypt(b"Message 1");
    let _ = receiver.decrypt(&enc1).expect("First decrypt should work");

    let enc2 = sender.encrypt(b"Message 2");
    let _ = receiver.decrypt(&enc2).expect("Second decrypt should work");

    let result = receiver.decrypt(&enc1);
    match result {
        Err(SecureSessionError::ReplayDetected) => {
            println!("✓ Replay attack detected and prevented");
        }
        _ => panic!("Replay attack was not detected!"),
    }
}

#[test]
fn test_frame_size_limit() {
    let peer_id_bytes = random_nonce();
    let session_key = [42u8; 32];

    let mut session = SecureSession::new(SessionRole::Client, session_key, peer_id_bytes);

    let huge_message = vec![0u8; 70000];
    let result = seal_record(&mut session, &huge_message);

    match result {
        Err(SecureStreamError::FrameTooLarge) => {
            println!("✓ Frame size limit enforced");
        }
        _ => panic!("⚠ Large frame handling may need adjustment"),
    }

    // Nothing was written and no counter burnt: a small record still
    // starts at counter zero and round-trips.
    let mut receiver = SecureSession::new(SessionRole::Host, session_key, peer_id_bytes);
    let record = seal_record(&mut session, b"small").expect("small record fits");
    let len = read_record_len(&record).expect("length header is nonzero");
    assert_eq!(len, record.len() - 2);
    let plaintext = open_record(&mut receiver, &record[2..]).expect("record opens");
    assert_eq!(plaintext, b"small");
}

#[test]
fn record_length_of_zero_is_eof() {
    assert!(matches!(read_record_len(&[0, 0]), Err(SecureStreamError::UnexpectedEof)));
    assert_eq!(read_record_len(&[0x01, 0x02]).expect("nonzero length"), 0x0102);
}

#[test]
fn record_round_trip_carries_chat() {

    let key = [8u8; 32];
    let peer = [1u8; 32];
    let mut a = SecureSession::new(SessionRole::Client, key, peer);
    let mut b = SecureSession::new(SessionRole::Host, key, peer);

    let msg = ChatMessage::Text(ChatText {
        sender_id: String::from("1"),
        body: String::from("hello there"),
    });
    let encoded = msg.encode();
    let record = seal_record(&mut a, &encoded).expect("record fits");
    let body = &record[2..];
    let decrypted = open_record(&mut b, body).expect("record opens");
    match ChatMessage::decode(&decrypted) {
        Some(ChatMessage::Text(t)) => {
            assert_eq!(t.sender_id, "1");
            assert_eq!(t.body, "hello there");
        }
        _ => panic!("chat message did not round-trip"),
    }
}
