use vc_core::crypto::random_nonce;
use vc_core::session::{SecureSession, SecureSessionError, SessionRole};

#[test]
fn session_test_test_secure_session_encrypt_decrypt() {
    let peer_id_bytes = [1u8; 32];
    let session_key = [42u8; 32];

    let mut sender = SecureSession::new(SessionRole::Client, session_key, peer_id_bytes);
    let mut receiver = SecureSession::new(SessionRole::Host, session_key, peer_id_bytes);

    let plaintext = b"Secret message";
    let encrypted = sender.encrypt(plaintext);
    let decrypted = receiver.decrypt(&encrypted).expect("Decryption failed");
    assert_eq!(decrypted, plaintext);

    for i in 0..10 {
        let msg = format!("Message {}", i);
        let enc = sender.encrypt(msg.as_bytes());
        let dec = receiver.decrypt(&enc).expect("Decryption failed");
        assert_eq!(dec, msg.as_bytes());
    }

    println!("✓ Encryption/decryption working");
    println!("✓ Counter increments properly");
}

#[test]
fn session_test_test_replay_attack_prevention() {
    let peer_id_bytes = random_nonce();
    let session_key = [42u8; 32];

    let mut sender = SecureSession::new(SessionRole::Client, session_key, peer_id_bytes);
    let mut receiver = SecureSession::new(SessionRole::Host, session_key, peer_id_bytes);

    let enc1 = sender.encrypt(b"Message 1");
    let dec1 = receiver.decrypt(&enc1).expect("First decrypt should work");
    assert_eq!(dec1, b"Message 1");

    let enc2 = sender.encrypt(b"Message 2");
    let dec2 = receiver.decrypt(&enc2).expect("Second decrypt should work");
    assert_eq!(dec2, b"Message 2");

    let result = receiver.decrypt(&enc1);
    match result {
        Err(SecureSessionError::ReplayDetected) => {
            println!("✓ Replay attack detected and prevented");
        }
        _ => panic!("Replay attack was not detected!"),
    }
}

#[test]
fn test_wrong_counter_order() {
    let peer_id_bytes = random_nonce();
    let session_key = [42u8; 32];

    let mut sender = SecureSession::new(SessionRole::Client, session_key, peer_id_bytes);
    let mut receiver = SecureSession::new(SessionRole::Host, session_key, peer_id_bytes);

    let enc1 = sender.encrypt(b"Message 1");
    let enc2 = sender.encrypt(b"Message 2");
    let enc3 = sender.encrypt(b"Message 3");

    let _ = receiver.decrypt(&enc1).expect("Should work");
    let _ = receiver.decrypt(&enc2).expect("Should work");
    let _ = receiver.decrypt(&enc3).expect("Should work");

    println!("✓ Sequential messages processed correctly");
}

#[test]
fn test_nonce_generation() {
    let peer_id_bytes = random_nonce();
    let session_key = [42u8; 32];

    let mut session = SecureSession::new(SessionRole::Client, session_key, peer_id_bytes);

    for i in 0..100 {
        let msg = format!("Message {}", i);
        let _ = session.encrypt(msg.as_bytes());
    }

    println!("✓ Nonce generation handles multiple encryptions");
}

#[test]
fn out_of_order_counter_rejected() {
    let peer_id_bytes = [7u8; 32];
    let session_key = [9u8; 32];

    let mut sender = SecureSession::new(SessionRole::Client, session_key, peer_id_bytes);
    let mut receiver = SecureSession::new(SessionRole::Host, session_key, peer_id_bytes);

    let enc0 = sender.encrypt(b"zero");
    let enc1 = sender.encrypt(b"one");
    let enc2 = sender.encrypt(b"two");

    let _ = receiver.decrypt(&enc2).expect("newest counter is accepted");
    assert!(matches!(receiver.decrypt(&enc0), Err(SecureSessionError::ReplayDetected)));
    assert!(matches!(receiver.decrypt(&enc1), Err(SecureSessionError::ReplayDetected)));
}

#[test]
fn short_frame_is_malformed() {
    let mut receiver = SecureSession::new(SessionRole::Host, [3u8; 32], [4u8; 32]);
    assert!(matches!(receiver.decrypt(&[1, 2, 3]), Err(SecureSessionError::MalformedPacket)));
}

#[test]
fn tampered_frame_fails_decryption() {
    let peer_id_bytes = [7u8; 32];
    let session_key = [9u8; 32];

    let mut sender = SecureSession::new(SessionRole::Client, session_key, peer_id_bytes);
    let mut receiver = SecureSession::new(SessionRole::Host, session_key, peer_id_bytes);

    let mut enc = sender.encrypt(b"payload");
    let last = enc.len() - 1;
    enc[last] ^= 0x01;
    assert!(matches!(receiver.decrypt(&enc), Err(SecureSessionError::DecryptionFailed)));
}

#[test]
fn tampered_counter_fails_decryption() {
    // The counter is authenticated as associated data: rewriting it to a
    // fresh value must not slip past the replay check into a successful
    // decryption.
    let peer_id_bytes = [7u8; 32];
    let session_key = [9u8; 32];

    let mut sender = SecureSession::new(SessionRole::Client, session_key, peer_id_bytes);
    let mut receiver = SecureSession::new(SessionRole::Host, session_key, peer_id_bytes);

    let enc1 = sender.encrypt(b"Message 1");
    let _ = receiver.decrypt(&enc1).expect("first decrypt works");

    let mut replayed = enc1.clone();
    replayed[7] = 1; // counter 0 -> 1, past the replay check
    assert!(matches!(receiver.decrypt(&replayed), Err(SecureSessionError::DecryptionFailed)));
}

#[test]
fn peer_identity_is_kept() {
    let peer_id_bytes = [5u8; 32];
    let session = SecureSession::new(SessionRole::Client, [0u8; 32], peer_id_bytes);
    assert_eq!(*session.peer_identity(), peer_id_bytes);
}
