use vc_core::session::{SecureSession, SessionRole};
use vc_core::chat::{ChatMessage, ChatText};
use vc_core::crypto::random_nonce;
use vc_core::handshake::{ClientHandshake, HostHandshake};
use vc_core::identity::Identity;
use vc_core::stream::{open_record, seal_record};

#[test]
fn test_secure_session_basic() {
    // The core session encrypts and decrypts independently of any
    // identity-key machinery.
    let mut sender = SecureSession::new(SessionRole::Client, [42u8; 32], [0u8; 32]);
    let mut receiver = SecureSession::new(SessionRole::Host, [42u8; 32], [0u8; 32]);

    let frame = sender.encrypt(b"basic");
    assert_eq!(receiver.decrypt(&frame).expect("decrypts"), b"basic");

    println!("✓ SecureSession encrypts and decrypts");
}

#[test]
fn test_workflow_summary() {
    // The whole call set-up in one place: handshake, key agreement,
    // then encrypted chat frames in both directions.

    let client_identity = Identity::from_secret(random_nonce());
    let host_identity = Identity::from_secret(random_nonce());

    let client = ClientHandshake::new(client_identity.secret);
    let host = HostHandshake::new(host_identity.secret);

    let hello = client.hello();
    let challenge = host.challenge(&hello);
    let (client_key, response) = client
        .handle_challenge(&challenge, &host_identity.public_key_bytes())
        .expect("host authenticates");
    let host_key = host
        .verify_response(&hello, response, &client_identity.public_key_bytes())
        .expect("client authenticates");
    assert_eq!(client_key, host_key);

    let mut client_session = SecureSession::new(SessionRole::Client, client_key, host_identity.public_key_bytes());
    let mut host_session = SecureSession::new(SessionRole::Host, host_key, client_identity.public_key_bytes());

    let msg = ChatMessage::Text(ChatText {
        sender_id: String::from("client"),
        body: String::from("hi"),
    });
    let record = seal_record(&mut client_session, &msg.encode()).expect("fits");
    let plain = open_record(&mut host_session, &record[2..]).expect("opens");
    assert!(ChatMessage::decode(&plain).is_some());

    println!("✓ Handshake, key agreement and encrypted chat all work together");
}
