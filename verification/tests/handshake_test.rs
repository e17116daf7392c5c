use vc_core::crypto::random_nonce;
use vc_core::handshake::{ClientHandshake, Handshake, HandshakeError, HostHandshake};
use vc_core::identity::Identity;
use vc_core::crypto::derive_session_key;
use vc_core::handshake::{ClientHello, ClientResponse, HostChallenge};

#[test]
fn handshake_produces_same_session_key() {
    // identities
    let client_secret = random_nonce();
    let client_identity = Identity::from_secret(client_secret);

    let host_secret = random_nonce();
    let host_identity = Identity::from_secret(host_secret);

    // init handshakes
    let client = ClientHandshake::new(client_secret);
    let host = HostHandshake::new(host_secret);

    // step 1: client -> host
    let hello = client.hello();

    // step 2: host -> client
    let challenge = host.challenge(&hello);

    // step 3: client verifies + responds
    let (client_key, response) = client
        .handle_challenge(&challenge, &host_identity.public_key_bytes())
        .expect("host signature verifies");

    // step 4: host verifies
    let host_key = host
        .verify_response(&hello, response, &client_identity.public_key_bytes())
        .expect("client signature verifies");

    assert_eq!(client_key, host_key);
    assert_eq!(client_key.len(), 32);
}

#[test]
fn tampered_nonce_breaks_host_signature() {
    let client_identity = Identity::from_secret(random_nonce());
    let host_identity = Identity::from_secret(random_nonce());

    let client = ClientHandshake::new(client_identity.secret);
    let host = HostHandshake::new(host_identity.secret);

    let hello = client.hello();
    let mut challenge = host.challenge(&hello);
    challenge.nonce_h[0] ^= 0x01;

    assert!(matches!(
        client.handle_challenge(&challenge, &host_identity.public_key_bytes()),
        Err(HandshakeError::BadSignature)
    ));
}

#[test]
fn tampered_ephemeral_breaks_host_signature() {
    let client_identity = Identity::from_secret(random_nonce());
    let host_identity = Identity::from_secret(random_nonce());

    let client = ClientHandshake::new(client_identity.secret);
    let host = HostHandshake::new(host_identity.secret);

    let hello = client.hello();
    let mut challenge = host.challenge(&hello);
    challenge.host_ephemeral_pub[31] ^= 0x80;

    assert!(matches!(
        client.handle_challenge(&challenge, &host_identity.public_key_bytes()),
        Err(HandshakeError::BadSignature)
    ));
}

#[test]
fn tampered_client_nonce_breaks_client_signature() {
    let client_identity = Identity::from_secret(random_nonce());
    let host_identity = Identity::from_secret(random_nonce());

    let client = ClientHandshake::new(client_identity.secret);
    let host = HostHandshake::new(host_identity.secret);

    let mut hello = client.hello();
    let challenge = host.challenge(&hello);
    let (_key, response) = client
        .handle_challenge(&challenge, &host_identity.public_key_bytes())
        .expect("host signature verifies");

    // The hello the host checks against no longer matches what the
    // client signed.
    hello.nonce_c[5] ^= 0x10;
    assert!(matches!(
        host.verify_response(&hello, response, &client_identity.public_key_bytes()),
        Err(HandshakeError::BadSignature)
    ));
}

#[test]
fn unexpected_identity_aborts() {
    let client_identity = Identity::from_secret(random_nonce());
    let host_identity = Identity::from_secret(random_nonce());
    let stranger = Identity::from_secret(random_nonce());

    let client = ClientHandshake::new(client_identity.secret);
    let host = HostHandshake::new(host_identity.secret);

    let hello = client.hello();
    let challenge = host.challenge(&hello);

    // The rendezvous announced a different host key than the challenge
    // carries.
    assert!(matches!(
        client.handle_challenge(&challenge, &stranger.public_key_bytes()),
        Err(HandshakeError::IdentityMismatch)
    ));
}

#[test]
fn handshake_message_codecs_round_trip() {

    let hello = ClientHello { client_id: [1u8; 32], client_ephemeral_pub: [2u8; 32], nonce_c: [3u8; 32] };
    let bytes = hello.encode();
    assert_eq!(bytes.len(), 96);
    let back = ClientHello::decode(&bytes).expect("hello parses");
    assert_eq!(back.client_id, hello.client_id);
    assert_eq!(back.client_ephemeral_pub, hello.client_ephemeral_pub);
    assert_eq!(back.nonce_c, hello.nonce_c);
    assert!(ClientHello::decode(&bytes[..95]).is_none());

    let challenge = HostChallenge {
        host_id: [4u8; 32],
        host_ephemeral_pub: [5u8; 32],
        nonce_h: [6u8; 32],
        sig_h: [7u8; 64],
    };
    let bytes = challenge.encode();
    assert_eq!(bytes.len(), 168);
    // The signature carries a little-endian 64 as its length prefix.
    assert_eq!(&bytes[96..104], &[64, 0, 0, 0, 0, 0, 0, 0]);
    let back = HostChallenge::decode(&bytes).expect("challenge parses");
    assert_eq!(back.host_id, challenge.host_id);
    assert_eq!(back.host_ephemeral_pub, challenge.host_ephemeral_pub);
    assert_eq!(back.nonce_h, challenge.nonce_h);
    assert_eq!(back.sig_h, challenge.sig_h);
    assert!(HostChallenge::decode(&bytes[..167]).is_none());

    let response = ClientResponse { sig_c: [9u8; 64] };
    let bytes = response.encode();
    assert_eq!(bytes.len(), 72);
    let back = ClientResponse::decode(&bytes).expect("response parses");
    assert_eq!(back.sig_c, response.sig_c);
    assert!(ClientResponse::decode(&bytes[..71]).is_none());
}

#[test]
fn session_keys_depend_on_nonces() {

    let shared = [0x55u8; 32];
    let k1 = derive_session_key(shared, &[1u8; 32], &[2u8; 32]);
    let k2 = derive_session_key(shared, &[1u8; 32], &[2u8; 32]);
    assert_eq!(k1, k2);

    let k3 = derive_session_key(shared, &[2u8; 32], &[1u8; 32]);
    assert_ne!(k1, k3);
}

#[test]
fn ephemeral_exchange_agrees() {
    let a = Handshake::new();
    let b = Handshake::new();
    let a_public = a.public;
    let b_public = b.public;

    let shared_a = a.derive_shared(&b_public);
    let shared_b = b.derive_shared(&a_public);
    assert_eq!(shared_a, shared_b);
}
