use base64::Engine;
use vc_core::rendezvous::{
    parse_request, render_server_message, ClientMessage, Recipient, RoomDirectory, ServerMessage,
};
use vc_core::session::SessionRole;

fn b64(data: &[u8]) -> String {
    base64::engine::general_purpose::STANDARD.encode(data)
}

#[test]
fn rendezvous_pairing_scenario() {
    let pk_a = vec![0xA1u8; 32];
    let pk_b = vec![0xB2u8; 32];

    // Peer A: CREATE ABCD-1234 <b64 pk_A>
    let line_a = format!("CREATE ABCD-1234 {}", b64(&pk_a));
    let msg_a = parse_request(&line_a).expect("create line parses");
    let (code_a, key_a) = match msg_a {
        ClientMessage::Create { room_code, pubkey } => (room_code, pubkey),
        _ => panic!("expected a create request"),
    };
    assert_eq!(code_a, "ABCD-1234");
    assert_eq!(key_a, pk_a);

    let mut directory = RoomDirectory::new();
    let replies = directory.create_room(&code_a, key_a);
    assert!(replies.is_empty(), "the creator is parked without a reply");

    // Peer B: JOIN ABCD-1234 <b64 pk_B>
    let line_b = format!("JOIN ABCD-1234 {}", b64(&pk_b));
    let msg_b = parse_request(&line_b).expect("join line parses");
    let (code_b, key_b) = match msg_b {
        ClientMessage::Join { room_code, pubkey } => (room_code, pubkey),
        _ => panic!("expected a join request"),
    };

    let replies = directory.join_room(&code_b, key_b);
    assert_eq!(replies.len(), 3);

    // B receives ROOM_JOINED, then PEER_PUBKEY <b64 pk_A> CLIENT.
    assert!(matches!(replies[0], (Recipient::Requester, ServerMessage::RoomJoined)));
    assert_eq!(render_server_message(&replies[0].1), b"ROOM_JOINED");

    // A receives PEER_PUBKEY <b64 pk_B> HOST.
    match &replies[1] {
        (Recipient::Creator, ServerMessage::PeerPubkey { pubkey, role }) => {
            assert_eq!(*pubkey, pk_b);
            assert_eq!(*role, SessionRole::Host);
        }
        _ => panic!("creator was not told the joiner's key"),
    }
    assert_eq!(
        render_server_message(&replies[1].1),
        format!("PEER_PUBKEY {} HOST", b64(&pk_b)).as_bytes()
    );

    match &replies[2] {
        (Recipient::Requester, ServerMessage::PeerPubkey { pubkey, role }) => {
            assert_eq!(*pubkey, pk_a);
            assert_eq!(*role, SessionRole::Client);
        }
        _ => panic!("joiner was not told the creator's key"),
    }
    assert_eq!(
        render_server_message(&replies[2].1),
        format!("PEER_PUBKEY {} CLIENT", b64(&pk_a)).as_bytes()
    );
}

#[test]
fn join_without_room_is_not_found() {
    let mut directory = RoomDirectory::new();
    let replies = directory.join_room("ABCD-1234", vec![1u8; 32]);
    assert_eq!(replies.len(), 1);
    assert!(matches!(replies[0], (Recipient::Requester, ServerMessage::RoomNotFound)));
    assert_eq!(render_server_message(&replies[0].1), b"ROOM_NOT_FOUND");
}

#[test]
fn third_join_is_rejected() {
    let mut directory = RoomDirectory::new();
    assert!(directory.create_room("ABCD-1234", vec![1u8; 32]).is_empty());
    let _ = directory.join_room("ABCD-1234", vec![2u8; 32]);
    let replies = directory.join_room("ABCD-1234", vec![3u8; 32]);
    assert_eq!(replies.len(), 1);
    assert!(matches!(replies[0], (Recipient::Requester, ServerMessage::RoomFull)));
    assert_eq!(render_server_message(&replies[0].1), b"ROOM_FULL");
}

#[test]
fn malformed_room_code_is_an_error() {
    let mut directory = RoomDirectory::new();
    let replies = directory.create_room("lowercase", vec![1u8; 32]);
    assert_eq!(replies.len(), 1);
    assert!(matches!(replies[0], (Recipient::Requester, ServerMessage::Error)));
    assert_eq!(render_server_message(&replies[0].1), b"ERROR");
}

#[test]
fn malformed_lines_do_not_parse() {
    assert!(parse_request("").is_none());
    assert!(parse_request("CREATE").is_none());
    assert!(parse_request("CREATE ABCD-1234").is_none());
    assert!(parse_request("SHOUT ABCD-1234 QUJD").is_none());
    assert!(parse_request("CREATE ABCD-1234 not#base64!").is_none());
    assert!(parse_request("CREATE ABCD-1234 QUJD extra").is_none());
}

#[test]
fn commands_are_case_insensitive() {
    let pk = vec![5u8; 32];
    assert!(matches!(
        parse_request(&format!("create ABCD-1234 {}", b64(&pk))),
        Some(ClientMessage::Create { .. })
    ));
    assert!(matches!(
        parse_request(&format!("join ABCD-1234 {}", b64(&pk))),
        Some(ClientMessage::Join { .. })
    ));
}

#[test]
fn removed_room_is_gone() {
    let mut directory = RoomDirectory::new();
    assert!(directory.create_room("ABCD-1234", vec![1u8; 32]).is_empty());
    directory.remove_room("ABCD-1234");
    let replies = directory.join_room("ABCD-1234", vec![2u8; 32]);
    assert!(matches!(replies[0], (Recipient::Requester, ServerMessage::RoomNotFound)));
}
