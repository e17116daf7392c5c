//! The rendezvous protocol: line-oriented requests that pair two peers
//! by room code and hand each the other's identity key.
//!
//! Requests are `CREATE <code> <base64 pubkey>` and
//! `JOIN <code> <base64 pubkey>`, tokens separated by single spaces.
//! A room holds at most two peers; when it reaches two, each peer is
//! told the other's key and its role — the creator `HOST`, the joiner
//! `CLIENT`. The byte relay that follows lives outside the library.

use vstd::prelude::*;

use vstd::utf8::encode_utf8;

use crate::bytes::copy_bytes;
use crate::room::valid_room_code;
use crate::session::SessionRole;

verus! {

/// The base64 text that encoding `data` produces.
pub uninterp spec fn b64_chars_of(data: Seq<u8>) -> Seq<char>;

/// What base64 decoding returns for `text`: the bytes, or nothing when
/// the text is not a base64 encoding.
pub uninterp spec fn b64_decode_of(text: Seq<char>) -> Option<Seq<u8>>;

/// Relies on `base64::Engine::encode` with the standard alphabet:
/// deterministic in the data, and its own decoder inverts it.
#[verifier::external_body]
fn base64_encode(data: &Vec<u8>) -> (r: String)
    ensures
        r@ == b64_chars_of(data@),
        b64_decode_of(r@) == Some(data@),
{
    base64::Engine::encode(&base64::engine::general_purpose::STANDARD, data)
}

/// Relies on `base64::Engine::decode` with the standard alphabet:
/// deterministic in the text, failing exactly on text that is no base64
/// encoding.
#[verifier::external_body]
fn base64_decode(text: &str) -> (r: Option<Vec<u8>>)
    ensures
        match r {
            Some(v) => b64_decode_of(text@) == Some(v@),
            None => b64_decode_of(text@) is None,
        },
{
    base64::Engine::decode(&base64::engine::general_purpose::STANDARD, text).ok()
}

/// Relies on `String`'s `FromIterator<char>`: collecting characters in
/// order yields the string of exactly those characters.
#[verifier::external_body]
fn chars_to_string(v: &Vec<char>) -> (r: String)
    ensures
        r@ == v@,
{
    v.iter().collect()
}

/// A parsed request line.
pub enum ClientMessage {
    Create { room_code: String, pubkey: Vec<u8> },
    Join { room_code: String, pubkey: Vec<u8> },
}

/// The mathematical value of a request.
pub enum ClientMessageView {
    Create { room_code: Seq<char>, pubkey: Seq<u8> },
    Join { room_code: Seq<char>, pubkey: Seq<u8> },
}

impl View for ClientMessage {
    type V = ClientMessageView;

    open spec fn view(&self) -> ClientMessageView {
        match self {
            ClientMessage::Create { room_code, pubkey } => ClientMessageView::Create {
                room_code: room_code@,
                pubkey: pubkey@,
            },
            ClientMessage::Join { room_code, pubkey } => ClientMessageView::Join {
                room_code: room_code@,
                pubkey: pubkey@,
            },
        }
    }
}

/// `s` split at every space; empty tokens are kept, so splitting always
/// yields one token more than there are spaces.
pub open spec fn split_spaces(s: Seq<char>) -> Seq<Seq<char>>
    decreases s.len(),
{
    if s.len() == 0 {
        seq![Seq::empty()]
    } else if s[0] == ' ' {
        seq![Seq::<char>::empty()] + split_spaces(s.drop_first())
    } else {
        let rest = split_spaces(s.drop_first());
        rest.update(0, seq![s[0]] + rest[0])
    }
}

/// Splitting yields at least one token.
proof fn lemma_split_nonempty(s: Seq<char>)
    ensures
        split_spaces(s).len() >= 1,
    decreases s.len(),
{
    if s.len() > 0 {
        lemma_split_nonempty(s.drop_first());
    }
}

/// How one more character extends a split: a space opens a new empty
/// token, anything else grows the last one.
proof fn lemma_split_push(s: Seq<char>, c: char)
    ensures
        split_spaces(s).len() >= 1,
        c == ' ' ==> split_spaces(s.push(c)) == split_spaces(s).push(Seq::<char>::empty()),
        c != ' ' ==> split_spaces(s.push(c)) == split_spaces(s).update(
            split_spaces(s).len() - 1,
            split_spaces(s).last().push(c),
        ),
    decreases s.len(),
{
    lemma_split_nonempty(s);
    if s.len() == 0 {
        if c == ' ' {
            assert(s.push(c).drop_first() =~= s);
            assert(split_spaces(s.push(c)) =~= split_spaces(s).push(Seq::<char>::empty()));
        } else {
            assert(s.push(c).drop_first() =~= s);
            assert(split_spaces(s.push(c)) =~= split_spaces(s).update(
                0,
                split_spaces(s).last().push(c),
            ));
        }
    } else {
        let t = s.drop_first();
        lemma_split_push(t, c);
        lemma_split_nonempty(t);
        assert(s.push(c).drop_first() =~= t.push(c));
        if s[0] == ' ' {
            if c == ' ' {
                assert(split_spaces(s.push(c)) =~= split_spaces(s).push(Seq::<char>::empty()));
            } else {
                assert(split_spaces(s.push(c)) =~= split_spaces(s).update(
                    split_spaces(s).len() - 1,
                    split_spaces(s).last().push(c),
                ));
            }
        } else {
            let rest = split_spaces(t);
            if c == ' ' {
                assert(split_spaces(s.push(c)) =~= split_spaces(s).push(Seq::<char>::empty()));
            } else {
                assert(split_spaces(s.push(c)) =~= split_spaces(s).update(
                    split_spaces(s).len() - 1,
                    split_spaces(s).last().push(c),
                ));
            }
        }
    }
}

/// The token `CREATE`, in either case per letter.
pub open spec fn is_create_token(t: Seq<char>) -> bool {
    &&& t.len() == 6
    &&& (t[0] == 'C' || t[0] == 'c')
    &&& (t[1] == 'R' || t[1] == 'r')
    &&& (t[2] == 'E' || t[2] == 'e')
    &&& (t[3] == 'A' || t[3] == 'a')
    &&& (t[4] == 'T' || t[4] == 't')
    &&& (t[5] == 'E' || t[5] == 'e')
}

/// The token `JOIN`, in either case per letter.
pub open spec fn is_join_token(t: Seq<char>) -> bool {
    &&& t.len() == 4
    &&& (t[0] == 'J' || t[0] == 'j')
    &&& (t[1] == 'O' || t[1] == 'o')
    &&& (t[2] == 'I' || t[2] == 'i')
    &&& (t[3] == 'N' || t[3] == 'n')
}

/// What a request line parses to: a command, a room-code token and a
/// base64 key token, or nothing for any other shape.
pub open spec fn parse_request_spec(line: Seq<char>) -> Option<ClientMessageView> {
    let toks = split_spaces(line);
    if toks.len() == 3 && is_create_token(toks[0]) && b64_decode_of(toks[2]) is Some {
        Some(
            ClientMessageView::Create {
                room_code: toks[1],
                pubkey: b64_decode_of(toks[2]).unwrap(),
            },
        )
    } else if toks.len() == 3 && is_join_token(toks[0]) && b64_decode_of(toks[2]) is Some {
        Some(ClientMessageView::Join { room_code: toks[1], pubkey: b64_decode_of(toks[2]).unwrap() })
    } else {
        None
    }
}

/// Whether a token spells `CREATE`.
fn token_is_create(t: &Vec<char>) -> (r: bool)
    ensures
        r == is_create_token(t@),
{
    t.len() == 6 && (t[0] == 'C' || t[0] == 'c') && (t[1] == 'R' || t[1] == 'r') && (t[2] == 'E'
        || t[2] == 'e') && (t[3] == 'A' || t[3] == 'a') && (t[4] == 'T' || t[4] == 't') && (t[5]
        == 'E' || t[5] == 'e')
}

/// Whether a token spells `JOIN`.
fn token_is_join(t: &Vec<char>) -> (r: bool)
    ensures
        r == is_join_token(t@),
{
    t.len() == 4 && (t[0] == 'J' || t[0] == 'j') && (t[1] == 'O' || t[1] == 'o') && (t[2] == 'I'
        || t[2] == 'i') && (t[3] == 'N' || t[3] == 'n')
}

/// Parse one request line (without its terminator).
pub fn parse_request(line: &str) -> (r: Option<ClientMessage>)
    ensures
        match r {
            Some(m) => parse_request_spec(line@) == Some(m@),
            None => parse_request_spec(line@) is None,
        },
{
    let n = line.unicode_len();
    let mut tokens: Vec<Vec<char>> = Vec::new();
    let mut cur: Vec<char> = Vec::new();
    let mut i: usize = 0;
    while i < n
        invariant
            0 <= i <= n,
            n == line@.len(),
            tokens@.map_values(|t: Vec<char>| t@).push(cur@) == split_spaces(
                line@.subrange(0, i as int),
            ),
        decreases n - i,
    {
        let c = line.get_char(i);
        proof {
            assert(line@.subrange(0, i + 1) =~= line@.subrange(0, i as int).push(line@[i as int]));
            lemma_split_push(line@.subrange(0, i as int), line@[i as int]);
        }
        if c == ' ' {
            tokens.push(cur);
            cur = Vec::new();
            proof {
                assert(tokens@.map_values(|t: Vec<char>| t@).push(cur@) =~= split_spaces(
                    line@.subrange(0, i + 1),
                ));
            }
        } else {
            cur.push(c);
            proof {
                let prev = split_spaces(line@.subrange(0, i as int));
                assert(tokens@.map_values(|t: Vec<char>| t@).push(cur@) =~= prev.update(
                    prev.len() - 1,
                    prev.last().push(line@[i as int]),
                ));
            }
        }
        i = i + 1;
    }
    tokens.push(cur);
    proof {
        assert(line@.subrange(0, n as int) =~= line@);
        assert(tokens@.map_values(|t: Vec<char>| t@) == split_spaces(line@));
    }

    if tokens.len() != 3 {
        return None;
    }
    proof {
        assert(tokens@.map_values(|t: Vec<char>| t@)[0] == tokens@[0]@);
        assert(tokens@.map_values(|t: Vec<char>| t@)[1] == tokens@[1]@);
        assert(tokens@.map_values(|t: Vec<char>| t@)[2] == tokens@[2]@);
    }
    let create = token_is_create(&tokens[0]);
    let join = token_is_join(&tokens[0]);
    if !create && !join {
        return None;
    }

    let room_code = chars_to_string(&tokens[1]);
    let key_text = chars_to_string(&tokens[2]);
    let pubkey = match base64_decode(key_text.as_str()) {
        Some(k) => k,
        None => {
            return None;
        },
    };

    if create {
        Some(ClientMessage::Create { room_code, pubkey })
    } else {
        Some(ClientMessage::Join { room_code, pubkey })
    }
}

/// A reply and who it goes to: the connection that sent the request, or
/// the one that created the room and is parked in it.
#[derive(Debug, Clone, Copy, PartialEq, Eq, Structural)]
pub enum Recipient {
    Requester,
    Creator,
}

/// One reply line of the server.
pub enum ServerMessage {
    Error,
    RoomNotFound,
    RoomFull,
    RoomJoined,
    PeerPubkey { pubkey: Vec<u8>, role: SessionRole },
}

/// The mathematical value of a reply.
pub enum ServerMessageView {
    Error,
    RoomNotFound,
    RoomFull,
    RoomJoined,
    PeerPubkey { pubkey: Seq<u8>, role: SessionRole },
}

impl View for ServerMessage {
    type V = ServerMessageView;

    open spec fn view(&self) -> ServerMessageView {
        match self {
            ServerMessage::Error => ServerMessageView::Error,
            ServerMessage::RoomNotFound => ServerMessageView::RoomNotFound,
            ServerMessage::RoomFull => ServerMessageView::RoomFull,
            ServerMessage::RoomJoined => ServerMessageView::RoomJoined,
            ServerMessage::PeerPubkey { pubkey, role } => ServerMessageView::PeerPubkey {
                pubkey: pubkey@,
                role: *role,
            },
        }
    }
}

/// The reply line's bytes (without the terminating newline).
pub open spec fn server_message_bytes(m: ServerMessageView) -> Seq<u8> {
    match m {
        // "ERROR"
        ServerMessageView::Error => seq![69u8, 82u8, 82u8, 79u8, 82u8],
        // "ROOM_NOT_FOUND"
        ServerMessageView::RoomNotFound => seq![
            82u8,
            79u8,
            79u8,
            77u8,
            95u8,
            78u8,
            79u8,
            84u8,
            95u8,
            70u8,
            79u8,
            85u8,
            78u8,
            68u8,
        ],
        // "ROOM_FULL"
        ServerMessageView::RoomFull => seq![82u8, 79u8, 79u8, 77u8, 95u8, 70u8, 85u8, 76u8, 76u8],
        // "ROOM_JOINED"
        ServerMessageView::RoomJoined => seq![
            82u8,
            79u8,
            79u8,
            77u8,
            95u8,
            74u8,
            79u8,
            73u8,
            78u8,
            69u8,
            68u8,
        ],
        // "PEER_PUBKEY " ‖ base64 ‖ " " ‖ "HOST" | "CLIENT"
        ServerMessageView::PeerPubkey { pubkey, role } => seq![
            80u8,
            69u8,
            69u8,
            82u8,
            95u8,
            80u8,
            85u8,
            66u8,
            75u8,
            69u8,
            89u8,
            32u8,
        ] + encode_utf8(b64_chars_of(pubkey)) + seq![32u8] + (if role == SessionRole::Host {
            seq![72u8, 79u8, 83u8, 84u8]
        } else {
            seq![67u8, 76u8, 73u8, 69u8, 78u8, 84u8]
        }),
    }
}

/// Render one reply line for the wire (without the terminating newline).
pub fn render_server_message(m: &ServerMessage) -> (r: Vec<u8>)
    ensures
        r@ == server_message_bytes(m@),
{
    let mut out: Vec<u8> = Vec::new();
    match m {
        ServerMessage::Error => {
            out.push(69);
            out.push(82);
            out.push(82);
            out.push(79);
            out.push(82);
            proof {
                assert(out@ =~= server_message_bytes(m@));
            }
        },
        ServerMessage::RoomNotFound => {
            out.push(82);
            out.push(79);
            out.push(79);
            out.push(77);
            out.push(95);
            out.push(78);
            out.push(79);
            out.push(84);
            out.push(95);
            out.push(70);
            out.push(79);
            out.push(85);
            out.push(78);
            out.push(68);
            proof {
                assert(out@ =~= server_message_bytes(m@));
            }
        },
        ServerMessage::RoomFull => {
            out.push(82);
            out.push(79);
            out.push(79);
            out.push(77);
            out.push(95);
            out.push(70);
            out.push(85);
            out.push(76);
            out.push(76);
            proof {
                assert(out@ =~= server_message_bytes(m@));
            }
        },
        ServerMessage::RoomJoined => {
            out.push(82);
            out.push(79);
            out.push(79);
            out.push(77);
            out.push(95);
            out.push(74);
            out.push(79);
            out.push(73);
            out.push(78);
            out.push(69);
            out.push(68);
            proof {
                assert(out@ =~= server_message_bytes(m@));
            }
        },
        ServerMessage::PeerPubkey { pubkey, role } => {
            out.push(80);
            out.push(69);
            out.push(69);
            out.push(82);
            out.push(95);
            out.push(80);
            out.push(85);
            out.push(66);
            out.push(75);
            out.push(69);
            out.push(89);
            out.push(32);
            let b64 = base64_encode(pubkey);
            out.extend_from_slice(b64.as_str().as_bytes());
            out.push(32);
            match role {
                SessionRole::Host => {
                    out.push(72);
                    out.push(79);
                    out.push(83);
                    out.push(84);
                },
                SessionRole::Client => {
                    out.push(67);
                    out.push(76);
                    out.push(73);
                    out.push(69);
                    out.push(78);
                    out.push(84);
                },
            }
            proof {
                assert(out@ =~= server_message_bytes(m@));
            }
        },
    }
    out
}

/// One room: its code and the identity keys of its parked peers, in
/// join order (the creator first).
pub struct RoomEntry {
    pub code: String,
    pub peers: Vec<Vec<u8>>,
}

/// The mathematical value of the directory: each room's code and peer
/// keys, in creation order.
pub open spec fn rooms_view(rooms: Seq<RoomEntry>) -> Seq<(Seq<char>, Seq<Seq<u8>>)> {
    rooms.map_values(|e: RoomEntry| (e.code@, e.peers@.map_values(|p: Vec<u8>| p@)))
}

/// The views of a reply list.
pub open spec fn reply_views(r: Seq<(Recipient, ServerMessage)>) -> Seq<(
    Recipient,
    ServerMessageView,
)> {
    r.map_values(|e: (Recipient, ServerMessage)| (e.0, e.1@))
}

/// The rooms the rendezvous currently holds.
pub struct RoomDirectory {
    pub rooms: Vec<RoomEntry>,
}

impl RoomDirectory {
    /// The directory's mathematical value.
    pub open spec fn view_rooms(self) -> Seq<(Seq<char>, Seq<Seq<u8>>)> {
        rooms_view(self.rooms@)
    }

    /// Whether a room with this code exists.
    pub open spec fn spec_has_room(self, code: Seq<char>) -> bool {
        exists|i: int| 0 <= i < self.view_rooms().len() && self.view_rooms()[i].0 == code
    }

    /// The index of the room with this code.
    pub open spec fn spec_room_idx(self, code: Seq<char>) -> int {
        choose|i: int| 0 <= i < self.view_rooms().len() && self.view_rooms()[i].0 == code
    }

    /// The peer keys parked in the room with this code.
    pub open spec fn spec_peers(self, code: Seq<char>) -> Seq<Seq<u8>> {
        self.view_rooms()[self.spec_room_idx(code)].1
    }

    /// Well-formedness: room codes unique, never more than two peers in
    /// a room.
    pub open spec fn wf(self) -> bool {
        &&& forall|i: int, j: int|
            #![trigger self.view_rooms()[i], self.view_rooms()[j]]
            0 <= i < j < self.view_rooms().len() ==> self.view_rooms()[i].0
                != self.view_rooms()[j].0
        &&& forall|i: int| 0 <= i < self.view_rooms().len() ==> (#[trigger] self.view_rooms()[i].1).len() <= 2
    }

    /// An empty directory.
    pub fn new() -> (d: Self)
        ensures
            d.wf(),
            d.view_rooms().len() == 0,
    {
        let d = Self { rooms: Vec::new() };
        proof {
            assert(d.view_rooms() =~= Seq::<(Seq<char>, Seq<Seq<u8>>)>::empty());
        }
        d
    }

    /// The index of the room with this code, if any.
    fn find_room(&self, code: &str) -> (r: Option<usize>)
        requires
            self.wf(),
        ensures
            match r {
                Some(i) => i < self.view_rooms().len() && self.view_rooms()[i as int].0 == code@
                    && self.spec_has_room(code@) && self.spec_room_idx(code@) == i,
                None => !self.spec_has_room(code@),
            },
    {
        let mut i: usize = 0;
        while i < self.rooms.len()
            invariant
                self.wf(),
                0 <= i <= self.rooms@.len(),
                forall|j: int| 0 <= j < i ==> rooms_view(self.rooms@)[j].0 != code@,
            decreases self.rooms@.len() - i,
        {
            if str_eq(self.rooms[i].code.as_str(), code) {
                proof {
                    assert(rooms_view(self.rooms@)[i as int].0 == self.rooms@[i as int].code@);
                    assert(self.view_rooms()[i as int].0 == code@);
                    assert(self.spec_has_room(code@));
                    let k = self.spec_room_idx(code@);
                    assert(0 <= k < self.view_rooms().len() && self.view_rooms()[k].0 == code@);
                    if k < i {
                        assert(self.view_rooms()[k].0 != self.view_rooms()[i as int].0);
                    } else if k > i {
                        assert(self.view_rooms()[i as int].0 != self.view_rooms()[k].0);
                    }
                }
                return Some(i);
            }
            proof {
                assert(rooms_view(self.rooms@)[i as int].0 == self.rooms@[i as int].code@);
            }
            i = i + 1;
        }
        None
    }

    /// `CREATE`: reject a malformed room code with `ERROR`; park the
    /// peer in the room, creating it when missing and refusing a full
    /// one with `ROOM_FULL`; when the room reaches two peers, tell each
    /// the other's key — the creator as `HOST`, the requester as
    /// `CLIENT`.
    pub fn create_room(&mut self, code: &str, pubkey: Vec<u8>) -> (r: Vec<(
        Recipient,
        ServerMessage,
    )>)
        requires
            old(self).wf(),
        ensures
            final(self).wf(),
            !valid_room_code(code@) ==> reply_views(r@) == seq![
                (Recipient::Requester, ServerMessageView::Error),
            ] && final(self).view_rooms() == old(self).view_rooms(),
            valid_room_code(code@) && !old(self).spec_has_room(code@) ==> reply_views(r@)
                == Seq::<(Recipient, ServerMessageView)>::empty() && final(self).view_rooms()
                == old(self).view_rooms().push((code@, seq![pubkey@])),
            valid_room_code(code@) && old(self).spec_has_room(code@) && old(self).spec_peers(
                code@,
            ).len() >= 2 ==> reply_views(r@) == seq![
                (Recipient::Requester, ServerMessageView::RoomFull),
            ] && final(self).view_rooms() == old(self).view_rooms(),
            valid_room_code(code@) && old(self).spec_has_room(code@) && old(self).spec_peers(
                code@,
            ).len() < 2 ==> {
                &&& final(self).view_rooms() == old(self).view_rooms().update(
                    old(self).spec_room_idx(code@),
                    (code@, old(self).spec_peers(code@).push(pubkey@)),
                )
                &&& old(self).spec_peers(code@).len() == 1 ==> reply_views(r@) == seq![
                    (
                        Recipient::Creator,
                        ServerMessageView::PeerPubkey {
                            pubkey: pubkey@,
                            role: SessionRole::Host,
                        },
                    ),
                    (
                        Recipient::Requester,
                        ServerMessageView::PeerPubkey {
                            pubkey: old(self).spec_peers(code@)[0],
                            role: SessionRole::Client,
                        },
                    ),
                ]
                &&& old(self).spec_peers(code@).len() == 0 ==> reply_views(r@) == Seq::<
                    (Recipient, ServerMessageView),
                >::empty()
            },
    {
        let mut replies: Vec<(Recipient, ServerMessage)> = Vec::new();
        if !crate::room::validate_room_code(code) {
            replies.push((Recipient::Requester, ServerMessage::Error));
            proof {
                assert(reply_views(replies@) =~~= seq![
                    (Recipient::Requester, ServerMessageView::Error),
                ]);
            }
            return replies;
        }
        match self.find_room(code) {
            None => {
                let mut peers: Vec<Vec<u8>> = Vec::new();
                peers.push(pubkey);
                let ghost pk_view = peers@.map_values(|p: Vec<u8>| p@);
                self.rooms.push(RoomEntry { code: code.to_owned(), peers });
                proof {
                    assert(pk_view =~= seq![pubkey@]);
                    assert(final(self).view_rooms() =~~= old(self).view_rooms().push(
                        (code@, pk_view),
                    ));
                    assert(reply_views(replies@) =~~= Seq::<(Recipient, ServerMessageView)>::empty());
                }
                replies
            },
            Some(i) => {
                let room_len = self.rooms[i].peers.len();
                if room_len >= 2 {
                    replies.push((Recipient::Requester, ServerMessage::RoomFull));
                    proof {
                        assert(reply_views(replies@) =~~= seq![
                            (Recipient::Requester, ServerMessageView::RoomFull),
                        ]);
                    }
                    return replies;
                }
                if room_len == 1 {
                    let creator_key = copy_bytes(&self.rooms[i].peers[0]);
                    let requester_key = copy_bytes(&pubkey);
                    replies.push(
                        (
                            Recipient::Creator,
                            ServerMessage::PeerPubkey {
                                pubkey: requester_key,
                                role: SessionRole::Host,
                            },
                        ),
                    );
                    replies.push(
                        (
                            Recipient::Requester,
                            ServerMessage::PeerPubkey {
                                pubkey: creator_key,
                                role: SessionRole::Client,
                            },
                        ),
                    );
                }
                let ghost old_peers = self.rooms@[i as int].peers@.map_values(|p: Vec<u8>| p@);
                push_peer(&mut self.rooms, i, pubkey);
                proof {
                    assert(final(self).view_rooms() =~~= old(self).view_rooms().update(
                        i as int,
                        (code@, old_peers.push(pubkey@)),
                    ));
                    if old_peers.len() == 1 {
                        assert(reply_views(replies@) =~~= seq![
                            (
                                Recipient::Creator,
                                ServerMessageView::PeerPubkey {
                                    pubkey: pubkey@,
                                    role: SessionRole::Host,
                                },
                            ),
                            (
                                Recipient::Requester,
                                ServerMessageView::PeerPubkey {
                                    pubkey: old_peers[0],
                                    role: SessionRole::Client,
                                },
                            ),
                        ]);
                    } else {
                        assert(reply_views(replies@) =~~= Seq::<
                            (Recipient, ServerMessageView),
                        >::empty());
                    }
                }
                replies
            },
        }
    }

    /// `JOIN`: `ROOM_NOT_FOUND` for a missing room, `ROOM_FULL` for one
    /// already holding two peers; otherwise park the peer, answer
    /// `ROOM_JOINED`, and when the room reaches two peers tell each the
    /// other's key — the creator as `HOST`, the requester as `CLIENT`.
    pub fn join_room(&mut self, code: &str, pubkey: Vec<u8>) -> (r: Vec<(
        Recipient,
        ServerMessage,
    )>)
        requires
            old(self).wf(),
        ensures
            final(self).wf(),
            !old(self).spec_has_room(code@) ==> reply_views(r@) == seq![
                (Recipient::Requester, ServerMessageView::RoomNotFound),
            ] && final(self).view_rooms() == old(self).view_rooms(),
            old(self).spec_has_room(code@) && old(self).spec_peers(code@).len() >= 2 ==>
                reply_views(r@) == seq![(Recipient::Requester, ServerMessageView::RoomFull)]
                && final(self).view_rooms() == old(self).view_rooms(),
            old(self).spec_has_room(code@) && old(self).spec_peers(code@).len() < 2 ==> {
                &&& final(self).view_rooms() == old(self).view_rooms().update(
                    old(self).spec_room_idx(code@),
                    (code@, old(self).spec_peers(code@).push(pubkey@)),
                )
                &&& old(self).spec_peers(code@).len() == 1 ==> reply_views(r@) == seq![
                    (Recipient::Requester, ServerMessageView::RoomJoined),
                    (
                        Recipient::Creator,
                        ServerMessageView::PeerPubkey {
                            pubkey: pubkey@,
                            role: SessionRole::Host,
                        },
                    ),
                    (
                        Recipient::Requester,
                        ServerMessageView::PeerPubkey {
                            pubkey: old(self).spec_peers(code@)[0],
                            role: SessionRole::Client,
                        },
                    ),
                ]
                &&& old(self).spec_peers(code@).len() == 0 ==> reply_views(r@) == seq![
                    (Recipient::Requester, ServerMessageView::RoomJoined),
                ]
            },
    {
        let mut replies: Vec<(Recipient, ServerMessage)> = Vec::new();
        match self.find_room(code) {
            None => {
                replies.push((Recipient::Requester, ServerMessage::RoomNotFound));
                proof {
                    assert(reply_views(replies@) =~~= seq![
                        (Recipient::Requester, ServerMessageView::RoomNotFound),
                    ]);
                }
                replies
            },
            Some(i) => {
                let room_len = self.rooms[i].peers.len();
                if room_len >= 2 {
                    replies.push((Recipient::Requester, ServerMessage::RoomFull));
                    proof {
                        assert(reply_views(replies@) =~~= seq![
                            (Recipient::Requester, ServerMessageView::RoomFull),
                        ]);
                    }
                    return replies;
                }
                replies.push((Recipient::Requester, ServerMessage::RoomJoined));
                if room_len == 1 {
                    let creator_key = copy_bytes(&self.rooms[i].peers[0]);
                    let requester_key = copy_bytes(&pubkey);
                    replies.push(
                        (
                            Recipient::Creator,
                            ServerMessage::PeerPubkey {
                                pubkey: requester_key,
                                role: SessionRole::Host,
                            },
                        ),
                    );
                    replies.push(
                        (
                            Recipient::Requester,
                            ServerMessage::PeerPubkey {
                                pubkey: creator_key,
                                role: SessionRole::Client,
                            },
                        ),
                    );
                }
                let ghost old_peers = self.rooms@[i as int].peers@.map_values(|p: Vec<u8>| p@);
                push_peer(&mut self.rooms, i, pubkey);
                proof {
                    assert(final(self).view_rooms() =~~= old(self).view_rooms().update(
                        i as int,
                        (code@, old_peers.push(pubkey@)),
                    ));
                    if old_peers.len() == 1 {
                        assert(reply_views(replies@) =~~= seq![
                            (Recipient::Requester, ServerMessageView::RoomJoined),
                            (
                                Recipient::Creator,
                                ServerMessageView::PeerPubkey {
                                    pubkey: pubkey@,
                                    role: SessionRole::Host,
                                },
                            ),
                            (
                                Recipient::Requester,
                                ServerMessageView::PeerPubkey {
                                    pubkey: old_peers[0],
                                    role: SessionRole::Client,
                                },
                            ),
                        ]);
                    } else {
                        assert(reply_views(replies@) =~~= seq![
                            (Recipient::Requester, ServerMessageView::RoomJoined),
                        ]);
                    }
                }
                replies
            },
        }
    }

    /// Drop the room with this code, if any: the relay has ended or a
    /// peer disconnected.
    pub fn remove_room(&mut self, code: &str)
        requires
            old(self).wf(),
        ensures
            final(self).wf(),
            !old(self).spec_has_room(code@) ==> final(self).view_rooms() == old(
                self,
            ).view_rooms(),
            old(self).spec_has_room(code@) ==> final(self).view_rooms() == old(
                self,
            ).view_rooms().remove(old(self).spec_room_idx(code@)),
    {
        match self.find_room(code) {
            None => {},
            Some(i) => {
                self.rooms.remove(i);
                proof {
                    assert(final(self).view_rooms() =~~= old(self).view_rooms().remove(i as int));
                }
            },
        }
    }
}

/// Whether two strings hold the same characters.
pub fn str_eq(a: &str, b: &str) -> (r: bool)
    ensures
        r <==> a@ == b@,
{
    let na = a.unicode_len();
    let nb = b.unicode_len();
    if na != nb {
        return false;
    }
    let mut i: usize = 0;
    while i < na
        invariant
            0 <= i <= na,
            na == a@.len() == b@.len(),
            forall|j: int| 0 <= j < i ==> a@[j] == b@[j],
        decreases na - i,
    {
        if a.get_char(i) != b.get_char(i) {
            return false;
        }
        i = i + 1;
    }
    proof {
        assert(a@ =~= b@);
    }
    true
}

/// Append one peer key to the room at `i`.
fn push_peer(rooms: &mut Vec<RoomEntry>, i: usize, pubkey: Vec<u8>)
    requires
        i < old(rooms)@.len(),
    ensures
        rooms_view(final(rooms)@) == rooms_view(old(rooms)@).update(
            i as int,
            (
                old(rooms)@[i as int].code@,
                old(rooms)@[i as int].peers@.map_values(|p: Vec<u8>| p@).push(pubkey@),
            ),
        ),
{
    let mut entry = rooms.remove(i);
    entry.peers.push(pubkey);
    rooms.insert(i, entry);
    proof {
        assert forall|j: int| 0 <= j < rooms@.len() && j != i implies rooms@[j] == old(
            rooms,
        )@[j] by {}
        assert(rooms_view(rooms@) =~~= rooms_view(old(rooms)@).update(
            i as int,
            (
                old(rooms)@[i as int].code@,
                old(rooms)@[i as int].peers@.map_values(|p: Vec<u8>| p@).push(pubkey@),
            ),
        ));
    }
}

} // verus!
