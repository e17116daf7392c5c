//! Chat messages and their wire encoding.
//!
//! A message is a tagged sum: `Text { sender_id, body }` or
//! `System { body }`. On the wire the variant tag is a 32-bit
//! little-endian integer (`Text` = 0, `System` = 1) and each string is
//! its UTF-8 bytes behind a 64-bit little-endian length.

use vstd::prelude::*;

use vstd::bytes::{
    lemma_auto_spec_u32_to_from_le_bytes, lemma_auto_spec_u64_to_from_le_bytes,
    spec_u32_from_le_bytes, spec_u32_to_le_bytes, spec_u64_from_le_bytes, spec_u64_to_le_bytes,
    u32_from_le_bytes, u64_from_le_bytes, u32_to_le_bytes, u64_to_le_bytes,
};
use vstd::slice::{slice_subrange, slice_to_vec};
use vstd::utf8::{decode_utf8, encode_utf8, encode_utf8_decode_utf8, encode_utf8_valid_utf8, valid_utf8};

verus! {

/// A chat line from the peer, with its sender tag.
pub struct ChatText {
    pub sender_id: String,
    pub body: String,
}

/// A line the system itself produced.
pub struct SystemMessage {
    pub body: String,
}

/// One frame of the chat stream.
pub enum ChatMessage {
    Text(ChatText),
    System(SystemMessage),
}

/// The mathematical value of a chat message: its strings as character
/// sequences.
pub enum ChatMessageView {
    Text { sender_id: Seq<char>, body: Seq<char> },
    System { body: Seq<char> },
}

impl View for ChatMessage {
    type V = ChatMessageView;

    open spec fn view(&self) -> ChatMessageView {
        match self {
            ChatMessage::Text(t) => ChatMessageView::Text {
                sender_id: t.sender_id@,
                body: t.body@,
            },
            ChatMessage::System(m) => ChatMessageView::System { body: m.body@ },
        }
    }
}

/// A string's wire form: its UTF-8 length as eight little-endian bytes,
/// then its UTF-8 bytes.
pub open spec fn string_wire(s: Seq<char>) -> Seq<u8> {
    spec_u64_to_le_bytes(encode_utf8(s).len() as u64) + encode_utf8(s)
}

/// The wire bytes of a chat message.
pub open spec fn chat_message_bytes(m: ChatMessageView) -> Seq<u8> {
    match m {
        ChatMessageView::Text { sender_id, body } => spec_u32_to_le_bytes(0) + string_wire(
            sender_id,
        ) + string_wire(body),
        ChatMessageView::System { body } => spec_u32_to_le_bytes(1) + string_wire(body),
    }
}

/// The string a length-prefixed field at `pos` holds, with the position
/// after it; nothing when the buffer is too short or the bytes are not
/// UTF-8.
pub open spec fn parse_string_at(buf: Seq<u8>, pos: int) -> Option<(Seq<char>, int)> {
    if pos + 8 <= buf.len() {
        let n = spec_u64_from_le_bytes(buf.subrange(pos, pos + 8)) as int;
        if pos + 8 + n <= buf.len() && valid_utf8(buf.subrange(pos + 8, pos + 8 + n)) {
            Some((decode_utf8(buf.subrange(pos + 8, pos + 8 + n)), pos + 8 + n))
        } else {
            None
        }
    } else {
        None
    }
}

/// What a buffer parses to: the message value, or nothing for a buffer
/// that is too short, carries an unknown tag, breaks off inside a
/// string, holds non-UTF-8 string bytes, or has bytes left over.
pub open spec fn parse_chat_message(buf: Seq<u8>) -> Option<ChatMessageView> {
    if buf.len() < 4 {
        None
    } else {
        let tag = spec_u32_from_le_bytes(buf.subrange(0, 4));
        if tag == 0 {
            match parse_string_at(buf, 4) {
                Some((sender_id, pos)) => match parse_string_at(buf, pos) {
                    Some((body, end)) => if end == buf.len() {
                        Some(ChatMessageView::Text { sender_id, body })
                    } else {
                        None
                    },
                    None => None,
                },
                None => None,
            }
        } else if tag == 1 {
            match parse_string_at(buf, 4) {
                Some((body, end)) => if end == buf.len() {
                    Some(ChatMessageView::System { body })
                } else {
                    None
                },
                None => None,
            }
        } else {
            None
        }
    }
}

/// A string's wire form, as executable code.
fn string_wire_bytes(s: &str) -> (r: Vec<u8>)
    ensures
        r@ == string_wire(s@),
{
    let bytes = s.as_bytes();
    let mut out = u64_to_le_bytes(bytes.len() as u64);
    out.extend_from_slice(bytes);
    proof {
        assert(out@ =~= string_wire(s@));
    }
    out
}

/// Relies on `String::from_utf8`: succeeds exactly on valid UTF-8, and
/// the string it returns decodes those bytes.
#[verifier::external_body]
fn vec_to_string(v: Vec<u8>) -> (r: Option<String>)
    ensures
        match r {
            Some(s) => valid_utf8(v@) && s@ == decode_utf8(v@),
            None => !valid_utf8(v@),
        },
{
    String::from_utf8(v).ok()
}

impl ChatMessage {
    /// Encode for the wire.
    pub fn encode(&self) -> (r: Vec<u8>)
        ensures
            r@ == chat_message_bytes(self@),
    {
        match self {
            ChatMessage::Text(t) => {
                let mut out = u32_to_le_bytes(0);
                let mut sender = string_wire_bytes(t.sender_id.as_str());
                let mut body = string_wire_bytes(t.body.as_str());
                out.append(&mut sender);
                out.append(&mut body);
                proof {
                    assert(out@ =~= chat_message_bytes(self@));
                }
                out
            },
            ChatMessage::System(m) => {
                let mut out = u32_to_le_bytes(1);
                let mut body = string_wire_bytes(m.body.as_str());
                out.append(&mut body);
                proof {
                    assert(out@ =~= chat_message_bytes(self@));
                }
                out
            },
        }
    }

    /// Parse from the wire; nothing unless the whole buffer is one
    /// well-formed message.
    pub fn decode(buf: &[u8]) -> (r: Option<Self>)
        ensures
            match r {
                Some(m) => parse_chat_message(buf@) == Some(m@),
                None => parse_chat_message(buf@) is None,
            },
    {
        if buf.len() < 4 {
            return None;
        }
        let tag = u32_from_le_bytes(slice_subrange(buf, 0, 4));
        proof {
            assert(buf@.subrange(0, 4).subrange(0, 4) =~= buf@.subrange(0, 4));
        }
        if tag == 0 {
            let (sender_id, pos) = match decode_string_at(buf, 4) {
                Some(p) => p,
                None => {
                    return None;
                },
            };
            let (body, end) = match decode_string_at(buf, pos) {
                Some(p) => p,
                None => {
                    return None;
                },
            };
            if end != buf.len() {
                return None;
            }
            Some(ChatMessage::Text(ChatText { sender_id, body }))
        } else if tag == 1 {
            let (body, end) = match decode_string_at(buf, 4) {
                Some(p) => p,
                None => {
                    return None;
                },
            };
            if end != buf.len() {
                return None;
            }
            Some(ChatMessage::System(SystemMessage { body }))
        } else {
            None
        }
    }
}

/// Read one length-prefixed string at `pos`.
fn decode_string_at(buf: &[u8], pos: usize) -> (r: Option<(String, usize)>)
    requires
        pos <= buf@.len(),
    ensures
        match r {
            Some((s, end)) => parse_string_at(buf@, pos as int) == Some((s@, end as int)) && pos
                < end <= buf@.len(),
            None => parse_string_at(buf@, pos as int) is None,
        },
{
    if buf.len() - pos < 8 {
        return None;
    }
    let n = u64_from_le_bytes(slice_subrange(buf, pos, pos + 8));
    proof {
        assert(buf@.subrange(pos as int, pos + 8).subrange(0, 8) =~= buf@.subrange(
            pos as int,
            pos + 8,
        ));
    }
    if n > (buf.len() - pos - 8) as u64 {
        return None;
    }
    let end = pos + 8 + (n as usize);
    let bytes = slice_to_vec(slice_subrange(buf, pos + 8, end));
    match vec_to_string(bytes) {
        Some(s) => Some((s, end)),
        None => None,
    }
}

/// Parsing an encoded chat message returns the same message: the framing
/// round-trips for every pair of strings.
pub proof fn lemma_chat_message_round_trip(m: ChatMessageView)
    requires
        match m {
            ChatMessageView::Text { sender_id, body } => encode_utf8(sender_id).len() <= u64::MAX
                && encode_utf8(body).len() <= u64::MAX,
            ChatMessageView::System { body } => encode_utf8(body).len() <= u64::MAX,
        },
    ensures
        parse_chat_message(chat_message_bytes(m)) == Some(m),
{
    broadcast use encode_utf8_valid_utf8, encode_utf8_decode_utf8;

    lemma_auto_spec_u32_to_from_le_bytes();
    lemma_auto_spec_u64_to_from_le_bytes();
    let buf = chat_message_bytes(m);
    match m {
        ChatMessageView::Text { sender_id, body } => {
            let sw = string_wire(sender_id);
            let bw = string_wire(body);
            assert(buf.subrange(0, 4) =~= spec_u32_to_le_bytes(0));
            assert(buf.subrange(4, 4 + sw.len() as int) =~= sw);
            assert(buf.subrange(4 + sw.len() as int, 4 + sw.len() + bw.len() as int) =~= bw);
            lemma_parse_string_wire(buf, 4, sender_id);
            lemma_parse_string_wire(buf, 4 + sw.len() as int, body);
            assert(parse_string_at(buf, 4) == Some((sender_id, 4 + sw.len() as int)));
            assert(parse_string_at(buf, 4 + sw.len() as int) == Some((
                body,
                4 + sw.len() + bw.len() as int,
            )));
            assert(4 + sw.len() + bw.len() == buf.len());
        },
        ChatMessageView::System { body } => {
            let bw = string_wire(body);
            assert(buf.subrange(0, 4) =~= spec_u32_to_le_bytes(1));
            assert(buf.subrange(4, 4 + bw.len() as int) =~= bw);
            lemma_parse_string_wire(buf, 4, body);
            assert(parse_string_at(buf, 4) == Some((body, 4 + bw.len() as int)));
            assert(4 + bw.len() == buf.len());
        },
    }
}

/// When `string_wire(s)` sits at `pos` in `buf`, parsing at `pos` finds
/// exactly `s` and stops right after it.
proof fn lemma_parse_string_wire(buf: Seq<u8>, pos: int, s: Seq<char>)
    requires
        0 <= pos,
        encode_utf8(s).len() <= u64::MAX,
        pos + string_wire(s).len() <= buf.len(),
        buf.subrange(pos, pos + string_wire(s).len() as int) == string_wire(s),
    ensures
        parse_string_at(buf, pos) == Some((s, pos + string_wire(s).len() as int)),
{
    broadcast use encode_utf8_valid_utf8, encode_utf8_decode_utf8;

    lemma_auto_spec_u64_to_from_le_bytes();
    let w = string_wire(s);
    let e = encode_utf8(s);
    assert(buf.subrange(pos, pos + 8) =~= w.subrange(0, 8));
    assert(w.subrange(0, 8) =~= spec_u64_to_le_bytes(e.len() as u64));
    assert(spec_u64_from_le_bytes(spec_u64_to_le_bytes(e.len() as u64)) == e.len() as u64);
    assert(spec_u64_from_le_bytes(buf.subrange(pos, pos + 8)) == e.len() as u64);
    let sub = buf.subrange(pos, pos + w.len() as int);
    assert forall|i: int| 0 <= i < e.len() implies buf[pos + 8 + i] == e[i] by {
        assert(sub[8 + i] == w[8 + i]);
    }
    assert(buf.subrange(pos + 8, pos + 8 + e.len() as int) =~= e);
}

} // verus!
