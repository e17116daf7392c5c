//! The datagram voice-packet codec: a fixed little-endian layout of
//! sender id, sequence number and an opaque payload.
//!
//! Layout: `sender_id(u32 LE) ‖ seq(u32 LE) ‖ payload_len(u32 LE) ‖
//! payload`. Decoding drops (returns nothing for) a buffer shorter than
//! its header or shorter than the header plus the announced payload.

use vstd::prelude::*;

use vstd::bytes::{
    lemma_auto_spec_u32_to_from_le_bytes, spec_u32_from_le_bytes, spec_u32_to_le_bytes,
    u32_from_le_bytes, u32_to_le_bytes,
};
use vstd::slice::{slice_subrange, slice_to_vec};

use crate::jitter::{seq_succ, JitterBuffer};

verus! {

/// How many frames the receive-side reorder buffer holds before it
/// drops the oldest: a small constant trading latency for loss.
pub const JITTER_CAPACITY: usize = 3;

/// One voice frame in flight: who sent it, its sequence number, and the
/// codec's opaque bytes.
pub struct VoicePacket {
    pub sender_id: u32,
    pub seq: u32,
    pub payload: Vec<u8>,
}

/// The encoded bytes of a packet with the given fields.
pub open spec fn encode_spec(sender_id: u32, seq: u32, payload: Seq<u8>) -> Seq<u8>
    recommends
        payload.len() <= u32::MAX,
{
    spec_u32_to_le_bytes(sender_id) + spec_u32_to_le_bytes(seq) + spec_u32_to_le_bytes(
        payload.len() as u32,
    ) + payload
}

/// Whether `buf` decodes to a packet: long enough for the header and for
/// the payload length the header announces.
pub open spec fn decode_is_some(buf: Seq<u8>) -> bool {
    buf.len() >= 12 && buf.len() - 12 >= spec_u32_from_le_bytes(buf.subrange(8, 12))
}

/// The sender id `buf` announces.
pub open spec fn decode_sender_id(buf: Seq<u8>) -> u32
    recommends
        buf.len() >= 12,
{
    spec_u32_from_le_bytes(buf.subrange(0, 4))
}

/// The sequence number `buf` announces.
pub open spec fn decode_seq(buf: Seq<u8>) -> u32
    recommends
        buf.len() >= 12,
{
    spec_u32_from_le_bytes(buf.subrange(4, 8))
}

/// The payload bytes `buf` carries.
pub open spec fn decode_payload(buf: Seq<u8>) -> Seq<u8>
    recommends
        decode_is_some(buf),
{
    buf.subrange(12, 12 + spec_u32_from_le_bytes(buf.subrange(8, 12)) as int)
}

impl VoicePacket {
    /// Encode the packet for the wire.
    pub fn encode(&self) -> (r: Vec<u8>)
        requires
            self.payload@.len() <= u32::MAX,
        ensures
            r@ == encode_spec(self.sender_id, self.seq, self.payload@),
            r@.len() == 12 + self.payload@.len(),
    {
        let mut buf = u32_to_le_bytes(self.sender_id);
        let mut seq_bytes = u32_to_le_bytes(self.seq);
        let mut len_bytes = u32_to_le_bytes(self.payload.len() as u32);
        buf.append(&mut seq_bytes);
        buf.append(&mut len_bytes);
        buf.extend_from_slice(self.payload.as_slice());
        proof {
            assert(buf@ =~= encode_spec(self.sender_id, self.seq, self.payload@));
        }
        buf
    }

    /// Decode a datagram; nothing when the buffer is shorter than the
    /// header or than the payload it announces.
    pub fn decode(buf: &[u8]) -> (r: Option<Self>)
        ensures
            match r {
                Some(p) => decode_is_some(buf@) && p.sender_id == decode_sender_id(buf@) && p.seq
                    == decode_seq(buf@) && p.payload@ == decode_payload(buf@),
                None => !decode_is_some(buf@),
            },
    {
        if buf.len() < 12 {
            return None;
        }

        let sender_id = u32_from_le_bytes(slice_subrange(buf, 0, 4));
        let seq = u32_from_le_bytes(slice_subrange(buf, 4, 8));
        let len = u32_from_le_bytes(slice_subrange(buf, 8, 12));

        if buf.len() - 12 < len as usize {
            return None;
        }

        let payload = slice_to_vec(slice_subrange(buf, 12, 12 + len as usize));
        Some(Self { sender_id, seq, payload })
    }
}

/// Decoding an encoded packet returns the same record: the framing
/// round-trips for every sender id, sequence number and payload that fits
/// the length field.
pub proof fn lemma_voice_packet_round_trip(sender_id: u32, seq: u32, payload: Seq<u8>)
    requires
        payload.len() <= u32::MAX,
    ensures
        decode_is_some(encode_spec(sender_id, seq, payload)),
        decode_sender_id(encode_spec(sender_id, seq, payload)) == sender_id,
        decode_seq(encode_spec(sender_id, seq, payload)) == seq,
        decode_payload(encode_spec(sender_id, seq, payload)) == payload,
{
    lemma_auto_spec_u32_to_from_le_bytes();
    let enc = encode_spec(sender_id, seq, payload);
    assert(enc.subrange(0, 4) =~= spec_u32_to_le_bytes(sender_id));
    assert(enc.subrange(4, 8) =~= spec_u32_to_le_bytes(seq));
    assert(enc.subrange(8, 12) =~= spec_u32_to_le_bytes(payload.len() as u32));
    assert(enc.subrange(12, 12 + payload.len() as int) =~= payload);
}

/// The sending half of the voice path: a sender id and a wrapping
/// sequence counter.
pub struct VoiceSender {
    pub sender_id: u32,
    seq: u32,
}

impl VoiceSender {
    /// The sender id stamped on every packet.
    pub closed spec fn spec_sender_id(self) -> u32 {
        self.sender_id
    }

    /// The sequence number the next packet will carry.
    pub closed spec fn spec_seq(self) -> u32 {
        self.seq
    }

    /// A fresh sender starting at sequence zero.
    pub fn new(sender_id: u32) -> (s: Self)
        ensures
            s.spec_sender_id() == sender_id,
            s.spec_seq() == 0,
    {
        Self { sender_id, seq: 0 }
    }

    /// The datagram for one payload: the packet at the current sequence,
    /// which then advances (wrapping).
    pub fn next_packet(&mut self, payload: &Vec<u8>) -> (r: Vec<u8>)
        requires
            payload@.len() <= u32::MAX,
        ensures
            r@ == encode_spec(old(self).spec_sender_id(), old(self).spec_seq(), payload@),
            final(self).spec_seq() == seq_succ(old(self).spec_seq()),
            final(self).spec_sender_id() == old(self).spec_sender_id(),
    {
        let pkt = VoicePacket { sender_id: self.sender_id, seq: self.seq, payload: crate::bytes::copy_bytes(payload) };
        let out = pkt.encode();
        if self.seq == u32::MAX {
            self.seq = 0;
        } else {
            self.seq = self.seq + 1;
        }
        out
    }
}

/// The buffer the first accepted packet creates: seeded at that
/// packet's sequence, holding exactly its payload.
pub open spec fn freshly_seeded(b1: JitterBuffer, data: Seq<u8>) -> bool {
    &&& b1.spec_next() == decode_seq(data)
    &&& b1.spec_capacity() == JITTER_CAPACITY
    &&& b1.spec_keys() == seq![decode_seq(data)]
    &&& b1.spec_frame(decode_seq(data)) == decode_payload(data)
}

/// How pushing the packet in `data` turns `seeded` into `b1`: the push
/// semantics of the jitter buffer, with the packet's sequence and
/// payload.
pub open spec fn accepted_into(seeded: JitterBuffer, b1: JitterBuffer, data: Seq<u8>) -> bool {
    &&& b1.spec_next() == seeded.spec_next()
    &&& b1.spec_capacity() == seeded.spec_capacity()
    &&& (decode_seq(data) >= seeded.spec_next() ==> b1.spec_keys() == crate::jitter::evict_spec(
        crate::jitter::insert_key_spec(seeded.spec_keys(), decode_seq(data)),
        seeded.spec_capacity(),
    ))
    &&& (decode_seq(data) < seeded.spec_next() ==> b1.spec_keys() == seeded.spec_keys())
    &&& forall|k: u32|
        b1.spec_has(k) ==> b1.spec_frame(k) == (if k == decode_seq(data) && decode_seq(data)
            >= seeded.spec_next() {
            decode_payload(data)
        } else {
            seeded.spec_frame(k)
        })
}

/// The receiving half of the voice path: drops its own packets, seeds a
/// jitter buffer from the first accepted one, and feeds it packets.
pub struct VoiceReceiver {
    pub sender_id: u32,
    jitter: Option<JitterBuffer>,
}

impl VoiceReceiver {
    /// Our own sender id, whose packets are dropped.
    pub closed spec fn spec_sender_id(self) -> u32 {
        self.sender_id
    }

    /// The jitter buffer, once the first packet seeded it.
    pub closed spec fn spec_jitter(self) -> Option<JitterBuffer> {
        self.jitter
    }

    /// The buffer, when there is one, is well formed with the fixed
    /// capacity.
    pub open spec fn wf(self) -> bool {
        match self.spec_jitter() {
            Some(b) => b.wf() && b.spec_capacity() == JITTER_CAPACITY,
            None => true,
        }
    }

    /// A fresh receiver for our own sender id, with no buffer yet.
    pub fn new(sender_id: u32) -> (s: Self)
        ensures
            s.wf(),
            s.spec_sender_id() == sender_id,
            s.spec_jitter() is None,
    {
        Self { sender_id, jitter: None }
    }

    /// Take one datagram: drop it when it does not decode or carries
    /// our own sender id (loopback protection); otherwise seed the
    /// buffer at its sequence if none exists yet, and push its payload.
    pub fn accept_datagram(&mut self, data: &[u8])
        requires
            old(self).wf(),
        ensures
            final(self).wf(),
            final(self).spec_sender_id() == old(self).spec_sender_id(),
            !decode_is_some(data@) ==> *final(self) == *old(self),
            decode_is_some(data@) && decode_sender_id(data@) == old(self).spec_sender_id()
                ==> *final(self) == *old(self),
            decode_is_some(data@) && decode_sender_id(data@) != old(self).spec_sender_id()
                ==> final(self).spec_jitter() is Some && (match old(self).spec_jitter() {
                Some(b) => accepted_into(b, final(self).spec_jitter().unwrap(), data@),
                None => freshly_seeded(final(self).spec_jitter().unwrap(), data@),
            }),
    {
        let pkt = match VoicePacket::decode(data) {
            Some(p) => p,
            None => {
                return ;
            },
        };
        if pkt.sender_id == self.sender_id {
            return ;
        }
        let seq = pkt.seq;
        let ghost pre = *self;
        let ghost payload_view = pkt.payload@;
        match &mut self.jitter {
            Some(b) => {
                b.push(seq, pkt.payload);
            },
            None => {
                let mut b = JitterBuffer::new(seq, JITTER_CAPACITY);
                proof {
                    assert(b.spec_keys() =~= Seq::<u32>::empty());
                }
                b.push(seq, pkt.payload);
                self.jitter = Some(b);
            },
        }
        proof {
            let b1 = self.spec_jitter().unwrap();
            if pre.spec_jitter() is None {
                assert(crate::jitter::insert_key_spec(Seq::<u32>::empty(), seq) =~= seq![seq]);
                assert(b1.spec_keys() == seq![seq]);
                assert(b1.spec_keys()[0] == seq);
                assert(b1.spec_has(seq));
                assert(b1.spec_frame(seq) == payload_view);
            }
        }
    }

    /// Hand out the next in-order frame, if it has arrived.
    pub fn poll_frame(&mut self) -> (r: Option<Vec<u8>>)
        requires
            old(self).wf(),
        ensures
            final(self).wf(),
            final(self).spec_sender_id() == old(self).spec_sender_id(),
            old(self).spec_jitter() is None ==> r is None && *final(self) == *old(self),
            old(self).spec_jitter() is Some ==> {
                let b0 = old(self).spec_jitter().unwrap();
                let b1 = final(self).spec_jitter().unwrap();
                &&& final(self).spec_jitter() is Some
                &&& b0.spec_has(b0.spec_next()) ==> r is Some && r.unwrap()@ == b0.spec_frame(
                    b0.spec_next(),
                ) && b1.spec_keys() == b0.spec_keys().drop_first() && b1.spec_next() == seq_succ(
                    b0.spec_next(),
                )
                &&& !b0.spec_has(b0.spec_next()) ==> r is None && b1 == b0
            },
    {
        match &mut self.jitter {
            Some(b) => b.pop(),
            None => None,
        }
    }
}

} // verus!
