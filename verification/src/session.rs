//! The AEAD session: ChaCha20-Poly1305 with monotonic counter nonces and
//! replay rejection.
//!
//! A frame is `ctr_be(8) ‖ ciphertext_with_tag`. The nonce is four zero
//! bytes followed by the counter, big-endian; the associated data is the
//! counter's big-endian bytes, which binds the header counter to the
//! ciphertext. A received counter below the receive counter is rejected as
//! a replay; a successful decrypt advances the receive counter to one past
//! the received counter.

use vstd::prelude::*;

use crate::bytes::{
    lemma_u64_to_from_be_bytes, spec_u64_from_be_bytes, spec_u64_to_be_bytes, u64_from_be_bytes,
    u64_to_be_bytes,
};
use crate::crypto::{aead_open, aead_open_of, aead_seal, aead_seal_of};

verus! {

/// Which side of the handshake this session belongs to.
#[derive(Debug, Clone, Copy, PartialEq, Eq, Structural)]
pub enum SessionRole {
    Client,
    Host,
}

/// Why a frame was rejected.
#[derive(Debug, Clone, Copy, PartialEq, Eq, Structural)]
pub enum SecureSessionError {
    DecryptionFailed,
    ReplayDetected,
    MalformedPacket,
}

/// The 12-byte AEAD nonce for a counter: four zero bytes, then the counter
/// big-endian.
pub open spec fn nonce_of(ctr: u64) -> Seq<u8> {
    seq![0u8, 0u8, 0u8, 0u8] + spec_u64_to_be_bytes(ctr)
}

/// The frame that encrypting `pt` at counter `ctr` under `key` produces.
pub open spec fn encrypt_frame_of(key: Seq<u8>, ctr: u64, pt: Seq<u8>) -> Seq<u8> {
    spec_u64_to_be_bytes(ctr) + aead_seal_of(key, nonce_of(ctr), spec_u64_to_be_bytes(ctr), pt)
}

/// What decrypting `frame` returns when the receive counter is `recv_ctr`:
/// `MalformedPacket` for a frame shorter than its counter header or one
/// whose counter cannot be advanced past, `ReplayDetected` for a counter
/// already seen, otherwise the cipher's verdict.
pub open spec fn decrypt_result_of(key: Seq<u8>, recv_ctr: u64, frame: Seq<u8>) -> Result<
    Seq<u8>,
    SecureSessionError,
> {
    if frame.len() < 8 {
        Err(SecureSessionError::MalformedPacket)
    } else {
        let ctr = spec_u64_from_be_bytes(frame.subrange(0, 8));
        if ctr == u64::MAX {
            Err(SecureSessionError::MalformedPacket)
        } else if ctr < recv_ctr {
            Err(SecureSessionError::ReplayDetected)
        } else {
            match aead_open_of(key, nonce_of(ctr), spec_u64_to_be_bytes(ctr), frame.skip(8)) {
                Some(p) => Ok(p),
                None => Err(SecureSessionError::DecryptionFailed),
            }
        }
    }
}

/// The receive counter after decrypting `frame`: one past the received
/// counter on success, unchanged on any rejection.
pub open spec fn decrypt_next_ctr_of(key: Seq<u8>, recv_ctr: u64, frame: Seq<u8>) -> u64 {
    if decrypt_result_of(key, recv_ctr, frame) is Ok {
        (spec_u64_from_be_bytes(frame.subrange(0, 8)) + 1) as u64
    } else {
        recv_ctr
    }
}

/// One direction-agnostic AEAD session: role, the peer's identity key, the
/// symmetric key, and the two counters.
pub struct SecureSession {
    role: SessionRole,
    peer_identity: [u8; 32],
    key: [u8; 32],
    send_ctr: u64,
    recv_ctr: u64,
}

impl SecureSession {
    /// The session's role.
    pub closed spec fn spec_role(self) -> SessionRole {
        self.role
    }

    /// The peer's 32 identity-key bytes.
    pub closed spec fn spec_peer(self) -> Seq<u8> {
        self.peer_identity@
    }

    /// The 32 symmetric-key bytes.
    pub closed spec fn spec_key(self) -> Seq<u8> {
        self.key@
    }

    /// The counter the next encrypted frame will carry.
    pub closed spec fn spec_send_ctr(self) -> u64 {
        self.send_ctr
    }

    /// The lowest counter the next received frame may carry.
    pub closed spec fn spec_recv_ctr(self) -> u64 {
        self.recv_ctr
    }

    /// A fresh session: both counters at zero.
    pub fn new(role: SessionRole, session_key: [u8; 32], peer_identity: [u8; 32]) -> (s: Self)
        ensures
            s.spec_role() == role,
            s.spec_peer() == peer_identity@,
            s.spec_key() == session_key@,
            s.spec_send_ctr() == 0,
            s.spec_recv_ctr() == 0,
    {
        Self { role, peer_identity, key: session_key, send_ctr: 0, recv_ctr: 0 }
    }

    /// Encrypt one plaintext at the current send counter and advance it.
    /// The result is the counter's eight big-endian bytes followed by the
    /// ciphertext with its tag; decrypting that ciphertext part with the
    /// same key and counter yields the plaintext back.
    pub fn encrypt(&mut self, plaintext: &[u8]) -> (r: Vec<u8>)
        requires
            old(self).spec_send_ctr() < u64::MAX,
            plaintext@.len() <= 0x1000_0000,
        ensures
            r@ == encrypt_frame_of(old(self).spec_key(), old(self).spec_send_ctr(), plaintext@),
            r@.len() == plaintext@.len() + 24,
            aead_open_of(
                old(self).spec_key(),
                nonce_of(old(self).spec_send_ctr()),
                spec_u64_to_be_bytes(old(self).spec_send_ctr()),
                r@.skip(8),
            ) == Some(plaintext@),
            final(self).spec_send_ctr() == old(self).spec_send_ctr() + 1,
            final(self).spec_recv_ctr() == old(self).spec_recv_ctr(),
            final(self).spec_key() == old(self).spec_key(),
            final(self).spec_role() == old(self).spec_role(),
            final(self).spec_peer() == old(self).spec_peer(),
    {
        let ctr = self.send_ctr;
        self.send_ctr = self.send_ctr + 1;

        let nonce = nonce_from_ctr(ctr);
        let aad = u64_to_be_bytes(ctr);
        let mut sealed = aead_seal(&self.key, &nonce, &aad, plaintext);

        let mut out = u64_to_be_bytes(ctr);
        out.append(&mut sealed);
        proof {
            assert(out@ =~= encrypt_frame_of(self.key@, ctr, plaintext@));
            assert(out@.skip(8) =~= aead_seal_of(
                self.key@,
                nonce_of(ctr),
                spec_u64_to_be_bytes(ctr),
                plaintext@,
            ));
        }
        out
    }

    /// Decrypt one frame. Rejects a short frame or an exhausted counter as
    /// `MalformedPacket`, an already-seen counter as `ReplayDetected`, a
    /// bad tag as `DecryptionFailed`; on success returns the plaintext and
    /// advances the receive counter to one past the frame's counter.
    pub fn decrypt(&mut self, data: &[u8]) -> (r: Result<Vec<u8>, SecureSessionError>)
        ensures
            match r {
                Ok(p) => decrypt_result_of(old(self).spec_key(), old(self).spec_recv_ctr(), data@)
                    == Ok::<Seq<u8>, SecureSessionError>(p@),
                Err(e) => decrypt_result_of(old(self).spec_key(), old(self).spec_recv_ctr(), data@)
                    == Err::<Seq<u8>, SecureSessionError>(e),
            },
            final(self).spec_recv_ctr() == decrypt_next_ctr_of(
                old(self).spec_key(),
                old(self).spec_recv_ctr(),
                data@,
            ),
            final(self).spec_send_ctr() == old(self).spec_send_ctr(),
            final(self).spec_key() == old(self).spec_key(),
            final(self).spec_role() == old(self).spec_role(),
            final(self).spec_peer() == old(self).spec_peer(),
    {
        if data.len() < 8 {
            return Err(SecureSessionError::MalformedPacket);
        }
        let ctr = u64_from_be_bytes(data);
        if ctr == u64::MAX {
            return Err(SecureSessionError::MalformedPacket);
        }
        if ctr < self.recv_ctr {
            return Err(SecureSessionError::ReplayDetected);
        }

        let nonce = nonce_from_ctr(ctr);
        let aad = u64_to_be_bytes(ctr);

        let mut ciphertext: Vec<u8> = Vec::new();
        let mut i: usize = 8;
        while i < data.len()
            invariant
                8 <= i <= data@.len(),
                ciphertext@ =~= data@.subrange(8, i as int),
            decreases data@.len() - i,
        {
            ciphertext.push(data[i]);
            i = i + 1;
        }
        proof {
            assert(ciphertext@ =~= data@.skip(8));
        }

        match aead_open(&self.key, &nonce, &aad, ciphertext.as_slice()) {
            Some(plaintext) => {
                self.recv_ctr = ctr + 1;
                Ok(plaintext)
            },
            None => Err(SecureSessionError::DecryptionFailed),
        }
    }

    /// The counter the next encrypted frame will carry.
    pub fn send_counter(&self) -> (r: u64)
        ensures
            r == self.spec_send_ctr(),
    {
        self.send_ctr
    }

    /// The lowest counter the next received frame may carry.
    pub fn recv_counter(&self) -> (r: u64)
        ensures
            r == self.spec_recv_ctr(),
    {
        self.recv_ctr
    }

    /// The session's role.
    pub fn role(&self) -> (r: SessionRole)
        ensures
            r == self.spec_role(),
    {
        self.role
    }

    /// The peer identity key this session was created with.
    pub fn peer_identity(&self) -> (r: &[u8; 32])
        ensures
            r@ == self.spec_peer(),
    {
        &self.peer_identity
    }
}

/// The 12-byte nonce for a counter, as executable code.
fn nonce_from_ctr(ctr: u64) -> (r: Vec<u8>)
    ensures
        r@ == nonce_of(ctr),
        r@.len() == 12,
{
    let mut nonce: Vec<u8> = Vec::new();
    nonce.push(0);
    nonce.push(0);
    nonce.push(0);
    nonce.push(0);
    let mut tail = u64_to_be_bytes(ctr);
    nonce.append(&mut tail);
    proof {
        assert(nonce@ =~= nonce_of(ctr));
    }
    nonce
}

/// Distinct counters give distinct nonces: under one key, no nonce is
/// ever reused while the send counter only moves forward.
pub proof fn lemma_nonce_injective(a: u64, b: u64)
    requires
        a != b,
    ensures
        nonce_of(a) != nonce_of(b),
{
    lemma_u64_to_from_be_bytes();
    if nonce_of(a) == nonce_of(b) {
        assert(spec_u64_to_be_bytes(a) =~= nonce_of(a).skip(4));
        assert(spec_u64_to_be_bytes(b) =~= nonce_of(b).skip(4));
        assert(spec_u64_from_be_bytes(spec_u64_to_be_bytes(a)) == a);
        assert(spec_u64_from_be_bytes(spec_u64_to_be_bytes(b)) == b);
    }
}

/// Decrypting what `encrypt` framed yields the plaintext back, whenever
/// the cipher inverts its own sealing (which each call of the sealing
/// primitive witnesses) and the receive counter has not yet passed the
/// frame's counter.
pub proof fn lemma_encrypt_decrypt_round_trip(key: Seq<u8>, ctr: u64, recv_ctr: u64, pt: Seq<u8>)
    requires
        recv_ctr <= ctr < u64::MAX,
    ensures
        aead_open_of(key, nonce_of(ctr), spec_u64_to_be_bytes(ctr), aead_seal_of(
            key,
            nonce_of(ctr),
            spec_u64_to_be_bytes(ctr),
            pt,
        )) == Some(pt) ==> decrypt_result_of(key, recv_ctr, encrypt_frame_of(key, ctr, pt)) == Ok::<
            Seq<u8>,
            SecureSessionError,
        >(pt) && decrypt_next_ctr_of(key, recv_ctr, encrypt_frame_of(key, ctr, pt)) == ctr + 1,
{
    lemma_u64_to_from_be_bytes();
    let frame = encrypt_frame_of(key, ctr, pt);
    assert(frame.subrange(0, 8) =~= spec_u64_to_be_bytes(ctr));
    assert(frame.skip(8) =~= aead_seal_of(key, nonce_of(ctr), spec_u64_to_be_bytes(ctr), pt));
}

/// After a frame's counter has been consumed, that frame and every frame
/// carrying a counter at or below it are rejected as replays: the second
/// delivery of `frame_n` and any delivery of `frame_m` with `m < n` both
/// answer `ReplayDetected`.
pub proof fn lemma_replay_rejected(key: Seq<u8>, recv_ctr: u64, frame: Seq<u8>)
    requires
        frame.len() >= 8,
        spec_u64_from_be_bytes(frame.subrange(0, 8)) < recv_ctr,
    ensures
        decrypt_result_of(key, recv_ctr, frame) == Err::<Seq<u8>, SecureSessionError>(
            SecureSessionError::ReplayDetected,
        ),
{
}

/// A successful decrypt pins the next receive counter one past the frame's
/// counter, so the same frame offered again is a replay.
pub proof fn lemma_decrypt_success_blocks_replay(key: Seq<u8>, recv_ctr: u64, frame: Seq<u8>)
    requires
        decrypt_result_of(key, recv_ctr, frame) is Ok,
    ensures
        decrypt_result_of(key, decrypt_next_ctr_of(key, recv_ctr, frame), frame) == Err::<
            Seq<u8>,
            SecureSessionError,
        >(SecureSessionError::ReplayDetected),
{
}

} // verus!
