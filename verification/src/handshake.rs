//! The three-message mutual-authentication key exchange.
//!
//! `ClientHello → HostChallenge → ClientResponse`. Each side holds an
//! X25519 ephemeral secret; the host signs
//! `nonce_c ‖ nonce_h ‖ client_eph ‖ host_eph` and the client signs
//! `nonce_h ‖ nonce_c ‖ host_eph ‖ client_eph` with their Ed25519
//! identity keys. Both sides derive
//! `HKDF-SHA256(ikm = DH shared secret, info = nonce_c ‖ nonce_h)`.
//!
//! On the wire each fixed byte array is emitted verbatim in declaration
//! order; the 64-byte signatures carry a 64-bit little-endian length
//! prefix.

use vstd::prelude::*;

use vstd::bytes::{lemma_auto_spec_u64_to_from_le_bytes, spec_u64_to_le_bytes, u64_from_le_bytes, u64_to_le_bytes};
use vstd::slice::{slice_subrange, slice_to_vec};

use crate::crypto::{
    derive_session_key, ed25519_pub_of, ed25519_public_key, ed25519_sig_of, ed25519_sign,
    ed25519_verifies, ed25519_verify, random_nonce, session_key_of, vec_to_array, x25519_pub_of,
    x25519_public_key, x25519_shared_of, x25519_shared_secret,
};

verus! {

/// Why a handshake was aborted.
#[derive(Debug, Clone, Copy, PartialEq, Eq, Structural)]
pub enum HandshakeError {
    /// The identity key in the message is not the one the rendezvous
    /// announced.
    IdentityMismatch,
    /// The peer's signature does not verify.
    BadSignature,
}

/// The first message: the client's identity key, ephemeral key and nonce.
pub struct ClientHello {
    pub client_id: [u8; 32],
    pub client_ephemeral_pub: [u8; 32],
    pub nonce_c: [u8; 32],
}

/// The second message: the host's identity key, ephemeral key, nonce and
/// transcript signature.
pub struct HostChallenge {
    pub host_id: [u8; 32],
    pub host_ephemeral_pub: [u8; 32],
    pub nonce_h: [u8; 32],
    pub sig_h: [u8; 64],
}

/// The third message: the client's transcript signature.
pub struct ClientResponse {
    pub sig_c: [u8; 64],
}

/// The signed transcript: two nonces, then two ephemeral keys.
pub open spec fn transcript(n1: Seq<u8>, n2: Seq<u8>, e1: Seq<u8>, e2: Seq<u8>) -> Seq<u8> {
    n1 + n2 + e1 + e2
}

/// The wire bytes of a `ClientHello`.
pub open spec fn client_hello_bytes(h: ClientHello) -> Seq<u8> {
    h.client_id@ + h.client_ephemeral_pub@ + h.nonce_c@
}

/// The wire bytes of a `HostChallenge`.
pub open spec fn host_challenge_bytes(c: HostChallenge) -> Seq<u8> {
    c.host_id@ + c.host_ephemeral_pub@ + c.nonce_h@ + spec_u64_to_le_bytes(64) + c.sig_h@
}

/// The wire bytes of a `ClientResponse`.
pub open spec fn client_response_bytes(r: ClientResponse) -> Seq<u8> {
    spec_u64_to_le_bytes(64) + r.sig_c@
}

impl ClientHello {
    /// Encode for the wire: 96 bytes.
    pub fn encode(&self) -> (r: Vec<u8>)
        ensures
            r@ == client_hello_bytes(*self),
            r@.len() == 96,
    {
        let mut out: Vec<u8> = Vec::new();
        out.extend_from_slice(self.client_id.as_slice());
        out.extend_from_slice(self.client_ephemeral_pub.as_slice());
        out.extend_from_slice(self.nonce_c.as_slice());
        proof {
            assert(out@ =~= client_hello_bytes(*self));
        }
        out
    }

    /// Parse from the wire; nothing unless the length is exactly right.
    pub fn decode(buf: &[u8]) -> (r: Option<Self>)
        ensures
            match r {
                Some(h) => buf@.len() == 96 && h.client_id@ == buf@.subrange(0, 32)
                    && h.client_ephemeral_pub@ == buf@.subrange(32, 64) && h.nonce_c@
                    == buf@.subrange(64, 96),
                None => buf@.len() != 96,
            },
    {
        if buf.len() != 96 {
            return None;
        }
        let client_id: [u8; 32] = vec_to_array(slice_to_vec(slice_subrange(buf, 0, 32)));
        let client_ephemeral_pub: [u8; 32] = vec_to_array(slice_to_vec(slice_subrange(buf, 32, 64)));
        let nonce_c: [u8; 32] = vec_to_array(slice_to_vec(slice_subrange(buf, 64, 96)));
        Some(Self { client_id, client_ephemeral_pub, nonce_c })
    }
}

impl HostChallenge {
    /// Encode for the wire: 168 bytes, the signature length-prefixed.
    pub fn encode(&self) -> (r: Vec<u8>)
        ensures
            r@ == host_challenge_bytes(*self),
            r@.len() == 168,
    {
        let mut out: Vec<u8> = Vec::new();
        out.extend_from_slice(self.host_id.as_slice());
        out.extend_from_slice(self.host_ephemeral_pub.as_slice());
        out.extend_from_slice(self.nonce_h.as_slice());
        let mut len_bytes = u64_to_le_bytes(64);
        out.append(&mut len_bytes);
        out.extend_from_slice(self.sig_h.as_slice());
        proof {
            lemma_auto_spec_u64_to_from_le_bytes();
            assert(out@ =~= host_challenge_bytes(*self));
        }
        out
    }

    /// Parse from the wire; nothing unless the length is exactly right
    /// and the signature's length prefix reads 64.
    pub fn decode(buf: &[u8]) -> (r: Option<Self>)
        ensures
            match r {
                Some(c) => buf@.len() == 168 && buf@.subrange(96, 104) == spec_u64_to_le_bytes(64)
                    && c.host_id@ == buf@.subrange(0, 32) && c.host_ephemeral_pub@
                    == buf@.subrange(32, 64) && c.nonce_h@ == buf@.subrange(64, 96) && c.sig_h@
                    == buf@.subrange(104, 168),
                None => buf@.len() != 168 || buf@.subrange(96, 104) != spec_u64_to_le_bytes(64),
            },
    {
        if buf.len() != 168 {
            return None;
        }
        let sig_len = u64_from_le_bytes(slice_subrange(buf, 96, 104));
        proof {
            lemma_auto_spec_u64_to_from_le_bytes();
            assert(buf@.subrange(96, 104).subrange(0, 8) =~= buf@.subrange(96, 104));
        }
        if sig_len != 64 {
            return None;
        }
        let host_id: [u8; 32] = vec_to_array(slice_to_vec(slice_subrange(buf, 0, 32)));
        let host_ephemeral_pub: [u8; 32] = vec_to_array(slice_to_vec(slice_subrange(buf, 32, 64)));
        let nonce_h: [u8; 32] = vec_to_array(slice_to_vec(slice_subrange(buf, 64, 96)));
        let sig_h: [u8; 64] = vec_to_array(slice_to_vec(slice_subrange(buf, 104, 168)));
        Some(Self { host_id, host_ephemeral_pub, nonce_h, sig_h })
    }
}

impl ClientResponse {
    /// Encode for the wire: 72 bytes, the signature length-prefixed.
    pub fn encode(&self) -> (r: Vec<u8>)
        ensures
            r@ == client_response_bytes(*self),
            r@.len() == 72,
    {
        let mut out = u64_to_le_bytes(64);
        out.extend_from_slice(self.sig_c.as_slice());
        proof {
            lemma_auto_spec_u64_to_from_le_bytes();
            assert(out@ =~= client_response_bytes(*self));
        }
        out
    }

    /// Parse from the wire; nothing unless the length is exactly right
    /// and the signature's length prefix reads 64.
    pub fn decode(buf: &[u8]) -> (r: Option<Self>)
        ensures
            match r {
                Some(c) => buf@.len() == 72 && buf@.subrange(0, 8) == spec_u64_to_le_bytes(64)
                    && c.sig_c@ == buf@.subrange(8, 72),
                None => buf@.len() != 72 || buf@.subrange(0, 8) != spec_u64_to_le_bytes(64),
            },
    {
        if buf.len() != 72 {
            return None;
        }
        let sig_len = u64_from_le_bytes(slice_subrange(buf, 0, 8));
        proof {
            lemma_auto_spec_u64_to_from_le_bytes();
            assert(buf@.subrange(0, 8).subrange(0, 8) =~= buf@.subrange(0, 8));
        }
        if sig_len != 64 {
            return None;
        }
        let sig_c: [u8; 64] = vec_to_array(slice_to_vec(slice_subrange(buf, 8, 72)));
        Some(Self { sig_c })
    }
}

/// Encoding a `ClientHello` and parsing it back recovers every field.
pub proof fn lemma_client_hello_round_trip(h: ClientHello)
    ensures
        client_hello_bytes(h).len() == 96,
        client_hello_bytes(h).subrange(0, 32) == h.client_id@,
        client_hello_bytes(h).subrange(32, 64) == h.client_ephemeral_pub@,
        client_hello_bytes(h).subrange(64, 96) == h.nonce_c@,
{
    let b = client_hello_bytes(h);
    assert(b.subrange(0, 32) =~= h.client_id@);
    assert(b.subrange(32, 64) =~= h.client_ephemeral_pub@);
    assert(b.subrange(64, 96) =~= h.nonce_c@);
}

/// Encoding a `HostChallenge` and parsing it back recovers every field.
pub proof fn lemma_host_challenge_round_trip(c: HostChallenge)
    ensures
        host_challenge_bytes(c).len() == 168,
        host_challenge_bytes(c).subrange(0, 32) == c.host_id@,
        host_challenge_bytes(c).subrange(32, 64) == c.host_ephemeral_pub@,
        host_challenge_bytes(c).subrange(64, 96) == c.nonce_h@,
        host_challenge_bytes(c).subrange(96, 104) == spec_u64_to_le_bytes(64),
        host_challenge_bytes(c).subrange(104, 168) == c.sig_h@,
{
    lemma_auto_spec_u64_to_from_le_bytes();
    let b = host_challenge_bytes(c);
    assert(b.subrange(0, 32) =~= c.host_id@);
    assert(b.subrange(32, 64) =~= c.host_ephemeral_pub@);
    assert(b.subrange(64, 96) =~= c.nonce_h@);
    assert(b.subrange(96, 104) =~= spec_u64_to_le_bytes(64));
    assert(b.subrange(104, 168) =~= c.sig_h@);
}

/// Encoding a `ClientResponse` and parsing it back recovers the field.
pub proof fn lemma_client_response_round_trip(r: ClientResponse)
    ensures
        client_response_bytes(r).len() == 72,
        client_response_bytes(r).subrange(0, 8) == spec_u64_to_le_bytes(64),
        client_response_bytes(r).subrange(8, 72) == r.sig_c@,
{
    lemma_auto_spec_u64_to_from_le_bytes();
    let b = client_response_bytes(r);
    assert(b.subrange(0, 8) =~= spec_u64_to_le_bytes(64));
    assert(b.subrange(8, 72) =~= r.sig_c@);
}

/// The four 32-byte parts of a transcript, concatenated.
fn transcript_bytes(n1: &[u8; 32], n2: &[u8; 32], e1: &[u8; 32], e2: &[u8; 32]) -> (r: Vec<u8>)
    ensures
        r@ == transcript(n1@, n2@, e1@, e2@),
{
    let mut out: Vec<u8> = Vec::new();
    out.extend_from_slice(n1.as_slice());
    out.extend_from_slice(n2.as_slice());
    out.extend_from_slice(e1.as_slice());
    out.extend_from_slice(e2.as_slice());
    proof {
        assert(out@ =~= transcript(n1@, n2@, e1@, e2@));
    }
    out
}

/// A bare X25519 ephemeral exchange: a fresh secret and its public key.
pub struct Handshake {
    secret: [u8; 32],
    pub public: [u8; 32],
}

impl Handshake {
    /// The ephemeral secret.
    pub closed spec fn spec_secret(self) -> Seq<u8> {
        self.secret@
    }

    /// The `public` field's bytes.
    pub closed spec fn spec_public(self) -> Seq<u8> {
        self.public@
    }

    /// The public key matches the secret.
    pub open spec fn wf(self) -> bool {
        self.spec_public() == x25519_pub_of(self.spec_secret())
    }

    /// A fresh ephemeral keypair.
    pub fn new() -> (s: Self)
        ensures
            s.wf(),
    {
        let secret = random_nonce();
        let public = x25519_public_key(&secret);
        Self { secret, public }
    }

    /// The shared secret with a peer's ephemeral public key. When that
    /// key came from some secret `b`, the result equals what the peer
    /// computes from `b` and this side's public key.
    pub fn derive_shared(self, peer_pub: &[u8; 32]) -> (r: [u8; 32])
        ensures
            r@ == x25519_shared_of(self.spec_secret(), peer_pub@),
            forall|b: Seq<u8>|
                peer_pub@ == #[trigger] x25519_pub_of(b) ==> r@ == x25519_shared_of(
                    b,
                    x25519_pub_of(self.spec_secret()),
                ),
    {
        x25519_shared_secret(&self.secret, peer_pub)
    }
}

/// The client's handshake state: identity secret, ephemeral keypair, and
/// the client nonce.
pub struct ClientHandshake {
    pub identity: [u8; 32],
    pub eph_secret: [u8; 32],
    pub eph_public: [u8; 32],
    pub nonce_c: [u8; 32],
}

impl ClientHandshake {
    /// The ephemeral public key matches the ephemeral secret.
    pub open spec fn wf(self) -> bool {
        self.eph_public@ == x25519_pub_of(self.eph_secret@)
    }

    /// Fresh client state for one handshake under the given identity
    /// secret key.
    pub fn new(identity: [u8; 32]) -> (s: Self)
        ensures
            s.wf(),
            s.identity@ == identity@,
    {
        let eph_secret = random_nonce();
        let eph_public = x25519_public_key(&eph_secret);
        Self { identity, eph_secret, eph_public, nonce_c: random_nonce() }
    }

    /// The `ClientHello` this state opens with.
    pub fn hello(&self) -> (h: ClientHello)
        ensures
            h.client_id@ == ed25519_pub_of(self.identity@),
            h.client_ephemeral_pub == self.eph_public,
            h.nonce_c == self.nonce_c,
    {
        ClientHello {
            client_id: ed25519_public_key(&self.identity),
            client_ephemeral_pub: self.eph_public,
            nonce_c: self.nonce_c,
        }
    }

    /// Check the host's challenge against the identity key the rendezvous
    /// announced, and on success derive the session key and sign the
    /// response transcript. Fails with `IdentityMismatch` when the
    /// challenge carries another identity key, with `BadSignature` when
    /// the host's transcript signature does not verify.
    pub fn handle_challenge(self, challenge: &HostChallenge, expected_host_id: &[u8; 32]) -> (r:
        Result<([u8; 32], ClientResponse), HandshakeError>)
        requires
            self.wf(),
        ensures
            r is Ok <==> challenge.host_id@ == expected_host_id@ && ed25519_verifies(
                expected_host_id@,
                transcript(
                    self.nonce_c@,
                    challenge.nonce_h@,
                    self.eph_public@,
                    challenge.host_ephemeral_pub@,
                ),
                challenge.sig_h@,
            ),
            r matches Err(HandshakeError::IdentityMismatch) <==> challenge.host_id@
                != expected_host_id@,
            match r {
                Ok((key, resp)) => {
                    &&& key@ == session_key_of(
                        x25519_shared_of(self.eph_secret@, challenge.host_ephemeral_pub@),
                        self.nonce_c@,
                        challenge.nonce_h@,
                    )
                    &&& forall|b: Seq<u8>|
                        challenge.host_ephemeral_pub@ == #[trigger] x25519_pub_of(b) ==> key@
                            == session_key_of(
                            x25519_shared_of(b, self.eph_public@),
                            self.nonce_c@,
                            challenge.nonce_h@,
                        )
                    &&& resp.sig_c@ == ed25519_sig_of(
                        self.identity@,
                        transcript(
                            challenge.nonce_h@,
                            self.nonce_c@,
                            challenge.host_ephemeral_pub@,
                            self.eph_public@,
                        ),
                    )
                    &&& ed25519_verifies(
                        ed25519_pub_of(self.identity@),
                        transcript(
                            challenge.nonce_h@,
                            self.nonce_c@,
                            challenge.host_ephemeral_pub@,
                            self.eph_public@,
                        ),
                        resp.sig_c@,
                    )
                },
                Err(_) => true,
            },
    {
        if !bytes32_eq(&challenge.host_id, expected_host_id) {
            return Err(HandshakeError::IdentityMismatch);
        }

        let signed = transcript_bytes(
            &self.nonce_c,
            &challenge.nonce_h,
            &self.eph_public,
            &challenge.host_ephemeral_pub,
        );
        if !ed25519_verify(expected_host_id, &signed, &challenge.sig_h) {
            return Err(HandshakeError::BadSignature);
        }

        let shared = x25519_shared_secret(&self.eph_secret, &challenge.host_ephemeral_pub);
        let session_key = derive_session_key(shared, &self.nonce_c, &challenge.nonce_h);

        let response_transcript = transcript_bytes(
            &challenge.nonce_h,
            &self.nonce_c,
            &challenge.host_ephemeral_pub,
            &self.eph_public,
        );
        let sig_c = ed25519_sign(&self.identity, &response_transcript);

        Ok((session_key, ClientResponse { sig_c }))
    }
}

/// The host's handshake state: identity secret, ephemeral keypair, and
/// the host nonce.
pub struct HostHandshake {
    pub identity: [u8; 32],
    pub eph_secret: [u8; 32],
    pub eph_public: [u8; 32],
    pub nonce_h: [u8; 32],
}

impl HostHandshake {
    /// The ephemeral public key matches the ephemeral secret.
    pub open spec fn wf(self) -> bool {
        self.eph_public@ == x25519_pub_of(self.eph_secret@)
    }

    /// Fresh host state for one handshake under the given identity
    /// secret key.
    pub fn new(identity: [u8; 32]) -> (s: Self)
        ensures
            s.wf(),
            s.identity@ == identity@,
    {
        let eph_secret = random_nonce();
        let eph_public = x25519_public_key(&eph_secret);
        Self { identity, eph_secret, eph_public, nonce_h: random_nonce() }
    }

    /// The signed challenge answering a `ClientHello`.
    pub fn challenge(&self, hello: &ClientHello) -> (c: HostChallenge)
        ensures
            c.host_id@ == ed25519_pub_of(self.identity@),
            c.host_ephemeral_pub == self.eph_public,
            c.nonce_h == self.nonce_h,
            c.sig_h@ == ed25519_sig_of(
                self.identity@,
                transcript(
                    hello.nonce_c@,
                    self.nonce_h@,
                    hello.client_ephemeral_pub@,
                    self.eph_public@,
                ),
            ),
            ed25519_verifies(
                ed25519_pub_of(self.identity@),
                transcript(
                    hello.nonce_c@,
                    self.nonce_h@,
                    hello.client_ephemeral_pub@,
                    self.eph_public@,
                ),
                c.sig_h@,
            ),
    {
        let signed = transcript_bytes(
            &hello.nonce_c,
            &self.nonce_h,
            &hello.client_ephemeral_pub,
            &self.eph_public,
        );
        let sig_h = ed25519_sign(&self.identity, &signed);

        HostChallenge {
            host_id: ed25519_public_key(&self.identity),
            host_ephemeral_pub: self.eph_public,
            nonce_h: self.nonce_h,
            sig_h,
        }
    }

    /// Check the client's response against the identity key the
    /// rendezvous announced for the other slot, and on success derive
    /// the session key. Fails with `IdentityMismatch` when the hello
    /// carried another identity key, with `BadSignature` when the
    /// client's transcript signature does not verify.
    pub fn verify_response(
        self,
        hello: &ClientHello,
        response: ClientResponse,
        expected_client_id: &[u8; 32],
    ) -> (r: Result<[u8; 32], HandshakeError>)
        requires
            self.wf(),
        ensures
            r is Ok <==> hello.client_id@ == expected_client_id@ && ed25519_verifies(
                expected_client_id@,
                transcript(
                    self.nonce_h@,
                    hello.nonce_c@,
                    self.eph_public@,
                    hello.client_ephemeral_pub@,
                ),
                response.sig_c@,
            ),
            r matches Err(HandshakeError::IdentityMismatch) <==> hello.client_id@
                != expected_client_id@,
            match r {
                Ok(key) => {
                    &&& key@ == session_key_of(
                        x25519_shared_of(self.eph_secret@, hello.client_ephemeral_pub@),
                        hello.nonce_c@,
                        self.nonce_h@,
                    )
                    &&& forall|b: Seq<u8>|
                        hello.client_ephemeral_pub@ == #[trigger] x25519_pub_of(b) ==> key@
                            == session_key_of(
                            x25519_shared_of(b, self.eph_public@),
                            hello.nonce_c@,
                            self.nonce_h@,
                        )
                },
                Err(_) => true,
            },
    {
        if !bytes32_eq(&hello.client_id, expected_client_id) {
            return Err(HandshakeError::IdentityMismatch);
        }

        let signed = transcript_bytes(
            &self.nonce_h,
            &hello.nonce_c,
            &self.eph_public,
            &hello.client_ephemeral_pub,
        );
        if !ed25519_verify(expected_client_id, &signed, &response.sig_c) {
            return Err(HandshakeError::BadSignature);
        }

        let shared = x25519_shared_secret(&self.eph_secret, &hello.client_ephemeral_pub);
        Ok(derive_session_key(shared, &hello.nonce_c, &self.nonce_h))
    }
}

/// Whether two 32-byte keys hold the same bytes.
pub fn bytes32_eq(a: &[u8; 32], b: &[u8; 32]) -> (r: bool)
    ensures
        r <==> a@ == b@,
{
    let mut i: usize = 0;
    while i < 32
        invariant
            0 <= i <= 32,
            forall|j: int| 0 <= j < i ==> a@[j] == b@[j],
        decreases 32 - i,
    {
        if a[i] != b[i] {
            return false;
        }
        i = i + 1;
    }
    proof {
        assert(a@ =~= b@);
    }
    true
}

/// Both roles derive the same session key: whenever the curve's two
/// shared-secret computations agree — which every call of the
/// Diffie-Hellman wrapper witnesses — the client's key over
/// `(a, pub(b))` equals the host's key over `(b, pub(a))`, because both
/// sides expand the same secret with the same `nonce_c ‖ nonce_h` info.
pub proof fn lemma_handshake_agreement(a: Seq<u8>, b: Seq<u8>, nonce_c: Seq<u8>, nonce_h: Seq<u8>)
    ensures
        x25519_shared_of(a, x25519_pub_of(b)) == x25519_shared_of(b, x25519_pub_of(a))
            ==> session_key_of(x25519_shared_of(a, x25519_pub_of(b)), nonce_c, nonce_h)
            == session_key_of(x25519_shared_of(b, x25519_pub_of(a)), nonce_c, nonce_h),
{
}

} // verus!
