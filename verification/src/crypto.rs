//! Cryptographic primitives, taken from outside crates behind trusted
//! wrappers.
//!
//! Each deterministic primitive gets an uninterpreted name (`aead_seal_of`,
//! `ed25519_sig_of`, ...); the wrapper's contract ties the call's result to
//! that name, together with the short facts the crates' documentation gives
//! (lengths, that decryption inverts encryption, that a signature made with
//! a key verifies under the matching public key). Randomness gets no name:
//! nothing is claimed of `random_nonce` beyond its type.

use vstd::prelude::*;

use chacha20poly1305::aead::{Aead, KeyInit};
use ed25519_dalek::{Signer, Verifier};

verus! {

/// The 32-byte key that HKDF-SHA256 expands from `ikm` with empty salt and
/// the given `info`.
pub uninterp spec fn hkdf_sha256_of(ikm: Seq<u8>, info: Seq<u8>) -> Seq<u8>;

/// The ciphertext-with-tag that ChaCha20-Poly1305 produces from the given
/// key, nonce, associated data and plaintext.
pub uninterp spec fn aead_seal_of(key: Seq<u8>, nonce: Seq<u8>, aad: Seq<u8>, pt: Seq<u8>) -> Seq<
    u8,
>;

/// What ChaCha20-Poly1305 decryption returns for the given key, nonce,
/// associated data and ciphertext: the plaintext, or `None` when the tag
/// does not authenticate.
pub uninterp spec fn aead_open_of(key: Seq<u8>, nonce: Seq<u8>, aad: Seq<u8>, ct: Seq<u8>) -> Option<
    Seq<u8>,
>;

/// The Ed25519 public key derived from a 32-byte secret key.
pub uninterp spec fn ed25519_pub_of(sk: Seq<u8>) -> Seq<u8>;

/// The Ed25519 signature of `msg` under the secret key `sk` (Ed25519
/// signing is deterministic).
pub uninterp spec fn ed25519_sig_of(sk: Seq<u8>, msg: Seq<u8>) -> Seq<u8>;

/// Whether `sig` is a valid Ed25519 signature of `msg` under the public
/// key bytes `pk` (false as well when `pk` is not a valid public key).
pub uninterp spec fn ed25519_verifies(pk: Seq<u8>, msg: Seq<u8>, sig: Seq<u8>) -> bool;

/// The X25519 public key derived from a 32-byte secret.
pub uninterp spec fn x25519_pub_of(sk: Seq<u8>) -> Seq<u8>;

/// The X25519 shared secret computed from one side's secret and the other
/// side's public key.
pub uninterp spec fn x25519_shared_of(sk: Seq<u8>, peer_pk: Seq<u8>) -> Seq<u8>;

/// The session key both handshake roles derive: HKDF-SHA256 over the
/// shared secret with `nonce_c ‖ nonce_h` as info.
pub open spec fn session_key_of(shared: Seq<u8>, nonce_c: Seq<u8>, nonce_h: Seq<u8>) -> Seq<u8> {
    hkdf_sha256_of(shared, nonce_c + nonce_h)
}

/// Relies on `rand::rngs::OsRng::fill_bytes`: 32 bytes from the operating
/// system's randomness source. Nothing is promised of the value.
#[verifier::external_body]
pub fn random_nonce() -> [u8; 32] {
    let mut n = [0u8; 32];
    rand::RngCore::fill_bytes(&mut rand::rngs::OsRng, &mut n);
    n
}

/// Relies on `std::convert::TryInto` for `Vec<u8>` into a byte array: the
/// array holds exactly the vector's bytes.
#[verifier::external_body]
pub(crate) fn vec_to_array<const N: usize>(v: Vec<u8>) -> (r: [u8; N])
    requires
        v@.len() == N,
    ensures
        r@ == v@,
{
    let a: [u8; N] = v.try_into().unwrap();
    a
}

/// Relies on `hkdf::Hkdf::<Sha256>::new` and `expand`: a 32-byte key that
/// is a function of the input key material and the info alone (the salt is
/// fixed empty). Expanding 32 bytes is always within HKDF's output bound.
#[verifier::external_body]
fn hkdf_sha256_expand(ikm: &[u8], info: &[u8]) -> (r: Vec<u8>)
    ensures
        r@ == hkdf_sha256_of(ikm@, info@),
        r@.len() == 32,
{
    let hk = hkdf::Hkdf::<sha2::Sha256>::new(None, ikm);
    let mut key = [0u8; 32];
    hk.expand(info, &mut key).unwrap();
    key.to_vec()
}

/// Derive the session key from a Diffie-Hellman shared secret and the two
/// handshake nonces, client nonce first.
pub fn derive_session_key(
    shared_secret: [u8; 32],
    nonce_c: &[u8; 32],
    nonce_h: &[u8; 32],
) -> (r: [u8; 32])
    ensures
        r@ == session_key_of(shared_secret@, nonce_c@, nonce_h@),
{
    let mut info: Vec<u8> = Vec::new();
    info.extend_from_slice(nonce_c.as_slice());
    info.extend_from_slice(nonce_h.as_slice());
    proof {
        assert(info@ =~= nonce_c@ + nonce_h@);
    }
    let key = hkdf_sha256_expand(shared_secret.as_slice(), info.as_slice());
    vec_to_array(key)
}

/// Relies on `chacha20poly1305::ChaCha20Poly1305::encrypt`: deterministic
/// in key, nonce, associated data and plaintext; the result is the
/// ciphertext with the 16-byte Poly1305 tag appended; decrypting it with
/// the same key, nonce and associated data returns the plaintext. The
/// length bound keeps the call well under the cipher's message limit, so
/// it cannot fail.
#[verifier::external_body]
pub(crate) fn aead_seal(key: &[u8; 32], nonce: &Vec<u8>, aad: &Vec<u8>, pt: &[u8]) -> (r: Vec<u8>)
    requires
        nonce@.len() == 12,
        pt@.len() <= 0x1000_0000,
    ensures
        r@ == aead_seal_of(key@, nonce@, aad@, pt@),
        r@.len() == pt@.len() + 16,
        aead_open_of(key@, nonce@, aad@, r@) == Some(pt@),
{
    let cipher = chacha20poly1305::ChaCha20Poly1305::new(chacha20poly1305::Key::from_slice(
        key.as_slice(),
    ));
    let payload = chacha20poly1305::aead::Payload { msg: pt, aad: aad.as_slice() };
    cipher.encrypt(chacha20poly1305::Nonce::from_slice(nonce.as_slice()), payload).unwrap()
}

/// Relies on `chacha20poly1305::ChaCha20Poly1305::decrypt`: deterministic
/// in key, nonce, associated data and ciphertext; `None` exactly when the
/// tag does not authenticate; on success the plaintext is 16 bytes shorter
/// than the ciphertext.
#[verifier::external_body]
pub(crate) fn aead_open(key: &[u8; 32], nonce: &Vec<u8>, aad: &Vec<u8>, ct: &[u8]) -> (r: Option<
    Vec<u8>,
>)
    requires
        nonce@.len() == 12,
    ensures
        match r {
            Some(p) => aead_open_of(key@, nonce@, aad@, ct@) == Some(p@) && p@.len() + 16
                == ct@.len(),
            None => aead_open_of(key@, nonce@, aad@, ct@) is None,
        },
{
    let cipher = chacha20poly1305::ChaCha20Poly1305::new(chacha20poly1305::Key::from_slice(
        key.as_slice(),
    ));
    let payload = chacha20poly1305::aead::Payload { msg: ct, aad: aad.as_slice() };
    cipher.decrypt(chacha20poly1305::Nonce::from_slice(nonce.as_slice()), payload).ok()
}

/// Relies on `ed25519_dalek::SigningKey::from_bytes` and `verifying_key`:
/// the public key is a function of the 32 secret-key bytes.
#[verifier::external_body]
pub(crate) fn ed25519_public_key(sk: &[u8; 32]) -> (r: [u8; 32])
    ensures
        r@ == ed25519_pub_of(sk@),
{
    ed25519_dalek::SigningKey::from_bytes(sk).verifying_key().to_bytes()
}

/// Relies on `ed25519_dalek::SigningKey::sign`: Ed25519 signing is
/// deterministic in the secret key and the message, and the signature it
/// produces verifies under the matching public key.
#[verifier::external_body]
pub(crate) fn ed25519_sign(sk: &[u8; 32], msg: &Vec<u8>) -> (r: [u8; 64])
    ensures
        r@ == ed25519_sig_of(sk@, msg@),
        ed25519_verifies(ed25519_pub_of(sk@), msg@, r@),
{
    ed25519_dalek::SigningKey::from_bytes(sk).sign(msg.as_slice()).to_bytes()
}

/// Relies on `ed25519_dalek::VerifyingKey::from_bytes` and `verify`:
/// whether the signature verifies is a function of the public-key bytes,
/// the message and the signature; undecodable public-key bytes verify
/// nothing.
#[verifier::external_body]
pub(crate) fn ed25519_verify(pk: &[u8; 32], msg: &Vec<u8>, sig: &[u8; 64]) -> (r: bool)
    ensures
        r == ed25519_verifies(pk@, msg@, sig@),
{
    match ed25519_dalek::VerifyingKey::from_bytes(pk) {
        Ok(key) => key.verify(msg.as_slice(), &ed25519_dalek::Signature::from_bytes(sig)).is_ok(),
        Err(_) => false,
    }
}

/// Relies on `x25519_dalek::PublicKey::from(&StaticSecret)`: the public
/// key is a function of the 32 secret bytes.
#[verifier::external_body]
pub(crate) fn x25519_public_key(sk: &[u8; 32]) -> (r: [u8; 32])
    ensures
        r@ == x25519_pub_of(sk@),
{
    x25519_dalek::PublicKey::from(&x25519_dalek::StaticSecret::from(*sk)).to_bytes()
}

/// Relies on `x25519_dalek::StaticSecret::diffie_hellman`: the shared
/// secret is a function of the secret and the peer's public key, and the
/// exchange agrees — when the peer's public key was derived from some
/// secret `b`, the result equals what the peer computes from `b` and this
/// side's public key.
#[verifier::external_body]
pub(crate) fn x25519_shared_secret(sk: &[u8; 32], peer_pk: &[u8; 32]) -> (r: [u8; 32])
    ensures
        r@ == x25519_shared_of(sk@, peer_pk@),
        forall|b: Seq<u8>|
            peer_pk@ == #[trigger] x25519_pub_of(b) ==> r@ == x25519_shared_of(
                b,
                x25519_pub_of(sk@),
            ),
{
    x25519_dalek::StaticSecret::from(*sk).diffie_hellman(
        &x25519_dalek::PublicKey::from(*peer_pk),
    ).to_bytes()
}

} // verus!
