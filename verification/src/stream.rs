//! Framing of encrypted records for an ordered reliable byte transport.
//!
//! On the wire a record is `len_be(2) ‖ ctr_be(8) ‖ ciphertext_with_tag`,
//! where `len` counts everything after itself and must fit sixteen bits.
//! The transport itself lives outside the library; these functions do
//! the framing arithmetic and hand the ciphertext to the session.

use vstd::prelude::*;

use crate::bytes::{
    lemma_u16_to_from_be_bytes, spec_u16_from_be_bytes, spec_u16_to_be_bytes, u16_from_be_bytes,
    u16_to_be_bytes,
};
use crate::session::{decrypt_next_ctr_of, decrypt_result_of, encrypt_frame_of, SecureSession, SecureSessionError};

verus! {

/// The largest plaintext whose record fits the 16-bit length field: the
/// counter header adds 8 bytes and the tag 16.
pub const MAX_PLAINTEXT_LEN: usize = 65511;

/// Why a record could not be sent or received.
#[derive(Debug, Clone, Copy, PartialEq, Eq, Structural)]
pub enum SecureStreamError {
    /// The transport failed.
    Io,
    /// The session rejected the record.
    Crypto(SecureSessionError),
    /// The plaintext's record would not fit the length field.
    FrameTooLarge,
    /// The transport announced a record of zero length.
    UnexpectedEof,
}

/// Build the record that carries `plaintext`: fails with `FrameTooLarge`
/// — and leaves the session untouched — exactly when the ciphertext
/// would overflow the length field; otherwise encrypts at the current
/// send counter and prefixes the length.
pub fn seal_record(session: &mut SecureSession, plaintext: &[u8]) -> (r: Result<
    Vec<u8>,
    SecureStreamError,
>)
    requires
        old(session).spec_send_ctr() < u64::MAX,
    ensures
        plaintext@.len() > MAX_PLAINTEXT_LEN ==> r == Err::<Vec<u8>, SecureStreamError>(
            SecureStreamError::FrameTooLarge,
        ) && *final(session) == *old(session),
        plaintext@.len() <= MAX_PLAINTEXT_LEN ==> {
            &&& r is Ok
            &&& r.unwrap()@ == spec_u16_to_be_bytes((plaintext@.len() + 24) as u16)
                + encrypt_frame_of(
                old(session).spec_key(),
                old(session).spec_send_ctr(),
                plaintext@,
            )
            &&& r.unwrap()@.len() == plaintext@.len() + 26
            &&& final(session).spec_send_ctr() == old(session).spec_send_ctr() + 1
            &&& final(session).spec_recv_ctr() == old(session).spec_recv_ctr()
            &&& final(session).spec_key() == old(session).spec_key()
            &&& final(session).spec_role() == old(session).spec_role()
            &&& final(session).spec_peer() == old(session).spec_peer()
        },
{
    if plaintext.len() > MAX_PLAINTEXT_LEN {
        return Err(SecureStreamError::FrameTooLarge);
    }

    let mut encrypted = session.encrypt(plaintext);
    let mut out = u16_to_be_bytes(encrypted.len() as u16);
    out.append(&mut encrypted);
    proof {
        assert(out@ =~= spec_u16_to_be_bytes((plaintext@.len() + 24) as u16) + encrypt_frame_of(
            old(session).spec_key(),
            old(session).spec_send_ctr(),
            plaintext@,
        ));
    }
    Ok(out)
}

/// Read a record's length header: the announced byte count, or
/// `UnexpectedEof` when it reads zero.
pub fn read_record_len(header: &[u8]) -> (r: Result<usize, SecureStreamError>)
    requires
        header@.len() >= 2,
    ensures
        spec_u16_from_be_bytes(header@.subrange(0, 2)) == 0 ==> r == Err::<
            usize,
            SecureStreamError,
        >(SecureStreamError::UnexpectedEof),
        spec_u16_from_be_bytes(header@.subrange(0, 2)) != 0 ==> r == Ok::<
            usize,
            SecureStreamError,
        >(spec_u16_from_be_bytes(header@.subrange(0, 2)) as usize),
{
    let len = u16_from_be_bytes(header);
    if len == 0 {
        Err(SecureStreamError::UnexpectedEof)
    } else {
        Ok(len as usize)
    }
}

/// Hand a received record body to the session: the session's verdict,
/// with its errors carried as `Crypto`.
pub fn open_record(session: &mut SecureSession, body: &[u8]) -> (r: Result<
    Vec<u8>,
    SecureStreamError,
>)
    ensures
        match r {
            Ok(p) => decrypt_result_of(old(session).spec_key(), old(session).spec_recv_ctr(), body@)
                == Ok::<Seq<u8>, SecureSessionError>(p@),
            Err(SecureStreamError::Crypto(e)) => decrypt_result_of(
                old(session).spec_key(),
                old(session).spec_recv_ctr(),
                body@,
            ) == Err::<Seq<u8>, SecureSessionError>(e),
            Err(_) => false,
        },
        final(session).spec_recv_ctr() == decrypt_next_ctr_of(
            old(session).spec_key(),
            old(session).spec_recv_ctr(),
            body@,
        ),
        final(session).spec_send_ctr() == old(session).spec_send_ctr(),
        final(session).spec_key() == old(session).spec_key(),
        final(session).spec_role() == old(session).spec_role(),
        final(session).spec_peer() == old(session).spec_peer(),
{
    match session.decrypt(body) {
        Ok(p) => Ok(p),
        Err(e) => Err(SecureStreamError::Crypto(e)),
    }
}

/// The record framing round-trips: the length header a sealed record
/// starts with reads back as the byte count of what follows it, so a
/// receiver that reads the header and then exactly that many bytes
/// takes one whole record off the wire.
pub proof fn lemma_record_header_round_trip(key: Seq<u8>, ctr: u64, pt: Seq<u8>)
    requires
        pt.len() <= MAX_PLAINTEXT_LEN,
        encrypt_frame_of(key, ctr, pt).len() == pt.len() + 24,
    ensures
        ({
            let record = spec_u16_to_be_bytes((pt.len() + 24) as u16) + encrypt_frame_of(
                key,
                ctr,
                pt,
            );
            spec_u16_from_be_bytes(record.subrange(0, 2)) == record.len() - 2
        }),
{
    lemma_u16_to_from_be_bytes();
    let record = spec_u16_to_be_bytes((pt.len() + 24) as u16) + encrypt_frame_of(key, ctr, pt);
    assert(record.subrange(0, 2) =~= spec_u16_to_be_bytes((pt.len() + 24) as u16));
}

} // verus!
