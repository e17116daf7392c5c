//! The long-term identity: an Ed25519 signing keypair held as plain
//! bytes. Loading and persisting the key file is the caller's business;
//! the library takes the 32 secret bytes and derives the public half.

use vstd::prelude::*;

use crate::crypto::{ed25519_pub_of, ed25519_public_key};

verus! {

/// A peer's long-term signing identity.
pub struct Identity {
    pub secret: [u8; 32],
    pub public: [u8; 32],
}

impl Identity {
    /// The public key matches the secret.
    pub open spec fn wf(self) -> bool {
        self.public@ == ed25519_pub_of(self.secret@)
    }

    /// The identity with the given secret bytes.
    pub fn from_secret(secret: [u8; 32]) -> (id: Self)
        ensures
            id.wf(),
            id.secret@ == secret@,
    {
        let public = ed25519_public_key(&secret);
        Self { secret, public }
    }

    /// The 32 bytes of the public key.
    pub fn public_key_bytes(&self) -> (r: [u8; 32])
        requires
            self.wf(),
        ensures
            r@ == ed25519_pub_of(self.secret@),
    {
        self.public
    }
}

} // verus!
