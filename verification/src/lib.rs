//! The core of a two-peer voice-and-chat system: the mutual-auth key
//! exchange, the counter-nonce AEAD session and its record framing, the
//! voice-packet codec with its jitter buffer, the room codes, and the
//! rendezvous protocol that pairs two peers.

pub mod bytes;
pub mod chat;
pub mod crypto;
pub mod handshake;
pub mod identity;
pub mod jitter;
pub mod rendezvous;
pub mod room;
pub mod session;
pub mod stream;
pub mod voice;
