//! Verified core of a peer-to-peer encrypted file transfer protocol.
pub mod bytes;
pub mod crypto;
pub mod protocol;
pub mod text;
pub mod identity;
pub mod handshake;
pub mod transfer;
pub mod state;
pub mod session;
pub mod discovery;
pub mod wifi;
pub mod ui;
