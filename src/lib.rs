//! Handshake logic of a typed, point-to-point message channel.
//!
//! Two endpoints agree on the message types used in each direction before
//! any payload flows: each sends a fingerprint of its own (send, receive)
//! type pair and expects the fingerprint of the mirrored pair back.

pub mod address;
pub mod bytes;
pub mod handshake;
