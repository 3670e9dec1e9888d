//! Core primitives for a low-latency datagram transport: an authenticated
//! sealed-buffer codec driven by a 64-bit per-packet nonce, and a
//! non-blocking datagram transceiver model.

pub mod crypto;
pub mod socket;
