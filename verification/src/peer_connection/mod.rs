//! Accepting ICE/TCP connections on behalf of several peer connections.

pub mod driver;
pub mod rfc4571;
pub mod senders;
pub mod stun;
pub mod tcp_mux;
