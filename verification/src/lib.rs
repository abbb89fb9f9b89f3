//! Verified core of an asynchronous WebRTC stack: shared ICE/TCP listener
//! multiplexing, local RTP tracks and RTP senders.
//!
//! Everything here is synchronous. A caller performs the reads, sends and
//! waits that a step asks for, and hands the outcome to the next step.

pub mod buffer;
pub mod error;
pub mod media_stream;
pub mod peer_connection;
pub mod rtp;
pub mod rtp_transceiver;
