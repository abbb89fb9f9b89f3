//! What offer and answer agree on for the senders of a peer connection.

pub mod rtp_sender;

use vstd::prelude::*;

verus! {

/// The stream that an RTP packet belongs to.
pub type SSRC = u32;

/// The number that stands for a negotiated codec in an RTP packet.
pub type PayloadType = u8;

/// The name of a simulcast layer.
pub type RtpStreamId = String;

/// A sender of a peer connection.
#[derive(Clone, Copy, Debug, Default, PartialEq, Eq, Hash, Structural)]
pub struct RTCRtpSenderId(pub usize);

} // verus!
