//! What the tracks ask of the task that drives a peer connection.

use crate::rtp::Packet;
use crate::rtp_transceiver::{PayloadType, RTCRtpSenderId, SSRC};
use vstd::prelude::*;

verus! {

/// A request to the driver. `C` is a batch of RTCP packets.
#[derive(Debug)]
pub enum PeerConnectionDriverEvent<C> {
    /// Send an RTP packet on a sender.
    SenderRtp(RTCRtpSenderId, Packet),
    /// Send an RTP packet on a sender whose stream and payload type are known.
    SenderRtpPrepared {
        sender_id: RTCRtpSenderId,
        packet: Packet,
        ssrc: SSRC,
        payload_type: PayloadType,
    },
    /// Send RTCP packets on a sender.
    SenderRtcp(RTCRtpSenderId, C),
}

} // verus!
