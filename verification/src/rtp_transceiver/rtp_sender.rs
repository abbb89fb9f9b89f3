//! The parameters of a sender, and the sender itself.

use crate::error::{Error, RtcError};
use crate::media_stream::track_local::TrackLocalContext;
use crate::peer_connection::senders;
use crate::rtp_transceiver::{PayloadType, RTCRtpSenderId, RtpStreamId, SSRC};
use rtc::peer_connection::RTCPeerConnection;
use rtc::rtp_transceiver::rtp_sender::{
    RTCRtpCapabilities, RTCRtpSendParameters, RTCSetParameterOptions,
};
use rtc::statistics::report::RTCStatsReport;
use std::time::Instant;
use vstd::prelude::*;

verus! {

/// The kind of media that a codec encodes.
#[derive(Clone, Copy, Debug, Default, PartialEq, Eq, Structural)]
pub enum RtpCodecKind {
    #[default]
    Unspecified,
    Audio,
    Video,
    Application,
}

/// A feedback message that a codec supports.
#[derive(Clone, Debug, Default, PartialEq, Eq)]
pub struct RTCPFeedback {
    pub typ: String,
    pub parameter: String,
}

/// A codec and how it is set up.
#[derive(Clone, Debug, Default, PartialEq, Eq)]
pub struct RTCRtpCodec {
    pub mime_type: String,
    pub clock_rate: u32,
    pub channels: u16,
    pub sdp_fmtp_line: String,
    pub rtcp_feedback: Vec<RTCPFeedback>,
}

/// A negotiated codec and its payload type.
#[derive(Clone, Debug, Default, PartialEq, Eq)]
pub struct RTCRtpCodecParameters {
    pub rtp_codec: RTCRtpCodec,
    pub payload_type: PayloadType,
}

/// The retransmission stream of a coding.
#[derive(Clone, Debug, Default, PartialEq, Eq)]
pub struct RTCRtpRtxParameters {
    pub ssrc: SSRC,
}

/// The forward error correction stream of a coding.
#[derive(Clone, Debug, Default, PartialEq, Eq)]
pub struct RTCRtpFecParameters {
    pub ssrc: SSRC,
}

/// The streams of a coding.
#[derive(Clone, Debug, Default, PartialEq, Eq)]
pub struct RTCRtpCodingParameters {
    pub rid: RtpStreamId,
    pub ssrc: Option<SSRC>,
    pub rtx: Option<RTCRtpRtxParameters>,
    pub fec: Option<RTCRtpFecParameters>,
}

/// A coding that a sender produces. Rates that are no integers are kept as the
/// bits of their IEEE 754 representation.
#[derive(Clone, Debug, Default, PartialEq, Eq)]
pub struct RTCRtpEncodingParameters {
    pub rtp_coding_parameters: RTCRtpCodingParameters,
    pub active: bool,
    pub codec: RTCRtpCodec,
    pub max_bitrate: u32,
    pub max_framerate: Option<u64>,
    pub scale_resolution_down_by: Option<u64>,
}

/// A negotiated header extension and its id.
#[derive(Clone, Debug, Default, PartialEq, Eq)]
pub struct RTCRtpHeaderExtensionParameters {
    pub uri: String,
    pub id: u16,
    pub encrypted: bool,
}

/// The negotiated RTCP setup.
#[derive(Clone, Debug, Default, PartialEq, Eq)]
pub struct RTCRtcpParameters {
    pub cname: String,
    pub reduced_size: bool,
}

/// What was negotiated for a sender.
#[derive(Clone, Debug, Default, PartialEq, Eq)]
pub struct RTCRtpParameters {
    pub header_extensions: Vec<RTCRtpHeaderExtensionParameters>,
    pub rtcp: RTCRtcpParameters,
    pub codecs: Vec<RTCRtpCodecParameters>,
}

/// The contents of an [`RTCRtpCodec`].
#[verifier::ext_equal]
pub struct CodecView {
    pub mime_type: Seq<char>,
    pub clock_rate: u32,
    pub channels: u16,
    pub sdp_fmtp_line: Seq<char>,
    pub rtcp_feedback: Seq<(Seq<char>, Seq<char>)>,
}

/// The contents of an [`RTCRtpCodecParameters`].
#[verifier::ext_equal]
pub struct CodecParametersView {
    pub rtp_codec: CodecView,
    pub payload_type: PayloadType,
}

/// The contents of an [`RTCRtpHeaderExtensionParameters`].
#[verifier::ext_equal]
pub struct HeaderExtensionParametersView {
    pub uri: Seq<char>,
    pub id: u16,
    pub encrypted: bool,
}

/// The contents of an [`RTCRtpParameters`].
#[verifier::ext_equal]
pub struct RtpParametersView {
    pub header_extensions: Seq<HeaderExtensionParametersView>,
    pub cname: Seq<char>,
    pub reduced_size: bool,
    pub codecs: Seq<CodecParametersView>,
}

impl View for RTCRtpCodec {
    type V = CodecView;

    open spec fn view(&self) -> CodecView {
        CodecView {
            mime_type: self.mime_type@,
            clock_rate: self.clock_rate,
            channels: self.channels,
            sdp_fmtp_line: self.sdp_fmtp_line@,
            rtcp_feedback: self.rtcp_feedback@.map_values(
                |feedback: RTCPFeedback| (feedback.typ@, feedback.parameter@),
            ),
        }
    }
}

impl View for RTCRtpCodecParameters {
    type V = CodecParametersView;

    open spec fn view(&self) -> CodecParametersView {
        CodecParametersView { rtp_codec: self.rtp_codec@, payload_type: self.payload_type }
    }
}

impl View for RTCRtpHeaderExtensionParameters {
    type V = HeaderExtensionParametersView;

    open spec fn view(&self) -> HeaderExtensionParametersView {
        HeaderExtensionParametersView { uri: self.uri@, id: self.id, encrypted: self.encrypted }
    }
}

impl View for RTCRtpParameters {
    type V = RtpParametersView;

    open spec fn view(&self) -> RtpParametersView {
        RtpParametersView {
            header_extensions: self.header_extensions@.map_values(
                |extension: RTCRtpHeaderExtensionParameters| extension@,
            ),
            cname: self.rtcp.cname@,
            reduced_size: self.rtcp.reduced_size,
            codecs: self.codecs@.map_values(|codec: RTCRtpCodecParameters| codec@),
        }
    }
}

/// A sender of a peer connection and the track that it sends. `T` is a handle to
/// a local track.
pub struct RtpSenderImpl<T> {
    id: RTCRtpSenderId,
    track: T,
}

/// A replacement of a sender's track that the peer connection has accepted. The
/// sender has the new track, and the old one is to be unbound.
pub struct TrackReplacement<T> {
    sender_id: RTCRtpSenderId,
    old_track: T,
}

/// What a peer connection tells of a sender, or that it has no such sender.
pub fn existing_sender<V>(told: Option<V>) -> (outcome: Result<V, Error>)
    ensures
        match told {
            Some(value) => outcome == Ok::<V, Error>(value),
            None => outcome == Err::<V, Error>(Error::ErrRTPSenderNotExisted),
        },
{
    match told {
        Some(value) => Ok(value),
        None => Err(Error::ErrRTPSenderNotExisted),
    }
}

impl<T> RtpSenderImpl<T> {
    /// The sender in the peer connection.
    pub closed spec fn spec_id(self) -> RTCRtpSenderId {
        self.id
    }

    /// The track that is sent.
    pub closed spec fn spec_track(self) -> T {
        self.track
    }

    /// A sender that sends `track`.
    pub fn new(id: RTCRtpSenderId, track: T) -> (sender: RtpSenderImpl<T>)
        ensures
            sender.spec_id() == id,
            sender.spec_track() == track,
    {
        RtpSenderImpl { id, track }
    }

    /// Identifies the sender in the peer connection.
    pub fn id(&self) -> (id: RTCRtpSenderId)
        ensures
            id == self.spec_id(),
    {
        self.id
    }

    /// The track that is sent.
    pub fn track(&self) -> (track: &T)
        ensures
            *track == self.spec_track(),
    {
        &self.track
    }

    /// Takes `track` in place of the one that is sent, which `media_track` is for
    /// the peer connection. Where the peer connection has no such sender, or sends
    /// another kind of media on it, all stays as it was.
    pub fn replace_track(
        &mut self,
        core: &mut RTCPeerConnection,
        track: T,
        media_track: rtc::media_stream::MediaStreamTrack,
    ) -> (outcome: Result<TrackReplacement<T>, Error>)
        ensures
            final(self).spec_id() == old(self).spec_id(),
            senders::same_senders(*old(core), *final(core)),
            senders::same_encodings(*old(core), *final(core)),
            match outcome {
                Ok(replacement) => {
                    &&& senders::senders(*old(core)).contains_key(old(self).spec_id().0)
                    &&& senders::senders(*old(core))[old(self).spec_id().0] == senders::media_kind(
                        media_track,
                    )
                    &&& senders::track_is_replaced(
                        *old(core),
                        *final(core),
                        old(self).spec_id().0,
                        media_track,
                    )
                    &&& *final(core) == senders::with_track_replaced(
                        *old(core),
                        old(self).spec_id().0,
                        media_track,
                    )
                    &&& replacement.spec_sender_id() == old(self).spec_id()
                    &&& replacement.spec_old_track() == old(self).spec_track()
                    &&& final(self).spec_track() == track
                },
                Err(error) => {
                    &&& *final(self) == *old(self)
                    &&& *final(core) == *old(core)
                    &&& error@ == if senders::senders(*old(core)).contains_key(
                        old(self).spec_id().0,
                    ) {
                        crate::error::ErrorView::Rtc(senders::incorrect_kind())
                    } else {
                        crate::error::ErrorView::ErrRTPSenderNotExisted
                    }
                    &&& senders::senders(*old(core)).contains_key(old(self).spec_id().0)
                        ==> senders::senders(*old(core))[old(self).spec_id().0]
                        != senders::media_kind(media_track)
                },
            },
    {
        let replaced = senders::replace_track(core, self.id, media_track);
        self.track_replaced(track, replaced)
    }

    /// Takes `track` in place of the one that is sent, once the peer connection
    /// has told what came of replacing it there: nothing where it has no such
    /// sender. Where it refused, all stays as it was.
    pub fn track_replaced(&mut self, track: T, replaced: Option<Result<(), RtcError>>) -> (outcome:
        Result<TrackReplacement<T>, Error>)
        ensures
            final(self).spec_id() == old(self).spec_id(),
            match replaced {
                Some(Ok(_)) => {
                    &&& outcome matches Ok(replacement)
                    &&& replacement.spec_sender_id() == old(self).spec_id()
                    &&& replacement.spec_old_track() == old(self).spec_track()
                    &&& final(self).spec_track() == track
                },
                Some(Err(error)) => {
                    &&& outcome == Err::<TrackReplacement<T>, Error>(Error::Rtc(error))
                    &&& *final(self) == *old(self)
                },
                None => {
                    &&& outcome == Err::<TrackReplacement<T>, Error>(Error::ErrRTPSenderNotExisted)
                    &&& *final(self) == *old(self)
                },
            },
    {
        match existing_sender(replaced) {
            Ok(Ok(())) => {},
            Ok(Err(error)) => return Err(Error::Rtc(error)),
            Err(error) => return Err(error),
        }
        let mut old_track = track;
        std::mem::swap(&mut self.track, &mut old_track);
        Ok(TrackReplacement { sender_id: self.id, old_track })
    }

    /// What the sender can send of a kind of media: nothing for media of no kind,
    /// else the codecs negotiated for the sender whose MIME type names the kind, and
    /// the header extensions that it can send.
    pub fn get_capabilities(&self, core: &mut RTCPeerConnection, kind: RtpCodecKind) -> (outcome:
        Result<Option<RTCRtpCapabilities>, Error>)
        ensures
            *final(core) == *old(core),
            match outcome {
                Ok(told) => {
                    &&& senders::senders(*old(core)).contains_key(self.spec_id().0)
                    &&& match told {
                        Some(capabilities) => {
                            &&& kind != RtpCodecKind::Unspecified
                            &&& senders::capable_codecs(capabilities) == senders::sendable_codecs(
                                *old(core),
                                self.spec_id().0,
                                kind,
                            )
                            &&& senders::capable_extensions(capabilities)
                                == senders::sendable_extensions(*old(core), self.spec_id().0)
                        },
                        None => kind == RtpCodecKind::Unspecified,
                    }
                },
                Err(error) => !senders::senders(*old(core)).contains_key(self.spec_id().0) && error
                    == Error::ErrRTPSenderNotExisted,
            },
    {
        existing_sender(senders::get_capabilities(core, self.id, kind))
    }

    /// Sets the parameters of the sender.
    pub fn set_parameters(
        &self,
        core: &mut RTCPeerConnection,
        parameters: RTCRtpSendParameters,
        set_parameter_options: Option<RTCSetParameterOptions>,
    ) -> (outcome: Result<(), Error>)
        ensures
            senders::same_senders(*old(core), *final(core)),
            senders::same_tracks(*old(core), *final(core)),
            senders::same_streams(*old(core), *final(core)),
            if senders::senders(*old(core)).contains_key(self.spec_id().0) {
                let (core_after, refusal) = senders::with_parameters_set(
                    *old(core),
                    self.spec_id().0,
                    parameters,
                    set_parameter_options,
                );
                &&& *final(core) == core_after
                &&& match refusal {
                    Ok(_) => outcome is Ok,
                    Err(refusal) => outcome matches Err(error) && error@
                        == crate::error::ErrorView::Rtc(refusal),
                }
            } else {
                &&& *final(core) == *old(core)
                &&& outcome == Err::<(), Error>(Error::ErrRTPSenderNotExisted)
            },
    {
        Self::parameters_set(
            senders::set_parameters(core, self.id, parameters, set_parameter_options),
        )
    }

    /// The outcome of setting parameters, once the peer connection has told what
    /// came of it: nothing where it has no such sender.
    pub fn parameters_set(set: Option<Result<(), RtcError>>) -> (outcome: Result<(), Error>)
        ensures
            match set {
                Some(Ok(_)) => outcome == Ok::<(), Error>(()),
                Some(Err(error)) => outcome == Err::<(), Error>(Error::Rtc(error)),
                None => outcome == Err::<(), Error>(Error::ErrRTPSenderNotExisted),
            },
    {
        match existing_sender(set) {
            Ok(Ok(())) => Ok(()),
            Ok(Err(error)) => Err(Error::Rtc(error)),
            Err(error) => Err(error),
        }
    }

    /// The parameters of the sender: the codecs negotiated for it, its encodings and
    /// its header extensions.
    pub fn get_parameters(&self, core: &mut RTCPeerConnection) -> (outcome: Result<
        RTCRtpSendParameters,
        Error,
    >)
        ensures
            senders::same_senders(*old(core), *final(core)),
            senders::same_encodings(*old(core), *final(core)),
            senders::same_tracks(*old(core), *final(core)),
            senders::same_streams(*old(core), *final(core)),
            match outcome {
                Ok(told) => {
                    &&& senders::senders(*old(core)).contains_key(self.spec_id().0)
                    &&& *final(core) == senders::with_parameters_told(
                        *old(core),
                        self.spec_id().0,
                        told,
                    )
                    &&& senders::may_tell(
                        *old(core),
                        self.spec_id().0,
                        senders::held_parameters(told).rtp_parameters,
                    )
                    &&& senders::held_parameters(told).encodings == senders::told_encodings(
                        *old(core),
                        self.spec_id().0,
                    )
                },
                Err(error) => {
                    &&& !senders::senders(*old(core)).contains_key(self.spec_id().0)
                    &&& error == Error::ErrRTPSenderNotExisted
                    &&& *final(core) == *old(core)
                },
            },
    {
        existing_sender(senders::get_parameters(core, self.id))
    }

    /// Sets the media streams that the track of the sender belongs to.
    pub fn set_streams(&self, core: &mut RTCPeerConnection, streams: Vec<String>) -> (outcome:
        Result<(), Error>)
        ensures
            senders::same_senders(*old(core), *final(core)),
            senders::same_encodings(*old(core), *final(core)),
            senders::same_tracks(*old(core), *final(core)),
            if senders::senders(*old(core)).contains_key(self.spec_id().0) {
                &&& senders::streams_are_set(
                    *old(core),
                    *final(core),
                    self.spec_id().0,
                    streams@.map_values(|stream: String| stream@),
                )
                &&& *final(core) == senders::with_streams_set(
                    *old(core),
                    self.spec_id().0,
                    streams@.map_values(|stream: String| stream@),
                )
                &&& outcome is Ok
            } else {
                &&& *final(core) == *old(core)
                &&& outcome == Err::<(), Error>(Error::ErrRTPSenderNotExisted)
            },
    {
        existing_sender(senders::set_streams(core, self.id, streams))
    }

    /// The statistics of the sender at the moment `now`: of the streams that were
    /// sent on it, and of no others.
    pub fn get_stats(&self, core: &mut RTCPeerConnection, now: Instant) -> (outcome: Result<
        RTCStatsReport,
        Error,
    >)
        ensures
            senders::same_senders(*old(core), *final(core)),
            senders::same_encodings(*old(core), *final(core)),
            senders::same_tracks(*old(core), *final(core)),
            senders::same_streams(*old(core), *final(core)),
            match outcome {
                Ok(report) => {
                    let streams = senders::sent_streams(*old(core), self.spec_id().0);
                    &&& senders::senders(*old(core)).contains_key(self.spec_id().0)
                    &&& *final(core) == senders::with_stats_told(*old(core), now)
                    &&& senders::reported_streams(report) == streams
                    &&& senders::reported_moments(report) == if streams == Set::<SSRC>::empty() {
                        Set::<Instant>::empty()
                    } else {
                        set![now]
                    }
                },
                Err(error) => {
                    &&& !senders::senders(*old(core)).contains_key(self.spec_id().0)
                    &&& error == Error::ErrRTPSenderNotExisted
                    &&& *final(core) == *old(core)
                },
            },
    {
        if !senders::has_sender(core, self.id) {
            return Err(Error::ErrRTPSenderNotExisted);
        }
        Ok(senders::get_stats(core, self.id, now))
    }
}

impl<T> TrackReplacement<T> {
    /// The sender whose track is replaced.
    pub closed spec fn spec_sender_id(self) -> RTCRtpSenderId {
        self.sender_id
    }

    /// The track that is to be unbound.
    pub closed spec fn spec_old_track(self) -> T {
        self.old_track
    }

    /// The track that is to be unbound.
    pub fn old_track(&self) -> (track: &T)
        ensures
            *track == self.spec_old_track(),
    {
        &self.old_track
    }

    /// Once the old track is unbound: the context to bind the new track to, which
    /// has the given codings.
    pub fn unbound<S>(
        self,
        core: &mut RTCPeerConnection,
        codings: &[RTCRtpEncodingParameters],
        driver_event_tx: S,
    ) -> (outcome: Result<TrackLocalContext<S>, Error>)
        ensures
            senders::same_senders(*old(core), *final(core)),
            senders::same_encodings(*old(core), *final(core)),
            senders::same_tracks(*old(core), *final(core)),
            senders::same_streams(*old(core), *final(core)),
            match outcome {
                Ok(ctx) => {
                    &&& senders::senders(*old(core)).contains_key(self.spec_sender_id().0)
                    &&& ctx.rtp_sender_id == self.spec_sender_id()
                    &&& ctx.driver_event_tx == driver_event_tx
                    &&& senders::may_tell(
                        *old(core),
                        self.spec_sender_id().0,
                        ctx.rtp_parameters@,
                    )
                    &&& exists|told: RTCRtpSendParameters|
                        {
                            &&& senders::held_parameters(told).rtp_parameters
                                == ctx.rtp_parameters@
                            &&& *final(core) == #[trigger] senders::with_parameters_told(
                                *old(core),
                                self.spec_sender_id().0,
                                told,
                            )
                        }
                    &&& ctx.prepared_rtp == crate::media_stream::track_local::prepared_rtp(
                        self.spec_sender_id(),
                        ctx.rtp_parameters.codecs@,
                        codings@,
                    )
                },
                Err(error) => {
                    &&& !senders::senders(*old(core)).contains_key(self.spec_sender_id().0)
                    &&& error == Error::ErrRTPSenderNotExisted
                    &&& *final(core) == *old(core)
                },
            },
    {
        let rtp_parameters = match senders::get_parameters(core, self.sender_id) {
            Some(told) => Some(senders::rtp_parameters(told)),
            None => None,
        };
        self.context(rtp_parameters, codings, driver_event_tx)
    }

    /// The context to bind the new track to, once the peer connection has told what
    /// was negotiated for the sender: nothing where it has no such sender.
    pub fn context<S>(
        self,
        rtp_parameters: Option<RTCRtpParameters>,
        codings: &[RTCRtpEncodingParameters],
        driver_event_tx: S,
    ) -> (outcome: Result<TrackLocalContext<S>, Error>)
        ensures
            match rtp_parameters {
                Some(rtp_parameters) => outcome == Ok::<TrackLocalContext<S>, Error>(
                    (TrackLocalContext {
                        rtp_sender_id: self.spec_sender_id(),
                        rtp_parameters,
                        driver_event_tx,
                        prepared_rtp: crate::media_stream::track_local::prepared_rtp(
                            self.spec_sender_id(),
                            rtp_parameters.codecs@,
                            codings@,
                        ),
                    }),
                ),
                None => outcome == Err::<TrackLocalContext<S>, Error>(
                    Error::ErrRTPSenderNotExisted,
                ),
            },
    {
        match existing_sender(rtp_parameters) {
            Ok(rtp_parameters) => {
                let prepared_rtp = TrackLocalContext::<S>::build_prepared_rtp(
                    self.sender_id,
                    &rtp_parameters,
                    codings,
                );
                Ok(
                    TrackLocalContext {
                        rtp_sender_id: self.sender_id,
                        rtp_parameters,
                        driver_event_tx,
                        prepared_rtp,
                    },
                )
            },
            Err(error) => Err(error),
        }
    }
}

/// Nothing of what was negotiated is hidden from what is said of it: every codec and
/// every header extension in its place, with all of its fields, and the RTCP settings.
pub proof fn law_view_shows_what_was_negotiated(parameters: RTCRtpParameters)
    ensures
        parameters@.cname == parameters.rtcp.cname@,
        parameters@.reduced_size == parameters.rtcp.reduced_size,
        parameters@.header_extensions.len() == parameters.header_extensions@.len(),
        forall|i: int|
            0 <= i < parameters.header_extensions@.len() ==> {
                let told = #[trigger] parameters@.header_extensions[i];
                let held = parameters.header_extensions@[i];
                told.uri == held.uri@ && told.id == held.id && told.encrypted == held.encrypted
            },
        parameters@.codecs.len() == parameters.codecs@.len(),
        forall|i: int|
            0 <= i < parameters.codecs@.len() ==> {
                let told = #[trigger] parameters@.codecs[i];
                let held = parameters.codecs@[i];
                &&& told.payload_type == held.payload_type
                &&& told.rtp_codec.mime_type == held.rtp_codec.mime_type@
                &&& told.rtp_codec.clock_rate == held.rtp_codec.clock_rate
                &&& told.rtp_codec.channels == held.rtp_codec.channels
                &&& told.rtp_codec.sdp_fmtp_line == held.rtp_codec.sdp_fmtp_line@
                &&& told.rtp_codec.rtcp_feedback.len() == held.rtp_codec.rtcp_feedback@.len()
                &&& forall|k: int|
                    0 <= k < held.rtp_codec.rtcp_feedback@.len() ==> (
                    #[trigger] told.rtp_codec.rtcp_feedback[k]).0
                        == held.rtp_codec.rtcp_feedback@[k].typ@
                        && told.rtp_codec.rtcp_feedback[k].1
                        == held.rtp_codec.rtcp_feedback@[k].parameter@
            },
{
}

/// After a replacement the new track sends on the sender, provided that its codec
/// was negotiated, and the old track sends nothing.
pub proof fn law_replacement_sends_and_old_track_does_not<S, R, C>(
    new_track: crate::media_stream::track_local::static_rtp::TrackLocalStaticRTP<S, R>,
    old_track: crate::media_stream::track_local::static_rtp::TrackLocalStaticRTP<S, R>,
    ctx: TrackLocalContext<S>,
    evt_rx: R,
    packet: crate::rtp::PacketView,
    sent_by_new: Result<crate::media_stream::track_local::Outgoing<'_, S, C>, Error>,
    sent_by_old: Result<crate::media_stream::track_local::Outgoing<'_, S, C>, Error>,
)
    requires
        ctx.prepared_rtp == crate::media_stream::track_local::prepared_rtp(
            ctx.rtp_sender_id,
            ctx.rtp_parameters.codecs@,
            new_track.track.codings@,
        ),
        new_track.bound(ctx, evt_rx).rtp_write(packet, sent_by_new),
        old_track.unbound().rtp_write(packet, sent_by_old),
    ensures
        sent_by_old is Err,
        sent_by_new is Ok <==> crate::media_stream::track_local::prepared_rtp(
            ctx.rtp_sender_id,
            ctx.rtp_parameters.codecs@,
            new_track.track.codings@,
        ) is Some,
        sent_by_new matches Ok(outgoing) ==> {
            &&& outgoing.event matches crate::peer_connection::driver::PeerConnectionDriverEvent::SenderRtpPrepared {
                sender_id,
                packet: sent,
                ssrc,
                payload_type,
            }
            &&& sender_id == ctx.rtp_sender_id
            &&& Some(ssrc) == new_track.track.codings@[0].rtp_coding_parameters.ssrc
            &&& Some(payload_type) == crate::media_stream::track_local::selected_payload_type(
                ctx.rtp_parameters.codecs@,
                new_track.track.codings@[0].codec,
            )
            &&& sent@ == packet
        },
{
}

/// A track that replaces itself is unbound and then bound, and ends up as if it had
/// only been bound: it sends if its codec was negotiated.
pub proof fn law_track_that_replaces_itself_is_bound<S, R>(
    track: crate::media_stream::track_local::static_rtp::TrackLocalStaticRTP<S, R>,
    ctx: TrackLocalContext<S>,
    evt_rx: R,
)
    requires
        ctx.prepared_rtp == crate::media_stream::track_local::prepared_rtp(
            ctx.rtp_sender_id,
            ctx.rtp_parameters.codecs@,
            track.track.codings@,
        ),
    ensures
        track.unbound().bound(ctx, evt_rx) == track.bound(ctx, evt_rx),
        track.unbound().bound(ctx, evt_rx).ctx is Some
            <==> crate::media_stream::track_local::prepared_rtp(
            ctx.rtp_sender_id,
            ctx.rtp_parameters.codecs@,
            track.track.codings@,
        ) is Some,
{
}

} // verus!
