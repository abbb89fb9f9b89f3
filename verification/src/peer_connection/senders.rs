//! The senders of a peer connection of the `rtc` crate.

use crate::error::RtcError;
use crate::rtp_transceiver::rtp_sender::{
    CodecParametersView, CodecView, HeaderExtensionParametersView, RTCPFeedback,
    RTCRtcpParameters, RTCRtpCodec, RTCRtpCodecParameters, RTCRtpHeaderExtensionParameters,
    RTCRtpParameters, RtpCodecKind, RtpParametersView,
};
use crate::rtp_transceiver::{RTCRtpSenderId, SSRC};
use rtc::peer_connection::RTCPeerConnection;
use rtc::rtp_transceiver::rtp_sender as outside;
use rtc::rtp_transceiver::rtp_sender::{
    RTCRtpCapabilities, RTCRtpSendParameters, RTCSetParameterOptions,
};
use rtc::statistics::report::RTCStatsReport;
use rtc::statistics::StatsSelector;
use std::time::Instant;
use vstd::prelude::*;

verus! {

/// `rtc::peer_connection::RTCPeerConnection`, a peer connection without any I/O.
#[verifier::external_type_specification]
#[verifier::external_body]
pub struct ExRTCPeerConnection(RTCPeerConnection);

/// `rtc::media_stream::MediaStreamTrack`, as a peer connection takes it.
#[verifier::external_type_specification]
#[verifier::external_body]
pub struct ExMediaStreamTrack(rtc::media_stream::MediaStreamTrack);

/// `rtc::rtp_transceiver::rtp_sender::RTCRtpCapabilities`, carried as it is.
#[verifier::external_type_specification]
#[verifier::external_body]
pub struct ExRTCRtpCapabilities(RTCRtpCapabilities);

/// `rtc::rtp_transceiver::rtp_sender::RTCRtpSendParameters`, carried as it is.
#[verifier::external_type_specification]
#[verifier::external_body]
pub struct ExRTCRtpSendParameters(RTCRtpSendParameters);

/// `rtc::rtp_transceiver::rtp_sender::RTCSetParameterOptions`, carried as it is.
#[verifier::external_type_specification]
#[verifier::external_body]
pub struct ExRTCSetParameterOptions(RTCSetParameterOptions);

/// `rtc::statistics::report::RTCStatsReport`, carried as it is.
#[verifier::external_type_specification]
#[verifier::external_body]
pub struct ExRTCStatsReport(RTCStatsReport);

/// `std::time::Instant`, carried as it is.
#[verifier::external_type_specification]
#[verifier::external_body]
pub struct ExInstant(Instant);

/// The senders that a peer connection holds, by the number of their id, each with
/// the kind of media that it sends.
pub uninterp spec fn senders(core: RTCPeerConnection) -> Map<usize, RtpCodecKind>;

/// The codecs negotiated for a sender, in order of preference.
pub uninterp spec fn negotiated_codecs(core: RTCPeerConnection, id: usize) -> Seq<
    CodecParametersView,
>;

/// Whether a peer connection may tell these as the header extensions negotiated
/// for a sender. The order in which a hash map is walked picks among several ids
/// that one extension was negotiated under; else there is one such set.
pub uninterp spec fn may_tell_extensions(
    core: RTCPeerConnection,
    id: usize,
    extensions: Set<HeaderExtensionParametersView>,
) -> bool;

/// The encodings that a peer connection tells for a sender.
pub uninterp spec fn told_encodings(core: RTCPeerConnection, id: usize) -> Seq<EncodingView>;

/// The URIs of the header extensions that a sender can send.
pub uninterp spec fn sendable_extensions(core: RTCPeerConnection, id: usize) -> Set<Seq<char>>;

/// The track of a sender.
pub uninterp spec fn sender_track(
    core: RTCPeerConnection,
    id: usize,
) -> rtc::media_stream::MediaStreamTrack;

/// The media streams that the track of a sender belongs to.
pub uninterp spec fn sender_streams(core: RTCPeerConnection, id: usize) -> Seq<Seq<char>>;

/// The RTP streams that were sent on a sender.
pub uninterp spec fn sent_streams(core: RTCPeerConnection, id: usize) -> Set<SSRC>;

/// What the parameters of a sender hold.
pub uninterp spec fn held_parameters(parameters: RTCRtpSendParameters) -> SendParametersView;

/// The codecs that capabilities hold.
pub uninterp spec fn capable_codecs(capabilities: RTCRtpCapabilities) -> Seq<CodecView>;

/// The URIs of the header extensions that capabilities hold.
pub uninterp spec fn capable_extensions(capabilities: RTCRtpCapabilities) -> Set<Seq<char>>;

/// The outbound RTP streams that a report tells of.
pub uninterp spec fn reported_streams(report: RTCStatsReport) -> Set<SSRC>;

/// The moments that the entries of a report were taken for.
pub uninterp spec fn reported_moments(report: RTCStatsReport) -> Set<Instant>;

/// The contents of an `RTCRtpEncodingParameters`, but for its frame rate and its
/// scale, which are floating-point numbers. Retransmission and error correction are
/// their streams.
#[verifier::ext_equal]
pub struct EncodingView {
    pub rid: Seq<char>,
    pub ssrc: Option<SSRC>,
    pub rtx: Option<SSRC>,
    pub fec: Option<SSRC>,
    pub active: bool,
    pub codec: CodecView,
    pub max_bitrate: u32,
}

/// The contents of an `RTCRtpSendParameters`, but for its random name.
#[verifier::ext_equal]
pub struct SendParametersView {
    pub rtp_parameters: RtpParametersView,
    pub encodings: Seq<EncodingView>,
}

/// Whether two states of a peer connection agree on the senders, on what was
/// negotiated for them and on what was sent.
pub open spec fn same_senders(before: RTCPeerConnection, after: RTCPeerConnection) -> bool {
    &&& senders(after) == senders(before)
    &&& forall|id: usize| #[trigger]
        negotiated_codecs(after, id) == negotiated_codecs(before, id)
    &&& forall|id: usize| #[trigger]
        sendable_extensions(after, id) == sendable_extensions(before, id)
    &&& forall|id: usize| #[trigger] sent_streams(after, id) == sent_streams(before, id)
}

/// Whether two states of a peer connection agree on the encodings of the senders.
pub open spec fn same_encodings(before: RTCPeerConnection, after: RTCPeerConnection) -> bool {
    forall|id: usize| #[trigger] told_encodings(after, id) == told_encodings(before, id)
}

/// Whether two states of a peer connection agree on the tracks of the senders.
pub open spec fn same_tracks(before: RTCPeerConnection, after: RTCPeerConnection) -> bool {
    forall|id: usize| #[trigger] sender_track(after, id) == sender_track(before, id)
}

/// Whether two states of a peer connection agree on the media streams of the
/// senders.
pub open spec fn same_streams(before: RTCPeerConnection, after: RTCPeerConnection) -> bool {
    forall|id: usize| #[trigger] sender_streams(after, id) == sender_streams(before, id)
}

/// What replacing the track of a sender by `track` changes: it is the track of that
/// sender, which belongs to the media stream of the track alone.
pub open spec fn track_is_replaced(
    before: RTCPeerConnection,
    after: RTCPeerConnection,
    id: usize,
    track: rtc::media_stream::MediaStreamTrack,
) -> bool {
    &&& forall|other: usize| #[trigger]
        sender_track(after, other) == if other == id {
            track
        } else {
            sender_track(before, other)
        }
    &&& forall|other: usize| #[trigger]
        sender_streams(after, other) == if other == id {
            seq![media_stream_id(track)]
        } else {
            sender_streams(before, other)
        }
}

/// What setting the media streams of a sender changes: its track belongs to them,
/// or to its own media stream where none is given.
pub open spec fn streams_are_set(
    before: RTCPeerConnection,
    after: RTCPeerConnection,
    id: usize,
    streams: Seq<Seq<char>>,
) -> bool {
    forall|other: usize| #[trigger]
        sender_streams(after, other) == if other != id {
            sender_streams(before, other)
        } else if streams.len() == 0 {
            seq![media_stream_id(sender_track(before, id))]
        } else {
            streams
        }
}

/// What a kind of media is called in MIME types.
pub open spec fn kind_text(kind: RtpCodecKind) -> Seq<char> {
    match kind {
        RtpCodecKind::Unspecified => "Unspecified"@,
        RtpCodecKind::Audio => "audio"@,
        RtpCodecKind::Video => "video"@,
        RtpCodecKind::Application => "application"@,
    }
}

/// Whether a text holds another one.
pub open spec fn holds_text(text: Seq<char>, part: Seq<char>) -> bool {
    exists|i: int|
        0 <= i <= text.len() - part.len() && #[trigger] text.subrange(i, i + part.len()) == part
}

/// The codecs negotiated for a sender whose MIME type names a kind of media.
pub open spec fn sendable_codecs(
    core: RTCPeerConnection,
    id: usize,
    kind: RtpCodecKind,
) -> Seq<CodecView> {
    negotiated_codecs(core, id).filter(
        |codec: CodecParametersView| holds_text(codec.rtp_codec.mime_type, kind_text(kind)),
    ).map_values(|codec: CodecParametersView| codec.rtp_codec)
}

/// Whether `told` may be what a peer connection tells as negotiated for a sender:
/// its codecs and some set of header extensions, no canonical name and no reduced
/// RTCP packets.
pub open spec fn may_tell(core: RTCPeerConnection, id: usize, told: RtpParametersView) -> bool {
    &&& told.codecs == negotiated_codecs(core, id)
    &&& may_tell_extensions(core, id, told.header_extensions.to_set())
    &&& told.cname == Seq::<char>::empty()
    &&& !told.reduced_size
}

/// The kind of media that a track carries.
pub uninterp spec fn media_kind(track: rtc::media_stream::MediaStreamTrack) -> RtpCodecKind;

/// The media stream that a track belongs to.
pub uninterp spec fn media_stream_id(track: rtc::media_stream::MediaStreamTrack) -> Seq<char>;

/// What replacing the track of a sender by a track of its kind makes of a peer
/// connection.
pub uninterp spec fn with_track_replaced(
    core: RTCPeerConnection,
    id: usize,
    track: rtc::media_stream::MediaStreamTrack,
) -> RTCPeerConnection;

/// What setting the parameters of a sender makes of a peer connection, and why
/// they are refused if they are.
pub uninterp spec fn with_parameters_set(
    core: RTCPeerConnection,
    id: usize,
    parameters: RTCRtpSendParameters,
    set_parameter_options: Option<RTCSetParameterOptions>,
) -> (RTCPeerConnection, Result<(), crate::error::RtcErrorView>);

/// What setting the media streams of a sender makes of a peer connection.
pub uninterp spec fn with_streams_set(
    core: RTCPeerConnection,
    id: usize,
    streams: Seq<Seq<char>>,
) -> RTCPeerConnection;

/// What a peer connection is once it has told parameters for a sender: it keeps
/// them to tell them again.
pub uninterp spec fn with_parameters_told(
    core: RTCPeerConnection,
    id: usize,
    told: RTCRtpSendParameters,
) -> RTCPeerConnection;

/// What a peer connection is once it has told statistics for a moment.
pub uninterp spec fn with_stats_told(core: RTCPeerConnection, now: Instant) -> RTCPeerConnection;

/// The outcome of a change, with the texts of an error as sequences of characters.
pub open spec fn set_view(set: Result<(), RtcError>) -> Result<(), crate::error::RtcErrorView> {
    match set {
        Ok(done) => Ok(done),
        Err(error) => Err(error@),
    }
}

/// What is said of a track that carries another kind of media than the sender.
pub open spec fn incorrect_kind() -> crate::error::RtcErrorView {
    crate::error::RtcErrorView {
        name: "ErrRTPSenderNewTrackHasIncorrectKind"@,
        message: "new track must be of the same kind as previous"@,
    }
}

/// `RTCRtpSender::replace_track` on a sender of the peer connection, if there is
/// such a sender: it takes a track of its own kind only, and nothing changes
/// otherwise. A track that it takes becomes its track, and the media stream of the
/// track its only one.
#[verifier::external_body]
pub(crate) fn replace_track(
    core: &mut RTCPeerConnection,
    id: RTCRtpSenderId,
    track: rtc::media_stream::MediaStreamTrack,
) -> (replaced: Option<Result<(), RtcError>>)
    ensures
        same_senders(*old(core), *final(core)),
        same_encodings(*old(core), *final(core)),
        match replaced {
            Some(Ok(_)) => {
                &&& senders(*old(core)).contains_key(id.0)
                &&& senders(*old(core))[id.0] == media_kind(track)
                &&& sender_track(*final(core), id.0) == track
                &&& sender_streams(*final(core), id.0) == seq![media_stream_id(track)]
                &&& track_is_replaced(*old(core), *final(core), id.0, track)
                &&& *final(core) == with_track_replaced(*old(core), id.0, track)
            },
            Some(Err(error)) => {
                &&& senders(*old(core)).contains_key(id.0)
                &&& senders(*old(core))[id.0] != media_kind(track)
                &&& error@ == incorrect_kind()
                &&& *final(core) == *old(core)
            },
            None => {
                &&& !senders(*old(core)).contains_key(id.0)
                &&& *final(core) == *old(core)
            },
        },
{
    let replaced = core.rtp_sender(id.0.into())?.replace_track(track);
    Some(replaced.map_err(|e| RtcError { name: format!("{e:?}"), message: e.to_string() }))
}

/// `RTCRtpSender::get_capabilities` on a sender of the peer connection, if there is
/// such a sender: none for media of no kind, else those of the negotiated codecs
/// whose MIME type names the kind, and the URIs of the header extensions that the
/// sender can send. Nothing changes. The order of the URIs is that in which a hash
/// map is walked, and is not said.
#[verifier::external_body]
pub(crate) fn get_capabilities(
    core: &mut RTCPeerConnection,
    id: RTCRtpSenderId,
    kind: RtpCodecKind,
) -> (told: Option<Option<RTCRtpCapabilities>>)
    ensures
        *final(core) == *old(core),
        match told {
            Some(told) => {
                &&& senders(*old(core)).contains_key(id.0)
                &&& match told {
                    Some(capabilities) => {
                        &&& kind != RtpCodecKind::Unspecified
                        &&& capable_codecs(capabilities) == sendable_codecs(*old(core), id.0, kind)
                        &&& capable_extensions(capabilities) == sendable_extensions(
                            *old(core),
                            id.0,
                        )
                    },
                    None => kind == RtpCodecKind::Unspecified,
                }
            },
            None => !senders(*old(core)).contains_key(id.0),
        },
{
    let kind = match kind {
        RtpCodecKind::Unspecified => outside::RtpCodecKind::Unspecified,
        RtpCodecKind::Audio => outside::RtpCodecKind::Audio,
        RtpCodecKind::Video => outside::RtpCodecKind::Video,
        RtpCodecKind::Application => outside::RtpCodecKind::Application,
    };
    Some(core.rtp_sender(id.0.into())?.get_capabilities(kind))
}

/// `RTCRtpSender::set_parameters` on a sender of the peer connection, if there is
/// such a sender. What they change and which are refused rests on floating-point
/// numbers, and has a name only.
#[verifier::external_body]
pub(crate) fn set_parameters(
    core: &mut RTCPeerConnection,
    id: RTCRtpSenderId,
    parameters: RTCRtpSendParameters,
    set_parameter_options: Option<RTCSetParameterOptions>,
) -> (set: Option<Result<(), RtcError>>)
    ensures
        same_senders(*old(core), *final(core)),
        same_tracks(*old(core), *final(core)),
        same_streams(*old(core), *final(core)),
        match set {
            Some(set) => {
                &&& senders(*old(core)).contains_key(id.0)
                &&& (*final(core), set_view(set)) == with_parameters_set(
                    *old(core),
                    id.0,
                    parameters,
                    set_parameter_options,
                )
            },
            None => {
                &&& !senders(*old(core)).contains_key(id.0)
                &&& *final(core) == *old(core)
            },
        },
{
    let set = core.rtp_sender(id.0.into())?.set_parameters(parameters, set_parameter_options);
    Some(set.map_err(|e| RtcError { name: format!("{e:?}"), message: e.to_string() }))
}

/// `RTCRtpSender::get_parameters` on a sender of the peer connection, if there is
/// such a sender: the negotiated codecs in their order, the encodings, and header
/// extensions whose order is that in which a hash map is walked. What was told is
/// kept, and nothing else changes. The random name of the parameters, and the frame
/// rate and the scale of an encoding, are not said.
#[verifier::external_body]
pub(crate) fn get_parameters(core: &mut RTCPeerConnection, id: RTCRtpSenderId) -> (told: Option<
    RTCRtpSendParameters,
>)
    ensures
        same_senders(*old(core), *final(core)),
        same_encodings(*old(core), *final(core)),
        same_tracks(*old(core), *final(core)),
        same_streams(*old(core), *final(core)),
        match told {
            Some(told) => {
                &&& senders(*old(core)).contains_key(id.0)
                &&& *final(core) == with_parameters_told(*old(core), id.0, told)
                &&& held_parameters(told).encodings == told_encodings(*old(core), id.0)
                &&& held_parameters(told).rtp_parameters.codecs == negotiated_codecs(
                    *old(core),
                    id.0,
                )
                &&& may_tell_extensions(
                    *old(core),
                    id.0,
                    held_parameters(told).rtp_parameters.header_extensions.to_set(),
                )
                &&& held_parameters(told).rtp_parameters.cname == Seq::<char>::empty()
                &&& !held_parameters(told).rtp_parameters.reduced_size
            },
            None => {
                &&& !senders(*old(core)).contains_key(id.0)
                &&& *final(core) == *old(core)
            },
        },
{
    Some(core.rtp_sender(id.0.into())?.get_parameters().to_owned())
}

/// What was negotiated, out of an `RTCRtpSendParameters`: each field of its
/// `rtp_parameters` as it is.
#[verifier::external_body]
pub(crate) fn rtp_parameters(told: RTCRtpSendParameters) -> (parameters: RTCRtpParameters)
    ensures
        parameters@ == held_parameters(told).rtp_parameters,
{
    let told = told.rtp_parameters;
    RTCRtpParameters {
        header_extensions: told.header_extensions.into_iter()
            .map(|h| RTCRtpHeaderExtensionParameters { uri: h.uri, id: h.id, encrypted: h.encrypted }).collect(),
        rtcp: RTCRtcpParameters { cname: told.rtcp.cname, reduced_size: told.rtcp.reduced_size },
        codecs: told.codecs.into_iter().map(|c| RTCRtpCodecParameters {
            rtp_codec: RTCRtpCodec {
                mime_type: c.rtp_codec.mime_type, sdp_fmtp_line: c.rtp_codec.sdp_fmtp_line,
                clock_rate: c.rtp_codec.clock_rate, channels: c.rtp_codec.channels,
                rtcp_feedback: c.rtp_codec.rtcp_feedback.into_iter()
                    .map(|f| RTCPFeedback { typ: f.typ, parameter: f.parameter }).collect(),
            },
            payload_type: c.payload_type,
        }).collect(),
    }
}

/// `RTCRtpSender::set_streams` on a sender of the peer connection, if there is such
/// a sender: its track belongs to these, or to its own media stream where none is
/// given.
#[verifier::external_body]
pub(crate) fn set_streams(
    core: &mut RTCPeerConnection,
    id: RTCRtpSenderId,
    streams: Vec<String>,
) -> (set: Option<()>)
    ensures
        same_senders(*old(core), *final(core)),
        same_encodings(*old(core), *final(core)),
        same_tracks(*old(core), *final(core)),
        match set {
            Some(_) => {
                &&& senders(*old(core)).contains_key(id.0)
                &&& streams_are_set(
                    *old(core),
                    *final(core),
                    id.0,
                    streams@.map_values(|stream: String| stream@),
                )
                &&& *final(core) == with_streams_set(
                    *old(core),
                    id.0,
                    streams@.map_values(|stream: String| stream@),
                )
            },
            None => {
                &&& !senders(*old(core)).contains_key(id.0)
                &&& *final(core) == *old(core)
            },
        },
{
    Some(core.rtp_sender(id.0.into())?.set_streams(streams))
}

/// `RTCPeerConnection::rtp_sender`: whether there is such a sender. Nothing
/// changes.
#[verifier::external_body]
pub(crate) fn has_sender(core: &mut RTCPeerConnection, id: RTCRtpSenderId) -> (found: bool)
    ensures
        *final(core) == *old(core),
        found == senders(*old(core)).contains_key(id.0),
{
    core.rtp_sender(id.0.into()).is_some()
}

/// `RTCPeerConnection::get_stats` of a sender: of the outbound streams exactly those
/// that were sent on it, all entries taken for the moment `now`, and none at all
/// where nothing was sent. Taking them changes no sender. The entries carry a reading
/// of the wall clock and come in the order in which a hash map is walked; what they
/// count is not said.
#[verifier::external_body]
pub(crate) fn get_stats(core: &mut RTCPeerConnection, id: RTCRtpSenderId, now: Instant) -> (report:
    RTCStatsReport)
    ensures
        same_senders(*old(core), *final(core)),
        same_encodings(*old(core), *final(core)),
        same_tracks(*old(core), *final(core)),
        same_streams(*old(core), *final(core)),
        *final(core) == with_stats_told(*old(core), now),
        reported_streams(report) == sent_streams(*old(core), id.0),
        reported_moments(report) == if sent_streams(*old(core), id.0) == Set::<SSRC>::empty() {
            Set::<Instant>::empty()
        } else {
            set![now]
        },
{
    core.get_stats(now, StatsSelector::Sender(id.0.into()))
}

} // verus!
