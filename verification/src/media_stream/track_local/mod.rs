//! Tracks that are generated locally.

pub mod extensions;
pub mod static_rtp;

use crate::error::Error;
use crate::media_stream::MediaTrack;
use crate::peer_connection::driver::PeerConnectionDriverEvent;
use crate::rtp::Packet;
use crate::rtp_transceiver::rtp_sender::{
    RTCRtpCodec, RTCRtpCodecParameters, RTCRtpEncodingParameters, RTCRtpParameters,
};
use crate::rtp_transceiver::{PayloadType, RTCRtpSenderId, SSRC};
use vstd::prelude::*;

verus! {

/// What is sent with every packet of a bound track, resolved once.
#[derive(Clone, Copy, Debug, PartialEq, Eq, Structural)]
pub struct PreparedTrackLocalRtpContext {
    pub rtp_sender_id: RTCRtpSenderId,
    pub ssrc: SSRC,
    pub payload_type: PayloadType,
}

/// What a track learns of the sender that it is bound to. `S` is the sending end
/// of the driver's queue.
#[derive(Clone)]
pub struct TrackLocalContext<S> {
    pub rtp_sender_id: RTCRtpSenderId,
    pub rtp_parameters: RTCRtpParameters,
    pub driver_event_tx: S,
    pub prepared_rtp: Option<PreparedTrackLocalRtpContext>,
}

/// A request to the driver, and the queue that it goes to.
pub struct Outgoing<'a, S, C> {
    pub driver_event_tx: &'a S,
    pub event: PeerConnectionDriverEvent<C>,
}

/// A local media track that can be sent to a remote peer.
///
/// Applications write RTP and RTCP packets to the track, and the caller hands what
/// comes of that to the driver of the peer connection. `S` is the sending end of
/// the driver's queue, `R` the receiving end of the queue that delivers RTCP
/// feedback about the track.
pub trait TrackLocal<S, R> {
    /// Whether a sender has bound the track for sending.
    spec fn is_bound(&self) -> bool;

    /// Returns the underlying [`MediaTrack`] for this local track.
    fn track(&self) -> (track: &MediaTrack);

    /// Binds the track to the peer connection context.
    ///
    /// This is called after signaling is complete and the list of available
    /// codecs has been determined.
    fn bind(&mut self, ctx: TrackLocalContext<S>, evt_rx: R);

    /// Unbinds the track from the peer connection context, cleaning up any resources.
    fn unbind(&mut self)
        ensures
            !final(self).is_bound(),
    ;

    /// Writes an RTP packet to the track.
    fn write_rtp<'a, C>(&'a self, packet: Packet) -> (outgoing: Result<Outgoing<'a, S, C>, Error>)
        ensures
            outgoing is Ok ==> self.is_bound(),
    ;

    /// Writes RTCP packets to the track.
    fn write_rtcp<'a, C>(&'a self, packets: C) -> (outgoing: Result<Outgoing<'a, S, C>, Error>)
        ensures
            outgoing is Ok ==> self.is_bound(),
    ;

    /// The queue that delivers RTCP feedback about the track, if it has one.
    fn poll(&self) -> (evt_rx: Option<&R>);
}

/// A character with its case ignored, as far as it is an ASCII letter.
pub open spec fn ascii_lowercase(c: char) -> char {
    if 'A' <= c <= 'Z' {
        (c as u32 + 32) as char
    } else {
        c
    }
}

/// Whether two texts are equal but for the case of ASCII letters.
pub open spec fn same_ignoring_case(a: Seq<char>, b: Seq<char>) -> bool {
    a.map_values(|c: char| ascii_lowercase(c)) == b.map_values(|c: char| ascii_lowercase(c))
}

/// `str::eq_ignore_ascii_case`: the same text with ASCII letters in lower case.
#[verifier::external_body]
fn eq_ignore_ascii_case(a: &str, b: &str) -> (same: bool)
    ensures
        same == same_ignoring_case(a@, b@),
{
    a.eq_ignore_ascii_case(b)
}

/// Whether a codec has the MIME type of another.
pub open spec fn same_mime_type(codec: RTCRtpCodec, wanted: RTCRtpCodec) -> bool {
    same_ignoring_case(codec.mime_type@, wanted.mime_type@)
}

/// Whether a codec is set up like another.
pub open spec fn same_setup(codec: RTCRtpCodec, wanted: RTCRtpCodec) -> bool {
    &&& same_mime_type(codec, wanted)
    &&& codec.clock_rate == wanted.clock_rate
    &&& codec.channels == wanted.channels
    &&& codec.sdp_fmtp_line@ == wanted.sdp_fmtp_line@
}

/// The payload type of the first codec that is accepted.
pub open spec fn first_payload_type(
    codecs: Seq<RTCRtpCodecParameters>,
    accepted: spec_fn(RTCRtpCodec) -> bool,
) -> Option<PayloadType>
    decreases codecs.len(),
{
    if codecs.len() == 0 {
        None
    } else if accepted(codecs[0].rtp_codec) {
        Some(codecs[0].payload_type)
    } else {
        first_payload_type(codecs.drop_first(), accepted)
    }
}

/// The payload type negotiated for a codec: that of the first codec with the same
/// setup, else of the first with the same MIME type.
pub open spec fn selected_payload_type(
    codecs: Seq<RTCRtpCodecParameters>,
    wanted: RTCRtpCodec,
) -> Option<PayloadType> {
    match first_payload_type(codecs, |codec: RTCRtpCodec| same_setup(codec, wanted)) {
        Some(payload_type) => Some(payload_type),
        None => first_payload_type(codecs, |codec: RTCRtpCodec| same_mime_type(codec, wanted)),
    }
}

/// What can be resolved for a track with the given codings. Only the first coding
/// counts, and it needs a stream and a negotiated codec.
pub open spec fn prepared_rtp(
    rtp_sender_id: RTCRtpSenderId,
    codecs: Seq<RTCRtpCodecParameters>,
    codings: Seq<RTCRtpEncodingParameters>,
) -> Option<PreparedTrackLocalRtpContext> {
    if codings.len() == 0 {
        None
    } else {
        match (
            codings[0].rtp_coding_parameters.ssrc,
            selected_payload_type(codecs, codings[0].codec),
        ) {
            (Some(ssrc), Some(payload_type)) => Some(
                PreparedTrackLocalRtpContext { rtp_sender_id, ssrc, payload_type },
            ),
            _ => None,
        }
    }
}

impl<S> TrackLocalContext<S> {
    /// Resolves the stream and the payload type that a track sends with.
    pub fn build_prepared_rtp(
        rtp_sender_id: RTCRtpSenderId,
        rtp_parameters: &RTCRtpParameters,
        codings: &[RTCRtpEncodingParameters],
    ) -> (prepared: Option<PreparedTrackLocalRtpContext>)
        ensures
            prepared == prepared_rtp(rtp_sender_id, rtp_parameters.codecs@, codings@),
    {
        if codings.len() == 0 {
            return None;
        }
        let first_coding = &codings[0];
        let ssrc = match first_coding.rtp_coding_parameters.ssrc {
            Some(ssrc) => ssrc,
            None => return None,
        };
        match select_payload_type(&rtp_parameters.codecs, &first_coding.codec) {
            Some(payload_type) => Some(
                PreparedTrackLocalRtpContext { rtp_sender_id, ssrc, payload_type },
            ),
            None => None,
        }
    }
}

/// Finds the payload type negotiated for a codec.
fn select_payload_type(codecs: &Vec<RTCRtpCodecParameters>, wanted: &RTCRtpCodec) -> (selected:
    Option<PayloadType>)
    ensures
        selected == selected_payload_type(codecs@, *wanted),
{
    let ghost like = |codec: RTCRtpCodec| same_setup(codec, *wanted);
    let ghost named = |codec: RTCRtpCodec| same_mime_type(codec, *wanted);
    let mut by_mime_type: Option<PayloadType> = None;
    let mut at: usize = 0;
    proof {
        assert(codecs@.skip(0) == codecs@);
    }
    while at < codecs.len()
        invariant
            at <= codecs.len(),
            like == |codec: RTCRtpCodec| same_setup(codec, *wanted),
            named == |codec: RTCRtpCodec| same_mime_type(codec, *wanted),
            first_payload_type(codecs@, like) == first_payload_type(codecs@.skip(at as int), like),
            by_mime_type is Some ==> first_payload_type(codecs@, named) == by_mime_type,
            by_mime_type is None ==> first_payload_type(codecs@, named) == first_payload_type(
                codecs@.skip(at as int),
                named,
            ),
        decreases codecs.len() - at,
    {
        proof {
            assert(codecs@.skip(at as int).drop_first() == codecs@.skip(at + 1));
        }
        let candidate = &codecs[at];
        let codec = &candidate.rtp_codec;
        if eq_ignore_ascii_case(codec.mime_type.as_str(), wanted.mime_type.as_str()) {
            if codec.clock_rate == wanted.clock_rate && codec.channels == wanted.channels
                && codec.sdp_fmtp_line == wanted.sdp_fmtp_line {
                return Some(candidate.payload_type);
            }
            if by_mime_type.is_none() {
                by_mime_type = Some(candidate.payload_type);
            }
        }
        at += 1;
    }
    by_mime_type
}

/// A codec is sent with a payload type that was negotiated for its MIME type.
pub proof fn law_selected_codec_is_negotiated(
    codecs: Seq<RTCRtpCodecParameters>,
    wanted: RTCRtpCodec,
)
    ensures
        selected_payload_type(codecs, wanted) matches Some(payload_type) ==> exists|i: int|
            0 <= i < codecs.len() && (#[trigger] codecs[i]).payload_type == payload_type
                && same_mime_type(codecs[i].rtp_codec, wanted),
{
    lemma_first_payload_type(codecs, |codec: RTCRtpCodec| same_setup(codec, wanted));
    lemma_first_payload_type(codecs, |codec: RTCRtpCodec| same_mime_type(codec, wanted));
}

/// A codec is refused exactly when none was negotiated with its MIME type.
pub proof fn law_unrelated_codecs_are_refused(
    codecs: Seq<RTCRtpCodecParameters>,
    wanted: RTCRtpCodec,
)
    ensures
        selected_payload_type(codecs, wanted) is None <==> forall|i: int|
            0 <= i < codecs.len() ==> !same_mime_type((#[trigger] codecs[i]).rtp_codec, wanted),
{
    lemma_first_payload_type(codecs, |codec: RTCRtpCodec| same_setup(codec, wanted));
    lemma_first_payload_type(codecs, |codec: RTCRtpCodec| same_mime_type(codec, wanted));
}

/// A negotiated codec with the same setup is preferred to any that only shares
/// the MIME type, wherever it stands.
pub proof fn law_same_setup_is_preferred(
    codecs: Seq<RTCRtpCodecParameters>,
    wanted: RTCRtpCodec,
    at: int,
)
    requires
        0 <= at < codecs.len(),
        same_setup(codecs[at].rtp_codec, wanted),
    ensures
        exists|i: int|
            0 <= i <= at && same_setup((#[trigger] codecs[i]).rtp_codec, wanted)
                && selected_payload_type(codecs, wanted) == Some(codecs[i].payload_type) && forall|
                j: int|
                0 <= j < i ==> !same_setup((#[trigger] codecs[j]).rtp_codec, wanted),
{
    lemma_first_payload_type(codecs, |codec: RTCRtpCodec| same_setup(codec, wanted));
}

/// Two texts are equal but for the case of ASCII letters where they are of one length
/// and each pair of characters is the same, or an upper case letter `A` to `Z` and the
/// lower case letter 32 places behind it.
pub proof fn law_only_ascii_case_is_ignored(a: Seq<char>, b: Seq<char>)
    ensures
        same_ignoring_case(a, b) <==> a.len() == b.len() && forall|i: int|
            0 <= i < a.len() ==> {
                ||| (#[trigger] a[i]) == b[i]
                ||| 'A' <= a[i] <= 'Z' && b[i] as int == a[i] as int + 32
                ||| 'A' <= b[i] <= 'Z' && a[i] as int == b[i] as int + 32
            },
{
    let lower = |c: char| ascii_lowercase(c);
    let low_a = a.map_values(lower);
    let low_b = b.map_values(lower);
    if same_ignoring_case(a, b) {
        assert(low_a.len() == low_b.len());
        assert forall|i: int| 0 <= i < a.len() implies {
            ||| (#[trigger] a[i]) == b[i]
            ||| 'A' <= a[i] <= 'Z' && b[i] as int == a[i] as int + 32
            ||| 'A' <= b[i] <= 'Z' && a[i] as int == b[i] as int + 32
        } by {
            assert(low_a[i] == low_b[i]);
        }
    } else if a.len() == b.len() && forall|i: int|
        0 <= i < a.len() ==> {
            ||| (#[trigger] a[i]) == b[i]
            ||| 'A' <= a[i] <= 'Z' && b[i] as int == a[i] as int + 32
            ||| 'A' <= b[i] <= 'Z' && a[i] as int == b[i] as int + 32
        } {
        assert forall|i: int| 0 <= i < a.len() implies low_a[i] == low_b[i] by {
            assert(a[i] == b[i] || a[i] != b[i]);
        }
        assert(low_a =~= low_b);
    }
}

/// Where codecs were negotiated that agree with the wanted one in MIME type, clock
/// rate, channels and format parameters, the payload type is that of the first of
/// them, which stands at `at`.
pub proof fn law_selected_codec_agrees_in_all_fields(
    codecs: Seq<RTCRtpCodecParameters>,
    wanted: RTCRtpCodec,
    at: int,
)
    requires
        0 <= at < codecs.len(),
        same_ignoring_case(codecs[at].rtp_codec.mime_type@, wanted.mime_type@),
        codecs[at].rtp_codec.clock_rate == wanted.clock_rate,
        codecs[at].rtp_codec.channels == wanted.channels,
        codecs[at].rtp_codec.sdp_fmtp_line@ == wanted.sdp_fmtp_line@,
        forall|j: int|
            0 <= j < at ==> {
                ||| !same_ignoring_case(
                    (#[trigger] codecs[j]).rtp_codec.mime_type@,
                    wanted.mime_type@,
                )
                ||| codecs[j].rtp_codec.clock_rate != wanted.clock_rate
                ||| codecs[j].rtp_codec.channels != wanted.channels
                ||| codecs[j].rtp_codec.sdp_fmtp_line@ != wanted.sdp_fmtp_line@
            },
    ensures
        selected_payload_type(codecs, wanted) == Some(codecs[at].payload_type),
{
    lemma_first_payload_type(codecs, |codec: RTCRtpCodec| same_setup(codec, wanted));
}

/// Where no negotiated codec agrees with the wanted one in all of MIME type, clock
/// rate, channels and format parameters, the payload type is that of the first codec
/// that agrees in the MIME type, and there is none where no codec does.
pub proof fn law_mime_type_decides_without_full_agreement(
    codecs: Seq<RTCRtpCodecParameters>,
    wanted: RTCRtpCodec,
)
    requires
        forall|j: int|
            0 <= j < codecs.len() ==> {
                ||| !same_ignoring_case(
                    (#[trigger] codecs[j]).rtp_codec.mime_type@,
                    wanted.mime_type@,
                )
                ||| codecs[j].rtp_codec.clock_rate != wanted.clock_rate
                ||| codecs[j].rtp_codec.channels != wanted.channels
                ||| codecs[j].rtp_codec.sdp_fmtp_line@ != wanted.sdp_fmtp_line@
            },
    ensures
        match selected_payload_type(codecs, wanted) {
            Some(payload_type) => exists|i: int|
                {
                    &&& 0 <= i < codecs.len()
                    &&& (#[trigger] codecs[i]).payload_type == payload_type
                    &&& same_ignoring_case(codecs[i].rtp_codec.mime_type@, wanted.mime_type@)
                    &&& forall|j: int|
                        0 <= j < i ==> !same_ignoring_case(
                            (#[trigger] codecs[j]).rtp_codec.mime_type@,
                            wanted.mime_type@,
                        )
                },
            None => forall|i: int|
                0 <= i < codecs.len() ==> !same_ignoring_case(
                    (#[trigger] codecs[i]).rtp_codec.mime_type@,
                    wanted.mime_type@,
                ),
        },
{
    let like = |codec: RTCRtpCodec| same_setup(codec, wanted);
    let named = |codec: RTCRtpCodec| same_mime_type(codec, wanted);
    lemma_first_payload_type(codecs, like);
    lemma_first_payload_type(codecs, named);
    if first_payload_type(codecs, like) is Some {
        let i = choose|i: int|
            0 <= i < codecs.len() && like((#[trigger] codecs[i]).rtp_codec);
        assert(same_setup(codecs[i].rtp_codec, wanted));
    }
}

/// What a track sends with is resolved from its first coding alone: the sender that it
/// is resolved for, the stream of that coding, and a payload type that was negotiated
/// for its MIME type. It is resolved exactly where that coding has a stream and some
/// codec with its MIME type was negotiated.
pub proof fn law_prepared_values_are_those_of_the_first_coding(
    rtp_sender_id: RTCRtpSenderId,
    codecs: Seq<RTCRtpCodecParameters>,
    codings: Seq<RTCRtpEncodingParameters>,
)
    ensures
        match prepared_rtp(rtp_sender_id, codecs, codings) {
            Some(prepared) => {
                &&& codings.len() > 0
                &&& prepared.rtp_sender_id == rtp_sender_id
                &&& codings[0].rtp_coding_parameters.ssrc == Some(prepared.ssrc)
                &&& selected_payload_type(codecs, codings[0].codec) == Some(prepared.payload_type)
                &&& exists|i: int|
                    {
                        &&& 0 <= i < codecs.len()
                        &&& (#[trigger] codecs[i]).payload_type == prepared.payload_type
                        &&& same_ignoring_case(
                            codecs[i].rtp_codec.mime_type@,
                            codings[0].codec.mime_type@,
                        )
                    }
            },
            None => {
                ||| codings.len() == 0
                ||| codings[0].rtp_coding_parameters.ssrc is None
                ||| forall|i: int|
                    0 <= i < codecs.len() ==> !same_ignoring_case(
                        (#[trigger] codecs[i]).rtp_codec.mime_type@,
                        codings[0].codec.mime_type@,
                    )
            },
        },
{
    if codings.len() > 0 {
        law_selected_codec_is_negotiated(codecs, codings[0].codec);
        law_unrelated_codecs_are_refused(codecs, codings[0].codec);
    }
}

/// The first accepted codec is one that all before it are not.
proof fn lemma_first_payload_type(
    codecs: Seq<RTCRtpCodecParameters>,
    accepted: spec_fn(RTCRtpCodec) -> bool,
)
    ensures
        match first_payload_type(codecs, accepted) {
            Some(payload_type) => exists|i: int|
                0 <= i < codecs.len() && accepted((#[trigger] codecs[i]).rtp_codec)
                    && codecs[i].payload_type == payload_type && forall|j: int|
                    0 <= j < i ==> !accepted((#[trigger] codecs[j]).rtp_codec),
            None => forall|i: int|
                0 <= i < codecs.len() ==> !accepted((#[trigger] codecs[i]).rtp_codec),
        },
    decreases codecs.len(),
{
    if codecs.len() > 0 && !accepted(codecs[0].rtp_codec) {
        let rest = codecs.drop_first();
        lemma_first_payload_type(rest, accepted);
        assert forall|i: int| 0 <= i < rest.len() implies #[trigger] codecs[i + 1] == rest[i] by {}
        match first_payload_type(codecs, accepted) {
            Some(payload_type) => {
                let i = choose|i: int|
                    0 <= i < rest.len() && accepted((#[trigger] rest[i]).rtp_codec)
                        && rest[i].payload_type == payload_type && forall|j: int|
                        0 <= j < i ==> !accepted((#[trigger] rest[j]).rtp_codec);
                assert forall|j: int| 0 <= j < i + 1 implies !accepted(
                    (#[trigger] codecs[j]).rtp_codec,
                ) by {
                    if j > 0 {
                        assert(rest[j - 1] == codecs[j]);
                    }
                }
                assert(accepted(codecs[i + 1].rtp_codec));
            },
            None => {
                assert forall|i: int| 0 <= i < codecs.len() implies !accepted(
                    (#[trigger] codecs[i]).rtp_codec,
                ) by {
                    if i > 0 {
                        assert(rest[i - 1] == codecs[i]);
                    }
                }
            },
        }
    }
}

} // verus!
