//! Media stream tracks.

pub mod track_local;

use crate::rtp_transceiver::rtp_sender::{RTCRtpCodec, RTCRtpEncodingParameters, RtpCodecKind};
use crate::rtp_transceiver::{RtpStreamId, SSRC};
use rtc::media_stream::{MediaTrackCapabilities, MediaTrackConstraints, MediaTrackSettings};
use vstd::prelude::*;

verus! {

/// The name of a media stream.
pub type MediaStreamId = String;

/// The name of a track.
pub type MediaStreamTrackId = String;

/// `rtc::media_stream::MediaTrackCapabilities`, carried as it is.
#[verifier::external_type_specification]
#[verifier::external_body]
pub struct ExMediaTrackCapabilities(MediaTrackCapabilities);

/// `rtc::media_stream::MediaTrackConstraints`, carried as it is.
#[verifier::external_type_specification]
#[verifier::external_body]
pub struct ExMediaTrackConstraints(MediaTrackConstraints);

/// `rtc::media_stream::MediaTrackSettings`, carried as it is.
#[verifier::external_type_specification]
#[verifier::external_body]
pub struct ExMediaTrackSettings(MediaTrackSettings);

/// `MediaTrackCapabilities::default`: the capabilities of a track whose source
/// has told none. What they hold is not said.
pub assume_specification[ <MediaTrackCapabilities as Default>::default ]() -> MediaTrackCapabilities
;

/// `MediaTrackConstraints::default`: no constraint. What they hold is not said.
pub assume_specification[ <MediaTrackConstraints as Default>::default ]() -> MediaTrackConstraints
;

/// `MediaTrackSettings::default`: the settings of a track whose source has told
/// none. What they hold is not said.
pub assume_specification[ <MediaTrackSettings as Default>::default ]() -> MediaTrackSettings
;

/// Whether a track still has a source.
#[derive(Clone, Copy, Debug, Default, PartialEq, Eq, Structural)]
pub enum MediaStreamTrackState {
    #[default]
    Live,
    Ended,
}

/// A track of a media stream.
pub struct MediaTrack {
    pub stream_id: MediaStreamId,
    pub track_id: MediaStreamTrackId,
    pub label: String,
    pub kind: RtpCodecKind,
    pub codings: Vec<RTCRtpEncodingParameters>,
    pub muted: bool,
    pub enabled: bool,
    pub ready_state: MediaStreamTrackState,
    pub capabilities: MediaTrackCapabilities,
    pub constraints: MediaTrackConstraints,
    pub settings: MediaTrackSettings,
}

impl MediaTrack {
    /// A live, enabled track that is not muted.
    pub fn new(
        stream_id: MediaStreamId,
        track_id: MediaStreamTrackId,
        label: String,
        kind: RtpCodecKind,
        codings: Vec<RTCRtpEncodingParameters>,
    ) -> (track: MediaTrack)
        ensures
            track.stream_id == stream_id,
            track.track_id == track_id,
            track.label == label,
            track.kind == kind,
            track.codings == codings,
            !track.muted,
            track.enabled,
            track.ready_state == MediaStreamTrackState::Live,
    {
        MediaTrack {
            stream_id,
            track_id,
            label,
            kind,
            codings,
            muted: false,
            enabled: true,
            ready_state: MediaStreamTrackState::Live,
            capabilities: MediaTrackCapabilities::default(),
            constraints: MediaTrackConstraints::default(),
            settings: MediaTrackSettings::default(),
        }
    }

    /// Whether `coding` is one of the layers of `ssrc`.
    pub open spec fn is_coding_of(coding: RTCRtpEncodingParameters, ssrc: SSRC) -> bool {
        coding.rtp_coding_parameters.ssrc == Some(ssrc)
    }

    /// The simulcast layer of the first named coding with the given stream.
    pub open spec fn spec_rid(
        codings: Seq<RTCRtpEncodingParameters>,
        ssrc: SSRC,
    ) -> Option<RtpStreamId>
        decreases codings.len(),
    {
        if codings.len() == 0 {
            None
        } else if Self::is_coding_of(codings[0], ssrc)
            && codings[0].rtp_coding_parameters.rid@.len() > 0 {
            Some(codings[0].rtp_coding_parameters.rid)
        } else {
            Self::spec_rid(codings.drop_first(), ssrc)
        }
    }

    /// The codec of the first coding with the given stream that has one.
    pub open spec fn spec_codec(
        codings: Seq<RTCRtpEncodingParameters>,
        ssrc: SSRC,
    ) -> Option<RTCRtpCodec>
        decreases codings.len(),
    {
        if codings.len() == 0 {
            None
        } else if Self::is_coding_of(codings[0], ssrc) && codings[0].codec.mime_type@.len() > 0 {
            Some(codings[0].codec)
        } else {
            Self::spec_codec(codings.drop_first(), ssrc)
        }
    }

    /// The streams of the codings that have one, in order.
    pub open spec fn spec_ssrcs(codings: Seq<RTCRtpEncodingParameters>) -> Seq<SSRC>
        decreases codings.len(),
    {
        if codings.len() == 0 {
            Seq::empty()
        } else {
            let before = Self::spec_ssrcs(codings.drop_last());
            match codings.last().rtp_coding_parameters.ssrc {
                Some(ssrc) => before.push(ssrc),
                None => before,
            }
        }
    }

    /// The simulcast layer of a stream.
    pub fn rid(&self, ssrc: SSRC) -> (rid: Option<&RtpStreamId>)
        ensures
            match rid {
                Some(rid) => Self::spec_rid(self.codings@, ssrc) == Some(*rid),
                None => Self::spec_rid(self.codings@, ssrc) is None,
            },
    {
        let mut at: usize = 0;
        proof {
            assert(self.codings@.skip(0) == self.codings@);
        }
        while at < self.codings.len()
            invariant
                at <= self.codings.len(),
                Self::spec_rid(self.codings@, ssrc) == Self::spec_rid(
                    self.codings@.skip(at as int),
                    ssrc,
                ),
            decreases self.codings.len() - at,
        {
            proof {
                assert(self.codings@.skip(at as int).drop_first() == self.codings@.skip(at + 1));
            }
            let coding = &self.codings[at];
            if let Some(own) = coding.rtp_coding_parameters.ssrc {
                if own == ssrc && !coding.rtp_coding_parameters.rid.as_str().is_empty() {
                    return Some(&coding.rtp_coding_parameters.rid);
                }
            }
            at += 1;
        }
        None
    }

    /// The codec of a stream.
    pub fn codec(&self, ssrc: SSRC) -> (codec: Option<&RTCRtpCodec>)
        ensures
            match codec {
                Some(codec) => Self::spec_codec(self.codings@, ssrc) == Some(*codec),
                None => Self::spec_codec(self.codings@, ssrc) is None,
            },
    {
        let mut at: usize = 0;
        proof {
            assert(self.codings@.skip(0) == self.codings@);
        }
        while at < self.codings.len()
            invariant
                at <= self.codings.len(),
                Self::spec_codec(self.codings@, ssrc) == Self::spec_codec(
                    self.codings@.skip(at as int),
                    ssrc,
                ),
            decreases self.codings.len() - at,
        {
            proof {
                assert(self.codings@.skip(at as int).drop_first() == self.codings@.skip(at + 1));
            }
            let coding = &self.codings[at];
            if let Some(own) = coding.rtp_coding_parameters.ssrc {
                if own == ssrc && !coding.codec.mime_type.as_str().is_empty() {
                    return Some(&coding.codec);
                }
            }
            at += 1;
        }
        None
    }

    /// The streams of the track.
    pub fn ssrcs(&self) -> (ssrcs: Vec<SSRC>)
        ensures
            ssrcs@ == Self::spec_ssrcs(self.codings@),
    {
        let mut ssrcs: Vec<SSRC> = Vec::new();
        let mut at: usize = 0;
        while at < self.codings.len()
            invariant
                at <= self.codings.len(),
                ssrcs@ == Self::spec_ssrcs(self.codings@.take(at as int)),
            decreases self.codings.len() - at,
        {
            proof {
                assert(self.codings@.take(at + 1).drop_last() == self.codings@.take(at as int));
            }
            if let Some(ssrc) = self.codings[at].rtp_coding_parameters.ssrc {
                ssrcs.push(ssrc);
            }
            at += 1;
        }
        proof {
            assert(self.codings@.take(at as int) == self.codings@);
        }
        ssrcs
    }

    /// Ends the track.
    pub fn stop(&mut self)
        ensures
            *final(self) == (MediaTrack {
                ready_state: MediaStreamTrackState::Ended,
                ..*old(self)
            }),
    {
        self.ready_state = MediaStreamTrackState::Ended;
    }

    /// Replaces the constraints of a live track, if any are given.
    pub fn apply_constraints(&mut self, constraints: Option<MediaTrackConstraints>)
        ensures
            *final(self) == match constraints {
                Some(constraints) if old(self).ready_state != MediaStreamTrackState::Ended =>
                    (MediaTrack { constraints, ..*old(self) }),
                _ => *old(self),
            },
    {
        if self.ready_state == MediaStreamTrackState::Ended {
            return;
        }
        if let Some(constraints) = constraints {
            self.constraints = constraints;
        }
    }
}

/// The simulcast layer of a stream is that of the first coding that has both the
/// stream and a named layer, and there is none where no coding has both.
pub proof fn law_rid_is_that_of_the_first_named_layer(
    codings: Seq<RTCRtpEncodingParameters>,
    ssrc: SSRC,
)
    ensures
        match MediaTrack::spec_rid(codings, ssrc) {
            Some(rid) => exists|i: int|
                {
                    &&& 0 <= i < codings.len()
                    &&& (#[trigger] codings[i]).rtp_coding_parameters.ssrc == Some(ssrc)
                    &&& codings[i].rtp_coding_parameters.rid == rid
                    &&& rid@.len() > 0
                    &&& forall|j: int|
                        0 <= j < i ==> (#[trigger] codings[j]).rtp_coding_parameters.ssrc != Some(
                            ssrc,
                        ) || codings[j].rtp_coding_parameters.rid@.len() == 0
                },
            None => forall|i: int|
                0 <= i < codings.len() ==> (#[trigger] codings[i]).rtp_coding_parameters.ssrc
                    != Some(ssrc) || codings[i].rtp_coding_parameters.rid@.len() == 0,
        },
    decreases codings.len(),
{
    if codings.len() > 0 && (codings[0].rtp_coding_parameters.ssrc != Some(ssrc)
        || codings[0].rtp_coding_parameters.rid@.len() == 0) {
        let rest = codings.drop_first();
        law_rid_is_that_of_the_first_named_layer(rest, ssrc);
        assert forall|i: int| 0 < i < codings.len() implies #[trigger] codings[i] == rest[i - 1] by {}
        if let Some(rid) = MediaTrack::spec_rid(rest, ssrc) {
            let i = choose|i: int|
                {
                    &&& 0 <= i < rest.len()
                    &&& (#[trigger] rest[i]).rtp_coding_parameters.ssrc == Some(ssrc)
                    &&& rest[i].rtp_coding_parameters.rid == rid
                    &&& rid@.len() > 0
                    &&& forall|j: int|
                        0 <= j < i ==> (#[trigger] rest[j]).rtp_coding_parameters.ssrc != Some(ssrc)
                            || rest[j].rtp_coding_parameters.rid@.len() == 0
                };
            assert(codings[i + 1].rtp_coding_parameters.ssrc == Some(ssrc));
        }
    }
}

/// The codec of a stream is that of the first coding that has both the stream and a
/// codec with a MIME type, and there is none where no coding has both.
pub proof fn law_codec_is_that_of_the_first_coding(
    codings: Seq<RTCRtpEncodingParameters>,
    ssrc: SSRC,
)
    ensures
        match MediaTrack::spec_codec(codings, ssrc) {
            Some(codec) => exists|i: int|
                {
                    &&& 0 <= i < codings.len()
                    &&& (#[trigger] codings[i]).rtp_coding_parameters.ssrc == Some(ssrc)
                    &&& codings[i].codec == codec
                    &&& codec.mime_type@.len() > 0
                    &&& forall|j: int|
                        0 <= j < i ==> (#[trigger] codings[j]).rtp_coding_parameters.ssrc != Some(
                            ssrc,
                        ) || codings[j].codec.mime_type@.len() == 0
                },
            None => forall|i: int|
                0 <= i < codings.len() ==> (#[trigger] codings[i]).rtp_coding_parameters.ssrc
                    != Some(ssrc) || codings[i].codec.mime_type@.len() == 0,
        },
    decreases codings.len(),
{
    if codings.len() > 0 && (codings[0].rtp_coding_parameters.ssrc != Some(ssrc)
        || codings[0].codec.mime_type@.len() == 0) {
        let rest = codings.drop_first();
        law_codec_is_that_of_the_first_coding(rest, ssrc);
        assert forall|i: int| 0 < i < codings.len() implies #[trigger] codings[i] == rest[i - 1] by {}
        if let Some(codec) = MediaTrack::spec_codec(rest, ssrc) {
            let i = choose|i: int|
                {
                    &&& 0 <= i < rest.len()
                    &&& (#[trigger] rest[i]).rtp_coding_parameters.ssrc == Some(ssrc)
                    &&& rest[i].codec == codec
                    &&& codec.mime_type@.len() > 0
                    &&& forall|j: int|
                        0 <= j < i ==> (#[trigger] rest[j]).rtp_coding_parameters.ssrc != Some(ssrc)
                            || rest[j].codec.mime_type@.len() == 0
                };
            assert(codings[i + 1].rtp_coding_parameters.ssrc == Some(ssrc));
        }
    }
}

/// The streams of a track are those of its codings, each coding adding its own behind
/// those of the codings before it, or none where it has none.
pub proof fn law_streams_come_in_the_order_of_codings(
    codings: Seq<RTCRtpEncodingParameters>,
    more: Seq<RTCRtpEncodingParameters>,
    coding: RTCRtpEncodingParameters,
)
    ensures
        MediaTrack::spec_ssrcs(codings + more) == MediaTrack::spec_ssrcs(codings)
            + MediaTrack::spec_ssrcs(more),
        MediaTrack::spec_ssrcs(seq![coding]) == match coding.rtp_coding_parameters.ssrc {
            Some(ssrc) => seq![ssrc],
            None => Seq::<SSRC>::empty(),
        },
    decreases more.len(),
{
    assert(seq![coding].drop_last() =~= Seq::empty());
    assert(MediaTrack::spec_ssrcs(Seq::empty()) =~= Seq::empty());
    if more.len() == 0 {
        assert(codings + more =~= codings);
    } else {
        law_streams_come_in_the_order_of_codings(codings, more.drop_last(), coding);
        assert((codings + more).drop_last() =~= codings + more.drop_last());
        assert((codings + more).last() == more.last());
    }
}

} // verus!
