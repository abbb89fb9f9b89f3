//! The header extensions that a sender can attach to a packet.

use crate::error::RtcError;
use bytes::Bytes;
use rtc::rtp::extension;
use rtc::rtp::extension::abs_send_time_extension::AbsSendTimeExtension;
use rtc::rtp::extension::audio_level_extension::AudioLevelExtension;
use rtc::rtp::extension::playout_delay_extension::PlayoutDelayExtension;
use rtc::rtp::extension::transport_cc_extension::TransportCcExtension;
use rtc::rtp::extension::video_orientation_extension as orientation;
use rtc::shared::marshal::Marshal;
use vstd::prelude::*;

verus! {

/// Which camera a frame came from.
#[derive(Clone, Copy, Debug, PartialEq, Eq, Structural)]
pub enum CameraDirection {
    /// The camera that faces the user.
    Front,
    /// The camera that faces away from the user.
    Back,
}

/// The clockwise rotation to apply when displaying a frame.
#[derive(Clone, Copy, Debug, PartialEq, Eq, Structural)]
pub enum VideoRotation {
    Degree0,
    Degree90,
    Degree180,
    Degree270,
}

/// The extensions that the RTP codec knows by itself.
#[derive(Clone, Copy, Debug, PartialEq, Eq, Structural)]
pub enum KnownExtension {
    AbsSendTime,
    AudioLevel,
    PlayoutDelay,
    TransportCc,
    VideoOrientation,
}

/// A header extension and its value.
#[derive(Debug, PartialEq, Eq)]
pub enum HeaderExtension {
    /// The absolute send time, in 6.18 fixed-point seconds.
    AbsSendTime { timestamp: u64 },
    /// The loudness, from 0 (loudest) to 127 (silence), and whether there is voice.
    AudioLevel { level: u8, voice: bool },
    /// The range of playout delays asked for, in units of 10 ms.
    PlayoutDelay { min_delay: u16, max_delay: u16 },
    /// The sequence number across all streams of a transport.
    TransportCc { transport_sequence: u16 },
    /// How to display the video upright.
    VideoOrientation { direction: CameraDirection, flip: bool, rotation: VideoRotation },
    /// An extension that the application encodes, with the outcome of that.
    Custom { uri: String, extension: Result<Bytes, RtcError> },
}

impl KnownExtension {
    /// The URI by which the extension is negotiated.
    pub open spec fn spec_uri(self) -> Seq<char> {
        match self {
            KnownExtension::AbsSendTime =>
                "http://www.webrtc.org/experiments/rtp-hdrext/abs-send-time"@,
            KnownExtension::AudioLevel => "urn:ietf:params:rtp-hdrext:ssrc-audio-level"@,
            KnownExtension::PlayoutDelay =>
                "http://www.webrtc.org/experiments/rtp-hdrext/playout-delay"@,
            KnownExtension::TransportCc =>
                "http://www.ietf.org/id/draft-holmer-rmcat-transport-wide-cc-extensions-01"@,
            KnownExtension::VideoOrientation => "urn:3gpp:video-orientation"@,
        }
    }
}

/// The wire form of an absolute send time: its low 24 bits, high byte first.
pub open spec fn abs_send_time_bytes(timestamp: u64) -> Seq<u8> {
    seq![
        (timestamp / 0x1_0000 % 0x100) as u8,
        (timestamp / 0x100 % 0x100) as u8,
        (timestamp % 0x100) as u8,
    ]
}

/// The wire form of an audio level: the voice flag above seven bits of level.
pub open spec fn audio_level_bytes(level: u8, voice: bool) -> Seq<u8> {
    seq![
        if voice {
            (0x80 + level) as u8
        } else {
            level
        },
    ]
}

/// The wire form of a playout delay: two numbers of twelve bits.
pub open spec fn playout_delay_bytes(min_delay: u16, max_delay: u16) -> Seq<u8> {
    seq![
        (min_delay / 0x10) as u8,
        (min_delay % 0x10 * 0x10 + max_delay / 0x100) as u8,
        (max_delay % 0x100) as u8,
    ]
}

/// The wire form of a transport-wide sequence number: high byte first.
pub open spec fn transport_cc_bytes(transport_sequence: u16) -> Seq<u8> {
    seq![(transport_sequence / 0x100) as u8, (transport_sequence % 0x100) as u8]
}

/// The wire form of a video orientation: one bit for the camera, one for the
/// flip, two for the rotation.
pub open spec fn video_orientation_bytes(
    direction: CameraDirection,
    flip: bool,
    rotation: VideoRotation,
) -> Seq<u8> {
    let camera: int = if direction == CameraDirection::Back {
        8
    } else {
        0
    };
    let mirrored: int = if flip {
        4
    } else {
        0
    };
    let turns: int = match rotation {
        VideoRotation::Degree0 => 0,
        VideoRotation::Degree90 => 1,
        VideoRotation::Degree180 => 2,
        VideoRotation::Degree270 => 3,
    };
    seq![(camera + mirrored + turns) as u8]
}

/// `HeaderExtension::uri` of `rtc::rtp` on an extension that the codec knows:
/// the URI depends on the variant alone.
#[verifier::external_body]
fn known_uri(known: KnownExtension) -> (uri: String)
    ensures
        uri@ == known.spec_uri(),
{
    let outside = match known {
        KnownExtension::AbsSendTime => extension::HeaderExtension::AbsSendTime(Default::default()),
        KnownExtension::AudioLevel => extension::HeaderExtension::AudioLevel(Default::default()),
        KnownExtension::PlayoutDelay => extension::HeaderExtension::PlayoutDelay(Default::default()),
        KnownExtension::TransportCc => extension::HeaderExtension::TransportCc(Default::default()),
        KnownExtension::VideoOrientation => extension::HeaderExtension::VideoOrientation(Default::default()),
    };
    outside.uri().into_owned()
}

/// `Marshal::marshal` of `AbsSendTimeExtension`: always the low 24 bits.
#[verifier::external_body]
fn marshal_abs_send_time(timestamp: u64) -> (encoded: Result<Bytes, RtcError>)
    ensures
        match encoded {
            Ok(buffer) => crate::buffer::bytes_contents(buffer) == abs_send_time_bytes(timestamp),
            Err(_) => false,
        },
{
    let encoded = AbsSendTimeExtension { timestamp }.marshal();
    encoded.map(|b| b.freeze()).map_err(|e| RtcError { name: format!("{e:?}"), message: e.to_string() })
}

/// `Marshal::marshal` of `AudioLevelExtension`: one byte, unless the level needs
/// more than seven bits.
#[verifier::external_body]
fn marshal_audio_level(level: u8, voice: bool) -> (encoded: Result<Bytes, RtcError>)
    ensures
        match encoded {
            Ok(buffer) => level <= 127 && crate::buffer::bytes_contents(buffer)
                == audio_level_bytes(level, voice),
            Err(error) => level > 127 && error@ == crate::rtp::RtpErrorKind::AudioLevel.error(),
        },
{
    let encoded = AudioLevelExtension { level, voice }.marshal();
    encoded.map(|b| b.freeze()).map_err(|e| RtcError { name: format!("{e:?}"), message: e.to_string() })
}

/// `Marshal::marshal` of `PlayoutDelayExtension`: three bytes, unless a delay
/// needs more than twelve bits.
#[verifier::external_body]
fn marshal_playout_delay(min_delay: u16, max_delay: u16) -> (encoded: Result<Bytes, RtcError>)
    ensures
        match encoded {
            Ok(buffer) => min_delay <= 4095 && max_delay <= 4095
                && crate::buffer::bytes_contents(buffer) == playout_delay_bytes(
                min_delay,
                max_delay,
            ),
            Err(error) => (min_delay > 4095 || max_delay > 4095) && error@
                == crate::rtp::RtpErrorKind::PlayoutDelay.error(),
        },
{
    let encoded = PlayoutDelayExtension { min_delay, max_delay }.marshal();
    encoded.map(|b| b.freeze()).map_err(|e| RtcError { name: format!("{e:?}"), message: e.to_string() })
}

/// `Marshal::marshal` of `TransportCcExtension`: always two bytes.
#[verifier::external_body]
fn marshal_transport_cc(transport_sequence: u16) -> (encoded: Result<Bytes, RtcError>)
    ensures
        match encoded {
            Ok(buffer) => crate::buffer::bytes_contents(buffer) == transport_cc_bytes(transport_sequence),
            Err(_) => false,
        },
{
    let encoded = TransportCcExtension { transport_sequence }.marshal();
    encoded.map(|b| b.freeze()).map_err(|e| RtcError { name: format!("{e:?}"), message: e.to_string() })
}

/// `Marshal::marshal` of `VideoOrientationExtension`: always one byte.
#[verifier::external_body]
fn marshal_video_orientation(
    direction: CameraDirection,
    flip: bool,
    rotation: VideoRotation,
) -> (encoded: Result<Bytes, RtcError>)
    ensures
        match encoded {
            Ok(buffer) => crate::buffer::bytes_contents(buffer) == video_orientation_bytes(direction, flip, rotation),
            Err(_) => false,
        },
{
    let direction = match direction {
        CameraDirection::Front => orientation::CameraDirection::Front,
        CameraDirection::Back => orientation::CameraDirection::Back,
    };
    let rotation = match rotation {
        VideoRotation::Degree0 => orientation::VideoRotation::Degree0,
        VideoRotation::Degree90 => orientation::VideoRotation::Degree90,
        VideoRotation::Degree180 => orientation::VideoRotation::Degree180,
        VideoRotation::Degree270 => orientation::VideoRotation::Degree270,
    };
    let encoded = orientation::VideoOrientationExtension { direction, flip, rotation }.marshal();
    encoded.map(|b| b.freeze()).map_err(|e| RtcError { name: format!("{e:?}"), message: e.to_string() })
}

impl HeaderExtension {
    /// The URI by which the extension is negotiated.
    pub open spec fn spec_uri(self) -> Seq<char> {
        match self {
            HeaderExtension::AbsSendTime { .. } => KnownExtension::AbsSendTime.spec_uri(),
            HeaderExtension::AudioLevel { .. } => KnownExtension::AudioLevel.spec_uri(),
            HeaderExtension::PlayoutDelay { .. } => KnownExtension::PlayoutDelay.spec_uri(),
            HeaderExtension::TransportCc { .. } => KnownExtension::TransportCc.spec_uri(),
            HeaderExtension::VideoOrientation { .. } => KnownExtension::VideoOrientation.spec_uri(),
            HeaderExtension::Custom { uri, .. } => uri@,
        }
    }

    /// The wire form of the value, or why it has none.
    pub open spec fn wire_form(self) -> Result<Seq<u8>, crate::error::RtcErrorView> {
        match self {
            HeaderExtension::AbsSendTime { timestamp } => Ok(abs_send_time_bytes(timestamp)),
            HeaderExtension::AudioLevel { level, voice } => if level > 127 {
                Err(crate::rtp::RtpErrorKind::AudioLevel.error())
            } else {
                Ok(audio_level_bytes(level, voice))
            },
            HeaderExtension::PlayoutDelay { min_delay, max_delay } => if min_delay > 4095
                || max_delay > 4095 {
                Err(crate::rtp::RtpErrorKind::PlayoutDelay.error())
            } else {
                Ok(playout_delay_bytes(min_delay, max_delay))
            },
            HeaderExtension::TransportCc { transport_sequence } => Ok(
                transport_cc_bytes(transport_sequence),
            ),
            HeaderExtension::VideoOrientation { direction, flip, rotation } => Ok(
                video_orientation_bytes(direction, flip, rotation),
            ),
            HeaderExtension::Custom { extension, .. } => match extension {
                Ok(buffer) => Ok(crate::buffer::bytes_contents(buffer)),
                Err(error) => Err(error@),
            },
        }
    }

    /// The URI by which the extension is negotiated.
    pub fn uri(&self) -> (uri: String)
        ensures
            uri@ == self.spec_uri(),
    {
        match self {
            HeaderExtension::AbsSendTime { .. } => known_uri(KnownExtension::AbsSendTime),
            HeaderExtension::AudioLevel { .. } => known_uri(KnownExtension::AudioLevel),
            HeaderExtension::PlayoutDelay { .. } => known_uri(KnownExtension::PlayoutDelay),
            HeaderExtension::TransportCc { .. } => known_uri(KnownExtension::TransportCc),
            HeaderExtension::VideoOrientation { .. } => known_uri(KnownExtension::VideoOrientation),
            HeaderExtension::Custom { uri, .. } => uri.clone(),
        }
    }

    /// The value in its wire form.
    pub fn marshal(&self) -> (encoded: Result<Bytes, RtcError>)
        ensures
            match encoded {
                Ok(buffer) => self.wire_form() == Ok::<Seq<u8>, crate::error::RtcErrorView>(
                    crate::buffer::bytes_contents(buffer),
                ),
                Err(error) => self.wire_form() == Err::<Seq<u8>, crate::error::RtcErrorView>(error@),
            },
    {
        match self {
            HeaderExtension::AbsSendTime { timestamp } => marshal_abs_send_time(*timestamp),
            HeaderExtension::AudioLevel { level, voice } => marshal_audio_level(*level, *voice),
            HeaderExtension::PlayoutDelay { min_delay, max_delay } => marshal_playout_delay(
                *min_delay,
                *max_delay,
            ),
            HeaderExtension::TransportCc { transport_sequence } => marshal_transport_cc(
                *transport_sequence,
            ),
            HeaderExtension::VideoOrientation { direction, flip, rotation } =>
                marshal_video_orientation(*direction, *flip, *rotation),
            HeaderExtension::Custom { extension, .. } => match extension {
                Ok(buffer) => Ok(buffer.clone()),
                Err(error) => Err(error.clone()),
            },
        }
    }
}

/// Each kind of extension is negotiated by its own URI, and a custom one by the URI
/// that it brings.
pub proof fn law_extensions_have_their_uris(extension: HeaderExtension)
    ensures
        extension.spec_uri() == match extension {
            HeaderExtension::AbsSendTime { .. } =>
                "http://www.webrtc.org/experiments/rtp-hdrext/abs-send-time"@,
            HeaderExtension::AudioLevel { .. } => "urn:ietf:params:rtp-hdrext:ssrc-audio-level"@,
            HeaderExtension::PlayoutDelay { .. } =>
                "http://www.webrtc.org/experiments/rtp-hdrext/playout-delay"@,
            HeaderExtension::TransportCc { .. } =>
                "http://www.ietf.org/id/draft-holmer-rmcat-transport-wide-cc-extensions-01"@,
            HeaderExtension::VideoOrientation { .. } => "urn:3gpp:video-orientation"@,
            HeaderExtension::Custom { uri, .. } => uri@,
        },
{
}

/// The value of an extension can be read back from its wire form, as far as that has
/// room for it: the low 24 bits of a send time, seven bits of level below the voice
/// flag, two delays of twelve bits, the sequence number, the bits of the orientation.
/// Exactly the levels and delays that do not fit have no wire form, and a custom
/// extension has the one that it brings.
pub proof fn law_wire_form_gives_the_value_back(extension: HeaderExtension)
    ensures
        match (extension, extension.wire_form()) {
            (HeaderExtension::AbsSendTime { timestamp }, Ok(bytes)) => bytes.len() == 3 && bytes[0]
                * 0x1_0000 + bytes[1] * 0x100 + bytes[2] == timestamp as int % 0x100_0000,
            (HeaderExtension::AudioLevel { level, voice }, Ok(bytes)) => {
                &&& bytes.len() == 1
                &&& level <= 127
                &&& level == bytes[0] % 0x80
                &&& voice == (bytes[0] >= 0x80)
            },
            (HeaderExtension::AudioLevel { level, .. }, Err(error)) => {
                &&& level > 127
                &&& error.name == "AudioLevelOverflow"@
                &&& error.message == "audio level overflow"@
            },
            (HeaderExtension::PlayoutDelay { min_delay, max_delay }, Ok(bytes)) => {
                &&& bytes.len() == 3
                &&& min_delay == bytes[0] * 0x10 + bytes[1] / 0x10
                &&& max_delay == bytes[1] % 0x10 * 0x100 + bytes[2]
            },
            (HeaderExtension::PlayoutDelay { min_delay, max_delay }, Err(error)) => {
                &&& min_delay >= 0x1000 || max_delay >= 0x1000
                &&& error.name == "PlayoutDelayOverflow"@
                &&& error.message == "playout delay overflow"@
            },
            (HeaderExtension::TransportCc { transport_sequence }, Ok(bytes)) => bytes.len() == 2
                && transport_sequence == bytes[0] * 0x100 + bytes[1],
            (HeaderExtension::VideoOrientation { direction, flip, rotation }, Ok(bytes)) => {
                &&& bytes.len() == 1
                &&& bytes[0] < 16
                &&& direction is Back <==> bytes[0] >= 8
                &&& flip <==> bytes[0] % 8 >= 4
                &&& bytes[0] % 4 == match rotation {
                    VideoRotation::Degree0 => 0,
                    VideoRotation::Degree90 => 1,
                    VideoRotation::Degree180 => 2,
                    VideoRotation::Degree270 => 3int,
                }
            },
            (HeaderExtension::Custom { extension: Ok(buffer), .. }, Ok(bytes)) => bytes
                == crate::buffer::bytes_contents(buffer),
            (HeaderExtension::Custom { extension: Err(given), .. }, Err(error)) => error.name
                == given.name@ && error.message == given.message@,
            _ => false,
        },
{
    if let HeaderExtension::AudioLevel { level, voice } = extension {
        if level <= 127 {
            assert(extension.wire_form()->Ok_0[0] == level + (if voice { 0x80int } else { 0 }));
        }
    }
}

} // verus!
