use bytes::Bytes;
use rtc::rtp::extension as rtc_extension;
use rtc::rtp::extension::abs_send_time_extension::AbsSendTimeExtension;
use rtc::rtp::extension::audio_level_extension::AudioLevelExtension;
use rtc::rtp::extension::playout_delay_extension::PlayoutDelayExtension;
use rtc::rtp::extension::transport_cc_extension::TransportCcExtension;
use rtc::rtp::extension::video_orientation_extension as orientation;
use rtc::shared::marshal::{Marshal, MarshalSize};
use std::sync::mpsc::{channel, Receiver, Sender};
use webrtc::error::{Error, RtcError};
use webrtc::media_stream::track_local::static_rtp::{
    finish_write, TrackLocalStaticRTP, TrackLocalStaticRtpBindResult, SDES_MID_URI,
};
use webrtc::media_stream::track_local::{
    Outgoing, PreparedTrackLocalRtpContext, TrackLocal, TrackLocalContext,
};
use webrtc::media_stream::{MediaTrack, MediaStreamTrackState};
use webrtc::peer_connection::driver::PeerConnectionDriverEvent;
use webrtc::rtp::extension::{CameraDirection, HeaderExtension, VideoRotation};
use webrtc::rtp::{Extension, Header, Packet};
use webrtc::rtp_transceiver::rtp_sender::{
    RTCRtpCodec, RTCRtpCodingParameters, RTCRtpEncodingParameters,
    RTCRtpHeaderExtensionParameters, RTCRtpParameters, RtpCodecKind,
};
use webrtc::rtp_transceiver::RTCRtpSenderId;

type Event = PeerConnectionDriverEvent<Vec<u8>>;
type Track = TrackLocalStaticRTP<Sender<Event>, &'static str>;

const AUDIO_LEVEL_URI: &str = "urn:ietf:params:rtp-hdrext:ssrc-audio-level";
const ABS_SEND_TIME_URI: &str = "http://www.webrtc.org/experiments/rtp-hdrext/abs-send-time";

fn track() -> Track {
    TrackLocalStaticRTP::new(MediaTrack::new(
        "stream".to_owned(),
        "track".to_owned(),
        "track".to_owned(),
        RtpCodecKind::Video,
        vec![],
    ))
}

fn packet() -> Packet {
    Packet {
        header: Header {
            version: 2,
            payload_type: 96,
            sequence_number: 0x1234,
            timestamp: 0x0102_0304,
            ssrc: 0x0506_0708,
            ..Default::default()
        },
        payload: Bytes::from_static(&[0xaa, 0xbb]),
    }
}

fn negotiated(uri: &str, id: u16) -> RTCRtpHeaderExtensionParameters {
    RTCRtpHeaderExtensionParameters {
        uri: uri.to_owned(),
        id,
        encrypted: false,
    }
}

fn context(
    sender_id: RTCRtpSenderId,
    header_extensions: Vec<RTCRtpHeaderExtensionParameters>,
    driver_event_tx: Sender<Event>,
) -> TrackLocalContext<Sender<Event>> {
    TrackLocalContext {
        rtp_sender_id: sender_id,
        rtp_parameters: RTCRtpParameters {
            header_extensions,
            ..Default::default()
        },
        driver_event_tx,
        prepared_rtp: Some(PreparedTrackLocalRtpContext {
            rtp_sender_id: sender_id,
            ssrc: 0x1112_1314,
            payload_type: 97,
        }),
    }
}

fn bind(track: &mut Track, sender_id: RTCRtpSenderId, mid_extension_id: u16) -> Receiver<Event> {
    let (driver_event_tx, driver_event_rx) = channel();
    track.bind(
        context(
            sender_id,
            vec![negotiated(SDES_MID_URI, mid_extension_id)],
            driver_event_tx,
        ),
        "feedback",
    );
    driver_event_rx
}

fn bind_extensions(
    track: &mut Track,
    header_extensions: Vec<RTCRtpHeaderExtensionParameters>,
) -> Receiver<Event> {
    let (driver_event_tx, driver_event_rx) = channel();
    track.bind(
        context(
            RTCRtpSenderId::default(),
            header_extensions,
            driver_event_tx,
        ),
        "feedback",
    );
    driver_event_rx
}

fn deliver(outgoing: Outgoing<'_, Sender<Event>, Vec<u8>>) {
    outgoing
        .driver_event_tx
        .send(outgoing.event)
        .expect("the driver is there");
}

fn sender_packet(event: Event) -> Packet {
    match event {
        PeerConnectionDriverEvent::SenderRtpPrepared { packet, .. }
        | PeerConnectionDriverEvent::SenderRtp(_, packet) => packet,
        event => panic!("expected RTP event, got {event:?}"),
    }
}

fn wire_form(packet: &Packet) -> Vec<u8> {
    let packet = rtc::rtp::packet::Packet {
        header: rtc::rtp::header::Header {
            version: packet.header.version,
            padding: packet.header.padding,
            extension: packet.header.extension,
            marker: packet.header.marker,
            payload_type: packet.header.payload_type,
            sequence_number: packet.header.sequence_number,
            timestamp: packet.header.timestamp,
            ssrc: packet.header.ssrc,
            csrc: packet.header.csrc.clone(),
            extension_profile: packet.header.extension_profile,
            extensions: packet
                .header
                .extensions
                .iter()
                .map(|extension| rtc::rtp::header::Extension {
                    id: extension.id,
                    payload: extension.payload.clone(),
                })
                .collect(),
            extensions_padding: packet.header.extensions_padding,
        },
        payload: packet.payload.clone(),
    };
    let mut actual = vec![0; packet.marshal_size()];
    packet
        .marshal_to(&mut actual)
        .expect("packet should marshal");
    actual
}

#[test]
fn sdes_mid_injection_has_exact_rtp_output() {
    let mut track = track();
    let events = bind(&mut track, RTCRtpSenderId::default(), 4);

    deliver(
        track
            .write_rtp_with_sdes_mid(packet(), b"a", false)
            .ok()
            .expect("MID write should queue an RTP packet"),
    );

    let packet = sender_packet(events.recv().expect("queued RTP event"));

    assert_eq!(
        wire_form(&packet),
        [
            0x90, 0x60, 0x12, 0x34, 0x01, 0x02, 0x03, 0x04, 0x05, 0x06, 0x07, 0x08, 0xbe, 0xde,
            0x00, 0x01, 0x40, b'a', 0x00, 0x00, 0xaa, 0xbb,
        ]
    );
}

#[test]
fn sdes_mid_uses_the_extension_id_cached_at_bind_time() {
    let mut track = track();
    let events = bind(&mut track, RTCRtpSenderId::default(), 4);
    track
        .ctx
        .as_mut()
        .expect("bound context")
        .context
        .rtp_parameters
        .header_extensions[0]
        .id = 9;

    deliver(
        track
            .write_rtp_with_sdes_mid(packet(), b"mid", false)
            .ok()
            .expect("MID write should queue an RTP packet"),
    );

    let packet = sender_packet(events.recv().expect("queued RTP event"));
    assert_eq!(packet.header.extensions[0].id, 4);
}

#[test]
fn sdes_mid_write_delivers_to_multiple_independently_bound_targets() {
    let mut first_track = track();
    let mut second_track = track();
    let first_events = bind(&mut first_track, RTCRtpSenderId::default(), 4);
    let second_events = bind(&mut second_track, RTCRtpSenderId::default(), 9);

    deliver(
        first_track
            .write_rtp_with_sdes_mid(packet(), b"target", false)
            .ok()
            .expect("first target write should queue RTP"),
    );
    deliver(
        second_track
            .write_rtp_with_sdes_mid(packet(), b"target", false)
            .ok()
            .expect("second target write should queue RTP"),
    );

    let first = sender_packet(first_events.recv().expect("first target RTP event"));
    let second = sender_packet(second_events.recv().expect("second target RTP event"));
    assert_eq!(first.header.extensions[0].id, 4);
    assert_eq!(second.header.extensions[0].id, 9);
}

#[test]
fn sdes_mid_write_keeps_source_and_target_packets_independent() {
    let mut first_track = track();
    let mut second_track = track();
    let first_events = bind(&mut first_track, RTCRtpSenderId::default(), 4);
    let second_events = bind(&mut second_track, RTCRtpSenderId::default(), 9);
    let source = packet();
    let source_before_write = source.clone();

    deliver(
        first_track
            .write_rtp_with_sdes_mid(source.clone(), b"owned", false)
            .ok()
            .expect("first target write should queue RTP"),
    );
    deliver(
        second_track
            .write_rtp_with_sdes_mid(source.clone(), b"owned", false)
            .ok()
            .expect("second target write should queue RTP"),
    );

    assert_eq!(
        source, source_before_write,
        "write must not mutate the caller packet"
    );

    let mut first = sender_packet(first_events.recv().expect("first target RTP event"));
    let second = sender_packet(second_events.recv().expect("second target RTP event"));
    first.header.extensions[0].payload = Bytes::from_static(b"changed");

    assert_eq!(
        second.header.extensions[0].payload,
        Bytes::from_static(b"owned")
    );
    assert_eq!(second.payload, source.payload);
}

#[test]
fn a_fresh_track_is_pending_and_sends_nothing() {
    let track = track();
    assert_eq!(track.bind_result(), TrackLocalStaticRtpBindResult::Pending);
    assert!(track.poll().is_none());

    let not_bound = Error::Other("track is not binding yet".to_owned());
    assert_eq!(
        track.write_rtp::<Vec<u8>>(packet()).err(),
        Some(not_bound.clone())
    );
    assert_eq!(track.write_rtcp(vec![1u8]).err(), Some(not_bound));
    assert_eq!(
        track
            .write_rtp_with_sdes_mid::<Vec<u8>>(packet(), b"a", false)
            .err(),
        Some(Error::ErrBindFailed)
    );
    assert_eq!(
        track
            .write_rtp_with_extensions::<Vec<u8>>(packet(), &[])
            .err(),
        Some(Error::ErrBindFailed)
    );
}

#[test]
fn a_bound_track_sends_with_the_resolved_stream_and_payload_type() {
    let mut track = track();
    let events = bind(&mut track, RTCRtpSenderId(6), 4);
    assert_eq!(
        track.bind_result(),
        TrackLocalStaticRtpBindResult::Compatible { payload_type: 97 }
    );
    assert_eq!(track.poll(), Some(&"feedback"));

    deliver(track.write_rtp(packet()).ok().unwrap());
    match events.recv().unwrap() {
        PeerConnectionDriverEvent::SenderRtpPrepared {
            sender_id,
            packet: sent,
            ssrc,
            payload_type,
        } => {
            assert_eq!(sender_id, RTCRtpSenderId(6));
            assert_eq!(sent, packet());
            assert_eq!(ssrc, 0x1112_1314);
            assert_eq!(payload_type, 97);
        }
        event => panic!("expected a prepared packet, got {event:?}"),
    }

    deliver(track.write_rtcp(vec![1, 2, 3]).ok().unwrap());
    match events.recv().unwrap() {
        PeerConnectionDriverEvent::SenderRtcp(sender_id, packets) => {
            assert_eq!(sender_id, RTCRtpSenderId(6));
            assert_eq!(packets, vec![1, 2, 3]);
        }
        event => panic!("expected RTCP packets, got {event:?}"),
    }
}

#[test]
fn a_context_that_lost_its_resolved_stream_leaves_that_to_the_driver() {
    let mut track = track();
    let events = bind(&mut track, RTCRtpSenderId(6), 4);
    track.ctx.as_mut().unwrap().context.prepared_rtp = None;

    deliver(track.write_rtp(packet()).ok().unwrap());
    match events.recv().unwrap() {
        PeerConnectionDriverEvent::SenderRtp(sender_id, sent) => {
            assert_eq!(sender_id, RTCRtpSenderId(6));
            assert_eq!(sent, packet());
        }
        event => panic!("expected a plain packet, got {event:?}"),
    }
}

#[test]
fn a_track_without_a_codec_in_common_sends_nothing() {
    let mut track = track();
    let (driver_event_tx, _events) = channel();
    let mut ctx = context(RTCRtpSenderId::default(), vec![], driver_event_tx);
    ctx.prepared_rtp = None;
    track.bind(ctx, "feedback");

    assert_eq!(
        track.bind_result(),
        TrackLocalStaticRtpBindResult::UnsupportedCodec
    );
    assert_eq!(track.poll(), Some(&"feedback"));
    assert!(track.write_rtp::<Vec<u8>>(packet()).is_err());
}

#[test]
fn unbinding_undoes_a_bind() {
    let mut track = track();
    let _events = bind(&mut track, RTCRtpSenderId::default(), 4);
    track.unbind();

    assert_eq!(track.bind_result(), TrackLocalStaticRtpBindResult::Pending);
    assert!(track.ctx.is_none());
    assert!(track.poll().is_none());
    assert!(track.write_rtp::<Vec<u8>>(packet()).is_err());
    assert!(track.write_rtcp(vec![1u8]).is_err());
}

#[test]
fn a_mid_that_was_not_negotiated_leaves_a_packet_without_extensions() {
    let mut track = track();
    let events = bind_extensions(&mut track, vec![negotiated(AUDIO_LEVEL_URI, 1)]);
    let mut source = packet();
    source.header.extension = true;
    source.header.extension_profile = 0xBEDE;
    source.header.extensions_padding = 2;
    source.header.extensions.push(Extension {
        id: 1,
        payload: Bytes::from_static(&[9]),
    });

    deliver(
        track
            .write_rtp_with_sdes_mid(source, b"a", false)
            .ok()
            .unwrap(),
    );
    assert_eq!(sender_packet(events.recv().unwrap()), packet());
}

#[test]
fn preserved_extensions_stay_beside_the_mid() {
    let mut track = track();
    let events = bind(&mut track, RTCRtpSenderId::default(), 4);
    let mut source = packet();
    source.header.extension = true;
    source.header.extension_profile = 0xBEDE;
    source.header.extensions_padding = 2;
    source.header.extensions.push(Extension {
        id: 1,
        payload: Bytes::from_static(&[9]),
    });

    deliver(
        track
            .write_rtp_with_sdes_mid_bytes(source, Bytes::from_static(b"mid"), true)
            .ok()
            .unwrap(),
    );
    let sent = sender_packet(events.recv().unwrap());
    assert_eq!(
        sent.header.extensions,
        vec![
            Extension {
                id: 1,
                payload: Bytes::from_static(&[9]),
            },
            Extension {
                id: 4,
                payload: Bytes::from_static(b"mid"),
            },
        ]
    );
    assert_eq!(sent.header.extensions_padding, 2);

    deliver(
        track
            .write_rtp_with_sdes_mid_bytes(sent, Bytes::from_static(b"other"), true)
            .ok()
            .unwrap(),
    );
    let sent = sender_packet(events.recv().unwrap());
    assert_eq!(sent.header.extensions.len(), 2);
    assert_eq!(sent.header.extensions[1].payload, Bytes::from_static(b"other"));
}

#[test]
fn a_long_mid_uses_the_two_byte_profile() {
    let mut track = track();
    let events = bind(&mut track, RTCRtpSenderId::default(), 4);
    deliver(
        track
            .write_rtp_with_sdes_mid(packet(), &[b'm'; 17], false)
            .ok()
            .unwrap(),
    );
    let sent = sender_packet(events.recv().unwrap());
    assert_eq!(sent.header.extension_profile, 0x1000);
    assert_eq!(sent.header.extensions[0].payload, Bytes::from(vec![b'm'; 17]));
}

#[test]
fn a_mid_that_the_profile_does_not_admit_is_an_error() {
    let refused = |mid_id: u16, profile: u16, len: usize| {
        let mut track = track();
        let _events = bind(&mut track, RTCRtpSenderId::default(), mid_id);
        let mut source = packet();
        source.header.extension = true;
        source.header.extension_profile = profile;
        track
            .write_rtp_with_sdes_mid::<Vec<u8>>(source, &vec![0; len], true)
            .err()
    };

    for (mid_id, profile, len, name) in [
        (15, 0xBEDE, 1, "ErrRfc8285oneByteHeaderIdrange"),
        (4, 0xBEDE, 17, "ErrRfc8285oneByteHeaderSize"),
        (0, 0x1000, 1, "ErrRfc8285twoByteHeaderIdrange"),
        (4, 0x1000, 256, "ErrRfc8285twoByteHeaderSize"),
        (4, 0x1234, 1, "ErrRfc3550headerIdrange"),
    ] {
        assert_eq!(
            refused(mid_id, profile, len),
            Some(Error::Other(name.to_owned()))
        );
    }
    assert_eq!(refused(0, 0x1234, 300), None);
    assert_eq!(refused(14, 0xBEDE, 16), None);
    assert_eq!(refused(255, 0x1000, 255), None);
}

#[test]
fn only_the_low_byte_of_a_negotiated_id_counts() {
    let mut track = track();
    let _events = bind(&mut track, RTCRtpSenderId::default(), 0x0104);
    assert_eq!(track.ctx.as_ref().unwrap().mid_extension_id, Some(4));
}

#[test]
fn negotiated_extensions_are_set_and_others_left_out() {
    let mut track = track();
    let events = bind_extensions(
        &mut track,
        vec![
            negotiated(SDES_MID_URI, 4),
            negotiated(AUDIO_LEVEL_URI, 1),
            negotiated(AUDIO_LEVEL_URI, 2),
            negotiated("urn:custom", 7),
        ],
    );
    let extensions = [
        HeaderExtension::AudioLevel {
            level: 10,
            voice: true,
        },
        HeaderExtension::TransportCc {
            transport_sequence: 5,
        },
        HeaderExtension::Custom {
            uri: "urn:custom".to_owned(),
            extension: Ok(Bytes::from_static(b"xyz")),
        },
        HeaderExtension::AudioLevel {
            level: 20,
            voice: false,
        },
    ];
    assert!(track.check_extensions_fit(&packet().header, &extensions));

    let written = track
        .write_rtp_with_extensions(packet(), &extensions)
        .ok()
        .unwrap();
    assert!(written.errors.is_empty());
    deliver(written.outgoing);
    assert_eq!(finish_write(written.errors, Ok(())), Ok(()));

    let sent = sender_packet(events.recv().unwrap());
    assert_eq!(
        sent.header.extensions,
        vec![
            Extension {
                id: 1,
                payload: Bytes::from_static(&[20]),
            },
            Extension {
                id: 7,
                payload: Bytes::from_static(b"xyz"),
            },
        ]
    );
    assert_eq!(sent.payload, packet().payload);
}

#[test]
fn a_packet_goes_without_the_extensions_that_fail_and_they_are_reported() {
    let mut track = track();
    let events = bind_extensions(
        &mut track,
        vec![
            negotiated(AUDIO_LEVEL_URI, 1),
            negotiated(ABS_SEND_TIME_URI, 15),
            negotiated("urn:custom", 7),
        ],
    );
    let extensions = [
        HeaderExtension::AudioLevel {
            level: 128,
            voice: true,
        },
        HeaderExtension::PlayoutDelay {
            min_delay: 4096,
            max_delay: 0,
        },
        HeaderExtension::Custom {
            uri: "urn:other".to_owned(),
            extension: Err(RtcError {
                name: "Custom".to_owned(),
                message: "custom failed".to_owned(),
            }),
        },
        HeaderExtension::Custom {
            uri: "urn:custom".to_owned(),
            extension: Ok(Bytes::from_static(b"x")),
        },
        HeaderExtension::AbsSendTime { timestamp: 1 },
    ];

    let written = track
        .write_rtp_with_extensions(packet(), &extensions)
        .ok()
        .unwrap();
    let messages = [
        "audio level overflow",
        "playout delay overflow",
        "custom failed",
        "header extension id must be between 1 and 14 for RFC 5285 extensions",
    ];
    assert_eq!(written.errors, messages);
    deliver(written.outgoing);
    let sent = sender_packet(events.recv().unwrap());
    assert_eq!(sent.header.extensions.len(), 1);
    assert_eq!(sent.header.extensions[0].id, 7);

    assert_eq!(
        finish_write(written.errors, Ok(())),
        Err(Error::Other(messages.join("\n")))
    );
}

#[test]
fn a_failed_send_is_reported_behind_the_extensions() {
    assert_eq!(
        finish_write(vec![], Err("queue closed".to_owned())),
        Err(Error::Other("queue closed".to_owned()))
    );
    assert_eq!(
        finish_write(vec!["first".to_owned()], Err("queue closed".to_owned())),
        Err(Error::Other("first\nqueue closed".to_owned()))
    );
}

#[test]
fn messages_for_refused_extensions_are_those_of_the_codec() {
    let mut header = rtc::rtp::header::Header {
        extension: true,
        extension_profile: 0xBEDE,
        ..Default::default()
    };
    let too_long = Bytes::from(vec![0; 17]);
    let expected = header.set_extension(1, too_long.clone()).unwrap_err();

    let mut track = track();
    let _events = bind_extensions(&mut track, vec![negotiated("urn:custom", 1)]);
    let mut source = packet();
    source.header.extension = true;
    source.header.extension_profile = 0xBEDE;
    let written = track
        .write_rtp_with_extensions::<Vec<u8>>(
            source,
            &[HeaderExtension::Custom {
                uri: "urn:custom".to_owned(),
                extension: Ok(too_long),
            }],
        )
        .ok()
        .unwrap();
    assert_eq!(written.errors, [expected.to_string()]);
}

#[test]
fn extensions_have_the_wire_forms_and_uris_of_the_codec() {
    let pairs = [
        (
            HeaderExtension::AbsSendTime {
                timestamp: 0xFF12_3456,
            },
            rtc_extension::HeaderExtension::AbsSendTime(AbsSendTimeExtension {
                timestamp: 0xFF12_3456,
            }),
            vec![0x12, 0x34, 0x56],
        ),
        (
            HeaderExtension::AudioLevel {
                level: 127,
                voice: true,
            },
            rtc_extension::HeaderExtension::AudioLevel(AudioLevelExtension {
                level: 127,
                voice: true,
            }),
            vec![0xFF],
        ),
        (
            HeaderExtension::PlayoutDelay {
                min_delay: 0xABC,
                max_delay: 0xDEF,
            },
            rtc_extension::HeaderExtension::PlayoutDelay(PlayoutDelayExtension {
                min_delay: 0xABC,
                max_delay: 0xDEF,
            }),
            vec![0xAB, 0xCD, 0xEF],
        ),
        (
            HeaderExtension::TransportCc {
                transport_sequence: 0x1234,
            },
            rtc_extension::HeaderExtension::TransportCc(TransportCcExtension {
                transport_sequence: 0x1234,
            }),
            vec![0x12, 0x34],
        ),
        (
            HeaderExtension::VideoOrientation {
                direction: CameraDirection::Back,
                flip: true,
                rotation: VideoRotation::Degree180,
            },
            rtc_extension::HeaderExtension::VideoOrientation(
                orientation::VideoOrientationExtension {
                    direction: orientation::CameraDirection::Back,
                    flip: true,
                    rotation: orientation::VideoRotation::Degree180,
                },
            ),
            vec![0b1110],
        ),
    ];
    for (ours, theirs, bytes) in pairs {
        assert_eq!(ours.uri(), theirs.uri());
        assert_eq!(ours.marshal().unwrap().to_vec(), bytes);
        assert_eq!(theirs.marshal().unwrap().to_vec(), bytes);
    }

    for (rotation, byte) in [
        (VideoRotation::Degree0, 0),
        (VideoRotation::Degree90, 1),
        (VideoRotation::Degree270, 3),
    ] {
        let upright = HeaderExtension::VideoOrientation {
            direction: CameraDirection::Front,
            flip: false,
            rotation,
        };
        assert_eq!(upright.marshal().unwrap().to_vec(), vec![byte]);
    }
}

#[test]
fn values_without_a_wire_form_give_the_errors_of_the_codec() {
    let level = HeaderExtension::AudioLevel {
        level: 128,
        voice: false,
    };
    let error = level.marshal().unwrap_err();
    assert_eq!(error.name, "AudioLevelOverflow");
    assert_eq!(error.message, "audio level overflow");

    let delay = HeaderExtension::PlayoutDelay {
        min_delay: 0,
        max_delay: 4096,
    };
    let error = delay.marshal().unwrap_err();
    assert_eq!(error.name, "PlayoutDelayOverflow");
    assert_eq!(error.message, "playout delay overflow");
}

#[test]
fn a_header_whose_padding_cannot_be_counted_does_not_fit() {
    let held = |id: u8, len: usize| Extension {
        id,
        payload: Bytes::from(vec![0; len]),
    };
    let mut header = packet().header;
    header.extension_profile = 0xBEDE;
    header.extensions.push(held(4, 5));
    header.extensions_padding = isize::MAX as usize - 3;
    assert!(header.check_settable(4, 1));
    header.extension = true;
    assert!(!header.check_settable(4, 1));
    assert!(header.check_settable(4, 2));
    assert!(header.check_settable(4, 5));
    assert!(header.check_settable(4, 17));
    assert!(header.check_settable(5, 1));
    assert!(header.check_settable(15, 1));

    let level = || HeaderExtension::AudioLevel {
        level: 1,
        voice: false,
    };
    let mut track = track();
    let mut source = packet();
    source.header = header;
    assert!(track.check_extensions_fit(&source.header, &[level()]));
    assert!(track.check_mid_fits(&source.header, 1, true));
    assert_eq!(
        track
            .write_rtp_with_extensions::<Vec<u8>>(source.clone(), &[level()])
            .err(),
        Some(Error::ErrBindFailed)
    );

    let _events = bind(&mut track, RTCRtpSenderId::default(), 4);
    assert!(track.check_extensions_fit(&source.header, &[level()]));
    assert!(!track.check_mid_fits(&source.header, 1, true));
    assert!(track.check_mid_fits(&source.header, 1, false));
    assert!(track.check_mid_fits(&source.header, 2, true));

    let _events = bind_extensions(
        &mut track,
        vec![negotiated(AUDIO_LEVEL_URI, 4), negotiated("urn:custom", 4)],
    );
    assert!(!track.check_extensions_fit(&source.header, &[level()]));
    assert!(track.check_extensions_fit(&packet().header, &[level()]));
    assert!(track.check_extensions_fit(&source.header, &[]));
    assert!(track.check_mid_fits(&source.header, 1, true));
    let custom = |len: usize| HeaderExtension::Custom {
        uri: "urn:custom".to_owned(),
        extension: Ok(Bytes::from(vec![0; len])),
    };
    assert!(track.check_extensions_fit(&source.header, &[custom(4)]));
    assert!(track.check_extensions_fit(&source.header, &[custom(4), level()]));
    source.header.extensions_padding += 2;
    assert!(track.check_extensions_fit(&source.header, &[custom(4)]));
    assert!(!track.check_extensions_fit(&source.header, &[custom(3)]));
}

#[test]
fn of_extensions_under_one_id_the_last_that_was_set_is_held() {
    let mut track = track();
    let events = bind_extensions(
        &mut track,
        vec![
            negotiated("urn:first", 3),
            negotiated("urn:second", 3),
            negotiated("urn:third", 3),
        ],
    );
    let custom = |uri: &str, len: usize| HeaderExtension::Custom {
        uri: uri.to_owned(),
        extension: Ok(Bytes::from(vec![len as u8; len])),
    };
    let written = track
        .write_rtp_with_extensions(
            packet(),
            &[
                custom("urn:first", 1),
                custom("urn:second", 2),
                custom("urn:third", 17),
            ],
        )
        .ok()
        .unwrap();
    assert_eq!(written.errors.len(), 1);
    deliver(written.outgoing);
    let sent = sender_packet(events.recv().unwrap());
    assert_eq!(sent.header.extensions.len(), 1);
    assert_eq!(sent.header.extensions[0].payload, Bytes::from(vec![2, 2]));
}

#[test]
fn a_stale_extension_of_a_header_without_extensions_stays_in_front() {
    let mut track = track();
    let events = bind(&mut track, RTCRtpSenderId::default(), 4);
    let mut source = packet();
    for id in [4, 5] {
        source.header.extensions.push(Extension {
            id,
            payload: Bytes::from(vec![id]),
        });
    }
    deliver(
        track
            .write_rtp_with_sdes_mid(source, b"mid", true)
            .ok()
            .unwrap(),
    );
    let sent = sender_packet(events.recv().unwrap());
    assert!(sent.header.extension);
    assert_eq!(sent.header.extensions.len(), 3);
    assert_eq!(sent.header.extensions[0].payload, Bytes::from(vec![4]));
    assert_eq!(sent.header.extensions[1].payload, Bytes::from(vec![5]));
    assert_eq!(sent.header.extensions[2].payload, Bytes::from_static(b"mid"));
}

fn coding(rid: &str, ssrc: Option<u32>, mime_type: &str) -> RTCRtpEncodingParameters {
    RTCRtpEncodingParameters {
        rtp_coding_parameters: RTCRtpCodingParameters {
            rid: rid.to_owned(),
            ssrc,
            ..Default::default()
        },
        codec: RTCRtpCodec {
            mime_type: mime_type.to_owned(),
            ..Default::default()
        },
        ..Default::default()
    }
}

fn rtc_coding(
    rid: &str,
    ssrc: Option<u32>,
    mime_type: &str,
) -> rtc::rtp_transceiver::rtp_sender::RTCRtpEncodingParameters {
    rtc::rtp_transceiver::rtp_sender::RTCRtpEncodingParameters {
        rtp_coding_parameters: rtc::rtp_transceiver::rtp_sender::RTCRtpCodingParameters {
            rid: rid.to_owned(),
            ssrc,
            ..Default::default()
        },
        codec: rtc::rtp_transceiver::rtp_sender::RTCRtpCodec {
            mime_type: mime_type.to_owned(),
            ..Default::default()
        },
        ..Default::default()
    }
}

#[test]
fn streams_are_looked_up_in_the_codings() {
    let layers = [
        ("", Some(1), "video/vp8"),
        ("h", None, "video/vp9"),
        ("f", Some(1), ""),
        ("q", Some(2), "video/h264"),
    ];
    let mut track: Track = TrackLocalStaticRTP::new(MediaTrack::new(
        "stream".to_owned(),
        "id".to_owned(),
        "label".to_owned(),
        RtpCodecKind::Audio,
        vec![],
    ));
    let mut theirs = rtc::media_stream::MediaStreamTrack::new(
        "stream".to_owned(),
        "id".to_owned(),
        "label".to_owned(),
        rtc::rtp_transceiver::rtp_sender::RtpCodecKind::Audio,
        vec![],
    );
    for (rid, ssrc, mime_type) in layers {
        track.add_coding(coding(rid, ssrc, mime_type));
        theirs.add_coding(rtc_coding(rid, ssrc, mime_type));
    }

    assert_eq!(track.codings().len(), 4);
    assert_eq!(track.ssrcs(), vec![1, 1, 2]);
    assert_eq!(track.ssrcs(), theirs.ssrcs().collect::<Vec<u32>>());
    assert_eq!(track.rid(1), Some(&"f".to_owned()));
    assert_eq!(track.codec(1).unwrap().mime_type, "video/vp8");
    for ssrc in 0..4 {
        assert_eq!(track.rid(ssrc), theirs.rid(ssrc));
        assert_eq!(
            track.codec(ssrc).map(|codec| &codec.mime_type),
            theirs.codec(ssrc).map(|codec| &codec.mime_type)
        );
    }
}

#[test]
fn a_track_tells_and_changes_its_state() {
    let mut track: Track = TrackLocalStaticRTP::new(MediaTrack::new(
        "stream".to_owned(),
        "id".to_owned(),
        "label".to_owned(),
        RtpCodecKind::Audio,
        vec![],
    ));
    assert_eq!(track.stream_id(), "stream");
    assert_eq!(track.track_id(), "id");
    assert_eq!(track.label(), "label");
    assert_eq!(track.kind(), RtpCodecKind::Audio);
    assert_eq!(track.track().track_id, "id");
    assert!(track.enabled());
    assert!(!track.muted());
    assert_eq!(track.ready_state(), MediaStreamTrackState::Live);

    track.set_enabled(false);
    track.set_muted(true);
    assert!(!track.enabled());
    assert!(track.muted());

    let default = format!("{:?}", rtc::media_stream::MediaTrackConstraints::default());
    assert_eq!(format!("{:?}", track.get_constraints()), default);
    assert_eq!(
        format!("{:?}", track.get_capabilities()),
        format!("{:?}", rtc::media_stream::MediaTrackCapabilities::default())
    );
    assert_eq!(
        format!("{:?}", track.get_settings()),
        format!("{:?}", rtc::media_stream::MediaTrackSettings::default())
    );
    track.apply_constraints(None);
    assert_eq!(format!("{:?}", track.get_constraints()), default);

    track.stop();
    assert_eq!(track.ready_state(), MediaStreamTrackState::Ended);
}
