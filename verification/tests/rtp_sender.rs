use bytes::Bytes;
use rtc::peer_connection::configuration::media_engine::MediaEngine;
use rtc::peer_connection::{RTCPeerConnection, RTCPeerConnectionBuilder};
use rtc::rtp_transceiver::rtp_sender::RtpCodecKind as OutsideKind;
use std::cell::RefCell;
use std::rc::Rc;
use std::time::Instant;
use webrtc::error::{Error, RtcError};
use webrtc::media_stream::track_local::static_rtp::{
    TrackLocalStaticRTP, TrackLocalStaticRtpBindResult,
};
use webrtc::media_stream::track_local::{TrackLocal, TrackLocalContext};
use webrtc::media_stream::MediaTrack;
use webrtc::peer_connection::driver::PeerConnectionDriverEvent;
use webrtc::rtp::{Header, Packet};
use webrtc::rtp_transceiver::rtp_sender::{
    existing_sender, RTCRtpCodec, RTCRtpCodecParameters, RTCRtpCodingParameters,
    RTCRtpEncodingParameters, RTCRtpParameters, RtpCodecKind, RtpSenderImpl,
};
use webrtc::rtp_transceiver::RTCRtpSenderId;

type Track = Rc<RefCell<TrackLocalStaticRTP<&'static str, ()>>>;

fn vp8() -> RTCRtpCodec {
    RTCRtpCodec {
        mime_type: "video/VP8".to_string(),
        clock_rate: 90_000,
        channels: 0,
        sdp_fmtp_line: String::new(),
        rtcp_feedback: vec![],
    }
}

fn negotiated() -> RTCRtpParameters {
    RTCRtpParameters {
        codecs: vec![RTCRtpCodecParameters {
            rtp_codec: vp8(),
            payload_type: 96,
        }],
        ..Default::default()
    }
}

fn video_track(stream_id: &str, track_id: &str, ssrc: u32) -> Track {
    Rc::new(RefCell::new(TrackLocalStaticRTP::new(
        MediaTrack::new(
            stream_id.to_owned(),
            track_id.to_owned(),
            track_id.to_owned(),
            RtpCodecKind::Video,
            vec![RTCRtpEncodingParameters {
                rtp_coding_parameters: RTCRtpCodingParameters {
                    ssrc: Some(ssrc),
                    ..Default::default()
                },
                codec: vp8(),
                ..Default::default()
            }],
        ),
    )))
}

fn bind_to(track: &Track, id: RTCRtpSenderId) {
    let prepared_rtp = TrackLocalContext::<&'static str>::build_prepared_rtp(
        id,
        &negotiated(),
        track.borrow().codings(),
    );
    track.borrow_mut().bind(
        TrackLocalContext {
            rtp_sender_id: id,
            rtp_parameters: negotiated(),
            driver_event_tx: "driver",
            prepared_rtp,
        },
        (),
    );
}

#[test]
fn replace_track_binds_new_track_and_unbinds_old_track() {
    let (mut core, id) = rtc_core();
    let track_a = video_track("stream-a", "video-a", 0x1111_1111);
    let track_b = video_track("stream-b", "video-b", 0x2222_2222);
    let mut sender = RtpSenderImpl::new(id, Rc::clone(&track_a));
    bind_to(&track_a, id);

    let packet = Packet {
        header: Header {
            version: 2,
            payload_type: 96,
            sequence_number: 1,
            timestamp: 1,
            ssrc: 0x2222_2222,
            ..Default::default()
        },
        payload: Bytes::from_static(&[0x01, 0x02, 0x03]),
    };

    let replacement = sender
        .replace_track(
            &mut core,
            Rc::clone(&track_b),
            rtc_track("stream-b", OutsideKind::Video, 0x2222_2222),
        )
        .ok()
        .expect("the peer connection takes the replacement");
    assert!(Rc::ptr_eq(sender.track(), &track_b));
    assert!(Rc::ptr_eq(replacement.old_track(), &track_a));
    replacement.old_track().borrow_mut().unbind();
    let ctx = replacement
        .unbound(&mut core, track_b.borrow().codings(), "driver")
        .ok()
        .expect("the sender is there");
    assert_eq!(ctx.rtp_sender_id, id);
    assert_eq!(ctx.driver_event_tx, "driver");
    track_b.borrow_mut().bind(ctx, ());

    assert_eq!(
        track_b.borrow().bind_result(),
        TrackLocalStaticRtpBindResult::Compatible { payload_type: 96 }
    );
    {
        let track_b = track_b.borrow();
        let outgoing = track_b
            .write_rtp::<()>(packet.clone())
            .ok()
            .expect("replacement track should be bound after replace_track");
        match outgoing.event {
            PeerConnectionDriverEvent::SenderRtpPrepared {
                sender_id, ssrc, ..
            } => {
                assert_eq!(sender_id, id);
                assert_eq!(ssrc, 0x2222_2222);
            }
            event => panic!("expected a prepared packet, got {event:?}"),
        }
    }

    let track_a = track_a.borrow();
    let old_track_write = track_a.write_rtp::<()>(packet);
    assert!(
        old_track_write.is_err(),
        "old track should be unbound after replace_track"
    );
}

fn rtc_track(
    stream_id: &str,
    kind: rtc::rtp_transceiver::rtp_sender::RtpCodecKind,
    ssrc: u32,
) -> rtc::media_stream::MediaStreamTrack {
    rtc::media_stream::MediaStreamTrack::new(
        stream_id.to_owned(),
        "track".to_owned(),
        "track".to_owned(),
        kind,
        vec![rtc::rtp_transceiver::rtp_sender::RTCRtpEncodingParameters {
            rtp_coding_parameters: rtc::rtp_transceiver::rtp_sender::RTCRtpCodingParameters {
                ssrc: Some(ssrc),
                ..Default::default()
            },
            codec: rtc::rtp_transceiver::rtp_sender::RTCRtpCodec {
                mime_type: "video/VP8".to_string(),
                clock_rate: 90_000,
                ..Default::default()
            },
            ..Default::default()
        }],
    )
}

fn rtc_core() -> (RTCPeerConnection, RTCRtpSenderId) {
    let mut media_engine = MediaEngine::default();
    media_engine.register_default_codecs().unwrap();
    let mut core = RTCPeerConnectionBuilder::new()
        .with_media_engine(media_engine)
        .build(Instant::now())
        .unwrap();
    let id = core
        .add_track(rtc_track("stream-a", OutsideKind::Video, 0x1111_1111))
        .unwrap();
    (core, RTCRtpSenderId(usize::from(id)))
}

#[test]
fn a_track_is_replaced_on_a_peer_connection() {
    let (mut core, id) = rtc_core();
    let track_a = video_track("stream-a", "video-a", 0x1111_1111);
    let track_b = video_track("stream-b", "video-b", 0x2222_2222);
    let mut sender = RtpSenderImpl::new(id, Rc::clone(&track_a));
    bind_to(&track_a, id);

    let replacement = sender
        .replace_track(
            &mut core,
            Rc::clone(&track_b),
            rtc_track("stream-b", OutsideKind::Video, 0x2222_2222),
        )
        .ok()
        .unwrap();
    replacement.old_track().borrow_mut().unbind();
    let ctx = replacement
        .unbound(&mut core, track_b.borrow().codings(), "driver")
        .ok()
        .unwrap();

    assert_eq!(
        core.rtp_sender(id.0.into()).unwrap().track().stream_id(),
        "stream-b"
    );
    let told = core
        .rtp_sender(id.0.into())
        .unwrap()
        .get_parameters()
        .clone();
    assert!(!told.rtp_parameters.codecs.is_empty());
    assert_eq!(
        ctx.rtp_parameters.codecs.len(),
        told.rtp_parameters.codecs.len()
    );
    for (ours, theirs) in ctx
        .rtp_parameters
        .codecs
        .iter()
        .zip(&told.rtp_parameters.codecs)
    {
        assert_eq!(ours.payload_type, theirs.payload_type);
        assert_eq!(ours.rtp_codec.mime_type, theirs.rtp_codec.mime_type);
        assert_eq!(ours.rtp_codec.clock_rate, theirs.rtp_codec.clock_rate);
        assert_eq!(ours.rtp_codec.channels, theirs.rtp_codec.channels);
        assert_eq!(ours.rtp_codec.sdp_fmtp_line, theirs.rtp_codec.sdp_fmtp_line);
        assert_eq!(
            ours.rtp_codec.rtcp_feedback.len(),
            theirs.rtp_codec.rtcp_feedback.len()
        );
    }

    track_b.borrow_mut().bind(ctx, ());
    assert_eq!(
        track_b.borrow().bind_result(),
        TrackLocalStaticRtpBindResult::Compatible { payload_type: 96 }
    );
}

#[test]
fn a_track_of_another_kind_is_refused() {
    let (mut core, id) = rtc_core();
    let mut sender = RtpSenderImpl::new(id, "video");
    let refused = sender.replace_track(
        &mut core,
        "audio",
        rtc_track("stream-b", OutsideKind::Audio, 2),
    );
    assert_eq!(
        refused.err(),
        Some(Error::Rtc(RtcError {
            name: "ErrRTPSenderNewTrackHasIncorrectKind".to_owned(),
            message: "new track must be of the same kind as previous".to_owned(),
        }))
    );
    assert_eq!(*sender.track(), "video");
    assert_eq!(
        core.rtp_sender(id.0.into()).unwrap().track().stream_id(),
        "stream-a"
    );
}

#[test]
fn a_sender_tells_and_changes_what_the_peer_connection_holds() {
    let (mut core, id) = rtc_core();
    let sender = RtpSenderImpl::new(id, "video");

    let unspecified = sender.get_capabilities(&mut core, RtpCodecKind::Unspecified);
    assert!(unspecified.ok().unwrap().is_none());
    let video = sender.get_capabilities(&mut core, RtpCodecKind::Video);
    assert!(!video.ok().unwrap().unwrap().codecs.is_empty());
    let audio = sender.get_capabilities(&mut core, RtpCodecKind::Audio);
    assert!(audio.ok().unwrap().unwrap().codecs.is_empty());

    let parameters = sender.get_parameters(&mut core).ok().unwrap();
    assert_eq!(parameters.encodings.len(), 1);
    assert_eq!(
        sender.set_parameters(&mut core, parameters.clone(), None),
        Ok(())
    );
    let mut changed = parameters;
    changed.encodings.clear();
    match sender.set_parameters(&mut core, changed, None) {
        Err(Error::Rtc(error)) => assert_eq!(error.name, "InvalidModificationError"),
        other => panic!("expected a refusal, got {other:?}"),
    }

    assert_eq!(
        sender.set_streams(&mut core, vec!["stream-c".to_owned()]),
        Ok(())
    );
    let report = sender.get_stats(&mut core, Instant::now()).ok().unwrap();
    assert_eq!(report.outbound_rtp_streams().count(), 0);
    assert!(report.is_empty());
}

#[test]
fn each_sender_tells_its_own_codecs_and_encodings() {
    let (mut core, video_id) = rtc_core();
    let audio_track = rtc::media_stream::MediaStreamTrack::new(
        "stream-b".to_owned(),
        "audio".to_owned(),
        "audio".to_owned(),
        OutsideKind::Audio,
        vec![rtc::rtp_transceiver::rtp_sender::RTCRtpEncodingParameters {
            rtp_coding_parameters: rtc::rtp_transceiver::rtp_sender::RTCRtpCodingParameters {
                ssrc: Some(2),
                ..Default::default()
            },
            codec: rtc::rtp_transceiver::rtp_sender::RTCRtpCodec {
                mime_type: "audio/opus".to_string(),
                clock_rate: 48_000,
                channels: 2,
                ..Default::default()
            },
            ..Default::default()
        }],
    );
    let audio_id = RTCRtpSenderId(usize::from(core.add_track(audio_track).unwrap()));

    for (id, text, kind, other, ssrc) in [
        (
            video_id,
            "video",
            RtpCodecKind::Video,
            RtpCodecKind::Audio,
            0x1111_1111,
        ),
        (
            audio_id,
            "audio",
            RtpCodecKind::Audio,
            RtpCodecKind::Video,
            2,
        ),
    ] {
        let mut sender = RtpSenderImpl::new(id, text);
        let told = sender.get_parameters(&mut core).ok().unwrap();
        let codecs = told.rtp_parameters.codecs.clone();
        assert!(!codecs.is_empty());
        assert!(codecs
            .iter()
            .all(|codec| codec.rtp_codec.mime_type.contains(text)));
        assert_eq!(told.encodings[0].rtp_coding_parameters.ssrc, Some(ssrc));
        assert_eq!(told.rtp_parameters.rtcp.cname, "");
        assert!(!told.rtp_parameters.rtcp.reduced_size);
        let again = sender.get_parameters(&mut core).ok().unwrap();
        assert_eq!(again.rtp_parameters.codecs.len(), codecs.len());

        let capabilities = sender.get_capabilities(&mut core, kind).ok().unwrap().unwrap();
        assert_eq!(capabilities.codecs.len(), codecs.len());
        for (capable, negotiated) in capabilities.codecs.iter().zip(&codecs) {
            assert_eq!(capable.mime_type, negotiated.rtp_codec.mime_type);
            assert_eq!(capable.sdp_fmtp_line, negotiated.rtp_codec.sdp_fmtp_line);
        }
        let mut uris: Vec<String> = capabilities
            .header_extensions
            .iter()
            .map(|extension| extension.uri.clone())
            .collect();
        uris.sort();
        let mut told_uris: Vec<String> = told
            .rtp_parameters
            .header_extensions
            .iter()
            .map(|extension| extension.uri.clone())
            .collect();
        told_uris.sort();
        assert_eq!(uris, told_uris);
        let none = sender.get_capabilities(&mut core, other).ok().unwrap().unwrap();
        assert!(none.codecs.is_empty());

        let outside_kind = match kind {
            RtpCodecKind::Audio => OutsideKind::Audio,
            _ => OutsideKind::Video,
        };
        let replacement = sender
            .replace_track(&mut core, "other", rtc_track("stream-c", outside_kind, 9))
            .ok()
            .unwrap();
        let ctx = replacement.unbound(&mut core, &[], "driver").ok().unwrap();
        let extensions = told.rtp_parameters.header_extensions;
        assert_eq!(ctx.rtp_parameters.header_extensions.len(), extensions.len());
        for (ours, theirs) in ctx.rtp_parameters.header_extensions.iter().zip(&extensions) {
            assert_eq!(ours.uri, theirs.uri);
            assert_eq!(ours.id, theirs.id);
            assert_eq!(ours.encrypted, theirs.encrypted);
        }
        assert_eq!(
            ctx.rtp_parameters
                .codecs
                .iter()
                .map(|codec| codec.payload_type)
                .collect::<Vec<u8>>(),
            codecs
                .iter()
                .map(|codec| codec.payload_type)
                .collect::<Vec<u8>>()
        );
    }
}

#[test]
fn a_track_that_replaces_itself_stays_bound() {
    let (mut core, id) = rtc_core();
    let track = video_track("stream-a", "video-a", 0x1111_1111);
    let mut sender = RtpSenderImpl::new(id, Rc::clone(&track));
    bind_to(&track, id);

    let replacement = sender
        .replace_track(
            &mut core,
            Rc::clone(&track),
            rtc_track("stream-a", OutsideKind::Video, 0x1111_1111),
        )
        .ok()
        .unwrap();
    replacement.old_track().borrow_mut().unbind();
    let ctx = replacement
        .unbound(&mut core, track.borrow().codings(), "driver")
        .ok()
        .unwrap();
    track.borrow_mut().bind(ctx, ());

    assert!(Rc::ptr_eq(sender.track(), &track));
    assert_eq!(
        track.borrow().bind_result(),
        TrackLocalStaticRtpBindResult::Compatible { payload_type: 96 }
    );
}

#[test]
fn a_peer_connection_without_the_sender_is_an_error() {
    let (mut core, id) = rtc_core();
    let mut sender = RtpSenderImpl::new(RTCRtpSenderId(id.0 + 1), "video");
    let missing = Some(Error::ErrRTPSenderNotExisted);

    let replaced = sender.replace_track(
        &mut core,
        "other",
        rtc_track("stream-b", OutsideKind::Video, 2),
    );
    assert_eq!(replaced.err(), missing);
    assert_eq!(*sender.track(), "video");
    let capabilities = sender.get_capabilities(&mut core, RtpCodecKind::Video);
    assert_eq!(capabilities.err(), missing);
    assert_eq!(sender.get_parameters(&mut core).err(), missing);
    let mut other = RtpSenderImpl::new(id, "video");
    let parameters = other.get_parameters(&mut core).ok().unwrap();
    let set = sender.set_parameters(&mut core, parameters, None);
    assert_eq!(set.err(), missing);
    assert_eq!(sender.set_streams(&mut core, vec![]).err(), missing);
    assert_eq!(sender.get_stats(&mut core, Instant::now()).err(), missing);

    let replacement = other
        .replace_track(
            &mut core,
            "other",
            rtc_track("stream-b", OutsideKind::Video, 2),
        )
        .ok()
        .unwrap();
    let (mut empty, _) = rtc_core();
    empty.remove_track(id.0.into()).unwrap();
    assert_eq!(
        replacement.unbound(&mut empty, &[], "driver").err(),
        missing
    );
}

#[test]
fn a_refused_replacement_leaves_the_sender_as_it_was() {
    let track_a = video_track("stream-a", "video-a", 1);
    let track_b = video_track("stream-b", "video-b", 2);
    let mut sender = RtpSenderImpl::new(RTCRtpSenderId(2), Rc::clone(&track_a));

    let refusal = RtcError {
        name: "Refused".to_owned(),
        message: "refused".to_owned(),
    };
    let refused = sender.track_replaced(
        Rc::clone(&track_b),
        Some(Err(refusal.clone())),
    );
    assert_eq!(refused.err(), Some(Error::Rtc(refusal)));
    assert!(Rc::ptr_eq(sender.track(), &track_a));

    let missing = sender.track_replaced(Rc::clone(&track_b), None);
    assert_eq!(missing.err(), Some(Error::ErrRTPSenderNotExisted));
    assert!(Rc::ptr_eq(sender.track(), &track_a));
    assert_eq!(sender.id(), RTCRtpSenderId(2));
}

#[test]
fn a_sender_that_vanished_during_a_replacement_binds_nothing() {
    let track_a = video_track("stream-a", "video-a", 1);
    let track_b = video_track("stream-b", "video-b", 2);
    let mut sender = RtpSenderImpl::new(RTCRtpSenderId(2), track_a);
    let replacement = sender
        .track_replaced(Rc::clone(&track_b), Some(Ok(())))
        .ok()
        .unwrap();

    let outcome = replacement.context(None, track_b.borrow().codings(), "driver");
    assert_eq!(outcome.err(), Some(Error::ErrRTPSenderNotExisted));
}

#[test]
fn a_missing_sender_is_an_error() {
    assert_eq!(existing_sender(Some(5)), Ok(5));
    assert_eq!(
        existing_sender::<u8>(None),
        Err(Error::ErrRTPSenderNotExisted)
    );
}
