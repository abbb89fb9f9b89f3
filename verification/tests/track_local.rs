use webrtc::media_stream::track_local::TrackLocalContext;
use webrtc::rtp_transceiver::rtp_sender::{
    RTCRtpCodec, RTCRtpCodecParameters, RTCRtpCodingParameters, RTCRtpEncodingParameters,
    RTCRtpParameters,
};
use webrtc::rtp_transceiver::RTCRtpSenderId;

fn codec(mime_type: &str) -> RTCRtpCodec {
    RTCRtpCodec {
        mime_type: mime_type.to_string(),
        clock_rate: 90_000,
        channels: 0,
        sdp_fmtp_line: String::new(),
        rtcp_feedback: vec![],
    }
}

fn negotiated(codecs: Vec<(RTCRtpCodec, u8)>) -> RTCRtpParameters {
    RTCRtpParameters {
        codecs: codecs
            .into_iter()
            .map(|(rtp_codec, payload_type)| RTCRtpCodecParameters {
                rtp_codec,
                payload_type,
            })
            .collect(),
        ..Default::default()
    }
}

fn coding(ssrc: Option<u32>, codec: RTCRtpCodec) -> RTCRtpEncodingParameters {
    RTCRtpEncodingParameters {
        rtp_coding_parameters: RTCRtpCodingParameters {
            ssrc,
            ..Default::default()
        },
        codec,
        ..Default::default()
    }
}

#[test]
fn prepared_rtp_uses_the_local_encoding_codec_payload_type() {
    let parameters = RTCRtpParameters {
        codecs: vec![
            RTCRtpCodecParameters {
                rtp_codec: codec("video/h264"),
                payload_type: 125,
                ..Default::default()
            },
            RTCRtpCodecParameters {
                rtp_codec: codec("video/vp8"),
                payload_type: 96,
                ..Default::default()
            },
        ],
        ..Default::default()
    };
    let codings = vec![RTCRtpEncodingParameters {
        rtp_coding_parameters: RTCRtpCodingParameters {
            ssrc: Some(1234),
            ..Default::default()
        },
        codec: codec("video/vp8"),
        ..Default::default()
    }];

    let prepared = TrackLocalContext::<()>::build_prepared_rtp(
        RTCRtpSenderId::default(),
        &parameters,
        &codings,
    )
    .expect("prepared RTP context should be available");

    assert_eq!(prepared.payload_type, 96);
}

#[test]
fn prepared_rtp_rejects_an_unrelated_negotiated_codec() {
    let parameters = RTCRtpParameters {
        codecs: vec![RTCRtpCodecParameters {
            rtp_codec: codec("video/vp8"),
            payload_type: 96,
            ..Default::default()
        }],
        ..Default::default()
    };
    let codings = vec![RTCRtpEncodingParameters {
        rtp_coding_parameters: RTCRtpCodingParameters {
            ssrc: Some(1234),
            ..Default::default()
        },
        codec: codec("video/h264"),
        ..Default::default()
    }];

    assert!(
        TrackLocalContext::<()>::build_prepared_rtp(
            RTCRtpSenderId::default(),
            &parameters,
            &codings,
        )
        .is_none(),
        "an H264 source must not bind to a VP8-only negotiated context"
    );
}

#[test]
fn prepared_rtp_names_the_sender_and_the_first_stream() {
    let parameters = negotiated(vec![(codec("video/vp8"), 96)]);
    let codings = vec![
        coding(Some(7), codec("video/vp8")),
        coding(Some(8), codec("video/h264")),
    ];

    let prepared =
        TrackLocalContext::<()>::build_prepared_rtp(RTCRtpSenderId(3), &parameters, &codings)
            .unwrap();

    assert_eq!(prepared.rtp_sender_id, RTCRtpSenderId(3));
    assert_eq!(prepared.ssrc, 7);
    assert_eq!(prepared.payload_type, 96);
}

#[test]
fn prepared_rtp_needs_a_coding_with_a_stream() {
    let parameters = negotiated(vec![(codec("video/vp8"), 96)]);
    let id = RTCRtpSenderId::default();

    assert!(TrackLocalContext::<()>::build_prepared_rtp(id, &parameters, &[]).is_none());
    assert!(TrackLocalContext::<()>::build_prepared_rtp(
        id,
        &parameters,
        &[
            coding(None, codec("video/vp8")),
            coding(Some(8), codec("video/vp8")),
        ],
    )
    .is_none());
}

#[test]
fn mime_types_match_whatever_the_case_of_ascii_letters() {
    let id = RTCRtpSenderId::default();
    let parameters = negotiated(vec![(codec("VIDEO/vp8"), 96)]);
    let matching = [coding(Some(1), codec("video/VP8"))];
    assert_eq!(
        TrackLocalContext::<()>::build_prepared_rtp(id, &parameters, &matching)
            .unwrap()
            .payload_type,
        96
    );

    let accented = negotiated(vec![(codec("video/É"), 96)]);
    let other = [coding(Some(1), codec("video/é"))];
    assert!(TrackLocalContext::<()>::build_prepared_rtp(id, &accented, &other).is_none());
}

#[test]
fn a_codec_with_the_same_setup_is_preferred() {
    let id = RTCRtpSenderId::default();
    let mut baseline = codec("video/h264");
    baseline.sdp_fmtp_line = "profile-level-id=42e01f".to_string();
    let mut high = codec("video/h264");
    high.sdp_fmtp_line = "profile-level-id=640032".to_string();
    let parameters = negotiated(vec![(baseline.clone(), 102), (high.clone(), 112)]);

    let exact = TrackLocalContext::<()>::build_prepared_rtp(
        id,
        &parameters,
        &[coding(Some(1), high)],
    );
    assert_eq!(exact.unwrap().payload_type, 112);

    let mut faster = baseline;
    faster.clock_rate = 48_000;
    let fallback = TrackLocalContext::<()>::build_prepared_rtp(
        id,
        &parameters,
        &[coding(Some(1), faster)],
    );
    assert_eq!(fallback.unwrap().payload_type, 102);
}
