use webrtc::peer_connection::rfc4571::{FrameProgress, FrameReader};

fn complete(progress: FrameProgress) -> Vec<u8> {
    match progress {
        FrameProgress::Complete(payload) => payload,
        _ => panic!("the frame is not complete"),
    }
}

#[test]
fn a_frame_is_read_in_two_parts() {
    let mut reader = FrameReader::new();
    assert_eq!(reader.missing(), 2);
    assert!(matches!(
        reader.accept(Some(&[1, 2])),
        FrameProgress::Pending
    ));
    assert_eq!(reader.missing(), 258);
    let payload = vec![7; 258];
    assert_eq!(complete(reader.accept(Some(&payload))), payload);
}

#[test]
fn cuts_do_not_matter() {
    let frame = [0, 3, b'a', b'b', b'c'];
    let mut reader = FrameReader::new();
    for (index, byte) in frame.iter().enumerate() {
        let progress = reader.accept(Some(&[*byte]));
        if index + 1 < frame.len() {
            assert!(matches!(progress, FrameProgress::Pending));
        } else {
            assert_eq!(complete(progress), b"abc");
        }
    }
}

#[test]
fn an_empty_frame_is_rejected() {
    let mut reader = FrameReader::new();
    assert!(matches!(
        reader.accept(Some(&[0, 0])),
        FrameProgress::Rejected
    ));
}

#[test]
fn the_end_of_the_stream_and_a_failed_read_reject() {
    let mut reader = FrameReader::new();
    assert!(matches!(reader.accept(Some(&[])), FrameProgress::Rejected));
    let mut reader = FrameReader::new();
    assert!(matches!(
        reader.accept(Some(&[0])),
        FrameProgress::Pending
    ));
    assert!(matches!(reader.accept(None), FrameProgress::Rejected));
}
