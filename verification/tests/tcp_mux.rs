use std::time::Duration;
use webrtc::error::Error;
use webrtc::peer_connection::rfc4571::{FrameProgress, FrameReader};
use webrtc::peer_connection::tcp_mux::{
    DropReason, InitialDispatch, InitialFrame, TcpMux, TcpMuxConfig, TransportProtocol,
};

type Mux = TcpMux<u16, &'static str>;

fn stun_message(username: &str) -> Vec<u8> {
    let username_len = username.len();
    let padded_username_len = (username_len + 3) & !3;
    let mut packet = vec![
        0,
        1,
        0,
        (4 + padded_username_len) as u8,
        0x21,
        0x12,
        0xA4,
        0x42,
    ];
    packet.extend_from_slice(&[0; 12]);
    packet.extend_from_slice(&[0, 6, 0, username_len as u8]);
    packet.extend_from_slice(username.as_bytes());
    packet.resize(packet.len() + padded_username_len - username_len, 0);
    packet
}

fn rfc4571_stun_frame(username: &str) -> Vec<u8> {
    let packet = stun_message(username);
    let mut frame = Vec::with_capacity(2 + packet.len());
    frame.extend_from_slice(&(packet.len() as u16).to_be_bytes());
    frame.extend_from_slice(&packet);
    frame
}

fn read_frame(stream: &[u8]) -> InitialFrame {
    let mut reader = FrameReader::new();
    let mut rest = stream;
    loop {
        let count = reader.missing().min(rest.len());
        let (bytes, behind) = rest.split_at(count);
        rest = behind;
        match reader.accept(Some(bytes)) {
            FrameProgress::Pending => {}
            FrameProgress::Complete(payload) => return InitialFrame::Received(payload),
            FrameProgress::Rejected => return InitialFrame::Rejected,
        }
    }
}

fn delivered_to(mux: &Mux, frame: InitialFrame) -> Option<&'static str> {
    match mux.dispatch_initial_frame(frame, "stream", None, 9, 0) {
        InitialDispatch::Deliver { sender, .. } => Some(*sender),
        InitialDispatch::Dropped(_) => None,
    }
}

fn drop_reason(mux: &Mux, frame: InitialFrame) -> Option<DropReason> {
    match mux.dispatch_initial_frame(frame, "stream", None, 9, 0) {
        InitialDispatch::Deliver { .. } => None,
        InitialDispatch::Dropped(reason) => Some(reason),
    }
}

#[test]
fn stalled_initial_frame_times_out_and_releases_dispatch_capacity() {
    let mut mux: Mux = TcpMux::bind_with_config(
        5000,
        TcpMuxConfig::default()
            .with_initial_frame_timeout(Duration::from_millis(25))
            .with_max_initial_dispatches(1),
    )
    .ok()
    .expect("bind TCP mux");
    assert_eq!(mux.initial_frame_timeout(), Duration::from_millis(25));
    let _registration = mux
        .register("local".into(), "driver")
        .ok()
        .expect("register route");

    let stalled = mux.try_acquire_initial_dispatch().expect("room for one");
    assert!(mux.try_acquire_initial_dispatch().is_none());
    assert_eq!(
        drop_reason(&mux, InitialFrame::TimedOut),
        Some(DropReason::TimedOut)
    );
    mux.release_initial_dispatch(stalled);
    assert_eq!(mux.initial_dispatches(), 0);

    let valid = mux.try_acquire_initial_dispatch().expect("room again");
    let frame = read_frame(&rfc4571_stun_frame("remote:local"));
    assert_eq!(
        delivered_to(&mux, frame),
        Some("driver"),
        "valid connection was dispatched"
    );
    mux.release_initial_dispatch(valid);
}

#[test]
fn initial_dispatch_limit_rejects_excess_connections_and_recovers() {
    let mut mux: Mux = TcpMux::bind_with_config(
        5000,
        TcpMuxConfig::default()
            .with_initial_frame_timeout(Duration::from_secs(1))
            .with_max_initial_dispatches(1),
    )
    .ok()
    .expect("bind TCP mux");
    let _registration = mux
        .register("local".into(), "driver")
        .ok()
        .expect("register route");

    let stalled = mux.try_acquire_initial_dispatch().expect("room for one");
    assert!(
        mux.try_acquire_initial_dispatch().is_none(),
        "the full dispatch limit must reject the second connection"
    );

    assert_eq!(
        drop_reason(&mux, read_frame(&[])),
        Some(DropReason::NoFrame)
    );
    mux.release_initial_dispatch(stalled);

    let recovered = mux.try_acquire_initial_dispatch();
    assert!(recovered.is_some());
    assert_eq!(
        delivered_to(&mux, read_frame(&rfc4571_stun_frame("remote:local"))),
        Some("driver"),
        "recovered connection was dispatched"
    );
}

#[test]
fn the_default_bounds_are_five_seconds_and_128_connections() {
    let mut mux: Mux = TcpMux::bind(5000).ok().unwrap();
    assert_eq!(mux.local_addr(), 5000);
    assert_eq!(mux.initial_frame_timeout(), Duration::from_secs(5));
    for _ in 0..128 {
        assert!(mux.try_acquire_initial_dispatch().is_some());
    }
    assert!(mux.try_acquire_initial_dispatch().is_none());
}

#[test]
fn a_limit_of_zero_is_rejected() {
    let config = TcpMuxConfig::default().with_max_initial_dispatches(0);
    let message = "TCP mux initial dispatch limit must be greater than zero";
    assert_eq!(config.check().unwrap_err().message, message);
    let mux: Result<Mux, _> = TcpMux::bind_with_config(5000, config);
    assert_eq!(mux.err().unwrap().message, message);
    assert!(TcpMuxConfig::default().check().is_ok());
}

#[test]
fn a_username_fragment_has_one_route() {
    let mut mux: Mux = TcpMux::bind(5000).ok().unwrap();
    let registration = mux.register("local".into(), "first").ok().unwrap();
    assert_eq!(registration.ufrag(), "local");
    assert_eq!(
        mux.register("local".into(), "second").err(),
        Some(Error::Other(
            "TCP mux already has an ICE ufrag registered: local".to_owned()
        ))
    );
    let frame = InitialFrame::Received(stun_message("remote:local"));
    assert_eq!(delivered_to(&mux, frame), Some("first"));
}

#[test]
fn unregistering_affects_one_route() {
    let mut mux: Mux = TcpMux::bind(5000).ok().unwrap();
    let first = mux.register("first".into(), "one").ok().unwrap();
    let _second = mux.register("second".into(), "two").ok().unwrap();
    mux.unregister(first);

    assert_eq!(
        drop_reason(&mux, InitialFrame::Received(stun_message("r:first"))),
        Some(DropReason::UnknownUfrag)
    );
    assert_eq!(
        delivered_to(&mux, InitialFrame::Received(stun_message("r:second"))),
        Some("two")
    );
    assert!(mux.register("first".into(), "three").is_ok());
}

#[test]
fn a_frame_without_a_username_is_dropped() {
    let mux: Mux = TcpMux::bind(5000).ok().unwrap();
    assert_eq!(
        drop_reason(&mux, InitialFrame::Received(vec![1, 2, 3])),
        Some(DropReason::NoUsername)
    );
}

#[test]
fn the_driver_gets_the_stream_and_the_packet_that_was_read() {
    let mut mux: Mux = TcpMux::bind(5000).ok().unwrap();
    let _registration = mux.register("local".into(), "driver").ok().unwrap();
    let packet = stun_message("remote:local");

    for (stream_addr, local_addr) in [(None, 5000), (Some(6000), 6000)] {
        let dispatch = mux.dispatch_initial_frame(
            InitialFrame::Received(packet.clone()),
            "stream",
            stream_addr,
            9,
            77,
        );
        match dispatch {
            InitialDispatch::Deliver { sender, event } => {
                assert_eq!(*sender, "driver");
                assert_eq!(event.stream, "stream");
                assert_eq!(event.four_tuple.local_addr, local_addr);
                assert_eq!(event.four_tuple.peer_addr, 9);
                let initial_packet = event.initial_packet.unwrap();
                assert_eq!(initial_packet.now, 77);
                assert_eq!(initial_packet.message.to_vec(), packet);
                assert_eq!(initial_packet.transport.local_addr, local_addr);
                assert_eq!(initial_packet.transport.peer_addr, 9);
                assert_eq!(initial_packet.transport.ecn, None);
                assert_eq!(
                    initial_packet.transport.transport_protocol,
                    TransportProtocol::TCP
                );
            }
            InitialDispatch::Dropped(reason) => panic!("dropped: {reason:?}"),
        }
    }
}

#[test]
fn the_count_is_that_of_the_permits_out() {
    let mut mux: Mux =
        TcpMux::bind_with_config(5000, TcpMuxConfig::default().with_max_initial_dispatches(2))
            .ok()
            .unwrap();
    let mut permits = vec![];
    for step in "aaraarraraaar".chars() {
        match step {
            'a' => permits.extend(mux.try_acquire_initial_dispatch()),
            _ => mux.release_initial_dispatch(permits.pop().unwrap()),
        }
        assert_eq!(mux.initial_dispatches(), permits.len());
        assert!(permits.len() <= 2);
    }
}
