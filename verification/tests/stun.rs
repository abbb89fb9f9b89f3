use webrtc::peer_connection::stun::destination_ufrag;

#[test]
fn destination_ufrag_uses_the_last_username_component() {
    let mut packet = vec![0, 1, 0, 16, 0x21, 0x12, 0xA4, 0x42];
    packet.extend_from_slice(&[0; 12]);
    packet.extend_from_slice(&[0, 6, 0, 12]);
    packet.extend_from_slice(b"remote:local");

    assert_eq!(destination_ufrag(&packet), Some("local"));
}

fn message(attributes: &[u8]) -> Vec<u8> {
    let mut packet = vec![0, 1, 0, attributes.len() as u8, 0x21, 0x12, 0xA4, 0x42];
    packet.extend_from_slice(&[0; 12]);
    packet.extend_from_slice(attributes);
    packet
}

#[test]
fn everything_behind_the_last_colon_counts() {
    let packet = message(b"\x00\x06\x00\x05a:b:c\x00\x00\x00");
    assert_eq!(destination_ufrag(&packet), Some("c"));
    let packet = message(b"\x00\x06\x00\x04abc:");
    assert_eq!(destination_ufrag(&packet), Some(""));
    let packet = message(b"\x00\x06\x00\x04abcd");
    assert_eq!(destination_ufrag(&packet), None);
}

#[test]
fn other_attributes_and_their_padding_are_skipped() {
    let packet = message(b"\x80\x22\x00\x01x\x00\x00\x00\x00\x06\x00\x03a:b\x00");
    assert_eq!(destination_ufrag(&packet), Some("b"));
    let packet = message(b"\x80\x22\x00\x01x\x00\x00\x00");
    assert_eq!(destination_ufrag(&packet), None);
}

#[test]
fn a_username_must_be_text() {
    let packet = message(b"\x00\x06\x00\x04\xff:ab");
    assert_eq!(destination_ufrag(&packet), None);
    let mut attribute = vec![0, 6, 0, 6];
    attribute.extend_from_slice("é:né".as_bytes());
    attribute.extend_from_slice(&[0, 0]);
    assert_eq!(destination_ufrag(&message(&attribute)), Some("né"));
}

#[test]
fn only_whole_stun_messages_count() {
    let good = message(b"\x00\x06\x00\x04ab:c");
    assert_eq!(destination_ufrag(&good), Some("c"));
    assert_eq!(destination_ufrag(&good[..19]), None);
    assert_eq!(destination_ufrag(&good[..27]), None);

    let mut not_stun = good.clone();
    not_stun[0] = 0x40;
    assert_eq!(destination_ufrag(&not_stun), None);
    let mut no_cookie = good.clone();
    no_cookie[4] = 0;
    assert_eq!(destination_ufrag(&no_cookie), None);
    let mut too_long = good.clone();
    too_long[23] = 5;
    assert_eq!(destination_ufrag(&too_long), None);
    assert_eq!(destination_ufrag(&[]), None);
}
