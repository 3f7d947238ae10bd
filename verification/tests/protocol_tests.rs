use enpose_api::protocol::{
    encode_discovery_request, encode_peer_info, encode_pose_data_header, encode_pose_subscribe,
    encode_pose_unsubscribe, parse_packet, MAGIC, PACKET_SIZE, PKT_TYPE_DISCOVERY_REQUEST,
    PKT_TYPE_PEER_INFO, PKT_TYPE_POSE_DATA, PKT_TYPE_POSE_SUBSCRIBE, PKT_TYPE_POSE_UNSUBSCRIBE,
    PROTOCOL_VERSION,
};

#[test]
fn peer_info_round_trip() {
    let buf = encode_peer_info(0xDEADBEEF, true);
    let p = parse_packet(&buf).expect("valid packet");
    assert_eq!(p.serial, 0xDEADBEEF);
    assert!(p.has_extrinsics);
    assert_eq!(p.pkt_type, PKT_TYPE_PEER_INFO);
    assert_eq!(p.version, PROTOCOL_VERSION);
}

#[test]
fn discovery_request_round_trip() {
    let buf = encode_discovery_request();
    let p = parse_packet(&buf).expect("valid packet");
    assert_eq!(p.pkt_type, PKT_TYPE_DISCOVERY_REQUEST);
    assert_eq!(p.serial, 0);
    assert!(!p.has_extrinsics);
    assert_eq!(p.version, PROTOCOL_VERSION);
}

#[test]
fn pose_subscribe_round_trip() {
    let buf = encode_pose_subscribe();
    let p = parse_packet(&buf).expect("valid packet");
    assert_eq!(p.pkt_type, PKT_TYPE_POSE_SUBSCRIBE);
    assert_eq!(p.serial, 0);
    assert_eq!(p.version, PROTOCOL_VERSION);
}

#[test]
fn pose_unsubscribe_round_trip() {
    let buf = encode_pose_unsubscribe();
    let p = parse_packet(&buf).expect("valid packet");
    assert_eq!(p.pkt_type, PKT_TYPE_POSE_UNSUBSCRIBE);
}

#[test]
fn pose_data_header_carries_serial() {
    let buf = encode_pose_data_header(0xCAFEBABE);
    let p = parse_packet(&buf).expect("valid packet");
    assert_eq!(p.pkt_type, PKT_TYPE_POSE_DATA);
    assert_eq!(p.serial, 0xCAFEBABE);
}

#[test]
fn rejects_bad_magic() {
    let mut buf = encode_peer_info(1, false);
    buf[0] ^= 0xFF;
    assert!(parse_packet(&buf).is_none());
}

#[test]
fn rejects_short_packet() {
    let buf = encode_peer_info(1, false);
    assert!(parse_packet(&buf[..buf.len() - 1]).is_none());
}

#[test]
fn version_mismatch_is_surfaced_not_rejected() {
    // Discovery clients need to see version-mismatched packets so they
    // can list incompatible devices to the user. parse_packet therefore
    // accepts the packet and leaves the policy decision to the caller.
    let mut buf = encode_peer_info(1, false);
    buf[4..6].copy_from_slice(&(PROTOCOL_VERSION + 1).to_be_bytes());
    let p = parse_packet(&buf).expect("magic still matches, packet should parse");
    assert_eq!(p.version, PROTOCOL_VERSION + 1);
}

#[test]
fn magic_matches_ascii_enpr() {
    // 'E'=0x45, 'n'=0x6e, 'p'=0x70, 'R'=0x52 — big-endian on the wire so
    // a tcpdump shows the literal magic bytes EnpR.
    assert_eq!(MAGIC, 0x456e7052);
    let buf = encode_peer_info(0, false);
    assert_eq!(&buf[0..4], b"EnpR");
}

#[test]
fn encoded_packet_has_exact_layout() {
    let buf = encode_peer_info(0x0102_0304, true);
    assert_eq!(buf.len(), PACKET_SIZE);
    assert_eq!(
        buf,
        [0x45, 0x6e, 0x70, 0x52, 0x00, 0x01, 0x01, 0x02, 0x03, 0x04, 0x01, PKT_TYPE_PEER_INFO]
    );
    let req = encode_discovery_request();
    assert_eq!(req, [0x45, 0x6e, 0x70, 0x52, 0x00, 0x01, 0, 0, 0, 0, 0x00, 0x01]);
}

#[test]
fn parse_ignores_trailing_bytes() {
    let mut data = encode_pose_data_header(7).to_vec();
    data.extend_from_slice(&[9, 9, 9]);
    let p = parse_packet(&data).expect("header parses");
    assert_eq!(p.serial, 7);
    assert_eq!(p.pkt_type, PKT_TYPE_POSE_DATA);
}

#[test]
fn nonzero_flag_byte_reads_as_true() {
    let mut buf = encode_peer_info(5, false);
    assert!(!parse_packet(&buf).unwrap().has_extrinsics);
    buf[10] = 0x7f;
    assert!(parse_packet(&buf).unwrap().has_extrinsics);
    buf[11] = 0xee;
    assert_eq!(parse_packet(&buf).unwrap().pkt_type, 0xee);
}

#[test]
fn empty_input_is_rejected() {
    assert!(parse_packet(&[]).is_none());
}

#[test]
fn reencoding_a_parsed_header_gives_it_back() {
    let buf = encode_peer_info(0x0A0B_0C0D, true);
    let p = parse_packet(&buf).unwrap();
    assert_eq!(p.version, PROTOCOL_VERSION);
    assert_eq!(encode_peer_info(p.serial, p.has_extrinsics), buf);
    let hdr = encode_pose_data_header(0x55);
    let q = parse_packet(&hdr).unwrap();
    assert_eq!(encode_pose_data_header(q.serial), hdr);
}
