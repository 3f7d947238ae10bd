use enpose_api::address::{Endpoint, IpAddress};
use enpose_api::marker_pose::MarkerPose;
use enpose_api::posestream::{
    block_deadline, block_wait_timeout, collect_datagram, parse_pose_packet, pose_endpoint,
    ConnectError, PoseBuffer, ReceiveAction, ReceiveCall, StreamSession, BLOCK_TIMEOUT_US,
    KEEPALIVE_INTERVAL_US, RECV_TIMEOUT_US,
};
use enpose_api::protocol::{
    encode_peer_info, encode_pose_data_header, encode_pose_subscribe, POSE_PORT,
};

/// Build a sample pose for tests.
fn sample_pose(marker_id: u16) -> MarkerPose {
    MarkerPose {
        timestamp: 12345,
        marker_id,
        x: 1.0f64.to_bits(),
        y: 2.0f64.to_bits(),
        z: 3.0f64.to_bits(),
        rotation: [
            1.0f64.to_bits(),
            0.0f64.to_bits(),
            0.0f64.to_bits(),
            0.0f64.to_bits(),
            1.0f64.to_bits(),
            0.0f64.to_bits(),
            0.0f64.to_bits(),
            0.0f64.to_bits(),
            1.0f64.to_bits(),
        ],
        position_rmse: 0.1f64.to_bits(),
        rotation_rmse: 0.01f64.to_bits(),
        sensors: 2,
        observed_emitters: 0,
    }
}

/// Encode a pose-data packet the way the device would: fixed header
/// followed by the binary-encoded pose batch.
fn encode_pose_data(serial: u32, poses: &[MarkerPose]) -> Vec<u8> {
    let mut packet = encode_pose_data_header(serial).to_vec();
    packet.extend(MarkerPose::encode_batch(poses));
    packet
}

#[test]
fn pose_packet_round_trip() {
    let poses = vec![sample_pose(7), sample_pose(8)];
    let packet = encode_pose_data(0xABCD, &poses);
    assert_eq!(parse_pose_packet(&packet), Some(poses));
}

#[test]
fn pose_packet_rejects_other_types_and_bad_payloads() {
    // A control packet carries no poses.
    assert_eq!(parse_pose_packet(&encode_pose_subscribe()), None);
    // A pose-data header without a payload is malformed.
    assert_eq!(parse_pose_packet(&encode_pose_data_header(1)), None);
    // A peer-info header followed by a valid batch is not pose data.
    let mut packet = encode_peer_info(1, false).to_vec();
    packet.extend(MarkerPose::encode_batch(&[sample_pose(1)]));
    assert_eq!(parse_pose_packet(&packet), None);
    // A truncated payload is rejected.
    let full = encode_pose_data(1, &[sample_pose(1)]);
    assert_eq!(parse_pose_packet(&full[..full.len() - 1]), None);
}

#[test]
fn collect_ignores_non_pose_packets() {
    let mut received = Vec::new();
    assert!(!collect_datagram(&mut received, &encode_pose_subscribe()));
    let poses = vec![sample_pose(1)];
    assert!(collect_datagram(&mut received, &encode_pose_data(1, &poses)));
    assert_eq!(received, poses);
}

#[test]
fn collect_appends_in_arrival_order() {
    let mut received = vec![sample_pose(1)];
    assert!(collect_datagram(&mut received, &encode_pose_data(2, &[sample_pose(2), sample_pose(3)])));
    // An empty batch is valid pose data but adds nothing.
    assert!(!collect_datagram(&mut received, &encode_pose_data(2, &[])));
    let ids: Vec<u16> = received.iter().map(|p| p.marker_id).collect();
    assert_eq!(ids, vec![1, 2, 3]);
}

#[test]
fn from_ip_rejects_ipv6() {
    // The Enpose API is IPv4-only; an IPv6 target is rejected up front with a
    // typed Unsupported error rather than an opaque connect failure.
    let result = pose_endpoint(IpAddress::V6([0, 0, 0, 0, 0, 0, 0, 1]));
    assert_eq!(result, Err(ConnectError::Ipv6Unsupported));
}

#[test]
fn ipv4_target_uses_pose_port() {
    let result = pose_endpoint(IpAddress::V4([192, 168, 10, 10]));
    assert_eq!(result, Ok(Endpoint { ip: [192, 168, 10, 10], port: POSE_PORT }));
    assert_eq!(POSE_PORT, 50885);
}

#[test]
fn non_blocking_receive_never_waits() {
    let mut call = ReceiveCall::new(false);
    assert_eq!(call.next(0, false), ReceiveAction::Drain);
    assert_eq!(call.next(5, false), ReceiveAction::Finish);
    assert_eq!(call.next(6, false), ReceiveAction::Finish);
}

#[test]
fn blocking_receive_with_poses_does_not_wait() {
    let mut call = ReceiveCall::new(true);
    assert_eq!(call.next(0, false), ReceiveAction::Drain);
    assert_eq!(call.next(5, true), ReceiveAction::Finish);
}

#[test]
fn blocking_receive_waits_until_a_pose_arrives() {
    let mut call = ReceiveCall::new(true);
    assert_eq!(call.next(0, false), ReceiveAction::Drain);
    assert_eq!(call.next(10, false), ReceiveAction::Wait { timeout_us: RECV_TIMEOUT_US });
    assert_eq!(call.next(200_010, false), ReceiveAction::Wait { timeout_us: RECV_TIMEOUT_US });
    // A pose arrived during the wait: drain once more, then return.
    assert_eq!(call.next(250_000, true), ReceiveAction::Drain);
    assert_eq!(call.next(250_100, true), ReceiveAction::Finish);
}

#[test]
fn blocking_receive_gives_up_at_its_deadline() {
    let mut call = ReceiveCall::new(true);
    assert_eq!(call.next(0, false), ReceiveAction::Drain);
    assert_eq!(call.next(100, false), ReceiveAction::Wait { timeout_us: RECV_TIMEOUT_US });
    assert_eq!(call.next(3_000_000, false), ReceiveAction::Wait { timeout_us: 100 });
    assert_eq!(call.next(3_000_100, false), ReceiveAction::Drain);
    assert_eq!(call.next(3_000_200, false), ReceiveAction::Finish);
}

#[test]
fn each_pose_is_handed_out_once_in_arrival_order() {
    let mut buffer = PoseBuffer::new();
    assert!(buffer.is_empty());
    assert!(buffer.collect(&encode_pose_data(1, &[sample_pose(1), sample_pose(2)])));
    assert!(!buffer.collect(&encode_pose_subscribe()));
    let first = buffer.take_all();
    assert!(buffer.is_empty());
    assert!(buffer.collect(&encode_pose_data(1, &[sample_pose(3)])));
    assert!(buffer.collect(&encode_pose_data(1, &[sample_pose(4)])));
    let second = buffer.take_all();
    assert!(buffer.take_all().is_empty());
    let ids: Vec<u16> = first.iter().chain(second.iter()).map(|p| p.marker_id).collect();
    assert_eq!(ids, vec![1, 2, 3, 4]);
}

#[test]
fn blocking_receive_gives_up_after_three_seconds() {
    let deadline = block_deadline(1_000);
    assert_eq!(deadline, 1_000 + 3_000_000);
    assert_eq!(BLOCK_TIMEOUT_US, 3_000_000);
    // Early on, each wait is bounded by the receive timeout.
    assert_eq!(block_wait_timeout(1_000, deadline), Some(RECV_TIMEOUT_US));
    // Near the deadline, only the time left is waited.
    assert_eq!(block_wait_timeout(deadline - 50, deadline), Some(50));
    // At and past the deadline the receive stops.
    assert_eq!(block_wait_timeout(deadline, deadline), None);
    assert_eq!(block_wait_timeout(deadline + 1, deadline), None);
    // The deadline saturates at the end of the clock.
    assert_eq!(block_deadline(u64::MAX - 5), u64::MAX);
}

#[test]
fn keepalive_falls_due_each_second() {
    let mut s = StreamSession::new(false, 10);
    assert!(s.is_connected());
    assert!(!s.is_threaded());
    assert!(!s.keepalive_due(10));
    assert!(!s.keepalive_due(10 + KEEPALIVE_INTERVAL_US - 1));
    assert!(s.keepalive_due(10 + KEEPALIVE_INTERVAL_US));
    s.keepalive_sent(2_000_000);
    assert!(!s.keepalive_due(2_500_000));
    assert!(s.keepalive_due(3_000_000));
    // A clock reading before the last keep-alive never makes one due.
    assert!(!s.keepalive_due(5));
}

#[test]
fn disconnect_is_idempotent() {
    let mut s = StreamSession::new(true, 0);
    assert!(s.is_threaded());
    assert!(s.disconnect());
    assert!(!s.is_connected());
    assert!(!s.disconnect());
    assert!(!s.is_connected());
}
