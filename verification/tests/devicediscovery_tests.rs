use enpose_api::address::Endpoint;
use enpose_api::devicediscovery::{
    broadcast_addresses, DeviceDiscovery, DeviceInfo, DiscoveryRound, DiscoveryStep,
    InterfaceAddr, MIN_WAIT_US,
};
use enpose_api::protocol::{
    encode_discovery_request, encode_peer_info, BROADCAST_PORT, PACKET_SIZE, PROTOCOL_VERSION,
};

const LOCALHOST: [u8; 4] = [127, 0, 0, 1];

/// Run a discovery round against a primary that answers the first request
/// with each `reply`, 10 ms in, then stays silent.
fn run_round(replies: Vec<[u8; PACKET_SIZE]>) -> Vec<DeviceInfo> {
    let mut round = DiscoveryRound::new();
    assert_eq!(
        round.step(0),
        DiscoveryStep::Listen { send_burst: true, timeout_us: 150_000 }
    );
    for reply in &replies {
        round.on_datagram(reply, LOCALHOST, 10_000);
    }
    let mut now = 10_000;
    loop {
        match round.step(now) {
            DiscoveryStep::Finish => break,
            DiscoveryStep::Listen { timeout_us, .. } => now += timeout_us,
        }
    }
    round.into_devices()
}

#[test]
fn single_reply_is_returned_with_compatible_true() {
    let reply = encode_peer_info(0x1234, true);
    let result = run_round(vec![reply]);
    assert_eq!(result.len(), 1);
    assert_eq!(result[0].serial, 0x1234);
    assert!(result[0].compatible);
    assert_eq!(result[0].ip, LOCALHOST);
}

#[test]
fn version_mismatch_marks_incompatible() {
    let mut reply = encode_peer_info(0x9999, false);
    reply[4..6].copy_from_slice(&(PROTOCOL_VERSION + 1).to_be_bytes());
    let result = run_round(vec![reply]);
    assert_eq!(result.len(), 1);
    assert_eq!(result[0].serial, 0x9999);
    assert!(!result[0].compatible);
}

#[test]
fn duplicate_serial_is_filtered() {
    // Simulate a network echo by replying twice with the same packet.
    // The discovery round should keep only one entry.
    let reply = encode_peer_info(0xABCD, true);
    let result = run_round(vec![reply, reply]);
    assert_eq!(result.len(), 1);
    assert_eq!(result[0].serial, 0xABCD);
}

#[test]
fn non_replies_are_ignored() {
    let mut round = DiscoveryRound::new();
    round.on_datagram(&encode_discovery_request(), LOCALHOST, 5);
    round.on_datagram(&[1, 2, 3], LOCALHOST, 5);
    assert!(round.devices().is_empty());
    // Nothing arrived, so the round waits out the full budget.
    assert!(matches!(round.step(499_999), DiscoveryStep::Listen { .. }));
    assert_eq!(round.step(500_000), DiscoveryStep::Finish);
}

#[test]
fn bursts_are_spaced_and_capped() {
    let mut round = DiscoveryRound::new();
    assert_eq!(round.step(0), DiscoveryStep::Listen { send_burst: true, timeout_us: 150_000 });
    assert_eq!(round.step(100_000), DiscoveryStep::Listen { send_burst: false, timeout_us: 50_000 });
    assert_eq!(round.step(150_000), DiscoveryStep::Listen { send_burst: true, timeout_us: 150_000 });
    assert_eq!(round.step(300_000), DiscoveryStep::Listen { send_burst: true, timeout_us: 200_000 });
    // Three bursts went out; only the budget bounds the wait now.
    assert_eq!(round.step(450_000), DiscoveryStep::Listen { send_burst: false, timeout_us: 50_000 });
    assert_eq!(
        round.step(499_500),
        DiscoveryStep::Listen { send_burst: false, timeout_us: MIN_WAIT_US }
    );
    assert_eq!(round.step(500_000), DiscoveryStep::Finish);
}

#[test]
fn round_ends_after_quiet_window() {
    let mut round = DiscoveryRound::new();
    round.step(0);
    round.on_datagram(&encode_peer_info(1, false), [10, 0, 0, 2], 20_000);
    assert_eq!(round.step(30_000), DiscoveryStep::Listen { send_burst: false, timeout_us: 40_000 });
    round.on_datagram(&encode_peer_info(2, false), [10, 0, 0, 3], 60_000);
    assert!(matches!(round.step(100_000), DiscoveryStep::Listen { .. }));
    assert_eq!(round.step(110_000), DiscoveryStep::Finish);
    let devices = round.into_devices();
    assert_eq!(devices.len(), 2);
    assert_eq!(devices[1], DeviceInfo { ip: [10, 0, 0, 3], serial: 2, compatible: true });
}

#[test]
fn broadcasts_skip_loopback_link_local_and_ipv6() {
    let ifaces = [
        InterfaceAddr::V4 { ip: [192, 168, 10, 10], broadcast: Some([192, 168, 10, 255]) },
        InterfaceAddr::V4 { ip: [127, 0, 0, 1], broadcast: Some([127, 255, 255, 255]) },
        InterfaceAddr::V4 { ip: [169, 254, 3, 4], broadcast: Some([169, 254, 255, 255]) },
        InterfaceAddr::V6,
        InterfaceAddr::V4 { ip: [10, 1, 2, 3], broadcast: None },
        InterfaceAddr::V4 { ip: [10, 8, 0, 1], broadcast: Some([10, 8, 255, 255]) },
    ];
    assert_eq!(broadcast_addresses(&ifaces), vec![[192, 168, 10, 255], [10, 8, 255, 255]]);
}

#[test]
fn targets_are_broadcasts_plus_limited_broadcast() {
    let ifaces = [InterfaceAddr::V4 { ip: [192, 168, 10, 10], broadcast: Some([192, 168, 10, 255]) }];
    let disc = DeviceDiscovery::new();
    assert_eq!(disc.explicit_target(), None);
    assert_eq!(
        disc.discovery_targets(&ifaces),
        vec![
            Endpoint { ip: [192, 168, 10, 255], port: BROADCAST_PORT },
            Endpoint { ip: [255, 255, 255, 255], port: BROADCAST_PORT },
        ]
    );
    let fallback = DeviceDiscovery::default().discovery_targets(&[]);
    assert_eq!(fallback, vec![Endpoint { ip: [255, 255, 255, 255], port: 50884 }]);
}

#[test]
fn explicit_target_is_the_only_target() {
    let target = Endpoint { ip: LOCALHOST, port: 40000 };
    let disc = DeviceDiscovery::with_target(target);
    assert_eq!(disc.explicit_target(), Some(target));
    let ifaces = [InterfaceAddr::V4 { ip: [192, 168, 10, 10], broadcast: Some([192, 168, 10, 255]) }];
    assert_eq!(disc.discovery_targets(&ifaces), vec![target]);
}
