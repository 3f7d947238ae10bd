//! Wire protocol shared by the Enpose API and the on-device daemon.
//!
//! All packets are exactly [`PACKET_SIZE`] bytes laid out big-endian on
//! the wire so a packet capture shows the literal magic bytes `EnpR`
//! regardless of host byte order.
//!
//! Packet layout:
//!
//! ```text
//! offset  size  field
//! 0       4     MAGIC ("EnpR")
//! 4       2     PROTOCOL_VERSION
//! 6       4     serial number
//! 10      1     has_extrinsics flag (0 or 1)
//! 11      1     packet type (PKT_TYPE_*)
//! ```

use vstd::prelude::*;

use crate::bytes::{
    be_u16, be_u32, lemma_be_u16_value, lemma_be_u32_value, lemma_u16_be_value,
    lemma_u32_be_value, lemma_u16_bytes_round_trip, lemma_u16_value_round_trip,
    lemma_u32_bytes_round_trip, lemma_u32_value_round_trip, read_u16_be, read_u32_be, u16_be,
    u16_to_be, u32_be, u32_to_be,
};

verus! {

/// UDP port the Enpose role-negotiation and discovery protocol uses.
///
/// Devices broadcast peer-announcement packets on this port at 1 Hz,
/// and clients send discovery requests to this port. The primary
/// device of every cluster replies to discovery requests by unicast
/// from this port back to the requester's ephemeral port.
pub const BROADCAST_PORT: u16 = 50884;

/// Wire-protocol version this API was built against.
///
/// Bumped only on incompatible packet-format changes. Packets carrying
/// a different version are still surfaced by device discovery (with
/// `compatible = false`) so the caller can present a helpful "upgrade
/// your firmware / client" entry instead of silently dropping the device.
pub const PROTOCOL_VERSION: u16 = 1;

/// Magic prefix of every packet — the ASCII bytes `EnpR` interpreted
/// as a big-endian `u32`. Distinguishes Enpose traffic from any other
/// UDP datagram that happens to land on [`BROADCAST_PORT`].
pub const MAGIC: u32 = 0x456e7052;

/// Fixed packet size across all packet types, so receivers can use a
/// single receive buffer.
pub const PACKET_SIZE: usize = 12;

/// Packet type: a device announces its own identity (serial,
/// extrinsics-calibration state). Sent both as the 1 Hz cluster
/// broadcast and as the unicast reply to a discovery request.
pub const PKT_TYPE_PEER_INFO: u8 = 0;

/// Packet type: a client asks any reachable primary to identify
/// itself. Only the cluster's elected primary replies, with a
/// [`PKT_TYPE_PEER_INFO`] packet sent unicast to the requester.
pub const PKT_TYPE_DISCOVERY_REQUEST: u8 = 1;

/// UDP port the pose-streaming protocol uses. Clients send subscribe /
/// keep-alive packets to this port on the device's primary, and the
/// device unicasts [`PKT_TYPE_POSE_DATA`] packets back to each subscribed
/// client. Separate from [`BROADCAST_PORT`] so discovery and streaming
/// traffic never share a socket.
pub const POSE_PORT: u16 = 50885;

/// Packet type: a client subscribes to the pose stream. The same packet
/// doubles as the keep-alive — a client resends it at 1 Hz, and the
/// device drops a client it has not heard from within
/// [`POSE_KEEPALIVE_TIMEOUT_SECS`]. Sent client → device on [`POSE_PORT`].
pub const PKT_TYPE_POSE_SUBSCRIBE: u8 = 2;

/// Packet type: a client unsubscribes from the pose stream. Lets the
/// device drop the client immediately instead of waiting for the
/// keep-alive timeout. Sent client → device on [`POSE_PORT`].
pub const PKT_TYPE_POSE_UNSUBSCRIBE: u8 = 3;

/// Packet type: a pose-data datagram. The fixed [`PACKET_SIZE`] header is
/// followed by a pose batch encoded by
/// [`crate::marker_pose::MarkerPose::encode_batch`], starting at offset
/// [`PACKET_SIZE`]. One datagram carries all markers localized from a
/// single camera frame. Sent device → client on [`POSE_PORT`].
pub const PKT_TYPE_POSE_DATA: u8 = 4;

/// How long the device keeps a pose-stream client without hearing a
/// subscribe/keep-alive packet from it before dropping the connection.
pub const POSE_KEEPALIVE_TIMEOUT_SECS: u64 = 5;

/// Interval at which a pose-stream client should resend its
/// subscribe/keep-alive packet to stay connected.
pub const POSE_KEEPALIVE_INTERVAL_SECS: u64 = 1;

/// Decoded contents of a packet that passed the magic-bytes check.
///
/// The `version` field is intentionally not validated by
/// [`parse_packet`]; callers decide whether to drop a version-mismatch
/// packet (the daemon does this for peer announcements) or surface it
/// to the user (discovery clients do this so an incompatible device
/// can still be listed).
#[derive(Debug, Clone, Copy, PartialEq, Eq, Structural)]
pub struct ParsedPacket {
    pub version: u16,
    pub serial: u32,
    pub has_extrinsics: bool,
    pub pkt_type: u8,
}

/// The byte that carries the extrinsics flag.
pub open spec fn flag_byte(b: bool) -> u8 {
    if b {
        1u8
    } else {
        0u8
    }
}

/// The [`PACKET_SIZE`] bytes of a packet of type `pkt_type` carrying
/// `serial` and the extrinsics flag, stamped with [`PROTOCOL_VERSION`].
pub open spec fn packet_bytes(serial: u32, has_extrinsics: bool, pkt_type: u8) -> Seq<u8> {
    u32_be(MAGIC) + u16_be(PROTOCOL_VERSION) + u32_be(serial) + seq![
        flag_byte(has_extrinsics),
        pkt_type,
    ]
}

/// What [`parse_packet`] makes of `data`: nothing when it is shorter than
/// [`PACKET_SIZE`] or does not start with [`MAGIC`], else the header
/// fields read from their offsets.
pub open spec fn parsed_header(data: Seq<u8>) -> Option<ParsedPacket> {
    if data.len() < PACKET_SIZE || be_u32(data.subrange(0, 4)) != MAGIC {
        None
    } else {
        Some(
            ParsedPacket {
                version: be_u16(data.subrange(4, 6)),
                serial: be_u32(data.subrange(6, 10)),
                has_extrinsics: data[10] != 0,
                pkt_type: data[11],
            },
        )
    }
}

/// Build a peer-info packet using this API's current [`PROTOCOL_VERSION`].
pub fn encode_peer_info(serial: u32, has_extrinsics: bool) -> (r: [u8; PACKET_SIZE])
    ensures
        r@ == packet_bytes(serial, has_extrinsics, PKT_TYPE_PEER_INFO),
{
    encode(serial, has_extrinsics, PKT_TYPE_PEER_INFO)
}

/// Build a discovery-request packet. Carries `serial = 0` because the
/// requester is anonymous — the replying device fills its own serial
/// into the response.
pub fn encode_discovery_request() -> (r: [u8; PACKET_SIZE])
    ensures
        r@ == packet_bytes(0, false, PKT_TYPE_DISCOVERY_REQUEST),
{
    encode(0, false, PKT_TYPE_DISCOVERY_REQUEST)
}

/// Build a pose-stream subscribe / keep-alive packet. Carries
/// `serial = 0` because the client is anonymous; the device identifies
/// the client by its source address.
pub fn encode_pose_subscribe() -> (r: [u8; PACKET_SIZE])
    ensures
        r@ == packet_bytes(0, false, PKT_TYPE_POSE_SUBSCRIBE),
{
    encode(0, false, PKT_TYPE_POSE_SUBSCRIBE)
}

/// Build a pose-stream unsubscribe packet.
pub fn encode_pose_unsubscribe() -> (r: [u8; PACKET_SIZE])
    ensures
        r@ == packet_bytes(0, false, PKT_TYPE_POSE_UNSUBSCRIBE),
{
    encode(0, false, PKT_TYPE_POSE_UNSUBSCRIBE)
}

/// Build the fixed header of a [`PKT_TYPE_POSE_DATA`] packet. The caller
/// appends the encoded pose payload after this header; the receiver
/// decodes the payload from offset [`PACKET_SIZE`]. `serial` is the
/// sending device's factory serial.
pub fn encode_pose_data_header(serial: u32) -> (r: [u8; PACKET_SIZE])
    ensures
        r@ == packet_bytes(serial, false, PKT_TYPE_POSE_DATA),
{
    encode(serial, false, PKT_TYPE_POSE_DATA)
}

fn encode(serial: u32, has_extrinsics: bool, pkt_type: u8) -> (r: [u8; PACKET_SIZE])
    ensures
        r@ == packet_bytes(serial, has_extrinsics, pkt_type),
{
    let magic = u32_to_be(MAGIC);
    let version = u16_to_be(PROTOCOL_VERSION);
    let ser = u32_to_be(serial);
    let flag: u8 = if has_extrinsics {
        1
    } else {
        0
    };
    let buf = [
        magic[0],
        magic[1],
        magic[2],
        magic[3],
        version[0],
        version[1],
        ser[0],
        ser[1],
        ser[2],
        ser[3],
        flag,
        pkt_type,
    ];
    assert(buf@ =~= packet_bytes(serial, has_extrinsics, pkt_type));
    buf
}

/// Decode a packet.
///
/// Returns `None` only when the buffer is shorter than [`PACKET_SIZE`]
/// or when the magic prefix does not match — those are the conditions
/// that mean "this is not an Enpose packet at all".
///
/// A packet with an unrecognised [`ParsedPacket::pkt_type`] or a
/// [`ParsedPacket::version`] different from [`PROTOCOL_VERSION`] is
/// returned to the caller unmodified; rejection policy is the
/// caller's choice.
pub fn parse_packet(data: &[u8]) -> (r: Option<ParsedPacket>)
    ensures
        r == parsed_header(data@),
{
    if data.len() < PACKET_SIZE {
        return None;
    }
    let magic = read_u32_be(data, 0);
    if magic != MAGIC {
        return None;
    }
    let version = read_u16_be(data, 4);
    let serial = read_u32_be(data, 6);
    let has_extrinsics = data[10] != 0;
    let pkt_type = data[11];
    Some(ParsedPacket { version, serial, has_extrinsics, pkt_type })
}

/// Every encoded packet parses back to the fields it was built from,
/// stamped with [`PROTOCOL_VERSION`].
pub proof fn lemma_parse_encoded(serial: u32, has_extrinsics: bool, pkt_type: u8)
    ensures
        parsed_header(packet_bytes(serial, has_extrinsics, pkt_type)) == Some(
            ParsedPacket { version: PROTOCOL_VERSION, serial, has_extrinsics, pkt_type },
        ),
{
    let b = packet_bytes(serial, has_extrinsics, pkt_type);
    assert(b.subrange(0, 4) =~= u32_be(MAGIC));
    assert(b.subrange(4, 6) =~= u16_be(PROTOCOL_VERSION));
    assert(b.subrange(6, 10) =~= u32_be(serial));
    lemma_u32_value_round_trip(MAGIC);
    lemma_u16_value_round_trip(PROTOCOL_VERSION);
    lemma_u32_value_round_trip(serial);
}

/// Parsing looks at the first [`PACKET_SIZE`] bytes only: bytes that
/// follow the header (such as a pose payload) never change the result.
pub proof fn lemma_parse_ignores_trailing_bytes(header: Seq<u8>, rest: Seq<u8>)
    requires
        header.len() >= PACKET_SIZE,
    ensures
        parsed_header(header + rest) == parsed_header(header),
{
    let d = header + rest;
    assert(d.subrange(0, 4) =~= header.subrange(0, 4));
    assert(d.subrange(4, 6) =~= header.subrange(4, 6));
    assert(d.subrange(6, 10) =~= header.subrange(6, 10));
}

/// A header that parses, carries [`PROTOCOL_VERSION`] and a flag byte of
/// 0 or 1 is exactly the packet that the encoder builds from its fields:
/// no two distinct such headers parse to the same fields.
pub proof fn lemma_encode_parsed(data: Seq<u8>)
    requires
        parsed_header(data) is Some,
        parsed_header(data)->0.version == PROTOCOL_VERSION,
        data[10] <= 1,
    ensures
        ({
            let p = parsed_header(data)->0;
            packet_bytes(p.serial, p.has_extrinsics, p.pkt_type) == data.subrange(0, PACKET_SIZE as int)
        }),
{
    let p = parsed_header(data)->0;
    lemma_u32_bytes_round_trip(data.subrange(0, 4));
    lemma_u16_bytes_round_trip(data.subrange(4, 6));
    lemma_u32_bytes_round_trip(data.subrange(6, 10));
    assert(packet_bytes(p.serial, p.has_extrinsics, p.pkt_type) =~= data.subrange(0, PACKET_SIZE as int));
}

/// The magic prefix reads as the ASCII bytes `EnpR` on the wire.
pub proof fn lemma_magic_is_ascii_enpr()
    ensures
        u32_be(MAGIC) == seq![0x45u8, 0x6eu8, 0x70u8, 0x52u8],
{
    let m = MAGIC;
    assert((m >> 24u32) as u8 == 0x45u8 && ((m >> 16u32) & 0xffu32) as u8 == 0x6eu8 && ((m
        >> 8u32) & 0xffu32) as u8 == 0x70u8 && (m & 0xffu32) as u8 == 0x52u8) by (bit_vector)
        requires
            m == 0x456e7052u32,
    ;
    assert(u32_be(MAGIC) =~= seq![0x45u8, 0x6eu8, 0x70u8, 0x52u8]);
}

/// The byte layout of every packet: `EnpR`, the version at bytes 4..6, the
/// serial at bytes 6..10 (both big-endian), the extrinsics flag as 0 or 1 at
/// byte 10 and the type at byte 11.
pub proof fn lemma_packet_layout(serial: u32, has_extrinsics: bool, pkt_type: u8)
    ensures
        ({
            let b = packet_bytes(serial, has_extrinsics, pkt_type);
            &&& b.len() == 12
            &&& b[0] == 0x45u8 && b[1] == 0x6eu8 && b[2] == 0x70u8 && b[3] == 0x52u8
            &&& 256 * (b[4] as int) + (b[5] as int) == PROTOCOL_VERSION
            &&& 0x1000000 * (b[6] as int) + 0x10000 * (b[7] as int) + 0x100 * (b[8] as int) + (
            b[9] as int) == serial
            &&& b[10] == (if has_extrinsics {
                1u8
            } else {
                0u8
            })
            &&& b[11] == pkt_type
        }),
{
    lemma_magic_is_ascii_enpr();
    lemma_u16_be_value(PROTOCOL_VERSION);
    lemma_u32_be_value(serial);
}

/// What parsing reads, in terms of the bytes: nothing unless there are at
/// least 12 bytes starting with `EnpR`; else the version from bytes 4..6,
/// the serial from bytes 6..10 (big-endian), the flag set by any nonzero
/// byte 10, and the type from byte 11.
pub proof fn lemma_parse_reads_layout(data: Seq<u8>)
    ensures
        parsed_header(data) is None <==> (data.len() < 12 || data[0] != 0x45u8 || data[1]
            != 0x6eu8 || data[2] != 0x70u8 || data[3] != 0x52u8),
        parsed_header(data) matches Some(p) ==> {
            &&& p.version as int == 256 * (data[4] as int) + (data[5] as int)
            &&& p.serial as int == 0x1000000 * (data[6] as int) + 0x10000 * (data[7] as int)
                + 0x100 * (data[8] as int) + (data[9] as int)
            &&& p.has_extrinsics == (data[10] != 0)
            &&& p.pkt_type == data[11]
        },
{
    lemma_magic_is_ascii_enpr();
    lemma_u32_be_value(MAGIC);
    if data.len() >= 12 {
        lemma_be_u32_value(data.subrange(0, 4));
        lemma_be_u16_value(data.subrange(4, 6));
        lemma_be_u32_value(data.subrange(6, 10));
        let m = be_u32(data.subrange(0, 4));
        if m == MAGIC {
            assert(0x1000000 * (data[0] as int) + 0x10000 * (data[1] as int) + 0x100 * (
            data[2] as int) + (data[3] as int) == 0x456e7052);
        }
    }
}

} // verus!
