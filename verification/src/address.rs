//! Network addresses as plain values.
//!
//! The Enpose API speaks IPv4 only; addresses are held as their four
//! octets, most significant first (`192.168.10.10` is `[192, 168, 10, 10]`).

use vstd::prelude::*;

verus! {

/// An IP address as the caller hands it in: IPv4 octets, or the eight
/// 16-bit groups of an IPv6 address.
#[derive(Debug, Clone, Copy, PartialEq, Eq)]
pub enum IpAddress {
    V4([u8; 4]),
    V6([u16; 8]),
}

/// An IPv4 socket address: the octets of the host and a UDP port.
#[derive(Debug, Clone, Copy, PartialEq, Eq)]
pub struct Endpoint {
    pub ip: [u8; 4],
    pub port: u16,
}

/// The limited-broadcast address `255.255.255.255`.
pub open spec fn limited_broadcast() -> [u8; 4] {
    [255u8, 255u8, 255u8, 255u8]
}

/// `true` for addresses in the loopback range `127.0.0.0/8`.
pub open spec fn spec_is_loopback(ip: [u8; 4]) -> bool {
    ip[0] == 127
}

/// `true` for addresses in the link-local range `169.254.0.0/16`.
pub open spec fn spec_is_link_local(ip: [u8; 4]) -> bool {
    ip[0] == 169 && ip[1] == 254
}

/// Returns `true` for IPv4 addresses in the loopback range `127.0.0.0/8`.
pub fn is_loopback(ip: &[u8; 4]) -> (r: bool)
    ensures
        r == spec_is_loopback(*ip),
{
    ip[0] == 127
}

/// Returns `true` for IPv4 addresses in the link-local range
/// `169.254.0.0/16`.
pub fn is_link_local(ip: &[u8; 4]) -> (r: bool)
    ensures
        r == spec_is_link_local(*ip),
{
    ip[0] == 169 && ip[1] == 254
}

} // verus!
