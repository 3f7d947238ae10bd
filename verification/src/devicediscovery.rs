//! Decisions of client-side discovery of Enpose tracker devices on the
//! local network.
//!
//! A discovery round sends discovery requests to [`BROADCAST_PORT`] up to
//! three times, 150 ms apart, and collects [`PKT_TYPE_PEER_INFO`] replies
//! on the same socket. It returns 50 ms after the last reply, or — if
//! nothing replies — only at the hard 500 ms cap, having retransmitted
//! the request in the meantime. Replies are de-duplicated by serial.
//!
//! The caller owns the socket and the clock: it asks a [`DiscoveryRound`]
//! what to do next ([`DiscoveryRound::step`]), performs it, and hands
//! every datagram back ([`DiscoveryRound::on_datagram`]). Times are
//! microseconds elapsed since the round started.

use vstd::prelude::*;

use crate::address::{
    is_link_local, is_loopback, limited_broadcast, spec_is_link_local, spec_is_loopback, Endpoint,
};
use crate::bytes::{lemma_u16_be_value, lemma_u32_be_value, u16_be, u32_be};
use crate::protocol::{
    lemma_parse_encoded, lemma_parse_reads_layout, packet_bytes, parse_packet, parsed_header, BROADCAST_PORT,
    PKT_TYPE_PEER_INFO, PROTOCOL_VERSION,
};

verus! {

/// Hard cap on how long a discovery round may last, in microseconds.
pub const TOTAL_BUDGET_US: u64 = 500_000;

/// Number of discovery-request bursts sent across the budget. Resending
/// the request keeps a dropped request or reply on a lossy segment from
/// turning into a false "no devices found".
pub const DISCOVERY_BURSTS: u32 = 3;

/// Spacing between discovery-request bursts, in microseconds.
pub const BURST_INTERVAL_US: u64 = 150_000;

/// Once at least one reply has arrived, the round ends after this long
/// passes with no further reply, in microseconds.
pub const QUIET_WINDOW_US: u64 = 50_000;

/// Shortest socket wait handed out: a zero read timeout would mean
/// "block forever".
pub const MIN_WAIT_US: u64 = 1_000;

/// Information about one tracker device discovered on the local network.
#[derive(Debug, Clone, Copy, PartialEq, Eq)]
pub struct DeviceInfo {
    /// Address the device replied from. This is the device's primary IP on
    /// the cluster network and the address a client should use to connect
    /// to it.
    pub ip: [u8; 4],
    /// Factory serial number of the device.
    pub serial: u32,
    /// `true` when the device's wire-protocol version matches the version
    /// this API was built against.
    ///
    /// When `false`, the IP and serial are still populated so the caller
    /// can surface a "found but incompatible" entry to the user rather than
    /// silently hiding the device.
    pub compatible: bool,
}

/// One address of a host network interface, as the host reports it.
#[derive(Debug, Clone, Copy, PartialEq, Eq)]
pub enum InterfaceAddr {
    /// An IPv4 address, with the interface's directed-broadcast address
    /// when it has one.
    V4 { ip: [u8; 4], broadcast: Option<[u8; 4]> },
    /// An IPv6 address.
    V6,
}

/// The directed-broadcast address that discovery uses for one interface
/// address: none for IPv6, loopback (`127.0.0.0/8`, never reaches a remote
/// device) and link-local (`169.254.0.0/16`, auto-assigned when DHCP
/// fails) addresses.
pub open spec fn interface_broadcast(i: InterfaceAddr) -> Option<[u8; 4]> {
    match i {
        InterfaceAddr::V4 { ip, broadcast } => if !spec_is_loopback(ip) && !spec_is_link_local(
            ip,
        ) {
            broadcast
        } else {
            None
        },
        InterfaceAddr::V6 => None,
    }
}

/// The directed-broadcast addresses of `ifaces`, in order.
pub open spec fn broadcasts_of(ifaces: Seq<InterfaceAddr>) -> Seq<[u8; 4]>
    decreases ifaces.len(),
{
    if ifaces.len() == 0 {
        Seq::empty()
    } else {
        let rest = broadcasts_of(ifaces.drop_last());
        match interface_broadcast(ifaces.last()) {
            Some(b) => rest.push(b),
            None => rest,
        }
    }
}

/// The directed-broadcast address of every usable IPv4 interface address
/// in `ifaces` — e.g. an interface configured as `192.168.10.10/24` yields
/// `192.168.10.255`. Loopback and link-local addresses are skipped, as are
/// IPv6 addresses and addresses without a broadcast address.
///
/// Using the *directed* broadcast — rather than the limited broadcast
/// `255.255.255.255` — is what makes discovery reliable on multi-NIC hosts:
/// the route table sends it out of the interface that owns the subnet,
/// while the limited broadcast follows the default route.
pub fn broadcast_addresses(ifaces: &[InterfaceAddr]) -> (r: Vec<[u8; 4]>)
    ensures
        r@ == broadcasts_of(ifaces@),
{
    let mut r: Vec<[u8; 4]> = Vec::new();
    let mut i: usize = 0;
    while i < ifaces.len()
        invariant
            i <= ifaces@.len(),
            r@ == broadcasts_of(ifaces@.take(i as int)),
        decreases ifaces@.len() - i,
    {
        proof {
            let t = ifaces@.take(i + 1);
            assert(t.drop_last() =~= ifaces@.take(i as int));
            assert(t.last() == ifaces@[i as int]);
        }
        match &ifaces[i] {
            InterfaceAddr::V4 { ip, broadcast } => {
                if !is_loopback(ip) && !is_link_local(ip) {
                    match broadcast {
                        Some(b) => r.push(*b),
                        None => {},
                    }
                }
            },
            InterfaceAddr::V6 => {},
        }
        i = i + 1;
    }
    assert(ifaces@.take(ifaces@.len() as int) =~= ifaces@);
    r
}

/// The discovery targets for the given directed broadcasts: each of them on
/// [`BROADCAST_PORT`], then the limited broadcast `255.255.255.255` as a
/// fallback for setups where directed broadcasts are filtered or the
/// enumeration finds nothing.
pub open spec fn broadcast_targets(broadcasts: Seq<[u8; 4]>) -> Seq<Endpoint> {
    Seq::new(broadcasts.len(), |i: int| Endpoint { ip: broadcasts[i], port: BROADCAST_PORT }).push(
        Endpoint { ip: limited_broadcast(), port: BROADCAST_PORT },
    )
}

/// Discovers Enpose tracker devices on the local network.
///
/// On every discovery round the client sends discovery requests to every
/// directed-broadcast address of every usable IPv4 interface on the host,
/// plus the limited-broadcast address `255.255.255.255`. This reaches the
/// cluster network on multi-NIC hosts where the default route would
/// otherwise send the limited broadcast out the wrong interface.
///
/// A single instance can be reused for many discovery rounds; it holds no
/// network state between rounds.
#[derive(Debug, Clone, Copy)]
pub struct DeviceDiscovery {
    /// When `Some`, the request goes only to that address (a fake primary on
    /// loopback, for instance). When `None`, the host interfaces are
    /// enumerated and every broadcast address is targeted.
    explicit_target: Option<Endpoint>,
}

impl DeviceDiscovery {
    /// The single address requests go to, when one was chosen.
    pub closed spec fn spec_explicit_target(&self) -> Option<Endpoint> {
        self.explicit_target
    }

    /// A discovery that broadcasts to every directed broadcast of the host
    /// plus `255.255.255.255`, all on [`BROADCAST_PORT`].
    pub fn new() -> (d: Self)
        ensures
            d.spec_explicit_target() is None,
    {
        DeviceDiscovery { explicit_target: None }
    }

    /// A discovery that targets one specific socket address instead of
    /// enumerating broadcasts, so a fake primary on loopback can be used
    /// without depending on host interfaces.
    pub fn with_target(target: Endpoint) -> (d: Self)
        ensures
            d.spec_explicit_target() == Some(target),
    {
        DeviceDiscovery { explicit_target: Some(target) }
    }

    /// The single address requests go to, when one was chosen; when this is
    /// `None` the caller enumerates the host interfaces for
    /// [`Self::discovery_targets`].
    pub fn explicit_target(&self) -> (r: Option<Endpoint>)
        ensures
            r == self.spec_explicit_target(),
    {
        self.explicit_target
    }

    /// The addresses a discovery round sends its requests to. With an
    /// explicit target that is the only entry (and `ifaces` is not
    /// consulted). Otherwise: the directed broadcast of every usable IPv4
    /// interface address in `ifaces`, plus `255.255.255.255`, all on
    /// [`BROADCAST_PORT`].
    pub fn discovery_targets(&self, ifaces: &[InterfaceAddr]) -> (r: Vec<Endpoint>)
        ensures
            match self.spec_explicit_target() {
                Some(t) => r@ == seq![t],
                None => {
                    let b = broadcasts_of(ifaces@);
                    &&& r@ == broadcast_targets(b)
                    &&& r@.len() == b.len() + 1
                    &&& forall|i: int|
                        0 <= i < b.len() ==> #[trigger] r@[i] == (Endpoint {
                            ip: b[i],
                            port: BROADCAST_PORT,
                        })
                    &&& r@[b.len() as int] == (Endpoint {
                        ip: [255u8, 255u8, 255u8, 255u8],
                        port: BROADCAST_PORT,
                    })
                },
            },
    {
        match self.explicit_target {
            Some(t) => {
                let mut r: Vec<Endpoint> = Vec::new();
                r.push(t);
                assert(r@ =~= seq![t]);
                r
            },
            None => {
                let broadcasts = broadcast_addresses(ifaces);
                let mut r: Vec<Endpoint> = Vec::new();
                let mut i: usize = 0;
                while i < broadcasts.len()
                    invariant
                        i <= broadcasts@.len(),
                        r@ =~= Seq::new(
                            i as nat,
                            |k: int| Endpoint { ip: broadcasts@[k], port: BROADCAST_PORT },
                        ),
                    decreases broadcasts@.len() - i,
                {
                    r.push(Endpoint { ip: broadcasts[i], port: BROADCAST_PORT });
                    i = i + 1;
                }
                r.push(Endpoint { ip: [255u8, 255u8, 255u8, 255u8], port: BROADCAST_PORT });
                assert(r@ =~= broadcast_targets(broadcasts@));
                proof {
                    lemma_broadcast_targets(broadcasts@);
                }
                r
            },
        }
    }
}

impl Default for DeviceDiscovery {
    fn default() -> (d: Self)
        ensures
            d.spec_explicit_target() is None,
    {
        DeviceDiscovery::new()
    }
}

/// The device a datagram received from `src` announces: `None` unless it
/// is a [`PKT_TYPE_PEER_INFO`] packet. A device whose protocol version
/// differs from [`PROTOCOL_VERSION`] is still listed, as incompatible.
pub open spec fn reply_device(data: Seq<u8>, src: [u8; 4]) -> Option<DeviceInfo> {
    match parsed_header(data) {
        Some(h) => if h.pkt_type == PKT_TYPE_PEER_INFO {
            Some(
                DeviceInfo {
                    ip: src,
                    serial: h.serial,
                    compatible: h.version == PROTOCOL_VERSION,
                },
            )
        } else {
            None
        },
        None => None,
    }
}

/// `true` when a device with `serial` is already listed.
pub open spec fn lists_serial(devices: Seq<DeviceInfo>, serial: u32) -> bool {
    exists|i: int| 0 <= i < devices.len() && #[trigger] devices[i].serial == serial
}

/// No serial is listed twice.
pub open spec fn distinct_serials(devices: Seq<DeviceInfo>) -> bool {
    forall|i: int, j: int|
        0 <= i < devices.len() && 0 <= j < devices.len() && i != j ==> #[trigger] devices[i].serial
            != #[trigger] devices[j].serial
}

/// What a discovery round does next.
#[derive(Debug, Clone, Copy, PartialEq, Eq)]
pub enum DiscoveryStep {
    /// The round is over; the devices collected so far are the result.
    Finish,
    /// Send the discovery request to every target first when `send_burst`
    /// holds, then wait at most `timeout_us` for one datagram.
    Listen { send_burst: bool, timeout_us: u64 },
}

/// The smaller of two durations.
pub open spec fn min_us(a: int, b: int) -> int {
    if a < b {
        a
    } else {
        b
    }
}

/// `a - b`, or zero when `b` is larger.
pub open spec fn saturating_sub_us(a: int, b: int) -> int {
    if a > b {
        a - b
    } else {
        0
    }
}

/// Whether the round is over at `now_us`: the budget is spent, or a reply
/// has arrived and the quiet window since the last one has passed.
pub open spec fn round_over(last_reply_us: Option<u64>, now_us: u64) -> bool {
    now_us >= TOTAL_BUDGET_US || match last_reply_us {
        Some(t) => saturating_sub_us(now_us as int, t as int) >= QUIET_WINDOW_US,
        None => false,
    }
}

/// Whether the next request burst falls due at `now_us`, `bursts_sent`
/// bursts having gone out.
pub open spec fn burst_due(bursts_sent: u32, now_us: u64) -> bool {
    bursts_sent < DISCOVERY_BURSTS && now_us >= BURST_INTERVAL_US * bursts_sent
}

/// How long to wait for a datagram at `now_us`: until the soonest of the
/// budget cap, the next burst (when one is left), and the end of the quiet
/// window (once a reply has arrived) — but at least [`MIN_WAIT_US`].
pub open spec fn listen_timeout(bursts_sent: u32, last_reply_us: Option<u64>, now_us: u64) -> int {
    let to_budget = saturating_sub_us(TOTAL_BUDGET_US as int, now_us as int);
    let to_burst = if bursts_sent < DISCOVERY_BURSTS {
        min_us(to_budget, saturating_sub_us(BURST_INTERVAL_US * bursts_sent, now_us as int))
    } else {
        to_budget
    };
    let to_quiet = match last_reply_us {
        Some(t) => min_us(
            to_burst,
            saturating_sub_us(QUIET_WINDOW_US as int, saturating_sub_us(now_us as int, t as int)),
        ),
        None => to_burst,
    };
    if to_quiet < MIN_WAIT_US {
        MIN_WAIT_US as int
    } else {
        to_quiet
    }
}

/// A wait is never shorter than [`MIN_WAIT_US`], never runs past the
/// budget cap (beyond that minimum), never past the next burst while one is
/// left, and — once a reply has arrived — never past the end of the quiet
/// window.
pub proof fn lemma_listen_timeout_bounds(bursts_sent: u32, last_reply_us: Option<u64>, now_us: u64)
    ensures
        listen_timeout(bursts_sent, last_reply_us, now_us) >= MIN_WAIT_US,
        now_us + listen_timeout(bursts_sent, last_reply_us, now_us) <= TOTAL_BUDGET_US
            || listen_timeout(bursts_sent, last_reply_us, now_us) == MIN_WAIT_US,
        bursts_sent < DISCOVERY_BURSTS ==> now_us + listen_timeout(bursts_sent, last_reply_us, now_us)
            <= BURST_INTERVAL_US * bursts_sent || listen_timeout(bursts_sent, last_reply_us, now_us)
            == MIN_WAIT_US,
        last_reply_us matches Some(t) ==> (t <= now_us ==> now_us + listen_timeout(
            bursts_sent,
            last_reply_us,
            now_us,
        ) <= t + QUIET_WINDOW_US || listen_timeout(bursts_sent, last_reply_us, now_us)
            == MIN_WAIT_US),
        // The wait ends exactly at one of those instants (or is the minimum).
        listen_timeout(bursts_sent, last_reply_us, now_us) == MIN_WAIT_US || now_us
            + listen_timeout(bursts_sent, last_reply_us, now_us) == TOTAL_BUDGET_US || (bursts_sent
            < DISCOVERY_BURSTS && now_us + listen_timeout(bursts_sent, last_reply_us, now_us)
            == BURST_INTERVAL_US * bursts_sent) || (last_reply_us matches Some(t) && t <= now_us
            && now_us + listen_timeout(bursts_sent, last_reply_us, now_us) == t + QUIET_WINDOW_US)
            || (last_reply_us matches Some(t) && t > now_us && listen_timeout(
            bursts_sent,
            last_reply_us,
            now_us,
        ) == QUIET_WINDOW_US),
{
}

/// When a round is over and when a burst is due, in plain numbers: with no
/// reply a round lasts the full 500 ms; after a reply at `t` it ends 50 ms
/// later (or at 500 ms, whichever is first); burst `k` (counting from 0)
/// goes out once 150 ms times `k` have passed, and never a fourth.
pub proof fn lemma_round_timing(last_reply_us: Option<u64>, bursts_sent: u32, now_us: u64)
    ensures
        round_over(None, now_us) == (now_us >= 500_000),
        last_reply_us matches Some(t) ==> round_over(last_reply_us, now_us) == (now_us >= 500_000
            || now_us >= t + 50_000),
        burst_due(bursts_sent, now_us) == (bursts_sent < 3 && now_us >= 150_000 * bursts_sent),
{
}

/// The state of one discovery round: the devices found so far, how many
/// request bursts went out, and when the last new device replied.
#[derive(Debug)]
pub struct DiscoveryRound {
    devices: Vec<DeviceInfo>,
    bursts_sent: u32,
    last_reply_us: Option<u64>,
}

impl DiscoveryRound {
    #[verifier::type_invariant]
    spec fn inv(&self) -> bool {
        &&& self.bursts_sent <= DISCOVERY_BURSTS
        &&& distinct_serials(self.devices@)
    }

    /// The devices found so far, in reply order.
    pub closed spec fn spec_devices(&self) -> Seq<DeviceInfo> {
        self.devices@
    }

    /// How many request bursts went out.
    pub closed spec fn spec_bursts_sent(&self) -> u32 {
        self.bursts_sent
    }

    /// When the last new device replied, if one has.
    pub closed spec fn spec_last_reply(&self) -> Option<u64> {
        self.last_reply_us
    }

    /// A round that has sent nothing and heard nothing.
    pub fn new() -> (r: Self)
        ensures
            r.spec_devices() == Seq::<DeviceInfo>::empty(),
            r.spec_bursts_sent() == 0,
            r.spec_last_reply() is None,
    {
        DiscoveryRound { devices: Vec::new(), bursts_sent: 0, last_reply_us: None }
    }

    /// Decide what to do at `now_us`: finish when the round is over;
    /// otherwise listen, first sending the next request burst when it is
    /// due (and counting it), with the wait bounded by
    /// [`listen_timeout`].
    pub fn step(&mut self, now_us: u64) -> (r: DiscoveryStep)
        ensures
            final(self).spec_devices() == old(self).spec_devices(),
            final(self).spec_last_reply() == old(self).spec_last_reply(),
            final(self).spec_bursts_sent() <= DISCOVERY_BURSTS,
            round_over(old(self).spec_last_reply(), now_us) ==> r == DiscoveryStep::Finish
                && final(self).spec_bursts_sent() == old(self).spec_bursts_sent(),
            !round_over(old(self).spec_last_reply(), now_us) ==> {
                let send = burst_due(old(self).spec_bursts_sent(), now_us);
                &&& final(self).spec_bursts_sent() == if send {
                    old(self).spec_bursts_sent() + 1
                } else {
                    old(self).spec_bursts_sent() as int
                }
                &&& r == DiscoveryStep::Listen {
                    send_burst: send,
                    timeout_us: listen_timeout(
                        final(self).spec_bursts_sent(),
                        old(self).spec_last_reply(),
                        now_us,
                    ) as u64,
                }
            },
    {
        proof {
            use_type_invariant(&*self);
        }
        if now_us >= TOTAL_BUDGET_US {
            return DiscoveryStep::Finish;
        }
        match self.last_reply_us {
            Some(t) => {
                if now_us > t && now_us - t >= QUIET_WINDOW_US {
                    return DiscoveryStep::Finish;
                }
            },
            None => {},
        }
        let send_burst = self.bursts_sent < DISCOVERY_BURSTS && now_us >= BURST_INTERVAL_US
            * (self.bursts_sent as u64);
        if send_burst {
            self.bursts_sent = self.bursts_sent + 1;
        }
        let mut wait: u64 = TOTAL_BUDGET_US - now_us;
        if self.bursts_sent < DISCOVERY_BURSTS {
            let next_burst = BURST_INTERVAL_US * (self.bursts_sent as u64);
            let to_burst = if next_burst > now_us {
                next_burst - now_us
            } else {
                0
            };
            if to_burst < wait {
                wait = to_burst;
            }
        }
        match self.last_reply_us {
            Some(t) => {
                let since = if now_us > t {
                    now_us - t
                } else {
                    0
                };
                let to_quiet = if QUIET_WINDOW_US > since {
                    QUIET_WINDOW_US - since
                } else {
                    0
                };
                if to_quiet < wait {
                    wait = to_quiet;
                }
            },
            None => {},
        }
        if wait < MIN_WAIT_US {
            wait = MIN_WAIT_US;
        }
        DiscoveryStep::Listen { send_burst, timeout_us: wait }
    }

    /// Take in a datagram received from `src` at `now_us`. A peer-info
    /// reply from a device not yet listed is appended (bridged networks and
    /// retransmits can echo a reply, so a serial already listed is
    /// dropped), and the quiet window restarts; anything else is ignored.
    pub fn on_datagram(&mut self, data: &[u8], src: [u8; 4], now_us: u64)
        ensures
            final(self).spec_bursts_sent() == old(self).spec_bursts_sent(),
            distinct_serials(final(self).spec_devices()),
            match reply_device(data@, src) {
                Some(d) => if lists_serial(old(self).spec_devices(), d.serial) {
                    final(self).spec_devices() == old(self).spec_devices()
                        && final(self).spec_last_reply() == old(self).spec_last_reply()
                } else {
                    final(self).spec_devices() == old(self).spec_devices().push(d)
                        && final(self).spec_last_reply() == Some(now_us)
                },
                None => final(self).spec_devices() == old(self).spec_devices()
                    && final(self).spec_last_reply() == old(self).spec_last_reply(),
            },
    {
        proof {
            use_type_invariant(&*self);
        }
        let parsed = match parse_packet(data) {
            Some(p) => p,
            None => return ,
        };
        if parsed.pkt_type != PKT_TYPE_PEER_INFO {
            return ;
        }
        let mut i: usize = 0;
        while i < self.devices.len()
            invariant
                *self == *old(self),
                distinct_serials(self.devices@),
                parsed_header(data@) == Some(parsed),
                parsed.pkt_type == PKT_TYPE_PEER_INFO,
                i <= self.devices@.len(),
                forall|k: int| 0 <= k < i ==> #[trigger] self.devices@[k].serial != parsed.serial,
            decreases self.devices@.len() - i,
        {
            if self.devices[i].serial == parsed.serial {
                assert(self.devices@[i as int].serial == parsed.serial);
                return ;
            }
            i = i + 1;
        }
        let device = DeviceInfo {
            ip: src,
            serial: parsed.serial,
            compatible: parsed.version == PROTOCOL_VERSION,
        };
        let mut devices: Vec<DeviceInfo> = Vec::new();
        std::mem::swap(&mut devices, &mut self.devices);
        devices.push(device);
        self.devices = devices;
        self.last_reply_us = Some(now_us);
        proof {
            use_type_invariant(&*self);
        }
    }

    /// The devices found so far, in reply order, each serial once.
    pub fn devices(&self) -> (r: &Vec<DeviceInfo>)
        ensures
            r@ == self.spec_devices(),
            distinct_serials(r@),
            forall|i: int, j: int|
                0 <= i < j < r@.len() ==> #[trigger] r@[i].serial != #[trigger] r@[j].serial,
    {
        proof {
            use_type_invariant(self);
        }
        &self.devices
    }

    /// End the round, handing over the devices found, in reply order, each
    /// serial once.
    pub fn into_devices(self) -> (r: Vec<DeviceInfo>)
        ensures
            r@ == self.spec_devices(),
            distinct_serials(r@),
            forall|i: int, j: int|
                0 <= i < j < r@.len() ==> #[trigger] r@[i].serial != #[trigger] r@[j].serial,
    {
        proof {
            use_type_invariant(&self);
        }
        self.devices
    }
}

/// The targets are the given broadcasts, each on [`BROADCAST_PORT`] and in
/// the same order, then `255.255.255.255` on [`BROADCAST_PORT`].
pub proof fn lemma_broadcast_targets(broadcasts: Seq<[u8; 4]>)
    ensures
        broadcast_targets(broadcasts).len() == broadcasts.len() + 1,
        forall|i: int|
            0 <= i < broadcasts.len() ==> #[trigger] broadcast_targets(broadcasts)[i] == (Endpoint {
                ip: broadcasts[i],
                port: BROADCAST_PORT,
            }),
        broadcast_targets(broadcasts)[broadcasts.len() as int] == (Endpoint {
            ip: [255u8, 255u8, 255u8, 255u8],
            port: BROADCAST_PORT,
        }),
{
}

/// `true` when `b` is the broadcast address of an IPv4 interface address
/// outside `127.0.0.0/8` and `169.254.0.0/16`.
pub open spec fn usable_broadcast_of(i: InterfaceAddr, b: [u8; 4]) -> bool {
    match i {
        InterfaceAddr::V4 { ip, broadcast } => broadcast == Some(b) && ip[0] != 127 && !(ip[0]
            == 169 && ip[1] == 254),
        InterfaceAddr::V6 => false,
    }
}

/// Every broadcast address of a usable IPv4 interface address is targeted,
/// and nothing else is: each listed broadcast belongs to a usable IPv4
/// interface address, at most one entry per interface address, in order.
pub proof fn lemma_broadcasts_of_usable(ifaces: Seq<InterfaceAddr>)
    ensures
        broadcasts_of(ifaces).len() <= ifaces.len(),
        forall|i: int, b: [u8; 4]|
            0 <= i < ifaces.len() && #[trigger] usable_broadcast_of(ifaces[i], b)
                ==> broadcasts_of(ifaces).contains(b),
        forall|j: int|
            #![trigger broadcasts_of(ifaces)[j]]
            0 <= j < broadcasts_of(ifaces).len() ==> exists|i: int|
                0 <= i < ifaces.len() && usable_broadcast_of(
                    #[trigger] ifaces[i],
                    broadcasts_of(ifaces)[j],
                ),
    decreases ifaces.len(),
{
    if ifaces.len() > 0 {
        let q = ifaces.drop_last();
        lemma_broadcasts_of_usable(q);
        let rest = broadcasts_of(q);
        let n = ifaces.len() - 1;
        assert forall|i: int, b: [u8; 4]|
            0 <= i < ifaces.len() && #[trigger] usable_broadcast_of(ifaces[i], b) implies broadcasts_of(
            ifaces,
        ).contains(b) by {
            if i < n {
                assert(q[i] == ifaces[i]);
                let k = choose|k: int| 0 <= k < rest.len() && rest[k] == b;
                assert(broadcasts_of(ifaces)[k] == b);
            } else {
                assert(broadcasts_of(ifaces) == rest.push(b));
                assert(broadcasts_of(ifaces)[rest.len() as int] == b);
            }
        }
        assert forall|j: int|
            #![trigger broadcasts_of(ifaces)[j]]
            0 <= j < broadcasts_of(ifaces).len() implies exists|i: int|
            0 <= i < ifaces.len() && usable_broadcast_of(
                #[trigger] ifaces[i],
                broadcasts_of(ifaces)[j],
            ) by {
            if j < rest.len() {
                assert(broadcasts_of(ifaces)[j] == rest[j]);
                let i = choose|i: int| 0 <= i < q.len() && usable_broadcast_of(q[i], rest[j]);
                assert(ifaces[i] == q[i]);
            } else {
                assert(usable_broadcast_of(ifaces[n], broadcasts_of(ifaces)[j]));
            }
        }
    }
}

/// A peer-info reply of any protocol version `version` is listed from the
/// address it came from, with its serial, as compatible exactly when the
/// version is [`PROTOCOL_VERSION`] — an older or newer device is still
/// listed, as incompatible.
pub proof fn lemma_reply_of_any_version(
    version: u16,
    serial: u32,
    flag: u8,
    rest: Seq<u8>,
    src: [u8; 4],
)
    ensures
        reply_device(
            seq![0x45u8, 0x6eu8, 0x70u8, 0x52u8] + u16_be(version) + u32_be(serial) + seq![
                flag,
                PKT_TYPE_PEER_INFO,
            ] + rest,
            src,
        ) == Some((DeviceInfo { ip: src, serial, compatible: version == PROTOCOL_VERSION })),
{
    let d = seq![0x45u8, 0x6eu8, 0x70u8, 0x52u8] + u16_be(version) + u32_be(serial) + seq![
        flag,
        PKT_TYPE_PEER_INFO,
    ] + rest;
    lemma_parse_reads_layout(d);
    lemma_u16_be_value(version);
    lemma_u32_be_value(serial);
    assert(d[4] == u16_be(version)[0] && d[5] == u16_be(version)[1]);
    assert(d[6] == u32_be(serial)[0] && d[7] == u32_be(serial)[1] && d[8] == u32_be(serial)[2]
        && d[9] == u32_be(serial)[3]);
    assert(d[11] == PKT_TYPE_PEER_INFO);
}

/// A reply built by the device encoder from a serial is listed as a
/// compatible device at the address it came from.
pub proof fn lemma_peer_info_reply(serial: u32, has_extrinsics: bool, src: [u8; 4])
    ensures
        reply_device(packet_bytes(serial, has_extrinsics, PKT_TYPE_PEER_INFO), src) == Some(
            DeviceInfo { ip: src, serial, compatible: true },
        ),
{
    lemma_parse_encoded(serial, has_extrinsics, PKT_TYPE_PEER_INFO);
}

/// Packets of any other type — a client's own discovery request echoed
/// back, pose traffic — list no device.
pub proof fn lemma_other_packets_list_nothing(
    serial: u32,
    has_extrinsics: bool,
    pkt_type: u8,
    src: [u8; 4],
)
    requires
        pkt_type != PKT_TYPE_PEER_INFO,
    ensures
        reply_device(packet_bytes(serial, has_extrinsics, pkt_type), src) is None,
{
    lemma_parse_encoded(serial, has_extrinsics, pkt_type);
}

} // verus!
