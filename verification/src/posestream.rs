//! Decisions of a client-side pose stream from one Enpose tracker device.
//!
//! The caller owns the socket, the clock and (in threaded mode) the
//! background receiver; this module decides where to connect, which
//! datagrams carry poses and what they hold, when a keep-alive is due,
//! what a receive call does next and how long it may still wait
//! ([`ReceiveCall`]), which poses a receive call hands out
//! ([`PoseBuffer`]: each received pose exactly once, in arrival order), and
//! whether a disconnect has anything left to do.
//!
//! Times are microseconds on a monotonic clock chosen by the caller (for
//! instance, elapsed since the stream was opened).

use vstd::prelude::*;

use crate::address::{Endpoint, IpAddress};
use crate::marker_pose::{
    batch_bytes, batch_count, decoded_batch, lemma_decode_encoded_batch, MarkerPose,
};
use crate::protocol::{
    lemma_parse_encoded, lemma_parse_ignores_trailing_bytes, packet_bytes, parse_packet,
    parsed_header, PACKET_SIZE, PKT_TYPE_POSE_DATA, POSE_PORT,
};

verus! {

/// Interval at which a client resends its subscribe/keep-alive packet,
/// in microseconds ([`crate::protocol::POSE_KEEPALIVE_INTERVAL_SECS`]).
pub const KEEPALIVE_INTERVAL_US: u64 = 1_000_000;

/// Maximum time a blocking receive waits for a pose update before giving
/// up and returning an empty result, in microseconds.
pub const BLOCK_TIMEOUT_US: u64 = 3_000_000;

/// Read timeout of one socket wait, in microseconds. Bounds how long a
/// receiver blocks so it can wake up to send keep-alives and to notice a
/// stop request promptly.
pub const RECV_TIMEOUT_US: u64 = 200_000;

/// Receive buffer size. Large enough for a full pose datagram (fixed
/// header plus the encoded poses of one frame).
pub const RECV_BUF_SIZE: usize = 65536;

/// Why a pose stream cannot be opened to an address.
#[derive(Debug, Clone, Copy, PartialEq, Eq)]
pub enum ConnectError {
    /// The Enpose API is IPv4-only.
    Ipv6Unsupported,
}

/// Where the pose stream of the device at `ip` is served: the device's
/// [`POSE_PORT`]. An IPv6 address is rejected with
/// [`ConnectError::Ipv6Unsupported`].
pub fn pose_endpoint(ip: IpAddress) -> (r: Result<Endpoint, ConnectError>)
    ensures
        match ip {
            IpAddress::V4(octets) => r == Ok::<Endpoint, ConnectError>(
                Endpoint { ip: octets, port: POSE_PORT },
            ),
            IpAddress::V6(_) => r == Err::<Endpoint, ConnectError>(ConnectError::Ipv6Unsupported),
        },
{
    match ip {
        IpAddress::V4(octets) => Ok(Endpoint { ip: octets, port: POSE_PORT }),
        IpAddress::V6(_) => Err(ConnectError::Ipv6Unsupported),
    }
}

/// The poses a datagram carries: `None` unless it is a well-formed
/// [`PKT_TYPE_POSE_DATA`] packet (right magic, right type, and a payload
/// that decodes exactly).
pub open spec fn pose_packet(data: Seq<u8>) -> Option<Seq<MarkerPose>> {
    match parsed_header(data) {
        Some(h) => if h.pkt_type == PKT_TYPE_POSE_DATA {
            decoded_batch(data.subrange(PACKET_SIZE as int, data.len() as int))
        } else {
            None
        },
        None => None,
    }
}

/// Parse a [`PKT_TYPE_POSE_DATA`] datagram into its poses, or return
/// `None` if the buffer is not a valid pose-data packet (wrong magic,
/// wrong type, or undecodable payload).
pub fn parse_pose_packet(data: &[u8]) -> (r: Option<Vec<MarkerPose>>)
    ensures
        match r {
            Some(v) => pose_packet(data@) == Some(v@),
            None => pose_packet(data@) is None,
        },
{
    let parsed = match parse_packet(data) {
        Some(p) => p,
        None => return None,
    };
    if parsed.pkt_type != PKT_TYPE_POSE_DATA {
        return None;
    }
    let payload = vstd::slice::slice_subrange(data, PACKET_SIZE, data.len());
    MarkerPose::decode_batch(payload)
}

/// The poses a datagram adds to those already received: what it carries,
/// or nothing when it carries no poses.
pub open spec fn datagram_poses(data: Seq<u8>) -> Seq<MarkerPose> {
    match pose_packet(data) {
        Some(ps) => ps,
        None => Seq::empty(),
    }
}

/// Append the poses carried by the datagram `data` to `poses`, in arrival
/// order; datagrams that are not pose data are ignored. Returns whether
/// any pose was added, so a receiver knows whether to wake a waiting
/// reader.
pub fn collect_datagram(poses: &mut Vec<MarkerPose>, data: &[u8]) -> (added: bool)
    ensures
        final(poses)@ == old(poses)@ + datagram_poses(data@),
        added == (datagram_poses(data@).len() > 0),
        pose_packet(data@) matches Some(ps) ==> final(poses)@ == old(poses)@ + ps && added == (
        ps.len() > 0),
        pose_packet(data@) is None ==> final(poses)@ == old(poses)@ && !added,
{
    match parse_pose_packet(data) {
        Some(mut batch) => {
            let added = batch.len() > 0;
            poses.append(&mut batch);
            added
        },
        None => {
            assert(old(poses)@ + datagram_poses(data@) =~= old(poses)@);
            false
        },
    }
}

/// All poses carried by `datagrams`, in arrival order.
pub open spec fn all_poses(datagrams: Seq<Seq<u8>>) -> Seq<MarkerPose>
    decreases datagrams.len(),
{
    if datagrams.len() == 0 {
        Seq::empty()
    } else {
        all_poses(datagrams.drop_last()) + datagram_poses(datagrams.last())
    }
}

/// The poses of one stream between receipt and delivery: every datagram
/// taken in goes through [`PoseBuffer::collect`], and every receive call
/// hands the caller [`PoseBuffer::take_all`].
///
/// Each pose a datagram carries is handed out exactly once, in arrival
/// order: at every moment, what was handed out so far followed by what is
/// still pending is the poses of all datagrams taken in, in order.
pub struct PoseBuffer {
    pending: Vec<MarkerPose>,
    datagrams: Ghost<Seq<Seq<u8>>>,
    handed_out: Ghost<Seq<MarkerPose>>,
}

impl PoseBuffer {
    #[verifier::type_invariant]
    spec fn inv(&self) -> bool {
        self.handed_out@ + self.pending@ == all_poses(self.datagrams@)
    }

    /// Poses received and not yet handed out, in arrival order.
    pub closed spec fn spec_pending(&self) -> Seq<MarkerPose> {
        self.pending@
    }

    /// Every datagram taken in so far, in arrival order.
    pub closed spec fn spec_datagrams(&self) -> Seq<Seq<u8>> {
        self.datagrams@
    }

    /// Every pose handed out so far, in the order handed out.
    pub closed spec fn spec_handed_out(&self) -> Seq<MarkerPose> {
        self.handed_out@
    }

    /// The delivery law: handed out, then pending, is exactly the poses of
    /// all datagrams taken in, in arrival order.
    pub open spec fn delivers_each_pose_once(&self) -> bool {
        self.spec_handed_out() + self.spec_pending() == all_poses(self.spec_datagrams())
    }

    /// Once nothing is pending, the poses handed out over all receive calls,
    /// concatenated, are exactly the poses of all datagrams taken in, in
    /// arrival order: none lost, none twice.
    pub proof fn lemma_all_handed_out(&self)
        requires
            self.delivers_each_pose_once(),
            self.spec_pending().len() == 0,
        ensures
            self.spec_handed_out() == all_poses(self.spec_datagrams()),
    {
        assert(self.spec_handed_out() + self.spec_pending() =~= self.spec_handed_out());
    }

    /// A buffer that has taken in and handed out nothing.
    pub fn new() -> (b: Self)
        ensures
            b.spec_pending() == Seq::<MarkerPose>::empty(),
            b.spec_datagrams() == Seq::<Seq<u8>>::empty(),
            b.spec_handed_out() == Seq::<MarkerPose>::empty(),
            b.delivers_each_pose_once(),
    {
        let b = PoseBuffer {
            pending: Vec::new(),
            datagrams: Ghost(Seq::empty()),
            handed_out: Ghost(Seq::empty()),
        };
        assert(b.handed_out@ + b.pending@ =~= all_poses(b.datagrams@));
        b
    }

    /// `true` when no pose is pending.
    pub fn is_empty(&self) -> (r: bool)
        ensures
            r == (self.spec_pending().len() == 0),
    {
        self.pending.len() == 0
    }

    /// Take in the datagram `data`: the poses it carries (none when it is
    /// not pose data) join the pending ones. Returns whether any pose was
    /// added, so a receiver knows whether to wake a waiting reader.
    pub fn collect(&mut self, data: &[u8]) -> (added: bool)
        ensures
            final(self).spec_datagrams() == old(self).spec_datagrams().push(data@),
            final(self).spec_pending() == old(self).spec_pending() + datagram_poses(data@),
            pose_packet(data@) matches Some(ps) ==> final(self).spec_pending() == old(
                self,
            ).spec_pending() + ps,
            pose_packet(data@) is None ==> final(self).spec_pending() == old(self).spec_pending(),
            final(self).spec_handed_out() == old(self).spec_handed_out(),
            added == (datagram_poses(data@).len() > 0),
            final(self).delivers_each_pose_once(),
    {
        proof {
            use_type_invariant(&*self);
        }
        let mut taken = PoseBuffer::new();
        std::mem::swap(&mut taken, self);
        let PoseBuffer { mut pending, datagrams, handed_out } = taken;
        let added = collect_datagram(&mut pending, data);
        let ghost new_datagrams = datagrams@.push(data@);
        proof {
            assert(new_datagrams.drop_last() =~= datagrams@);
            assert(handed_out@ + pending@ =~= all_poses(new_datagrams));
        }
        *self = PoseBuffer { pending, datagrams: Ghost(new_datagrams), handed_out };
        added
    }

    /// Hand out every pending pose, in arrival order; none stays pending.
    pub fn take_all(&mut self) -> (r: Vec<MarkerPose>)
        ensures
            r@ == old(self).spec_pending(),
            final(self).spec_pending() == Seq::<MarkerPose>::empty(),
            final(self).spec_handed_out() == old(self).spec_handed_out() + r@,
            final(self).spec_datagrams() == old(self).spec_datagrams(),
            final(self).delivers_each_pose_once(),
    {
        proof {
            use_type_invariant(&*self);
        }
        let mut taken = PoseBuffer::new();
        std::mem::swap(&mut taken, self);
        let PoseBuffer { pending, datagrams, handed_out } = taken;
        let ghost new_handed_out = handed_out@ + pending@;
        proof {
            assert(new_handed_out + Seq::<MarkerPose>::empty() =~= all_poses(datagrams@));
        }
        *self = PoseBuffer {
            pending: Vec::new(),
            datagrams,
            handed_out: Ghost(new_handed_out),
        };
        pending
    }
}

/// The instant a blocking receive started at `start_us` gives up.
pub open spec fn spec_block_deadline(start_us: u64) -> u64 {
    if start_us + BLOCK_TIMEOUT_US > u64::MAX {
        u64::MAX
    } else {
        (start_us + BLOCK_TIMEOUT_US) as u64
    }
}

/// The instant a blocking receive started at `start_us` gives up:
/// [`BLOCK_TIMEOUT_US`] later (saturating at the end of the clock).
pub fn block_deadline(start_us: u64) -> (r: u64)
    ensures
        r == spec_block_deadline(start_us),
{
    if start_us > u64::MAX - BLOCK_TIMEOUT_US {
        u64::MAX
    } else {
        start_us + BLOCK_TIMEOUT_US
    }
}

/// How long the next socket wait of a blocking receive may last at
/// `now_us`: `None` once the deadline has passed (the receive stops),
/// else the time left, but never more than [`RECV_TIMEOUT_US`] so the
/// connection is kept alive while waiting.
pub fn block_wait_timeout(now_us: u64, deadline_us: u64) -> (r: Option<u64>)
    ensures
        now_us >= deadline_us ==> r is None,
        now_us < deadline_us ==> r == Some(
            if deadline_us - now_us < RECV_TIMEOUT_US {
                (deadline_us - now_us) as u64
            } else {
                RECV_TIMEOUT_US
            },
        ),
{
    if now_us >= deadline_us {
        None
    } else {
        let remaining = deadline_us - now_us;
        if remaining < RECV_TIMEOUT_US {
            Some(remaining)
        } else {
            Some(RECV_TIMEOUT_US)
        }
    }
}

/// What a device sends is what the client receives: a pose-data packet
/// made of the header of any serial followed by the encoded batch of
/// `ps` yields the poses of `ps` (all of them when there are at most
/// `u16::MAX`, else the first `u16::MAX`).
pub proof fn lemma_pose_packet_round_trip(serial: u32, ps: Seq<MarkerPose>)
    ensures
        pose_packet(packet_bytes(serial, false, PKT_TYPE_POSE_DATA) + batch_bytes(ps)) == Some(
            ps.take(batch_count(ps.len()) as int),
        ),
        datagram_poses(packet_bytes(serial, false, PKT_TYPE_POSE_DATA) + batch_bytes(ps)) == ps.take(
            batch_count(ps.len()) as int,
        ),
        ps.len() <= 65535 ==> datagram_poses(
            packet_bytes(serial, false, PKT_TYPE_POSE_DATA) + batch_bytes(ps),
        ) == ps,
{
    let header = packet_bytes(serial, false, PKT_TYPE_POSE_DATA);
    let data = header + batch_bytes(ps);
    lemma_parse_ignores_trailing_bytes(header, batch_bytes(ps));
    lemma_parse_encoded(serial, false, PKT_TYPE_POSE_DATA);
    assert(data.subrange(PACKET_SIZE as int, data.len() as int) =~= batch_bytes(ps));
    lemma_decode_encoded_batch(ps);
    if ps.len() <= 65535 {
        assert(ps.take(ps.len() as int) =~= ps);
    }
}

/// A datagram adds exactly the poses its packet decodes to, every one of
/// them in order, whatever their field values; a datagram that does not
/// decode adds nothing.
pub proof fn lemma_datagram_poses_are_decoded_poses(data: Seq<u8>)
    ensures
        pose_packet(data) matches Some(ps) ==> datagram_poses(data) == ps,
        pose_packet(data) is None ==> datagram_poses(data).len() == 0,
{
}

/// A bare control packet (any header on its own, pose-data headers
/// included) carries no poses, so a stream ignores it.
pub proof fn lemma_control_packet_carries_no_poses(serial: u32, has_extrinsics: bool, pkt_type: u8)
    ensures
        pose_packet(packet_bytes(serial, has_extrinsics, pkt_type)) is None,
        datagram_poses(packet_bytes(serial, has_extrinsics, pkt_type)) == Seq::<MarkerPose>::empty(),
{
    lemma_parse_encoded(serial, has_extrinsics, pkt_type);
}

/// Where a single-threaded receive call stands.
#[derive(Debug, Clone, Copy, PartialEq, Eq)]
pub enum ReceivePhase {
    /// Nothing done yet: first drain what has already arrived.
    Start,
    /// The first drain is done: wait only when blocking and empty-handed.
    Drained,
    /// Blocking: waiting for a pose until the deadline.
    Waiting,
    /// The wait is over: one last drain of what arrived meanwhile.
    Finishing,
    /// The call returns.
    Done,
}

/// What a single-threaded receive call does next.
#[derive(Debug, Clone, Copy, PartialEq, Eq)]
pub enum ReceiveAction {
    /// Read every datagram already waiting on the socket, without blocking.
    Drain,
    /// Block on the socket for at most `timeout_us` for one datagram
    /// (sending a keep-alive first if one is due when the wait times out).
    Wait { timeout_us: u64 },
    /// Return the poses collected.
    Finish,
}

/// The decisions of one single-threaded receive call: drain what has
/// arrived; when blocking and nothing arrived, wait for a pose (each wait at
/// most [`RECV_TIMEOUT_US`]) until one arrives or [`BLOCK_TIMEOUT_US`] has
/// passed, then drain once more; then return.
///
/// A non-blocking call never waits; a blocking call returns without poses
/// only after giving up at its deadline, [`BLOCK_TIMEOUT_US`] after it
/// started waiting.
pub struct ReceiveCall {
    block: bool,
    phase: ReceivePhase,
    wait_start_us: u64,
    deadline_us: u64,
    saw_poses: bool,
    gave_up_at: Option<u64>,
}

impl ReceiveCall {
    #[verifier::type_invariant]
    spec fn inv(&self) -> bool {
        &&& self.deadline_us == spec_block_deadline(self.wait_start_us)
        &&& (self.gave_up_at matches Some(t) ==> t >= self.deadline_us)
        &&& (self.phase == ReceivePhase::Waiting ==> self.block)
        &&& (self.phase == ReceivePhase::Start || self.phase == ReceivePhase::Drained
            ==> self.gave_up_at is None)
        &&& (self.phase == ReceivePhase::Finishing && self.block ==> self.saw_poses
            || self.gave_up_at is Some)
        &&& (self.phase == ReceivePhase::Done && self.block ==> self.saw_poses
            || self.gave_up_at is Some)
    }

    /// Whether the call may block.
    pub closed spec fn spec_block(&self) -> bool {
        self.block
    }

    /// Where the call stands.
    pub closed spec fn spec_phase(&self) -> ReceivePhase {
        self.phase
    }

    /// When the call started waiting (meaningful once it waits).
    pub closed spec fn spec_wait_start(&self) -> u64 {
        self.wait_start_us
    }

    /// When the call gives up waiting.
    pub closed spec fn spec_deadline(&self) -> u64 {
        self.deadline_us
    }

    /// Whether poses were seen collected after a drain or a wait.
    pub closed spec fn spec_saw_poses(&self) -> bool {
        self.saw_poses
    }

    /// The instant the call gave up waiting, if it did.
    pub closed spec fn spec_gave_up_at(&self) -> Option<u64> {
        self.gave_up_at
    }

    /// A receive call that has done nothing yet.
    pub fn new(block: bool) -> (c: Self)
        ensures
            c.spec_block() == block,
            c.spec_phase() == ReceivePhase::Start,
            !c.spec_saw_poses(),
            c.spec_gave_up_at() is None,
    {
        ReceiveCall {
            block,
            phase: ReceivePhase::Start,
            wait_start_us: 0,
            deadline_us: BLOCK_TIMEOUT_US,
            saw_poses: false,
            gave_up_at: None,
        }
    }

    /// The next step at `now_us`, `have_poses` telling whether any pose has
    /// been collected by this call so far.
    pub fn next(&mut self, now_us: u64, have_poses: bool) -> (r: ReceiveAction)
        ensures
            final(self).spec_block() == old(self).spec_block(),
            final(self).spec_saw_poses() == (old(self).spec_saw_poses() || (have_poses
                && (old(self).spec_phase() == ReceivePhase::Drained
                || old(self).spec_phase() == ReceivePhase::Waiting))),
            old(self).spec_phase() == ReceivePhase::Start ==> r == ReceiveAction::Drain
                && final(self).spec_phase() == ReceivePhase::Drained,
            old(self).spec_phase() == ReceivePhase::Drained ==> if old(self).spec_block()
                && !have_poses {
                &&& final(self).spec_wait_start() == now_us
                &&& final(self).spec_deadline() == spec_block_deadline(now_us)
                &&& final(self).spec_phase() == ReceivePhase::Waiting
                &&& r == ReceiveAction::Wait {
                    timeout_us: if spec_block_deadline(now_us) - now_us < RECV_TIMEOUT_US {
                        (spec_block_deadline(now_us) - now_us) as u64
                    } else {
                        RECV_TIMEOUT_US
                    },
                }
            } else {
                r == ReceiveAction::Finish && final(self).spec_phase() == ReceivePhase::Done
            },
            old(self).spec_phase() == ReceivePhase::Waiting ==> {
                &&& final(self).spec_deadline() == old(self).spec_deadline()
                &&& final(self).spec_wait_start() == old(self).spec_wait_start()
                &&& if have_poses {
                    r == ReceiveAction::Drain && final(self).spec_phase() == ReceivePhase::Finishing
                } else if now_us >= old(self).spec_deadline() {
                    &&& r == ReceiveAction::Drain
                    &&& final(self).spec_phase() == ReceivePhase::Finishing
                    &&& final(self).spec_gave_up_at() == Some(now_us)
                } else {
                    &&& final(self).spec_phase() == ReceivePhase::Waiting
                    &&& r == ReceiveAction::Wait {
                        timeout_us: if old(self).spec_deadline() - now_us < RECV_TIMEOUT_US {
                            (old(self).spec_deadline() - now_us) as u64
                        } else {
                            RECV_TIMEOUT_US
                        },
                    }
                }
            },
            old(self).spec_phase() == ReceivePhase::Finishing || old(self).spec_phase()
                == ReceivePhase::Done ==> r == ReceiveAction::Finish && final(self).spec_phase()
                == ReceivePhase::Done,
            // A non-blocking call never waits.
            !old(self).spec_block() ==> !(r is Wait),
            // A blocking call returns only after seeing poses or giving up at
            // its deadline, BLOCK_TIMEOUT_US after it started waiting.
            r == ReceiveAction::Finish && old(self).spec_block() ==> final(self).spec_saw_poses()
                || (final(self).spec_gave_up_at() is Some
                && final(self).spec_gave_up_at()->0 >= final(self).spec_deadline()
                && final(self).spec_deadline() == spec_block_deadline(final(self).spec_wait_start())),
    {
        proof {
            use_type_invariant(&*self);
        }
        match self.phase {
            ReceivePhase::Start => {
                self.phase = ReceivePhase::Drained;
                ReceiveAction::Drain
            },
            ReceivePhase::Drained => {
                if have_poses {
                    self.saw_poses = true;
                }
                if self.block && !have_poses {
                    let deadline = block_deadline(now_us);
                    let mut next = ReceiveCall::new(self.block);
                    std::mem::swap(&mut next, self);
                    *self = ReceiveCall {
                        block: next.block,
                        phase: ReceivePhase::Waiting,
                        wait_start_us: now_us,
                        deadline_us: deadline,
                        saw_poses: next.saw_poses,
                        gave_up_at: next.gave_up_at,
                    };
                    let remaining = deadline - now_us;
                    if remaining < RECV_TIMEOUT_US {
                        ReceiveAction::Wait { timeout_us: remaining }
                    } else {
                        ReceiveAction::Wait { timeout_us: RECV_TIMEOUT_US }
                    }
                } else {
                    self.phase = ReceivePhase::Done;
                    ReceiveAction::Finish
                }
            },
            ReceivePhase::Waiting => {
                if have_poses {
                    self.saw_poses = true;
                    self.phase = ReceivePhase::Finishing;
                    ReceiveAction::Drain
                } else {
                    match block_wait_timeout(now_us, self.deadline_us) {
                        None => {
                            self.gave_up_at = Some(now_us);
                            self.phase = ReceivePhase::Finishing;
                            ReceiveAction::Drain
                        },
                        Some(t) => ReceiveAction::Wait { timeout_us: t },
                    }
                }
            },
            ReceivePhase::Finishing => {
                self.phase = ReceivePhase::Done;
                ReceiveAction::Finish
            },
            ReceivePhase::Done => ReceiveAction::Finish,
        }
    }
}

/// Connection state of one pose stream: whether it is still connected,
/// whether a background receiver serves it, and when the last
/// subscribe/keep-alive packet went out.
#[derive(Debug)]
pub struct StreamSession {
    connected: bool,
    threaded: bool,
    last_keepalive_us: u64,
}

impl StreamSession {
    /// `true` until the stream is disconnected.
    pub closed spec fn spec_connected(&self) -> bool {
        self.connected
    }

    /// `true` when a background receiver serves the stream.
    pub closed spec fn spec_threaded(&self) -> bool {
        self.threaded
    }

    /// When the last subscribe/keep-alive packet was sent.
    pub closed spec fn spec_last_keepalive(&self) -> u64 {
        self.last_keepalive_us
    }

    /// Whether a keep-alive is due at `now_us`: the interval has elapsed
    /// since the last one.
    pub open spec fn spec_keepalive_due(&self, now_us: u64) -> bool {
        now_us >= self.spec_last_keepalive() + KEEPALIVE_INTERVAL_US
    }

    /// A connected session whose initial subscribe packet was sent at
    /// `now_us`.
    pub fn new(threaded: bool, now_us: u64) -> (s: Self)
        ensures
            s.spec_connected(),
            s.spec_threaded() == threaded,
            s.spec_last_keepalive() == now_us,
    {
        StreamSession { connected: true, threaded, last_keepalive_us: now_us }
    }

    /// `true` until the stream is disconnected.
    pub fn is_connected(&self) -> (r: bool)
        ensures
            r == self.spec_connected(),
    {
        self.connected
    }

    /// `true` when a background receiver serves the stream.
    pub fn is_threaded(&self) -> (r: bool)
        ensures
            r == self.spec_threaded(),
    {
        self.threaded
    }

    /// Whether a keep-alive is due at `now_us`: the keep-alive interval has
    /// elapsed since the previous one.
    pub fn keepalive_due(&self, now_us: u64) -> (r: bool)
        ensures
            r == self.spec_keepalive_due(now_us),
    {
        now_us >= self.last_keepalive_us && now_us - self.last_keepalive_us >= KEEPALIVE_INTERVAL_US
    }

    /// Record that a keep-alive went out at `now_us`.
    pub fn keepalive_sent(&mut self, now_us: u64)
        ensures
            final(self).spec_last_keepalive() == now_us,
            final(self).spec_connected() == old(self).spec_connected(),
            final(self).spec_threaded() == old(self).spec_threaded(),
    {
        self.last_keepalive_us = now_us;
    }

    /// Mark the stream disconnected. Returns `true` when it was connected,
    /// in which case the caller stops the background receiver (if any) and
    /// sends the unsubscribe packet; `false` when it was already
    /// disconnected and nothing is left to do.
    pub fn disconnect(&mut self) -> (was_connected: bool)
        ensures
            was_connected == old(self).spec_connected(),
            !final(self).spec_connected(),
            final(self).spec_threaded() == old(self).spec_threaded(),
            final(self).spec_last_keepalive() == old(self).spec_last_keepalive(),
    {
        let was_connected = self.connected;
        self.connected = false;
        was_connected
    }
}

/// Stream timing in plain numbers: a keep-alive falls due one second after
/// the previous one, and a blocking receive gives up three seconds after it
/// started waiting (at the end of the clock if that comes first).
pub proof fn lemma_stream_timing(s: StreamSession, now_us: u64, start_us: u64)
    ensures
        s.spec_keepalive_due(now_us) == (now_us >= s.spec_last_keepalive() + 1_000_000),
        start_us <= u64::MAX - 3_000_000 ==> spec_block_deadline(start_us) == start_us + 3_000_000,
        start_us > u64::MAX - 3_000_000 ==> spec_block_deadline(start_us) == u64::MAX,
{
}

} // verus!
