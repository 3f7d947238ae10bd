//! The [`MarkerPose`] wire type, shared between the Enpose API and the
//! on-device daemon.
//!
//! On the wire a batch of poses is encoded with a small, fixed-layout
//! big-endian binary codec ([`MarkerPose::encode_batch`] /
//! [`MarkerPose::decode_batch`]) — no external serialization framework.
//!
//! The real-valued fields (position, rotation, error estimates) are held as
//! the IEEE 754 binary64 bit patterns of the values (what `f64::to_bits`
//! returns). The codec moves those bits to and from the wire unchanged, so
//! a value survives an encode/decode round trip bit for bit, NaN payloads
//! and signed zeros included.

use vstd::prelude::*;

use crate::bytes::{
    be_u16, decode_words, lemma_decode_words_bytes, lemma_u16_bytes_round_trip,
    lemma_u16_value_round_trip, lemma_u64_bytes_round_trip, lemma_u64_value_round_trip,
    lemma_be_u16_value, lemma_u16_be_value, lemma_words_bytes_decode, lemma_words_bytes_len,
    lemma_words_bytes_word, push_u16_be, push_u64_be, push_words_be,
    read_u16_be, read_u64_be, read_words_be, u16_be, u64_be, word_at, words_bytes,
};

verus! {

/// Wire size of one pose record produced by [`MarkerPose::encode_batch`]:
/// `timestamp(8) + marker_id(2) + x/y/z(24) + rotation(72) +
/// position_rmse(8) + rotation_rmse(8) + sensors(1) + observed_emitters(1)`.
pub const ENCODED_SIZE: usize = 124;

/// Largest number of poses one encoded batch carries: the count travels
/// as a `u16`.
pub const MAX_BATCH_LEN: usize = 65535;

/// Position and orientation of one tracked marker in world coordinates.
///
/// One [`MarkerPose`] is produced per localized marker per tracking
/// update.
///
/// # Units
///
/// All positions (`x`, `y`, `z` and `position_rmse`) are in **meters**;
/// rotation error (`rotation_rmse`) is in **radians**.
///
/// # Coordinate system
///
/// The world frame is right-handed, and where its origin and axes lie is
/// decided by the device's extrinsics calibration:
///
/// * By default it is the reference sensor's optical frame — the origin at
///   that sensor, **+X** to its right, **+Y** down and **+Z** pointing into
///   the scene, so a marker in front of the device has a positive `z`.
/// * If the device was calibrated against a measured origin, the frame is the
///   one the operator marked out there instead.
/// * If a ground plane was measured, that plane becomes `z = 0` with **+Z**
///   pointing up out of it.
///
/// # Real values
///
/// Every real-valued field holds the IEEE 754 binary64 bit pattern of its
/// value (`f64::to_bits`); `f64::from_bits` recovers the number.
#[derive(Clone, Copy, Debug, PartialEq)]
pub struct MarkerPose {
    /// Microseconds since the tracking device started. All markers from the
    /// same tracking update share one timestamp.
    pub timestamp: u64,
    /// Identifier of the marker this pose belongs to.
    pub marker_id: u16,
    /// World-space position in meters (of the first model emitter), as
    /// binary64 bit patterns.
    pub x: u64,
    pub y: u64,
    pub z: u64,
    /// Rotation matrix (row-major 3x3), model frame to world frame, as
    /// binary64 bit patterns.
    pub rotation: [u64; 9],
    /// Estimated RMS error of the position, in meters, as a binary64 bit
    /// pattern.
    pub position_rmse: u64,
    /// Estimated RMS error of the rotation, expressed as the magnitude of an
    /// axis-angle perturbation 3-vector (radians), as a binary64 bit pattern.
    pub rotation_rmse: u64,
    /// Number of sensors that contributed to this measurement.
    pub sensors: u8,
    /// Number of marker emitters observed in this measurement.
    pub observed_emitters: u8,
}

/// The real-valued fields of `p` in wire order: position, rotation, then
/// the two error estimates.
pub open spec fn pose_words(p: MarkerPose) -> Seq<u64> {
    seq![
        p.x,
        p.y,
        p.z,
        p.rotation[0],
        p.rotation[1],
        p.rotation[2],
        p.rotation[3],
        p.rotation[4],
        p.rotation[5],
        p.rotation[6],
        p.rotation[7],
        p.rotation[8],
        p.position_rmse,
        p.rotation_rmse,
    ]
}

/// The [`ENCODED_SIZE`] bytes of one pose record.
#[verifier::opaque]
pub open spec fn pose_bytes(p: MarkerPose) -> Seq<u8> {
    u64_be(p.timestamp) + u16_be(p.marker_id) + words_bytes(pose_words(p)) + seq![
        p.sensors,
        p.observed_emitters,
    ]
}

/// The pose with the given integer fields whose real-valued fields are
/// `w`, in the order of [`pose_words`].
pub open spec fn pose_with_words(
    timestamp: u64,
    marker_id: u16,
    w: Seq<u64>,
    sensors: u8,
    observed_emitters: u8,
) -> MarkerPose {
    MarkerPose {
        timestamp,
        marker_id,
        x: w[0],
        y: w[1],
        z: w[2],
        rotation: [w[3], w[4], w[5], w[6], w[7], w[8], w[9], w[10], w[11]],
        position_rmse: w[12],
        rotation_rmse: w[13],
        sensors,
        observed_emitters,
    }
}

/// The pose that the record at `b[at..at + ENCODED_SIZE]` describes.
#[verifier::opaque]
pub open spec fn decode_pose_at(b: Seq<u8>, at: int) -> MarkerPose {
    pose_with_words(
        word_at(b, at),
        be_u16(b.subrange(at + 8, at + 10)),
        decode_words(b, at + 10, 14),
        b[at + 122],
        b[at + 123],
    )
}

/// The records of `ps`, one after the other.
pub open spec fn poses_bytes(ps: Seq<MarkerPose>) -> Seq<u8>
    decreases ps.len(),
{
    if ps.len() == 0 {
        Seq::empty()
    } else {
        poses_bytes(ps.drop_last()) + pose_bytes(ps.last())
    }
}

/// How many of `n` poses an encoded batch carries.
pub open spec fn batch_count(n: nat) -> nat {
    if n > MAX_BATCH_LEN {
        MAX_BATCH_LEN as nat
    } else {
        n
    }
}

/// The encoded batch of `ps`: the big-endian count, then that many records.
pub open spec fn batch_bytes(ps: Seq<MarkerPose>) -> Seq<u8> {
    let c = batch_count(ps.len());
    u16_be(c as u16) + poses_bytes(ps.take(c as int))
}

/// The `n` poses described by the consecutive records from `b[at]` on.
pub open spec fn decode_records(b: Seq<u8>, at: int, n: nat) -> Seq<MarkerPose> {
    Seq::new(n, |i: int| decode_pose_at(b, at + 124 * i))
}

/// What [`MarkerPose::decode_batch`] makes of `data`: nothing when it is
/// shorter than the 2-byte count or its length does not match the count
/// exactly, else the decoded records.
pub open spec fn decoded_batch(data: Seq<u8>) -> Option<Seq<MarkerPose>> {
    if data.len() < 2 {
        None
    } else {
        let count = be_u16(data.subrange(0, 2)) as nat;
        if data.len() - 2 != 124 * count {
            None
        } else {
            Some(decode_records(data, 2, count))
        }
    }
}

/// A record takes [`ENCODED_SIZE`] bytes.
pub proof fn lemma_pose_bytes_len(p: MarkerPose)
    ensures
        pose_bytes(p).len() == 124,
{
    reveal(pose_bytes);
    lemma_words_bytes_len(pose_words(p));
}

/// The records of `ps` take [`ENCODED_SIZE`] bytes each.
pub proof fn lemma_poses_bytes_len(ps: Seq<MarkerPose>)
    ensures
        poses_bytes(ps).len() == 124 * ps.len(),
    decreases ps.len(),
{
    if ps.len() > 0 {
        lemma_poses_bytes_len(ps.drop_last());
        lemma_pose_bytes_len(ps.last());
    }
}

/// Record `i` of the encoding of `ps` is the record of `ps[i]`.
pub proof fn lemma_poses_bytes_record(ps: Seq<MarkerPose>, i: int)
    requires
        0 <= i < ps.len(),
    ensures
        poses_bytes(ps).subrange(124 * i, 124 * i + 124) == pose_bytes(ps[i]),
    decreases ps.len(),
{
    let q = ps.drop_last();
    lemma_poses_bytes_len(q);
    lemma_pose_bytes_len(ps.last());
    if i < ps.len() - 1 {
        lemma_poses_bytes_record(q, i);
        assert(poses_bytes(ps).subrange(124 * i, 124 * i + 124) =~= poses_bytes(q).subrange(
            124 * i,
            124 * i + 124,
        ));
    } else {
        assert(poses_bytes(ps).subrange(124 * i, 124 * i + 124) =~= pose_bytes(ps.last()));
    }
}

/// A pose is determined by its integer fields and its real-valued words.
pub proof fn lemma_pose_with_own_words(p: MarkerPose)
    ensures
        pose_with_words(p.timestamp, p.marker_id, pose_words(p), p.sensors, p.observed_emitters)
            == p,
{
    let q = pose_with_words(
        p.timestamp,
        p.marker_id,
        pose_words(p),
        p.sensors,
        p.observed_emitters,
    );
    assert(q.rotation =~= p.rotation);
}

/// The words of a pose built from 14 words are those words.
pub proof fn lemma_words_of_pose_with(
    timestamp: u64,
    marker_id: u16,
    w: Seq<u64>,
    sensors: u8,
    observed_emitters: u8,
)
    requires
        w.len() == 14,
    ensures
        pose_words(pose_with_words(timestamp, marker_id, w, sensors, observed_emitters)) == w,
{
    assert(pose_words(pose_with_words(timestamp, marker_id, w, sensors, observed_emitters)) =~= w);
}

/// Decoding a record where the record of `p` was written gives `p`.
pub proof fn lemma_decode_pose_at(b: Seq<u8>, at: int, p: MarkerPose)
    requires
        0 <= at,
        at + 124 <= b.len(),
        b.subrange(at, at + 124) == pose_bytes(p),
    ensures
        decode_pose_at(b, at) == p,
{
    reveal(pose_bytes);
    reveal(decode_pose_at);
    let w = pose_words(p);
    let pb = pose_bytes(p);
    lemma_words_bytes_len(w);
    assert(pb.subrange(0, 8) =~= u64_be(p.timestamp));
    assert(pb.subrange(8, 10) =~= u16_be(p.marker_id));
    assert(pb.subrange(10, 122) =~= words_bytes(w));
    assert(b.subrange(at, at + 8) =~= pb.subrange(0, 8));
    assert(b.subrange(at + 8, at + 10) =~= pb.subrange(8, 10));
    assert(b.subrange(at + 10, at + 122) =~= pb.subrange(10, 122));
    lemma_u64_value_round_trip(p.timestamp);
    lemma_u16_value_round_trip(p.marker_id);
    lemma_decode_words_bytes(b, at + 10, w);
    assert(b[at + 122] == pose_bytes(p)[122]);
    assert(b[at + 123] == pose_bytes(p)[123]);
    lemma_pose_with_own_words(p);
}

/// Encoding the pose decoded from a record gives the record back.
pub proof fn lemma_pose_bytes_decode_at(b: Seq<u8>, at: int)
    requires
        0 <= at,
        at + 124 <= b.len(),
    ensures
        pose_bytes(decode_pose_at(b, at)) == b.subrange(at, at + 124),
{
    reveal(pose_bytes);
    reveal(decode_pose_at);
    let d = decode_pose_at(b, at);
    let w = decode_words(b, at + 10, 14);
    lemma_words_of_pose_with(d.timestamp, d.marker_id, w, d.sensors, d.observed_emitters);
    lemma_words_bytes_decode(b, at + 10, 14);
    lemma_u64_bytes_round_trip(b.subrange(at, at + 8));
    lemma_u16_bytes_round_trip(b.subrange(at + 8, at + 10));
    assert(pose_bytes(d) =~= b.subrange(at, at + 124));
}

/// Re-encoding the poses decoded from `n` consecutive records gives the
/// records back.
pub proof fn lemma_encode_decoded_records(b: Seq<u8>, at: int, n: nat)
    requires
        0 <= at,
        at + 124 * n <= b.len(),
    ensures
        poses_bytes(decode_records(b, at, n)) == b.subrange(at, at + 124 * n),
    decreases n,
{
    let d = decode_records(b, at, n);
    if n == 0 {
        assert(b.subrange(at, at) =~= Seq::<u8>::empty());
    } else {
        let m = (n - 1) as nat;
        lemma_encode_decoded_records(b, at, m);
        assert(d.drop_last() =~= decode_records(b, at, m));
        lemma_pose_bytes_decode_at(b, at + 124 * m);
        assert(b.subrange(at, at + 124 * n) =~= b.subrange(at, at + 124 * m) + b.subrange(
            at + 124 * m,
            at + 124 * n,
        ));
    }
}

/// Where each field sits in a record: timestamp at bytes 0..8, marker id at
/// 8..10, `x`, `y`, `z` at 10..34, `rotation[i]` at `34 + 8i..42 + 8i` in
/// row-major order, the position and rotation errors at 106..122 (all
/// big-endian), then the sensor count at 122 and the emitter count at 123.
pub proof fn lemma_pose_layout(p: MarkerPose)
    ensures
        pose_bytes(p).len() == 124,
        pose_bytes(p).subrange(0, 8) == u64_be(p.timestamp),
        pose_bytes(p).subrange(8, 10) == u16_be(p.marker_id),
        pose_bytes(p).subrange(10, 18) == u64_be(p.x),
        pose_bytes(p).subrange(18, 26) == u64_be(p.y),
        pose_bytes(p).subrange(26, 34) == u64_be(p.z),
        forall|i: int|
            0 <= i < 9 ==> #[trigger] pose_bytes(p).subrange(34 + 8 * i, 42 + 8 * i) == u64_be(
                p.rotation[i],
            ),
        pose_bytes(p).subrange(106, 114) == u64_be(p.position_rmse),
        pose_bytes(p).subrange(114, 122) == u64_be(p.rotation_rmse),
        pose_bytes(p)[122] == p.sensors,
        pose_bytes(p)[123] == p.observed_emitters,
{
    reveal(pose_bytes);
    let w = pose_words(p);
    let wb = words_bytes(w);
    let b = pose_bytes(p);
    lemma_words_bytes_len(w);
    assert(b.subrange(0, 8) =~= u64_be(p.timestamp));
    assert(b.subrange(8, 10) =~= u16_be(p.marker_id));
    assert forall|k: int| 0 <= k < 14 implies #[trigger] b.subrange(10 + 8 * k, 18 + 8 * k)
        == u64_be(w[k]) by {
        lemma_words_bytes_word(w, k);
        assert(b.subrange(10 + 8 * k, 18 + 8 * k) =~= wb.subrange(8 * k, 8 * k + 8));
    }
    assert(b.subrange(10 + 8 * 0int, 18 + 8 * 0int) == u64_be(w[0]));
    assert(b.subrange(10 + 8 * 1int, 18 + 8 * 1int) == u64_be(w[1]));
    assert(b.subrange(10 + 8 * 2int, 18 + 8 * 2int) == u64_be(w[2]));
    assert(b.subrange(10 + 8 * 12int, 18 + 8 * 12int) == u64_be(w[12]));
    assert(b.subrange(10 + 8 * 13int, 18 + 8 * 13int) == u64_be(w[13]));
    assert forall|i: int| 0 <= i < 9 implies #[trigger] b.subrange(34 + 8 * i, 42 + 8 * i)
        == u64_be(p.rotation[i]) by {
        assert(b.subrange(10 + 8 * (i + 3), 18 + 8 * (i + 3)) == u64_be(w[i + 3]));
        assert(w[i + 3] == p.rotation[i]);
    }
}

/// Where decoding reads each field of the record at `b[at..]`: the same
/// offsets as [`lemma_pose_layout`], every multi-byte field big-endian.
pub proof fn lemma_decode_layout(b: Seq<u8>, at: int)
    ensures
        decode_pose_at(b, at).timestamp == word_at(b, at),
        decode_pose_at(b, at).marker_id == be_u16(b.subrange(at + 8, at + 10)),
        decode_pose_at(b, at).x == word_at(b, at + 10),
        decode_pose_at(b, at).y == word_at(b, at + 18),
        decode_pose_at(b, at).z == word_at(b, at + 26),
        forall|i: int| 0 <= i < 9 ==> #[trigger] decode_pose_at(b, at).rotation[i] == word_at(b, at + 34 + 8 * i),
        decode_pose_at(b, at).position_rmse == word_at(b, at + 106),
        decode_pose_at(b, at).rotation_rmse == word_at(b, at + 114),
        decode_pose_at(b, at).sensors == b[at + 122],
        decode_pose_at(b, at).observed_emitters == b[at + 123],
{
    reveal(decode_pose_at);
    assert forall|i: int| 0 <= i < 9 implies #[trigger] decode_pose_at(b, at).rotation[i] == word_at(b, at + 34 + 8 * i) by {
        assert(decode_words(b, at + 10, 14)[i + 3] == word_at(b, at + 10 + 8 * (i + 3)));
    }
}

/// The layout of an encoded batch: the count of poses carried, big-endian
/// in bytes 0..2, then record `i` of pose `i` at `2 + 124i`, in order.
pub proof fn lemma_batch_layout(ps: Seq<MarkerPose>)
    ensures
        ({
            let b = batch_bytes(ps);
            let c = batch_count(ps.len());
            &&& c == (if ps.len() > 65535 { 65535 } else { ps.len() })
            &&& b.len() == 2 + 124 * c
            &&& 256 * (b[0] as int) + (b[1] as int) == c
            &&& forall|i: int|
                0 <= i < c ==> #[trigger] b.subrange(2 + 124 * i, 2 + 124 * i + 124) == pose_bytes(
                    ps[i],
                )
        }),
{
    let b = batch_bytes(ps);
    let c = batch_count(ps.len());
    let t = ps.take(c as int);
    lemma_poses_bytes_len(t);
    lemma_u16_be_value(c as u16);
    assert forall|i: int| 0 <= i < c implies #[trigger] b.subrange(2 + 124 * i, 2 + 124 * i + 124)
        == pose_bytes(ps[i]) by {
        lemma_poses_bytes_record(t, i);
        assert(b.subrange(2 + 124 * i, 2 + 124 * i + 124) =~= poses_bytes(t).subrange(
            124 * i,
            124 * i + 124,
        ));
    }
}

/// What decoding accepts and yields, in terms of the bytes: a payload of at
/// least 2 bytes whose length is exactly 2 + 124 times the big-endian count
/// in bytes 0..2, and then one pose per record, in order.
pub proof fn lemma_decoded_batch_layout(data: Seq<u8>)
    ensures
        decoded_batch(data) is Some <==> (data.len() >= 2 && data.len() == 2 + 124 * (256 * (
        data[0] as int) + (data[1] as int))),
        decoded_batch(data) matches Some(ps) ==> {
            &&& ps.len() == 256 * (data[0] as int) + (data[1] as int)
            &&& forall|i: int| 0 <= i < ps.len() ==> #[trigger] ps[i] == decode_pose_at(data, 2 + 124 * i)
        },
{
    if data.len() >= 2 {
        lemma_be_u16_value(data.subrange(0, 2));
    }
}

/// An encoded batch is the 2-byte count followed by [`ENCODED_SIZE`]
/// bytes per pose carried.
pub proof fn lemma_batch_bytes_len(ps: Seq<MarkerPose>)
    ensures
        batch_bytes(ps).len() == 2 + 124 * batch_count(ps.len()),
{
    lemma_poses_bytes_len(ps.take(batch_count(ps.len()) as int));
}

/// Decoding an encoded batch gives back the poses it carries: all of
/// them when there are at most [`MAX_BATCH_LEN`], else the first
/// [`MAX_BATCH_LEN`].
pub proof fn lemma_decode_encoded_batch(ps: Seq<MarkerPose>)
    ensures
        decoded_batch(batch_bytes(ps)) == Some(ps.take(batch_count(ps.len()) as int)),
{
    let c = batch_count(ps.len());
    let t = ps.take(c as int);
    let data = batch_bytes(ps);
    lemma_poses_bytes_len(t);
    assert(data.subrange(0, 2) =~= u16_be(c as u16));
    lemma_u16_value_round_trip(c as u16);
    assert forall|i: int| 0 <= i < c implies #[trigger] decode_records(data, 2, c)[i] == t[i] by {
        lemma_poses_bytes_record(t, i);
        assert(data.subrange(2 + 124 * i, 2 + 124 * i + 124) =~= poses_bytes(t).subrange(
            124 * i,
            124 * i + 124,
        ));
        lemma_decode_pose_at(data, 2 + 124 * i, t[i]);
    }
    assert(decode_records(data, 2, c) =~= t);
}

/// A payload that decodes is exactly the encoding of the poses decoded
/// from it: every accepted payload has one encoding.
pub proof fn lemma_encode_decoded_batch(data: Seq<u8>)
    requires
        decoded_batch(data) is Some,
    ensures
        batch_bytes(decoded_batch(data)->0) == data,
{
    let ps = decoded_batch(data)->0;
    let count = be_u16(data.subrange(0, 2)) as nat;
    lemma_encode_decoded_records(data, 2, count);
    lemma_u16_bytes_round_trip(data.subrange(0, 2));
    assert(ps.take(count as int) =~= ps);
    assert(batch_bytes(ps) =~= data);
}

/// Append the record of `p` to `buf`.
fn push_pose(buf: &mut Vec<u8>, p: &MarkerPose)
    ensures
        final(buf)@ == old(buf)@ + pose_bytes(*p),
{
    reveal(pose_bytes);
    push_u64_be(buf, p.timestamp);
    push_u16_be(buf, p.marker_id);
    let words: [u64; 14] = [
        p.x,
        p.y,
        p.z,
        p.rotation[0],
        p.rotation[1],
        p.rotation[2],
        p.rotation[3],
        p.rotation[4],
        p.rotation[5],
        p.rotation[6],
        p.rotation[7],
        p.rotation[8],
        p.position_rmse,
        p.rotation_rmse,
    ];
    assert(words@ =~= pose_words(*p));
    push_words_be(buf, &words);
    buf.push(p.sensors);
    buf.push(p.observed_emitters);
    assert(buf@ =~= old(buf)@ + pose_bytes(*p));
}

/// Decode the record at `data[at..at + ENCODED_SIZE]`.
fn decode_one(data: &[u8], at: usize) -> (r: MarkerPose)
    requires
        at + ENCODED_SIZE <= data.len(),
    ensures
        r == decode_pose_at(data@, at as int),
{
    reveal(decode_pose_at);
    let timestamp = read_u64_be(data, at);
    let marker_id = read_u16_be(data, at + 8);
    let w = read_words_be(data, at + 10, 14);
    MarkerPose {
        timestamp,
        marker_id,
        x: w[0],
        y: w[1],
        z: w[2],
        rotation: [w[3], w[4], w[5], w[6], w[7], w[8], w[9], w[10], w[11]],
        position_rmse: w[12],
        rotation_rmse: w[13],
        sensors: data[at + 122],
        observed_emitters: data[at + 123],
    }
}

impl MarkerPose {
    /// Wire size of one pose record; see [`ENCODED_SIZE`].
    pub const ENCODED_SIZE: usize = ENCODED_SIZE;

    /// Encode a batch of poses into the pose-data payload that follows the
    /// fixed packet header on the wire.
    ///
    /// The layout is a 2-byte big-endian count followed by that many
    /// fixed-size, big-endian pose records — matching the byte-order
    /// convention of the rest of the protocol. Counterpart to
    /// [`Self::decode_batch`].
    ///
    /// A batch with more than `u16::MAX` poses is truncated to `u16::MAX`;
    /// real tracking frames carry only a handful of markers, so this never
    /// occurs in practice.
    pub fn encode_batch(poses: &[MarkerPose]) -> (r: Vec<u8>)
        ensures
            r@ == batch_bytes(poses@),
    {
        let count: usize = if poses.len() > MAX_BATCH_LEN {
            MAX_BATCH_LEN
        } else {
            poses.len()
        };
        let mut buf: Vec<u8> = Vec::new();
        push_u16_be(&mut buf, count as u16);
        let mut i: usize = 0;
        while i < count
            invariant
                count == batch_count(poses@.len()),
                i <= count,
                buf@ == u16_be(count as u16) + poses_bytes(poses@.take(i as int)),
            decreases count - i,
        {
            push_pose(&mut buf, &poses[i]);
            proof {
                let t = poses@.take(i + 1);
                assert(t.drop_last() =~= poses@.take(i as int));
                assert(t.last() == poses@[i as int]);
            }
            i = i + 1;
        }
        buf
    }

    /// Decode a pose-data payload produced by [`Self::encode_batch`].
    ///
    /// Returns `None` if the buffer is malformed — shorter than the 2-byte
    /// count, or a length that does not exactly match the declared count.
    pub fn decode_batch(data: &[u8]) -> (r: Option<Vec<MarkerPose>>)
        ensures
            match r {
                Some(v) => decoded_batch(data@) == Some(v@),
                None => decoded_batch(data@) is None,
            },
    {
        if data.len() < 2 {
            return None;
        }
        let count = read_u16_be(data, 0) as usize;
        if data.len() - 2 != count * ENCODED_SIZE {
            return None;
        }
        let mut out: Vec<MarkerPose> = Vec::new();
        let mut i: usize = 0;
        while i < count
            invariant
                data@.len() == 2 + 124 * count,
                count <= 65535,
                count == be_u16(data@.subrange(0, 2)),
                i <= count,
                out@ =~= decode_records(data@, 2, i as nat),
            decreases count - i,
        {
            let p = decode_one(data, 2 + i * ENCODED_SIZE);
            out.push(p);
            i = i + 1;
        }
        Some(out)
    }
}

} // verus!
