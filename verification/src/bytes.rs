//! Big-endian byte encodings of fixed-width unsigned integers, the byte order
//! used everywhere on the wire.

use vstd::prelude::*;

verus! {

/// The two bytes of `v`, most significant first.
pub open spec fn u16_be(v: u16) -> Seq<u8> {
    seq![(v >> 8u16) as u8, (v & 0xffu16) as u8]
}

/// The four bytes of `v`, most significant first.
pub open spec fn u32_be(v: u32) -> Seq<u8> {
    seq![
        (v >> 24u32) as u8,
        ((v >> 16u32) & 0xffu32) as u8,
        ((v >> 8u32) & 0xffu32) as u8,
        (v & 0xffu32) as u8,
    ]
}

/// The eight bytes of `v`, most significant first.
pub open spec fn u64_be(v: u64) -> Seq<u8> {
    seq![
        (v >> 56u64) as u8,
        ((v >> 48u64) & 0xffu64) as u8,
        ((v >> 40u64) & 0xffu64) as u8,
        ((v >> 32u64) & 0xffu64) as u8,
        ((v >> 24u64) & 0xffu64) as u8,
        ((v >> 16u64) & 0xffu64) as u8,
        ((v >> 8u64) & 0xffu64) as u8,
        (v & 0xffu64) as u8,
    ]
}

/// The value of the first two bytes of `s`, read most significant first.
pub open spec fn be_u16(s: Seq<u8>) -> u16 {
    ((s[0] as u16) << 8u16) | (s[1] as u16)
}

/// The value of the first four bytes of `s`, read most significant first.
pub open spec fn be_u32(s: Seq<u8>) -> u32 {
    ((s[0] as u32) << 24u32) | ((s[1] as u32) << 16u32) | ((s[2] as u32) << 8u32) | (s[3] as u32)
}

/// The value of the first eight bytes of `s`, read most significant first.
pub open spec fn be_u64(s: Seq<u8>) -> u64 {
    ((s[0] as u64) << 56u64) | ((s[1] as u64) << 48u64) | ((s[2] as u64) << 40u64) | ((
    s[3] as u64) << 32u64) | ((s[4] as u64) << 24u64) | ((s[5] as u64) << 16u64) | ((s[6] as u64)
        << 8u64) | (s[7] as u64)
}

/// Reading back the encoding of a `u16` gives the value.
pub proof fn lemma_u16_value_round_trip(v: u16)
    ensures
        be_u16(u16_be(v)) == v,
{
    let s = u16_be(v);
    let b0 = s[0];
    let b1 = s[1];
    assert(((b0 as u16) << 8u16) | (b1 as u16) == v) by (bit_vector)
        requires
            b0 == (v >> 8u16) as u8,
            b1 == (v & 0xffu16) as u8,
    ;
}

/// Encoding the value of two bytes gives the bytes back.
pub proof fn lemma_u16_bytes_round_trip(s: Seq<u8>)
    requires
        s.len() == 2,
    ensures
        u16_be(be_u16(s)) == s,
{
    let b0 = s[0];
    let b1 = s[1];
    let v = be_u16(s);
    assert((v >> 8u16) as u8 == b0 && (v & 0xffu16) as u8 == b1) by (bit_vector)
        requires
            v == ((b0 as u16) << 8u16) | (b1 as u16),
    ;
    assert(u16_be(v) =~= s);
}

/// Reading back the encoding of a `u32` gives the value.
pub proof fn lemma_u32_value_round_trip(v: u32)
    ensures
        be_u32(u32_be(v)) == v,
{
    let s = u32_be(v);
    let b0 = s[0];
    let b1 = s[1];
    let b2 = s[2];
    let b3 = s[3];
    assert(((b0 as u32) << 24u32) | ((b1 as u32) << 16u32) | ((b2 as u32) << 8u32) | (b3 as u32)
        == v) by (bit_vector)
        requires
            b0 == (v >> 24u32) as u8,
            b1 == ((v >> 16u32) & 0xffu32) as u8,
            b2 == ((v >> 8u32) & 0xffu32) as u8,
            b3 == (v & 0xffu32) as u8,
    ;
}

/// Encoding the value of four bytes gives the bytes back.
pub proof fn lemma_u32_bytes_round_trip(s: Seq<u8>)
    requires
        s.len() == 4,
    ensures
        u32_be(be_u32(s)) == s,
{
    let b0 = s[0];
    let b1 = s[1];
    let b2 = s[2];
    let b3 = s[3];
    let v = be_u32(s);
    assert((v >> 24u32) as u8 == b0 && ((v >> 16u32) & 0xffu32) as u8 == b1 && ((v >> 8u32)
        & 0xffu32) as u8 == b2 && (v & 0xffu32) as u8 == b3) by (bit_vector)
        requires
            v == ((b0 as u32) << 24u32) | ((b1 as u32) << 16u32) | ((b2 as u32) << 8u32) | (
            b3 as u32),
    ;
    assert(u32_be(v) =~= s);
}

/// Reading back the encoding of a `u64` gives the value.
pub proof fn lemma_u64_value_round_trip(v: u64)
    ensures
        be_u64(u64_be(v)) == v,
{
    let s = u64_be(v);
    let b0 = s[0];
    let b1 = s[1];
    let b2 = s[2];
    let b3 = s[3];
    let b4 = s[4];
    let b5 = s[5];
    let b6 = s[6];
    let b7 = s[7];
    assert(((b0 as u64) << 56u64) | ((b1 as u64) << 48u64) | ((b2 as u64) << 40u64) | ((
    b3 as u64) << 32u64) | ((b4 as u64) << 24u64) | ((b5 as u64) << 16u64) | ((b6 as u64)
        << 8u64) | (b7 as u64) == v) by (bit_vector)
        requires
            b0 == (v >> 56u64) as u8,
            b1 == ((v >> 48u64) & 0xffu64) as u8,
            b2 == ((v >> 40u64) & 0xffu64) as u8,
            b3 == ((v >> 32u64) & 0xffu64) as u8,
            b4 == ((v >> 24u64) & 0xffu64) as u8,
            b5 == ((v >> 16u64) & 0xffu64) as u8,
            b6 == ((v >> 8u64) & 0xffu64) as u8,
            b7 == (v & 0xffu64) as u8,
    ;
}

/// Encoding the value of eight bytes gives the bytes back.
pub proof fn lemma_u64_bytes_round_trip(s: Seq<u8>)
    requires
        s.len() == 8,
    ensures
        u64_be(be_u64(s)) == s,
{
    let b0 = s[0];
    let b1 = s[1];
    let b2 = s[2];
    let b3 = s[3];
    let b4 = s[4];
    let b5 = s[5];
    let b6 = s[6];
    let b7 = s[7];
    let v = be_u64(s);
    assert((v >> 56u64) as u8 == b0 && ((v >> 48u64) & 0xffu64) as u8 == b1 && ((v >> 40u64)
        & 0xffu64) as u8 == b2 && ((v >> 32u64) & 0xffu64) as u8 == b3 && ((v >> 24u64)
        & 0xffu64) as u8 == b4 && ((v >> 16u64) & 0xffu64) as u8 == b5 && ((v >> 8u64)
        & 0xffu64) as u8 == b6 && (v & 0xffu64) as u8 == b7) by (bit_vector)
        requires
            v == ((b0 as u64) << 56u64) | ((b1 as u64) << 48u64) | ((b2 as u64) << 40u64) | ((
            b3 as u64) << 32u64) | ((b4 as u64) << 24u64) | ((b5 as u64) << 16u64) | ((
            b6 as u64) << 8u64) | (b7 as u64),
    ;
    assert(u64_be(v) =~= s);
}

/// Big-endian reading in arithmetic terms: two bytes are worth
/// `256 * s[0] + s[1]`.
pub proof fn lemma_be_u16_value(s: Seq<u8>)
    requires
        s.len() >= 2,
    ensures
        be_u16(s) as int == 256 * (s[0] as int) + (s[1] as int),
{
    let b0 = s[0];
    let b1 = s[1];
    assert((((b0 as u16) << 8u16) | (b1 as u16)) as int == 256 * (b0 as int) + (b1 as int))
        by (bit_vector);
}

/// Big-endian reading in arithmetic terms: four bytes are worth
/// `2^24 * s[0] + 2^16 * s[1] + 2^8 * s[2] + s[3]`.
pub proof fn lemma_be_u32_value(s: Seq<u8>)
    requires
        s.len() >= 4,
    ensures
        be_u32(s) as int == 0x1000000 * (s[0] as int) + 0x10000 * (s[1] as int) + 0x100 * (
        s[2] as int) + (s[3] as int),
{
    let b0 = s[0];
    let b1 = s[1];
    let b2 = s[2];
    let b3 = s[3];
    assert((((b0 as u32) << 24u32) | ((b1 as u32) << 16u32) | ((b2 as u32) << 8u32) | (
    b3 as u32)) as int == 0x1000000 * (b0 as int) + 0x10000 * (b1 as int) + 0x100 * (b2 as int)
        + (b3 as int)) by (bit_vector);
}

/// Big-endian reading in arithmetic terms: eight bytes are worth
/// `sum of 256^(7 - k) * s[k]`.
pub proof fn lemma_be_u64_value(s: Seq<u8>)
    requires
        s.len() >= 8,
    ensures
        be_u64(s) as int == 0x100000000000000 * (s[0] as int) + 0x1000000000000 * (s[1] as int)
            + 0x10000000000 * (s[2] as int) + 0x100000000 * (s[3] as int) + 0x1000000 * (
        s[4] as int) + 0x10000 * (s[5] as int) + 0x100 * (s[6] as int) + (s[7] as int),
{
    let b0 = s[0];
    let b1 = s[1];
    let b2 = s[2];
    let b3 = s[3];
    let b4 = s[4];
    let b5 = s[5];
    let b6 = s[6];
    let b7 = s[7];
    assert((((b0 as u64) << 56u64) | ((b1 as u64) << 48u64) | ((b2 as u64) << 40u64) | ((
    b3 as u64) << 32u64) | ((b4 as u64) << 24u64) | ((b5 as u64) << 16u64) | ((b6 as u64)
        << 8u64) | (b7 as u64)) as int == 0x100000000000000 * (b0 as int) + 0x1000000000000 * (
    b1 as int) + 0x10000000000 * (b2 as int) + 0x100000000 * (b3 as int) + 0x1000000 * (
    b4 as int) + 0x10000 * (b5 as int) + 0x100 * (b6 as int) + (b7 as int)) by (bit_vector);
}

/// Big-endian writing in arithmetic terms: the two bytes of `v` are worth
/// `v`, most significant first.
pub proof fn lemma_u16_be_value(v: u16)
    ensures
        u16_be(v).len() == 2,
        256 * (u16_be(v)[0] as int) + (u16_be(v)[1] as int) == v,
{
    lemma_u16_value_round_trip(v);
    lemma_be_u16_value(u16_be(v));
}

/// Big-endian writing in arithmetic terms: the four bytes of `v` are worth
/// `v`, most significant first.
pub proof fn lemma_u32_be_value(v: u32)
    ensures
        u32_be(v).len() == 4,
        0x1000000 * (u32_be(v)[0] as int) + 0x10000 * (u32_be(v)[1] as int) + 0x100 * (
        u32_be(v)[2] as int) + (u32_be(v)[3] as int) == v,
{
    lemma_u32_value_round_trip(v);
    lemma_be_u32_value(u32_be(v));
}

/// Big-endian writing in arithmetic terms: the eight bytes of `v` are worth
/// `v`, most significant first.
pub proof fn lemma_u64_be_value(v: u64)
    ensures
        u64_be(v).len() == 8,
        0x100000000000000 * (u64_be(v)[0] as int) + 0x1000000000000 * (u64_be(v)[1] as int)
            + 0x10000000000 * (u64_be(v)[2] as int) + 0x100000000 * (u64_be(v)[3] as int)
            + 0x1000000 * (u64_be(v)[4] as int) + 0x10000 * (u64_be(v)[5] as int) + 0x100 * (
        u64_be(v)[6] as int) + (u64_be(v)[7] as int) == v,
{
    lemma_u64_value_round_trip(v);
    lemma_be_u64_value(u64_be(v));
}

/// The big-endian bytes of `v`.
pub fn u16_to_be(v: u16) -> (r: [u8; 2])
    ensures
        r@ == u16_be(v),
{
    let r = [(v >> 8u16) as u8, (v & 0xffu16) as u8];
    assert(r@ =~= u16_be(v));
    r
}

/// The big-endian bytes of `v`.
pub fn u32_to_be(v: u32) -> (r: [u8; 4])
    ensures
        r@ == u32_be(v),
{
    let r = [
        (v >> 24u32) as u8,
        ((v >> 16u32) & 0xffu32) as u8,
        ((v >> 8u32) & 0xffu32) as u8,
        (v & 0xffu32) as u8,
    ];
    assert(r@ =~= u32_be(v));
    r
}

/// Append the big-endian bytes of `v` to `buf`.
pub fn push_u16_be(buf: &mut Vec<u8>, v: u16)
    ensures
        final(buf)@ == old(buf)@ + u16_be(v),
{
    buf.push((v >> 8u16) as u8);
    buf.push((v & 0xffu16) as u8);
    assert(buf@ =~= old(buf)@ + u16_be(v));
}

/// Append the big-endian bytes of `v` to `buf`.
pub fn push_u64_be(buf: &mut Vec<u8>, v: u64)
    ensures
        final(buf)@ == old(buf)@ + u64_be(v),
{
    buf.push((v >> 56u64) as u8);
    buf.push(((v >> 48u64) & 0xffu64) as u8);
    buf.push(((v >> 40u64) & 0xffu64) as u8);
    buf.push(((v >> 32u64) & 0xffu64) as u8);
    buf.push(((v >> 24u64) & 0xffu64) as u8);
    buf.push(((v >> 16u64) & 0xffu64) as u8);
    buf.push(((v >> 8u64) & 0xffu64) as u8);
    buf.push((v & 0xffu64) as u8);
    assert(buf@ =~= old(buf)@ + u64_be(v));
}

/// The `u16` stored big-endian at `data[at..at + 2]`.
pub fn read_u16_be(data: &[u8], at: usize) -> (r: u16)
    requires
        at + 2 <= data@.len(),
    ensures
        r == be_u16(data@.subrange(at as int, at + 2)),
{
    ((data[at] as u16) << 8u16) | (data[at + 1] as u16)
}

/// The `u32` stored big-endian at `data[at..at + 4]`.
pub fn read_u32_be(data: &[u8], at: usize) -> (r: u32)
    requires
        at + 4 <= data@.len(),
    ensures
        r == be_u32(data@.subrange(at as int, at + 4)),
{
    ((data[at] as u32) << 24u32) | ((data[at + 1] as u32) << 16u32) | ((data[at + 2] as u32)
        << 8u32) | (data[at + 3] as u32)
}

/// The `u64` stored big-endian at `data[at..at + 8]`.
pub fn read_u64_be(data: &[u8], at: usize) -> (r: u64)
    requires
        at + 8 <= data@.len(),
    ensures
        r == be_u64(data@.subrange(at as int, at + 8)),
{
    ((data[at] as u64) << 56u64) | ((data[at + 1] as u64) << 48u64) | ((data[at + 2] as u64)
        << 40u64) | ((data[at + 3] as u64) << 32u64) | ((data[at + 4] as u64) << 24u64) | ((
    data[at + 5] as u64) << 16u64) | ((data[at + 6] as u64) << 8u64) | (data[at + 7] as u64)
}

/// The `u64` stored big-endian at `b[at..at + 8]`.
pub open spec fn word_at(b: Seq<u8>, at: int) -> u64 {
    be_u64(b.subrange(at, at + 8))
}

/// The big-endian encodings of the words of `ws`, one after the other.
pub open spec fn words_bytes(ws: Seq<u64>) -> Seq<u8>
    decreases ws.len(),
{
    if ws.len() == 0 {
        Seq::empty()
    } else {
        words_bytes(ws.drop_last()) + u64_be(ws.last())
    }
}

/// The `n` words stored big-endian one after the other from `b[at]` on.
pub open spec fn decode_words(b: Seq<u8>, at: int, n: nat) -> Seq<u64> {
    Seq::new(n, |k: int| word_at(b, at + 8 * k))
}

/// Each word takes eight bytes.
pub proof fn lemma_words_bytes_len(ws: Seq<u64>)
    ensures
        words_bytes(ws).len() == 8 * ws.len(),
    decreases ws.len(),
{
    if ws.len() > 0 {
        lemma_words_bytes_len(ws.drop_last());
    }
}

/// Bytes `8k..8k + 8` of the encoding of `ws` encode `ws[k]`.
pub proof fn lemma_words_bytes_word(ws: Seq<u64>, k: int)
    requires
        0 <= k < ws.len(),
    ensures
        words_bytes(ws).subrange(8 * k, 8 * k + 8) == u64_be(ws[k]),
    decreases ws.len(),
{
    let q = ws.drop_last();
    lemma_words_bytes_len(q);
    if k < ws.len() - 1 {
        lemma_words_bytes_word(q, k);
        assert(words_bytes(ws).subrange(8 * k, 8 * k + 8) =~= words_bytes(q).subrange(
            8 * k,
            8 * k + 8,
        ));
    } else {
        assert(words_bytes(ws).subrange(8 * k, 8 * k + 8) =~= u64_be(ws.last()));
    }
}

/// Reading words back from where they were encoded gives the words.
pub proof fn lemma_decode_words_bytes(b: Seq<u8>, at: int, ws: Seq<u64>)
    requires
        0 <= at,
        at + 8 * ws.len() <= b.len(),
        b.subrange(at, at + 8 * ws.len()) == words_bytes(ws),
    ensures
        decode_words(b, at, ws.len()) == ws,
{
    lemma_words_bytes_len(ws);
    assert forall|k: int| 0 <= k < ws.len() implies #[trigger] decode_words(b, at, ws.len())[k]
        == ws[k] by {
        lemma_words_bytes_word(ws, k);
        assert(b.subrange(at + 8 * k, at + 8 * k + 8) =~= words_bytes(ws).subrange(
            8 * k,
            8 * k + 8,
        ));
        lemma_u64_value_round_trip(ws[k]);
    }
    assert(decode_words(b, at, ws.len()) =~= ws);
}

/// Encoding the words read from `b` gives the bytes they were read from.
pub proof fn lemma_words_bytes_decode(b: Seq<u8>, at: int, n: nat)
    requires
        0 <= at,
        at + 8 * n <= b.len(),
    ensures
        words_bytes(decode_words(b, at, n)) == b.subrange(at, at + 8 * n),
    decreases n,
{
    let d = decode_words(b, at, n);
    if n == 0 {
        assert(b.subrange(at, at) =~= Seq::<u8>::empty());
    } else {
        let m = (n - 1) as nat;
        lemma_words_bytes_decode(b, at, m);
        assert(d.drop_last() =~= decode_words(b, at, m));
        lemma_u64_bytes_round_trip(b.subrange(at + 8 * m, at + 8 * n));
        assert(b.subrange(at, at + 8 * n) =~= b.subrange(at, at + 8 * m) + b.subrange(
            at + 8 * m,
            at + 8 * n,
        ));
    }
}

/// Append the big-endian encodings of the words of `ws` to `buf`.
pub fn push_words_be(buf: &mut Vec<u8>, ws: &[u64])
    ensures
        final(buf)@ == old(buf)@ + words_bytes(ws@),
{
    let mut i: usize = 0;
    while i < ws.len()
        invariant
            i <= ws@.len(),
            buf@ == old(buf)@ + words_bytes(ws@.take(i as int)),
        decreases ws@.len() - i,
    {
        push_u64_be(buf, ws[i]);
        proof {
            let t = ws@.take(i + 1);
            assert(t.drop_last() =~= ws@.take(i as int));
            assert(buf@ =~= old(buf)@ + words_bytes(t));
        }
        i = i + 1;
    }
    assert(ws@.take(ws@.len() as int) =~= ws@);
}

/// Read `n` big-endian words stored one after the other from `data[at]` on.
pub fn read_words_be(data: &[u8], at: usize, n: usize) -> (r: Vec<u64>)
    requires
        at + 8 * n <= data.len(),
    ensures
        r@ == decode_words(data@, at as int, n as nat),
{
    let mut r: Vec<u64> = Vec::new();
    let mut k: usize = 0;
    while k < n
        invariant
            at + 8 * n <= data.len(),
            k <= n,
            r@ =~= decode_words(data@, at as int, k as nat),
        decreases n - k,
    {
        let w = read_u64_be(data, at + 8 * k);
        r.push(w);
        k = k + 1;
    }
    r
}

} // verus!
