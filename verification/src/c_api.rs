//! Values handed across the C interface of the Enpose API.
//!
//! Result codes, and the C view of a discovered device, whose address is
//! rendered into a fixed, null-terminated text buffer instead of an
//! address value. The functions with C linkage themselves (raw pointers,
//! library-allocated arrays, unwinding) live with the caller.

use vstd::prelude::*;

use crate::devicediscovery::DeviceInfo;

verus! {

/// Result code returned by the fallible C API functions.
#[derive(Clone, Copy, PartialEq, Eq, Debug)]
pub enum EnposeStatus {
    /// The call succeeded.
    Success,
    /// A required argument was null or otherwise invalid.
    InvalidArg,
    /// An I/O error occurred (e.g. the network operation failed).
    Io,
    /// The Rust side panicked; the call was aborted cleanly.
    Panic,
}

/// The C `int` of each status.
pub open spec fn status_code(s: EnposeStatus) -> i32 {
    match s {
        EnposeStatus::Success => 0i32,
        EnposeStatus::InvalidArg => -1i32,
        EnposeStatus::Io => -2i32,
        EnposeStatus::Panic => -3i32,
    }
}

impl EnposeStatus {
    /// The C `int` this status crosses the boundary as: success is `0`,
    /// failures are negative.
    pub fn code(&self) -> (r: i32)
        ensures
            r == status_code(*self),
    {
        match self {
            EnposeStatus::Success => 0,
            EnposeStatus::InvalidArg => -1,
            EnposeStatus::Io => -2,
            EnposeStatus::Panic => -3,
        }
    }
}

/// Size of the IP text buffer in [`EnposeDeviceInfo`], including the
/// terminating null. The API is IPv4-only; the buffer keeps the 46-byte
/// `INET6_ADDRSTRLEN` size for ABI headroom.
pub const IP_BUF_LEN: usize = 46;

/// C view of one discovered device.
///
/// Mirrors [`DeviceInfo`], but the address is rendered into a fixed,
/// null-terminated text buffer.
#[derive(Clone, Copy, PartialEq, Eq, Debug)]
pub struct EnposeDeviceInfo {
    /// Null-terminated IPv4 address text.
    pub ip: [u8; 46],
    /// Factory serial number of the device.
    pub serial: u32,
    /// `true` when the device's protocol version matches this library.
    pub compatible: bool,
}

/// The ASCII digit for `d` (`0 <= d < 10`).
pub open spec fn digit(d: int) -> u8 {
    (48 + d) as u8
}

/// The decimal text of `n`, without leading zeros.
pub open spec fn decimal_text(n: u8) -> Seq<u8> {
    if n >= 100 {
        seq![digit((n / 100) as int), digit(((n / 10) % 10) as int), digit((n % 10) as int)]
    } else if n >= 10 {
        seq![digit((n / 10) as int), digit((n % 10) as int)]
    } else {
        seq![digit(n as int)]
    }
}

/// The dotted-decimal text of an IPv4 address, e.g. `192.168.10.10`.
pub open spec fn ipv4_text(ip: [u8; 4]) -> Seq<u8> {
    decimal_text(ip[0]) + seq![46u8] + decimal_text(ip[1]) + seq![46u8] + decimal_text(ip[2])
        + seq![46u8] + decimal_text(ip[3])
}

/// The [`IP_BUF_LEN`]-byte buffer holding `text`: as much of it as fits
/// with room for the terminating null, then nulls.
pub open spec fn c_text_field(text: Seq<u8>) -> Seq<u8> {
    Seq::new(
        IP_BUF_LEN as nat,
        |i: int|
            if i < text.len() && i < IP_BUF_LEN - 1 {
                text[i]
            } else {
                0u8
            },
    )
}

/// Append the decimal text of `n` to `buf`.
fn push_decimal(buf: &mut Vec<u8>, n: u8)
    ensures
        final(buf)@ == old(buf)@ + decimal_text(n),
{
    if n >= 100 {
        buf.push(48 + n / 100);
        buf.push(48 + (n / 10) % 10);
        buf.push(48 + n % 10);
    } else if n >= 10 {
        buf.push(48 + n / 10);
        buf.push(48 + n % 10);
    } else {
        buf.push(48 + n);
    }
    assert(buf@ =~= old(buf)@ + decimal_text(n));
}

/// The dotted-decimal text of an IPv4 address, e.g. `192.168.10.10`.
pub fn ipv4_to_text(ip: &[u8; 4]) -> (r: Vec<u8>)
    ensures
        r@ == ipv4_text(*ip),
{
    let mut r: Vec<u8> = Vec::new();
    push_decimal(&mut r, ip[0]);
    r.push(46);
    push_decimal(&mut r, ip[1]);
    r.push(46);
    push_decimal(&mut r, ip[2]);
    r.push(46);
    push_decimal(&mut r, ip[3]);
    assert(r@ =~= ipv4_text(*ip));
    r
}

/// Render `text` into a null-terminated [`IP_BUF_LEN`]-byte buffer,
/// leaving at least one byte for the terminator (longer text is cut).
pub fn text_to_c_field(text: &[u8]) -> (r: [u8; 46])
    ensures
        r@ == c_text_field(text@),
{
    let mut r: [u8; 46] = [0u8; 46];
    let n: usize = if text.len() < IP_BUF_LEN - 1 {
        text.len()
    } else {
        IP_BUF_LEN - 1
    };
    let mut i: usize = 0;
    while i < n
        invariant
            n <= text@.len(),
            n <= IP_BUF_LEN - 1,
            i <= n,
            forall|k: int| 0 <= k < i ==> r@[k] == text@[k],
            forall|k: int| i <= k < IP_BUF_LEN ==> r@[k] == 0u8,
        decreases n - i,
    {
        r[i] = text[i];
        i = i + 1;
    }
    assert(r@ =~= c_text_field(text@));
    r
}

/// Convert a [`DeviceInfo`] into its C representation.
pub fn device_to_c(info: &DeviceInfo) -> (r: EnposeDeviceInfo)
    ensures
        r.ip@ == c_text_field(ipv4_text(info.ip)),
        r.serial == info.serial,
        r.compatible == info.compatible,
{
    let text = ipv4_to_text(&info.ip);
    EnposeDeviceInfo { ip: text_to_c_field(text.as_slice()), serial: info.serial, compatible: info.compatible }
}

/// The number a string of ASCII decimal digits denotes.
pub open spec fn decimal_value(s: Seq<u8>) -> int
    decreases s.len(),
{
    if s.len() == 0 {
        0
    } else {
        10 * decimal_value(s.drop_last()) + (s.last() as int - 48)
    }
}

/// `t` is a canonical decimal numeral of `n`: one to three ASCII digits, no
/// leading zero, denoting `n`.
pub open spec fn is_decimal_numeral_of(t: Seq<u8>, n: int) -> bool {
    &&& 1 <= t.len() <= 3
    &&& forall|i: int| 0 <= i < t.len() ==> 48 <= #[trigger] t[i] <= 57
    &&& (t.len() > 1 ==> t[0] != 48)
    &&& decimal_value(t) == n
}

/// The decimal text of an octet is its canonical numeral: read back as a
/// base-10 number it is the octet.
pub proof fn lemma_decimal_text_denotes(n: u8)
    ensures
        is_decimal_numeral_of(decimal_text(n), n as int),
{
    let t = decimal_text(n);
    reveal_with_fuel(decimal_value, 4);
    if n >= 100 {
        assert(t.drop_last().drop_last() =~= seq![t[0]]);
        assert(t.drop_last() =~= seq![t[0], t[1]]);
        assert(seq![t[0]].drop_last() =~= Seq::<u8>::empty());
        assert(100 * (n / 100) + 10 * ((n / 10) % 10) + n % 10 == n) by (nonlinear_arith);
    } else if n >= 10 {
        assert(t.drop_last() =~= seq![t[0]]);
        assert(seq![t[0]].drop_last() =~= Seq::<u8>::empty());
        assert(10 * (n / 10) + n % 10 == n) by (nonlinear_arith);
    } else {
        assert(t.drop_last() =~= Seq::<u8>::empty());
    }
}

/// The dotted-decimal text of an address is four canonical numerals of the
/// octets, in order, joined by dots.
pub proof fn lemma_ipv4_text_denotes(ip: [u8; 4])
    ensures
        exists|t0: Seq<u8>, t1: Seq<u8>, t2: Seq<u8>, t3: Seq<u8>|
            {
                &&& ipv4_text(ip) == t0 + seq![46u8] + t1 + seq![46u8] + t2 + seq![46u8] + t3
                &&& #[trigger] is_decimal_numeral_of(t0, ip[0] as int)
                &&& #[trigger] is_decimal_numeral_of(t1, ip[1] as int)
                &&& #[trigger] is_decimal_numeral_of(t2, ip[2] as int)
                &&& #[trigger] is_decimal_numeral_of(t3, ip[3] as int)
            },
{
    lemma_decimal_text_denotes(ip[0]);
    lemma_decimal_text_denotes(ip[1]);
    lemma_decimal_text_denotes(ip[2]);
    lemma_decimal_text_denotes(ip[3]);
    let t0 = decimal_text(ip[0]);
    let t1 = decimal_text(ip[1]);
    let t2 = decimal_text(ip[2]);
    let t3 = decimal_text(ip[3]);
    assert(is_decimal_numeral_of(t0, ip[0] as int));
    assert(is_decimal_numeral_of(t1, ip[1] as int));
    assert(is_decimal_numeral_of(t2, ip[2] as int));
    assert(is_decimal_numeral_of(t3, ip[3] as int));
}

/// The C text buffer always has [`IP_BUF_LEN`] bytes and ends in a null; it
/// starts with the text, cut to at most 45 bytes, and is null after it.
pub proof fn lemma_c_text_field_layout(text: Seq<u8>)
    ensures
        c_text_field(text).len() == 46,
        c_text_field(text)[45] == 0u8,
        forall|i: int| 0 <= i < text.len() && i < 45 ==> #[trigger] c_text_field(text)[i] == text[i],
        forall|i: int| text.len() <= i < 46 ==> #[trigger] c_text_field(text)[i] == 0u8,
{
}

/// The address text of a device fits its C buffer: reading the buffer up
/// to its first null gives the dotted-decimal text back.
pub proof fn lemma_device_ip_field_holds_text(ip: [u8; 4])
    ensures
        ({
            let text = ipv4_text(ip);
            let field = c_text_field(text);
            &&& text.len() <= 15
            &&& field.take(text.len() as int) == text
            &&& field[text.len() as int] == 0u8
            &&& forall|i: int| 0 <= i < text.len() ==> #[trigger] text[i] != 0u8
        }),
{
    let text = ipv4_text(ip);
    let field = c_text_field(text);
    assert(field.take(text.len() as int) =~= text);
}

} // verus!
