//! Integers and strings as they travel on the wire.
//!
//! Every integer is big-endian (network byte order). A string is a `u16`
//! count of bytes followed by that many bytes of UTF-8.

use vstd::prelude::*;
use vstd::slice::slice_subrange;
use vstd::slice::slice_to_vec;
use vstd::utf8::decode_utf8;
use vstd::utf8::encode_utf8;
use vstd::utf8::valid_utf8;

verus! {

/// Why a payload could not be turned into a value, or a value into a payload.
#[derive(Clone, Copy, Debug, PartialEq, Eq, Structural)]
pub enum CodecError {
    /// The type code names no message.
    UnknownCommand,
    /// The bytes of a string are not UTF-8.
    InvalidUtf8,
    /// A string declares more bytes than are left, or has more bytes than a
    /// `u16` can count.
    StringTooLong,
    /// The payload ends inside a field of fixed size.
    UnexpectedEnd,
    /// A tag or code holds a value that stands for nothing.
    InvalidValue,
    /// The frame carries another type of message than the one asked for.
    WrongType,
}

/// The two bytes of `x`, most significant first.
pub open spec fn u16_bytes(x: u16) -> Seq<u8> {
    seq![(x / 256) as u8, (x % 256) as u8]
}

/// The number that the first two bytes of `b` spell.
pub open spec fn u16_value(b: Seq<u8>) -> u16 {
    (b[0] as int * 256 + b[1] as int) as u16
}

/// The four bytes of `x`, most significant first.
pub open spec fn u32_bytes(x: u32) -> Seq<u8> {
    seq![
        (x / 0x100_0000) as u8,
        (x / 0x1_0000 % 256) as u8,
        (x / 0x100 % 256) as u8,
        (x % 256) as u8,
    ]
}

/// The number that the first four bytes of `b` spell.
pub open spec fn u32_value(b: Seq<u8>) -> u32 {
    (b[0] as int * 0x100_0000 + b[1] as int * 0x1_0000 + b[2] as int * 0x100 + b[3] as int) as u32
}

/// The eight bytes of `x`, most significant first.
pub open spec fn u64_bytes(x: u64) -> Seq<u8> {
    u32_bytes((x / 0x1_0000_0000) as u32) + u32_bytes((x % 0x1_0000_0000) as u32)
}

/// The number that the first eight bytes of `b` spell.
pub open spec fn u64_value(b: Seq<u8>) -> u64 {
    (u32_value(b.subrange(0, 4)) as int * 0x1_0000_0000 + u32_value(b.subrange(4, 8)) as int) as u64
}

/// The unsigned number whose 32 bits are those of `x` in two's complement.
pub open spec fn i32_bits(x: i32) -> u32 {
    if x >= 0 {
        x as u32
    } else {
        (x + 0x1_0000_0000) as u32
    }
}

/// The signed number whose bits in two's complement are those of `u`.
pub open spec fn i32_of_bits(u: u32) -> i32 {
    if u < 0x8000_0000 {
        u as i32
    } else {
        (u - 0x1_0000_0000) as i32
    }
}

/// The four bytes of `x` in two's complement, most significant first.
pub open spec fn i32_bytes(x: i32) -> Seq<u8> {
    u32_bytes(i32_bits(x))
}

/// The signed number that the first four bytes of `b` spell.
pub open spec fn i32_value(b: Seq<u8>) -> i32 {
    i32_of_bits(u32_value(b))
}

/// A string on the wire: the count of its UTF-8 bytes, then the bytes.
/// Meant for strings of at most 65535 bytes.
pub open spec fn str_bytes(s: Seq<char>) -> Seq<u8> {
    u16_bytes(encode_utf8(s).len() as u16) + encode_utf8(s)
}

/// Whether a string is short enough to travel.
pub open spec fn str_fits(s: Seq<char>) -> bool {
    encode_utf8(s).len() <= u16::MAX
}

/// What reading a string at the start of `b` gives: the string and the
/// number of bytes it took.
pub open spec fn str_parse(b: Seq<u8>) -> Result<(Seq<char>, nat), CodecError> {
    if b.len() < 2 {
        Err(CodecError::UnexpectedEnd)
    } else if b.len() < 2 + u16_value(b) {
        Err(CodecError::StringTooLong)
    } else if !valid_utf8(b.subrange(2, 2 + u16_value(b))) {
        Err(CodecError::InvalidUtf8)
    } else {
        Ok((decode_utf8(b.subrange(2, 2 + u16_value(b))), (2 + u16_value(b)) as nat))
    }
}

/// Reading back two written bytes gives the number that was written,
/// whatever follows them.
pub proof fn lemma_u16_round_trip(x: u16, rest: Seq<u8>)
    ensures
        u16_bytes(x).len() == 2,
        u16_value(u16_bytes(x) + rest) == x,
{
}

/// Two bytes are the way to write the number they spell.
pub proof fn lemma_u16_bytes_of_value(b: Seq<u8>)
    requires
        b.len() >= 2,
    ensures
        u16_bytes(u16_value(b)) == b.subrange(0, 2),
{
    assert(u16_bytes(u16_value(b)) =~= b.subrange(0, 2));
}

/// Reading back four written bytes gives the number that was written.
pub proof fn lemma_u32_round_trip(x: u32, rest: Seq<u8>)
    ensures
        u32_bytes(x).len() == 4,
        u32_value(u32_bytes(x) + rest) == x,
{
    let b = u32_bytes(x) + rest;
    let q2 = x as int / 0x100;
    let q1 = x as int / 0x1_0000;
    let q0 = x as int / 0x100_0000;
    assert(x == q2 * 0x100 + x as int % 256);
    assert(q2 == q1 * 0x100 + q2 % 256);
    assert(q1 == q0 * 0x100 + q1 % 256);
    assert(b[0] == q0 && b[1] == q1 % 256 && b[2] == q2 % 256 && b[3] == x as int % 256);
}

/// Four bytes are the way to write the number they spell.
pub proof fn lemma_u32_bytes_of_value(b: Seq<u8>)
    requires
        b.len() >= 4,
    ensures
        u32_bytes(u32_value(b)) == b.subrange(0, 4),
{
    let b0 = b[0] as int;
    let b1 = b[1] as int;
    let b2 = b[2] as int;
    let b3 = b[3] as int;
    let x: int = b0 * 0x100_0000 + b1 * 0x1_0000 + b2 * 0x100 + b3;
    assert(u32_value(b) == x);
    assert(x / 0x100_0000 == b0);
    assert(x / 0x1_0000 == b0 * 0x100 + b1);
    assert(x / 0x100 == b0 * 0x1_0000 + b1 * 0x100 + b2);
    assert(u32_bytes(u32_value(b)) =~= b.subrange(0, 4));
}

/// Reading back eight written bytes gives the number that was written.
pub proof fn lemma_u64_round_trip(x: u64, rest: Seq<u8>)
    ensures
        u64_bytes(x).len() == 8,
        u64_value(u64_bytes(x) + rest) == x,
{
    let hi = (x / 0x1_0000_0000) as u32;
    let lo = (x % 0x1_0000_0000) as u32;
    let b = u64_bytes(x) + rest;
    assert(b.subrange(0, 4) =~= u32_bytes(hi));
    assert(b.subrange(4, 8) =~= u32_bytes(lo));
    lemma_u32_round_trip(hi, Seq::empty());
    lemma_u32_round_trip(lo, Seq::empty());
    assert(u32_bytes(hi) + Seq::<u8>::empty() =~= u32_bytes(hi));
    assert(u32_bytes(lo) + Seq::<u8>::empty() =~= u32_bytes(lo));
}

/// Eight bytes are the way to write the number they spell.
pub proof fn lemma_u64_bytes_of_value(b: Seq<u8>)
    requires
        b.len() >= 8,
    ensures
        u64_bytes(u64_value(b)) == b.subrange(0, 8),
{
    let front = b.subrange(0, 4);
    let back = b.subrange(4, 8);
    let hi = u32_value(front);
    let lo = u32_value(back);
    let x = u64_value(b);
    assert(x == hi as int * 0x1_0000_0000 + lo as int);
    assert((x / 0x1_0000_0000) as u32 == hi && (x % 0x1_0000_0000) as u32 == lo);
    assert(u32_bytes(hi) == front) by {
        lemma_u32_bytes_of_value(front);
        assert(front.subrange(0, 4) =~= front);
    }
    assert(u32_bytes(lo) == back) by {
        lemma_u32_bytes_of_value(back);
        assert(back.subrange(0, 4) =~= back);
    }
    assert(front + back =~= b.subrange(0, 8));
}

/// A signed number survives the trip through its bits.
pub proof fn lemma_i32_round_trip(x: i32, rest: Seq<u8>)
    ensures
        i32_bytes(x).len() == 4,
        i32_value(i32_bytes(x) + rest) == x,
{
    lemma_u32_round_trip(i32_bits(x), rest);
}

/// A string that fits is read back as it was written, whatever follows it.
pub proof fn lemma_str_round_trip(s: Seq<char>, rest: Seq<u8>)
    requires
        str_fits(s),
    ensures
        str_bytes(s).len() == 2 + encode_utf8(s).len(),
        str_parse(str_bytes(s) + rest) == Ok::<(Seq<char>, nat), CodecError>(
            (s, str_bytes(s).len()),
        ),
{
    let body = encode_utf8(s);
    let n = body.len() as u16;
    let b = str_bytes(s) + rest;
    assert(b =~= u16_bytes(n) + (body + rest));
    lemma_u16_round_trip(n, body + rest);
    assert(b.subrange(2, 2 + n) =~= body);
    vstd::utf8::encode_utf8_valid_utf8(s);
    vstd::utf8::encode_utf8_decode_utf8(s);
}

/// Bytes that read as a string begin with the way to write that string.
pub proof fn lemma_str_bytes_of_parse(b: Seq<u8>)
    requires
        str_parse(b) is Ok,
    ensures
        str_fits(str_parse(b).unwrap().0),
        str_bytes(str_parse(b).unwrap().0) == b.subrange(0, str_parse(b).unwrap().1 as int),
{
    let n = u16_value(b);
    let body = b.subrange(2, 2 + n);
    vstd::utf8::decode_utf8_encode_utf8(body);
    lemma_u16_bytes_of_value(b);
    assert(str_bytes(decode_utf8(body)) =~= b.subrange(0, 2 + n));
}

/// Whether an error says no more than that the bytes at hand end too
/// soon, so that more bytes may mend it.
pub open spec fn ends_early(e: CodecError) -> bool {
    e == CodecError::UnexpectedEnd || e == CodecError::StringTooLong
}

/// Bytes that arrive later change nothing that was decided: once the
/// bytes at hand give a string, or are found not to be UTF-8, they give
/// the same with any bytes behind them.
pub proof fn lemma_str_parse_is_stable(b: Seq<u8>, more: Seq<u8>)
    requires
        str_parse(b) matches Err(e) ==> !ends_early(e),
    ensures
        str_parse(b + more) == str_parse(b),
{
    let c = b + more;
    assert(c[0] == b[0] && c[1] == b[1]);
    assert(c.subrange(2, 2 + u16_value(b)) =~= b.subrange(2, 2 + u16_value(b)));
}

/// Appends `x` as two bytes.
pub fn put_u16(out: &mut Vec<u8>, x: u16)
    ensures
        final(out)@ == old(out)@ + u16_bytes(x),
{
    out.push((x / 256) as u8);
    out.push((x % 256) as u8);
    assert(out@ =~= old(out)@ + u16_bytes(x));
}

/// Appends `x` as four bytes.
pub fn put_u32(out: &mut Vec<u8>, x: u32)
    ensures
        final(out)@ == old(out)@ + u32_bytes(x),
{
    out.push((x / 0x100_0000) as u8);
    out.push((x / 0x1_0000 % 256) as u8);
    out.push((x / 0x100 % 256) as u8);
    out.push((x % 256) as u8);
    assert(out@ =~= old(out)@ + u32_bytes(x));
}

/// Appends `x` as eight bytes.
pub fn put_u64(out: &mut Vec<u8>, x: u64)
    ensures
        final(out)@ == old(out)@ + u64_bytes(x),
{
    let ghost before = out@;
    put_u32(out, (x / 0x1_0000_0000) as u32);
    put_u32(out, (x % 0x1_0000_0000) as u32);
    assert(out@ =~= before + u64_bytes(x));
}

/// Appends `x` as four bytes in two's complement.
pub fn put_i32(out: &mut Vec<u8>, x: i32)
    ensures
        final(out)@ == old(out)@ + i32_bytes(x),
{
    let bits: u32 = if x >= 0 {
        x as u32
    } else {
        (x as i64 + 0x1_0000_0000) as u32
    };
    put_u32(out, bits);
}

/// Appends the bytes of `src`.
pub fn put_bytes(out: &mut Vec<u8>, src: &[u8])
    ensures
        final(out)@ == old(out)@ + src@,
{
    let mut i: usize = 0;
    while i < src.len()
        invariant
            i <= src.len(),
            out@ == old(out)@ + src@.subrange(0, i as int),
        decreases src.len() - i,
    {
        out.push(src[i]);
        i += 1;
        assert(out@ =~= old(out)@ + src@.subrange(0, i as int));
    }
    assert(src@.subrange(0, i as int) =~= src@);
}

/// The number in the two bytes of `b` at `at`.
pub(crate) fn u16_at(b: &[u8], at: usize) -> (x: u16)
    requires
        at + 2 <= b.len(),
    ensures
        x == u16_value(b@.subrange(at as int, at + 2)),
{
    let hi: u16 = b[at] as u16;
    let lo: u16 = b[at + 1] as u16;
    hi * 256 + lo
}

/// The number in the four bytes of `b` at `at`.
pub(crate) fn u32_at(b: &[u8], at: usize) -> (x: u32)
    requires
        at + 4 <= b.len(),
    ensures
        x == u32_value(b@.subrange(at as int, at + 4)),
{
    let b0: u32 = b[at] as u32;
    let b1: u32 = b[at + 1] as u32;
    let b2: u32 = b[at + 2] as u32;
    let b3: u32 = b[at + 3] as u32;
    b0 * 0x100_0000 + b1 * 0x1_0000 + b2 * 0x100 + b3
}

/// The number in the eight bytes of `b` at `at`.
pub(crate) fn u64_at(b: &[u8], at: usize) -> (x: u64)
    requires
        at + 8 <= b.len(),
    ensures
        x == u64_value(b@.subrange(at as int, at + 8)),
{
    let ghost window = b@.subrange(at as int, at + 8);
    assert(window.subrange(0, 4) =~= b@.subrange(at as int, at + 4));
    assert(window.subrange(4, 8) =~= b@.subrange(at + 4, at + 8));
    let hi: u64 = u32_at(b, at) as u64;
    let lo: u64 = u32_at(b, at + 4) as u64;
    hi * 0x1_0000_0000 + lo
}

/// Whether `b` holds `width` bytes from `at` on.
fn holds(b: &[u8], at: usize, width: usize) -> (r: bool)
    ensures
        r == (at + width <= b@.len()),
{
    b.len() >= width && at <= b.len() - width
}

/// The number in the two bytes of `b` at `at`; `None` where `b` ends
/// before them.
pub fn get_u16(b: &[u8], at: usize) -> (r: Option<u16>)
    ensures
        r == if at + 2 <= b@.len() {
            Some(u16_value(b@.subrange(at as int, at + 2)))
        } else {
            None
        },
{
    if holds(b, at, 2) {
        Some(u16_at(b, at))
    } else {
        None
    }
}

/// The number in the four bytes of `b` at `at`; `None` where `b` ends
/// before them.
pub fn get_u32(b: &[u8], at: usize) -> (r: Option<u32>)
    ensures
        r == if at + 4 <= b@.len() {
            Some(u32_value(b@.subrange(at as int, at + 4)))
        } else {
            None
        },
{
    if holds(b, at, 4) {
        Some(u32_at(b, at))
    } else {
        None
    }
}

/// The number in the eight bytes of `b` at `at`; `None` where `b` ends
/// before them.
pub fn get_u64(b: &[u8], at: usize) -> (r: Option<u64>)
    ensures
        r == if at + 8 <= b@.len() {
            Some(u64_value(b@.subrange(at as int, at + 8)))
        } else {
            None
        },
{
    if holds(b, at, 8) {
        Some(u64_at(b, at))
    } else {
        None
    }
}

/// The signed number in the four bytes of `b` at `at`; `None` where `b`
/// ends before them.
pub fn get_i32(b: &[u8], at: usize) -> (r: Option<i32>)
    ensures
        r == if at + 4 <= b@.len() {
            Some(i32_value(b@.subrange(at as int, at + 4)))
        } else {
            None
        },
{
    if !holds(b, at, 4) {
        return None;
    }
    let u = u32_at(b, at);
    if u < 0x8000_0000 {
        Some(u as i32)
    } else {
        Some((u as i64 - 0x1_0000_0000) as i32)
    }
}

/// `String::from_utf8` of std: the string that the bytes spell where they
/// are well-formed UTF-8, nothing where they are not.
#[verifier::external_body]
pub(crate) fn utf8_to_string(bytes: Vec<u8>) -> (r: Option<String>)
    ensures
        r is Some <==> valid_utf8(bytes@),
        r matches Some(s) ==> s@ == decode_utf8(bytes@),
{
    String::from_utf8(bytes).ok()
}

/// Appends `s` as a counted string. A string of more than 65535 bytes is
/// refused and nothing is written.
pub fn write_str(out: &mut Vec<u8>, s: &str) -> (r: Result<(), CodecError>)
    ensures
        str_fits(s@) ==> r is Ok && final(out)@ == old(out)@ + str_bytes(s@),
        !str_fits(s@) ==> r == Err::<(), CodecError>(CodecError::StringTooLong) && final(out)@
            == old(out)@,
{
    let body = s.as_bytes();
    if body.len() > 0xffff {
        return Err(CodecError::StringTooLong);
    }
    let ghost before = out@;
    put_u16(out, body.len() as u16);
    put_bytes(out, body);
    assert(out@ =~= before + str_bytes(s@));
    Ok(())
}

/// What is left of `b` from `at` on; nothing where `at` lies past the end.
pub open spec fn tail(b: Seq<u8>, at: int) -> Seq<u8> {
    if 0 <= at <= b.len() {
        b.skip(at)
    } else {
        Seq::empty()
    }
}

/// Reads the counted string that starts at `at`, and says how many bytes
/// it took.
pub fn read_str(b: &[u8], at: usize) -> (r: Result<(String, usize), CodecError>)
    ensures
        match str_parse(tail(b@, at as int)) {
            Ok((s, n)) => r matches Ok((got, used)) && got@ == s && used == n,
            Err(e) => r == Err::<(String, usize), CodecError>(e),
        },
{
    let ghost rest = tail(b@, at as int);
    let n: usize = match get_u16(b, at) {
        Some(v) => v as usize,
        None => {
            return Err(CodecError::UnexpectedEnd);
        },
    };
    assert(b@.subrange(at as int, at + 2) =~= rest.subrange(0, 2));
    assert(n == u16_value(rest));
    if b.len() - at - 2 < n {
        return Err(CodecError::StringTooLong);
    }
    let body = slice_to_vec(slice_subrange(b, at + 2, at + 2 + n));
    assert(body@ =~= rest.subrange(2, 2 + n));
    match utf8_to_string(body) {
        Some(s) => Ok((s, 2 + n)),
        None => Err(CodecError::InvalidUtf8),
    }
}

} // verus!
