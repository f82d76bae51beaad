//! Primitive wire types: big-endian integers, length prefixes, strings, tag
//! buffers and 128-bit identifiers.
//!
//! A reader takes a cursor `&mut &[u8]` and moves it past what it read. A
//! writer appends to a `Vec<u8>`.

use vstd::prelude::*;
use vstd::utf8::{
    decode_utf8, decode_utf8_encode_utf8, encode_utf8, encode_utf8_decode_utf8,
    encode_utf8_valid_utf8, valid_utf8,
};

verus! {

/// Why a byte sequence could not be decoded.
#[derive(Clone, Copy, Debug, PartialEq, Eq, Structural)]
pub enum DecodeError {
    /// Fewer bytes remain than the next field needs.
    Truncated,
    /// A legacy length prefix is negative.
    MalformedLength,
    /// A tag buffer announces tagged fields, which are not supported.
    UnsupportedFeature,
    /// The header names an API key that has no schema.
    UnsupportedApiKey,
}

/// The convention by which a length-prefixed field states its length.
#[derive(Clone, Copy, Debug, PartialEq, Eq, Structural)]
pub enum Encoding {
    /// The prefix is the length itself: a signed byte for an array, a signed
    /// 16-bit integer for a string.
    Legacy,
    /// The prefix is one unsigned byte holding the length plus one; zero
    /// stands for an absent value, which reads as empty.
    Compact,
}

/// The longest string, in bytes, and the longest array, in elements, that a
/// compact length prefix of one byte can announce.
pub const MAX_COMPACT_LEN: usize = 254;

/// The outcome of parsing a prefix of a byte sequence: the value and the
/// bytes after it, or the reason for failure.
pub type Parsed<V> = Result<(V, Seq<u8>), DecodeError>;

/// A reader's outcome and the cursor it left agree with a parse.
pub open spec fn yields<V>(outcome: Result<V, DecodeError>, rest: Seq<u8>, parsed: Parsed<V>) -> bool {
    match outcome {
        Ok(value) => parsed == Ok::<(V, Seq<u8>), DecodeError>((value, rest)),
        Err(error) => parsed == Err::<(V, Seq<u8>), DecodeError>(error),
    }
}

// ---------------------------------------------------------------------------
// Big-endian integers as mathematics
// ---------------------------------------------------------------------------

/// The natural number that `bytes` spell, most significant byte first.
pub open spec fn be_nat(bytes: Seq<u8>) -> nat
    decreases bytes.len(),
{
    if bytes.len() == 0 {
        0
    } else {
        be_nat(bytes.drop_last()) * 256 + bytes.last() as nat
    }
}

/// The `width` bytes that spell `value`, most significant byte first. A
/// value of `256^width` or more loses its high part.
pub open spec fn nat_be_bytes(value: nat, width: nat) -> Seq<u8>
    decreases width,
{
    if width == 0 {
        Seq::empty()
    } else {
        nat_be_bytes(value / 256, (width - 1) as nat).push((value % 256) as u8)
    }
}

/// `256^width`: one more than the largest number that `width` bytes spell.
pub open spec fn radix(width: nat) -> nat
    decreases width,
{
    if width == 0 {
        1
    } else {
        256 * radix((width - 1) as nat)
    }
}

/// The two's-complement reading of a number below `2 * half`.
pub open spec fn signed(value: nat, half: nat) -> int {
    if value >= half {
        value - 2 * half
    } else {
        value as int
    }
}

/// The number below `2 * half` whose two's-complement reading is `value`.
pub open spec fn unsigned(value: int, half: nat) -> nat {
    if value < 0 {
        (value + 2 * half) as nat
    } else {
        value as nat
    }
}

/// The signed byte at the front of `bytes`.
pub open spec fn be_i8(bytes: Seq<u8>) -> int {
    signed(bytes[0] as nat, 0x80)
}

/// The signed 16-bit integer at the front of `bytes`.
pub open spec fn be_i16(bytes: Seq<u8>) -> int {
    signed(be_nat(bytes.take(2)), 0x8000)
}

/// The unsigned 32-bit integer at the front of `bytes`.
pub open spec fn be_u32(bytes: Seq<u8>) -> int {
    be_nat(bytes.take(4)) as int
}

/// The signed 32-bit integer at the front of `bytes`.
pub open spec fn be_i32(bytes: Seq<u8>) -> int {
    signed(be_nat(bytes.take(4)), 0x8000_0000)
}

/// The signed 64-bit integer at the front of `bytes`.
pub open spec fn be_i64(bytes: Seq<u8>) -> int {
    signed(be_nat(bytes.take(8)), 0x8000_0000_0000_0000)
}

/// The unsigned 128-bit integer at the front of `bytes`.
pub open spec fn be_u128(bytes: Seq<u8>) -> int {
    be_nat(bytes.take(16)) as int
}

/// The two bytes of a signed 16-bit integer.
pub open spec fn i16_be_bytes(value: i16) -> Seq<u8> {
    nat_be_bytes(unsigned(value as int, 0x8000), 2)
}

/// The four bytes of an unsigned 32-bit integer.
pub open spec fn u32_be_bytes(value: u32) -> Seq<u8> {
    nat_be_bytes(value as nat, 4)
}

/// The four bytes of a signed 32-bit integer.
pub open spec fn i32_be_bytes(value: i32) -> Seq<u8> {
    nat_be_bytes(unsigned(value as int, 0x8000_0000), 4)
}

/// The eight bytes of a signed 64-bit integer.
pub open spec fn i64_be_bytes(value: i64) -> Seq<u8> {
    nat_be_bytes(unsigned(value as int, 0x8000_0000_0000_0000), 8)
}

/// The sixteen bytes of an unsigned 128-bit integer.
pub open spec fn u128_be_bytes(value: u128) -> Seq<u8> {
    nat_be_bytes(value as nat, 16)
}

// ---------------------------------------------------------------------------
// What each primitive reader yields
// ---------------------------------------------------------------------------

/// One unsigned byte.
pub open spec fn parse_u8(bytes: Seq<u8>) -> Parsed<u8> {
    if bytes.len() < 1 {
        Err(DecodeError::Truncated)
    } else {
        Ok((bytes[0], bytes.skip(1)))
    }
}

/// One signed byte.
pub open spec fn parse_i8(bytes: Seq<u8>) -> Parsed<i8> {
    if bytes.len() < 1 {
        Err(DecodeError::Truncated)
    } else {
        Ok((be_i8(bytes) as i8, bytes.skip(1)))
    }
}

/// A signed 16-bit integer in two bytes.
pub open spec fn parse_i16(bytes: Seq<u8>) -> Parsed<i16> {
    if bytes.len() < 2 {
        Err(DecodeError::Truncated)
    } else {
        Ok((be_i16(bytes) as i16, bytes.skip(2)))
    }
}

/// An unsigned 32-bit integer in four bytes.
pub open spec fn parse_u32(bytes: Seq<u8>) -> Parsed<u32> {
    if bytes.len() < 4 {
        Err(DecodeError::Truncated)
    } else {
        Ok((be_u32(bytes) as u32, bytes.skip(4)))
    }
}

/// A signed 32-bit integer in four bytes.
pub open spec fn parse_i32(bytes: Seq<u8>) -> Parsed<i32> {
    if bytes.len() < 4 {
        Err(DecodeError::Truncated)
    } else {
        Ok((be_i32(bytes) as i32, bytes.skip(4)))
    }
}

/// A signed 64-bit integer in eight bytes.
pub open spec fn parse_i64(bytes: Seq<u8>) -> Parsed<i64> {
    if bytes.len() < 8 {
        Err(DecodeError::Truncated)
    } else {
        Ok((be_i64(bytes) as i64, bytes.skip(8)))
    }
}

/// A 128-bit identifier in sixteen bytes.
pub open spec fn parse_uuid(bytes: Seq<u8>) -> Parsed<u128> {
    if bytes.len() < 16 {
        Err(DecodeError::Truncated)
    } else {
        Ok((be_u128(bytes) as u128, bytes.skip(16)))
    }
}

/// The next `count` bytes as they are.
pub open spec fn parse_bytes(bytes: Seq<u8>, count: nat) -> Parsed<Seq<u8>> {
    if bytes.len() < count {
        Err(DecodeError::Truncated)
    } else {
        Ok((bytes.take(count as int), bytes.skip(count as int)))
    }
}

/// The number of elements or bytes that a compact length prefix announces:
/// one less than the stored byte, and none for a stored zero.
pub open spec fn compact_count(stored: u8) -> nat {
    if stored == 0 {
        0
    } else {
        (stored - 1) as nat
    }
}

/// The byte that announces `count` elements or bytes in the compact form.
pub open spec fn compact_prefix(count: nat) -> u8
    recommends
        count <= MAX_COMPACT_LEN,
{
    (count + 1) as u8
}

/// A compact length prefix, read as the count it announces.
pub open spec fn parse_compact_length(bytes: Seq<u8>) -> Parsed<nat> {
    match parse_u8(bytes) {
        Err(error) => Err(error),
        Ok((stored, rest)) => Ok((compact_count(stored), rest)),
    }
}

/// The length prefix of an array, read as the number of its elements.
pub open spec fn parse_array_length(bytes: Seq<u8>, encoding: Encoding) -> Parsed<nat> {
    match encoding {
        Encoding::Compact => parse_compact_length(bytes),
        Encoding::Legacy => match parse_i8(bytes) {
            Err(error) => Err(error),
            Ok((count, rest)) => if count < 0 {
                Err(DecodeError::MalformedLength)
            } else {
                Ok((count as nat, rest))
            },
        },
    }
}

/// The length prefix of a string, read as the number of its bytes.
pub open spec fn parse_string_length(bytes: Seq<u8>, encoding: Encoding) -> Parsed<nat> {
    match encoding {
        Encoding::Compact => parse_compact_length(bytes),
        Encoding::Legacy => match parse_i16(bytes) {
            Err(error) => Err(error),
            Ok((count, rest)) => if count < 0 {
                Err(DecodeError::MalformedLength)
            } else {
                Ok((count as nat, rest))
            },
        },
    }
}

/// The characters that a lossy UTF-8 decoder makes of bytes that are not
/// valid UTF-8: the text with U+FFFD in place of each invalid sequence.
pub uninterp spec fn lossy_utf8(bytes: Seq<u8>) -> Seq<char>;

/// The text of the bytes of a string field. Valid UTF-8 is the text that
/// it encodes; anything else is decoded with substitutions.
pub open spec fn lenient_text(raw: Seq<u8>) -> Seq<char> {
    if valid_utf8(raw) {
        decode_utf8(raw)
    } else {
        lossy_utf8(raw)
    }
}

/// A length-prefixed string, decoded leniently.
pub open spec fn parse_string(bytes: Seq<u8>, encoding: Encoding) -> Parsed<Seq<char>> {
    match parse_string_length(bytes, encoding) {
        Err(error) => Err(error),
        Ok((count, rest)) => match parse_bytes(rest, count) {
            Err(error) => Err(error),
            Ok((raw, rest)) => Ok((lenient_text(raw), rest)),
        },
    }
}

/// A tag buffer: one byte, which must announce zero tagged fields.
pub open spec fn parse_tag_buffer(bytes: Seq<u8>) -> Parsed<()> {
    match parse_u8(bytes) {
        Err(error) => Err(error),
        Ok((count, rest)) => if count != 0 {
            Err(DecodeError::UnsupportedFeature)
        } else {
            Ok(((), rest))
        },
    }
}

// ---------------------------------------------------------------------------
// What each primitive writer emits
// ---------------------------------------------------------------------------

/// The marker for "no tagged fields".
pub open spec fn tag_buffer_wire() -> Seq<u8> {
    seq![0u8]
}

/// A string in the compact form: its UTF-8 length plus one, then its bytes.
pub open spec fn compact_string_wire(text: Seq<char>) -> Seq<u8> {
    seq![compact_prefix(encode_utf8(text).len())] + encode_utf8(text)
}

/// A string is short enough for a compact length prefix of one byte.
pub open spec fn compact_string_fits(text: Seq<char>) -> bool {
    encode_utf8(text).len() <= MAX_COMPACT_LEN
}

// ---------------------------------------------------------------------------
// Calls into the `bytes` crate and into std
// ---------------------------------------------------------------------------

/// `bytes::Buf::get_u8` on a byte slice: hands out the first byte and moves
/// the slice past it. The call panics on an empty slice, which the
/// precondition rules out.
#[verifier::external_body]
fn buf_get_u8(buffer: &mut &[u8]) -> (value: u8)
    requires
        old(buffer)@.len() >= 1,
    ensures
        value == old(buffer)@[0],
        final(buffer)@ == old(buffer)@.skip(1),
{
    bytes::Buf::get_u8(buffer)
}

/// `bytes::Buf::get_i8` on a byte slice: the first byte read as a signed
/// number; the slice moves past it. Panics on an empty slice.
#[verifier::external_body]
fn buf_get_i8(buffer: &mut &[u8]) -> (value: i8)
    requires
        old(buffer)@.len() >= 1,
    ensures
        value as int == be_i8(old(buffer)@),
        final(buffer)@ == old(buffer)@.skip(1),
{
    bytes::Buf::get_i8(buffer)
}

/// `bytes::Buf::get_i16` on a byte slice: the first two bytes read as a
/// signed big-endian number; the slice moves past them. Panics on fewer
/// than two bytes.
#[verifier::external_body]
fn buf_get_i16(buffer: &mut &[u8]) -> (value: i16)
    requires
        old(buffer)@.len() >= 2,
    ensures
        value as int == be_i16(old(buffer)@),
        final(buffer)@ == old(buffer)@.skip(2),
{
    bytes::Buf::get_i16(buffer)
}

/// `bytes::Buf::get_u32` on a byte slice: the first four bytes read as an
/// unsigned big-endian number; the slice moves past them. Panics on fewer
/// than four bytes.
#[verifier::external_body]
fn buf_get_u32(buffer: &mut &[u8]) -> (value: u32)
    requires
        old(buffer)@.len() >= 4,
    ensures
        value as int == be_u32(old(buffer)@),
        final(buffer)@ == old(buffer)@.skip(4),
{
    bytes::Buf::get_u32(buffer)
}

/// `bytes::Buf::get_i32` on a byte slice: the first four bytes read as a
/// signed big-endian number; the slice moves past them. Panics on fewer
/// than four bytes.
#[verifier::external_body]
fn buf_get_i32(buffer: &mut &[u8]) -> (value: i32)
    requires
        old(buffer)@.len() >= 4,
    ensures
        value as int == be_i32(old(buffer)@),
        final(buffer)@ == old(buffer)@.skip(4),
{
    bytes::Buf::get_i32(buffer)
}

/// `bytes::Buf::get_i64` on a byte slice: the first eight bytes read as a
/// signed big-endian number; the slice moves past them. Panics on fewer
/// than eight bytes.
#[verifier::external_body]
fn buf_get_i64(buffer: &mut &[u8]) -> (value: i64)
    requires
        old(buffer)@.len() >= 8,
    ensures
        value as int == be_i64(old(buffer)@),
        final(buffer)@ == old(buffer)@.skip(8),
{
    bytes::Buf::get_i64(buffer)
}

/// `bytes::Buf::get_u128` on a byte slice: the first sixteen bytes read as
/// an unsigned big-endian number; the slice moves past them. Panics on
/// fewer than sixteen bytes.
#[verifier::external_body]
fn buf_get_u128(buffer: &mut &[u8]) -> (value: u128)
    requires
        old(buffer)@.len() >= 16,
    ensures
        value as int == be_u128(old(buffer)@),
        final(buffer)@ == old(buffer)@.skip(16),
{
    bytes::Buf::get_u128(buffer)
}

/// `bytes::Buf::copy_to_bytes` on a byte slice: hands out the first `count`
/// bytes, here copied to a vector, and moves the slice past them. Panics
/// when fewer than `count` bytes remain.
#[verifier::external_body]
fn buf_copy_to_bytes(buffer: &mut &[u8], count: usize) -> (taken: Vec<u8>)
    requires
        count <= old(buffer)@.len(),
    ensures
        taken@ == old(buffer)@.take(count as int),
        final(buffer)@ == old(buffer)@.skip(count as int),
{
    bytes::Buf::copy_to_bytes(buffer, count).to_vec()
}

/// `String::from_utf8_lossy`: valid UTF-8 comes back as the text that it
/// encodes. Of other bytes it gives the text with U+FFFD for what is not
/// UTF-8, which depends on the bytes alone.
#[verifier::external_body]
fn string_from_utf8_lossy(bytes: &[u8]) -> (text: String)
    ensures
        valid_utf8(bytes@) ==> text@ == decode_utf8(bytes@),
        !valid_utf8(bytes@) ==> text@ == lossy_utf8(bytes@),
{
    String::from_utf8_lossy(bytes).into_owned()
}

/// `bytes::BufMut::put_u8` on a vector: appends the byte.
#[verifier::external_body]
fn buf_put_u8(out: &mut Vec<u8>, value: u8)
    ensures
        final(out)@ == old(out)@.push(value),
{
    bytes::BufMut::put_u8(out, value)
}

/// `i16::to_be_bytes`: the two bytes of the number, most significant first.
#[verifier::external_body]
fn i16_to_be_bytes(value: i16) -> (bytes: [u8; 2])
    ensures
        bytes@ == i16_be_bytes(value),
{
    value.to_be_bytes()
}

/// `i32::to_be_bytes`: the four bytes of the number, most significant first.
#[verifier::external_body]
fn i32_to_be_bytes(value: i32) -> (bytes: [u8; 4])
    ensures
        bytes@ == i32_be_bytes(value),
{
    value.to_be_bytes()
}

/// `i64::to_be_bytes`: the eight bytes of the number, most significant
/// first.
#[verifier::external_body]
fn i64_to_be_bytes(value: i64) -> (bytes: [u8; 8])
    ensures
        bytes@ == i64_be_bytes(value),
{
    value.to_be_bytes()
}

/// `u128::to_be_bytes`: the sixteen bytes of the number, most significant
/// first.
#[verifier::external_body]
fn u128_to_be_bytes(value: u128) -> (bytes: [u8; 16])
    ensures
        bytes@ == u128_be_bytes(value),
{
    value.to_be_bytes()
}

// ---------------------------------------------------------------------------
// Readers
// ---------------------------------------------------------------------------

/// Reads one unsigned byte.
pub fn read_u8(buffer: &mut &[u8]) -> (outcome: Result<u8, DecodeError>)
    ensures
        yields(outcome, final(buffer)@, parse_u8(old(buffer)@)),
        outcome is Err ==> final(buffer)@ == old(buffer)@,
{
    if buffer.len() < 1 {
        Err(DecodeError::Truncated)
    } else {
        Ok(buf_get_u8(buffer))
    }
}

/// Reads one signed byte.
pub fn read_i8(buffer: &mut &[u8]) -> (outcome: Result<i8, DecodeError>)
    ensures
        yields(outcome, final(buffer)@, parse_i8(old(buffer)@)),
        outcome is Err ==> final(buffer)@ == old(buffer)@,
{
    if buffer.len() < 1 {
        Err(DecodeError::Truncated)
    } else {
        Ok(buf_get_i8(buffer))
    }
}

/// Reads a signed 16-bit big-endian integer.
pub fn read_i16(buffer: &mut &[u8]) -> (outcome: Result<i16, DecodeError>)
    ensures
        yields(outcome, final(buffer)@, parse_i16(old(buffer)@)),
        outcome is Err ==> final(buffer)@ == old(buffer)@,
{
    if buffer.len() < 2 {
        Err(DecodeError::Truncated)
    } else {
        Ok(buf_get_i16(buffer))
    }
}

/// Reads an unsigned 32-bit big-endian integer.
pub fn read_u32(buffer: &mut &[u8]) -> (outcome: Result<u32, DecodeError>)
    ensures
        yields(outcome, final(buffer)@, parse_u32(old(buffer)@)),
        outcome is Err ==> final(buffer)@ == old(buffer)@,
{
    if buffer.len() < 4 {
        Err(DecodeError::Truncated)
    } else {
        Ok(buf_get_u32(buffer))
    }
}

/// Reads a signed 32-bit big-endian integer.
pub fn read_i32(buffer: &mut &[u8]) -> (outcome: Result<i32, DecodeError>)
    ensures
        yields(outcome, final(buffer)@, parse_i32(old(buffer)@)),
        outcome is Err ==> final(buffer)@ == old(buffer)@,
{
    if buffer.len() < 4 {
        Err(DecodeError::Truncated)
    } else {
        Ok(buf_get_i32(buffer))
    }
}

/// Reads a signed 64-bit big-endian integer.
pub fn read_i64(buffer: &mut &[u8]) -> (outcome: Result<i64, DecodeError>)
    ensures
        yields(outcome, final(buffer)@, parse_i64(old(buffer)@)),
        outcome is Err ==> final(buffer)@ == old(buffer)@,
{
    if buffer.len() < 8 {
        Err(DecodeError::Truncated)
    } else {
        Ok(buf_get_i64(buffer))
    }
}

/// Reads a 128-bit identifier: sixteen bytes, most significant first.
pub fn read_uuid(buffer: &mut &[u8]) -> (outcome: Result<u128, DecodeError>)
    ensures
        yields(outcome, final(buffer)@, parse_uuid(old(buffer)@)),
        outcome is Err ==> final(buffer)@ == old(buffer)@,
{
    if buffer.len() < 16 {
        Err(DecodeError::Truncated)
    } else {
        Ok(buf_get_u128(buffer))
    }
}

/// Reads the next `count` bytes.
pub fn read_bytes(buffer: &mut &[u8], count: usize) -> (outcome: Result<Vec<u8>, DecodeError>)
    ensures
        match outcome {
            Ok(taken) => parse_bytes(old(buffer)@, count as nat) == Ok::<
                (Seq<u8>, Seq<u8>),
                DecodeError,
            >((taken@, final(buffer)@)),
            Err(error) => parse_bytes(old(buffer)@, count as nat) == Err::<
                (Seq<u8>, Seq<u8>),
                DecodeError,
            >(error),
        },
        outcome is Err ==> final(buffer)@ == old(buffer)@,
{
    if buffer.len() < count {
        Err(DecodeError::Truncated)
    } else {
        Ok(buf_copy_to_bytes(buffer, count))
    }
}

/// Reads a compact length prefix and returns the count it announces: the
/// stored byte less one, or zero for a stored zero.
pub fn read_compact_length(buffer: &mut &[u8]) -> (outcome: Result<usize, DecodeError>)
    ensures
        match outcome {
            Ok(count) => parse_compact_length(old(buffer)@) == Ok::<(nat, Seq<u8>), DecodeError>(
                (count as nat, final(buffer)@),
            ),
            Err(error) => parse_compact_length(old(buffer)@) == Err::<(nat, Seq<u8>), DecodeError>(
                error,
            ),
        },
        outcome is Ok ==> outcome->Ok_0 <= MAX_COMPACT_LEN,
{
    match read_u8(buffer) {
        Err(error) => Err(error),
        Ok(stored) => if stored == 0 {
            Ok(0)
        } else {
            Ok((stored - 1) as usize)
        },
    }
}

/// Reads the length prefix of an array in the given convention and returns
/// the number of elements that follow.
pub fn read_array_length(buffer: &mut &[u8], encoding: Encoding) -> (outcome: Result<
    usize,
    DecodeError,
>)
    ensures
        match outcome {
            Ok(count) => parse_array_length(old(buffer)@, encoding) == Ok::<
                (nat, Seq<u8>),
                DecodeError,
            >((count as nat, final(buffer)@)),
            Err(error) => parse_array_length(old(buffer)@, encoding) == Err::<
                (nat, Seq<u8>),
                DecodeError,
            >(error),
        },
        outcome is Ok ==> outcome->Ok_0 <= MAX_COMPACT_LEN,
{
    match encoding {
        Encoding::Compact => read_compact_length(buffer),
        Encoding::Legacy => match read_i8(buffer) {
            Err(error) => Err(error),
            Ok(count) => if count < 0 {
                Err(DecodeError::MalformedLength)
            } else {
                Ok(count as usize)
            },
        },
    }
}

/// Reads the length prefix of a string in the given convention and returns
/// the number of bytes that follow.
pub fn read_string_length(buffer: &mut &[u8], encoding: Encoding) -> (outcome: Result<
    usize,
    DecodeError,
>)
    ensures
        match outcome {
            Ok(count) => parse_string_length(old(buffer)@, encoding) == Ok::<
                (nat, Seq<u8>),
                DecodeError,
            >((count as nat, final(buffer)@)),
            Err(error) => parse_string_length(old(buffer)@, encoding) == Err::<
                (nat, Seq<u8>),
                DecodeError,
            >(error),
        },
{
    match encoding {
        Encoding::Compact => read_compact_length(buffer),
        Encoding::Legacy => match read_i16(buffer) {
            Err(error) => Err(error),
            Ok(count) => if count < 0 {
                Err(DecodeError::MalformedLength)
            } else {
                Ok(count as usize)
            },
        },
    }
}

/// Reads a length-prefixed string in the given convention. Bytes that are
/// not UTF-8 never fail the read: they come out as U+FFFD. A length of
/// zero gives the empty string.
pub fn read_string(buffer: &mut &[u8], encoding: Encoding) -> (outcome: Result<String, DecodeError>)
    ensures
        match outcome {
            Ok(text) => parse_string(old(buffer)@, encoding) == Ok::<
                (Seq<char>, Seq<u8>),
                DecodeError,
            >((text@, final(buffer)@)),
            Err(error) => parse_string(old(buffer)@, encoding) == Err::<
                (Seq<char>, Seq<u8>),
                DecodeError,
            >(error),
        },
{
    let count = match read_string_length(buffer, encoding) {
        Err(error) => { return Err(error); },
        Ok(count) => count,
    };
    if count == 0 {
        assert(buffer@.skip(0) =~= buffer@);
        assert(buffer@.take(0) =~= Seq::<u8>::empty());
        return Ok(String::new());
    }
    match read_bytes(buffer, count) {
        Err(error) => Err(error),
        Ok(raw) => Ok(string_from_utf8_lossy(raw.as_slice())),
    }
}

/// Reads a compact string: a length-plus-one byte, then the text.
pub fn read_compact_string(buffer: &mut &[u8]) -> (outcome: Result<String, DecodeError>)
    ensures
        match outcome {
            Ok(text) => parse_string(old(buffer)@, Encoding::Compact) == Ok::<
                (Seq<char>, Seq<u8>),
                DecodeError,
            >((text@, final(buffer)@)),
            Err(error) => parse_string(old(buffer)@, Encoding::Compact) == Err::<
                (Seq<char>, Seq<u8>),
                DecodeError,
            >(error),
        },
{
    read_string(buffer, Encoding::Compact)
}

/// Consumes a tag buffer: exactly one byte, which must be zero.
pub fn read_tag_buffer(buffer: &mut &[u8]) -> (outcome: Result<(), DecodeError>)
    ensures
        yields(outcome, final(buffer)@, parse_tag_buffer(old(buffer)@)),
{
    match read_u8(buffer) {
        Err(error) => Err(error),
        Ok(count) => if count != 0 {
            Err(DecodeError::UnsupportedFeature)
        } else {
            Ok(())
        },
    }
}

// ---------------------------------------------------------------------------
// Writers
// ---------------------------------------------------------------------------

/// Appends one byte.
pub fn write_u8(out: &mut Vec<u8>, value: u8)
    ensures
        final(out)@ == old(out)@.push(value),
{
    buf_put_u8(out, value);
}

/// Appends a signed 16-bit integer, most significant byte first.
pub fn write_i16(out: &mut Vec<u8>, value: i16)
    ensures
        final(out)@ == old(out)@ + i16_be_bytes(value),
{
    let bytes = i16_to_be_bytes(value);
    out.extend_from_slice(bytes.as_slice());
}

/// Appends a signed 32-bit integer, most significant byte first.
pub fn write_i32(out: &mut Vec<u8>, value: i32)
    ensures
        final(out)@ == old(out)@ + i32_be_bytes(value),
{
    let bytes = i32_to_be_bytes(value);
    out.extend_from_slice(bytes.as_slice());
}

/// Appends a signed 64-bit integer, most significant byte first.
pub fn write_i64(out: &mut Vec<u8>, value: i64)
    ensures
        final(out)@ == old(out)@ + i64_be_bytes(value),
{
    let bytes = i64_to_be_bytes(value);
    out.extend_from_slice(bytes.as_slice());
}

/// Appends a 128-bit identifier: sixteen bytes, most significant first.
pub fn write_uuid(out: &mut Vec<u8>, value: u128)
    ensures
        final(out)@ == old(out)@ + u128_be_bytes(value),
{
    let bytes = u128_to_be_bytes(value);
    out.extend_from_slice(bytes.as_slice());
}

/// Appends all of `bytes`.
pub fn write_bytes(out: &mut Vec<u8>, bytes: &[u8])
    ensures
        final(out)@ == old(out)@ + bytes@,
{
    out.extend_from_slice(bytes);
}

/// Appends the compact length prefix for `count` elements or bytes: the
/// byte `count + 1`.
pub fn write_compact_length(out: &mut Vec<u8>, count: usize)
    requires
        count <= MAX_COMPACT_LEN,
    ensures
        final(out)@ == old(out)@.push(compact_prefix(count as nat)),
        compact_prefix(count as nat) == count + 1,
{
    write_u8(out, (count + 1) as u8);
}

/// Tests whether a string is short enough for a compact length prefix of
/// one byte.
pub fn string_fits(text: &str) -> (ok: bool)
    ensures
        ok == compact_string_fits(text@),
{
    text.as_bytes().len() <= MAX_COMPACT_LEN
}

/// Appends a compact string: its UTF-8 length plus one, then its bytes.
pub fn write_compact_string(out: &mut Vec<u8>, text: &str)
    requires
        compact_string_fits(text@),
    ensures
        final(out)@ == old(out)@ + compact_string_wire(text@),
{
    let bytes = text.as_bytes();
    write_compact_length(out, bytes.len());
    out.extend_from_slice(bytes);
}

/// Appends the tag buffer that announces no tagged fields: one zero byte.
pub fn write_tag_buffer(out: &mut Vec<u8>)
    ensures
        final(out)@ == old(out)@ + tag_buffer_wire(),
{
    write_u8(out, 0);
}

// ---------------------------------------------------------------------------
// Laws of the big-endian forms
// ---------------------------------------------------------------------------

/// The values of `radix` at the widths in use.
pub proof fn lemma_radix_values()
    ensures
        radix(1) == 0x100,
        radix(2) == 0x1_0000,
        radix(4) == 0x1_0000_0000,
        radix(8) == 0x1_0000_0000_0000_0000,
        radix(16) == 0x1_0000_0000_0000_0000_0000_0000_0000_0000,
{
    reveal_with_fuel(radix, 17);
}

/// Spelling a number in `width` bytes gives `width` bytes.
pub proof fn lemma_nat_be_bytes_len(value: nat, width: nat)
    ensures
        nat_be_bytes(value, width).len() == width,
    decreases width,
{
    if width > 0 {
        lemma_nat_be_bytes_len(value / 256, (width - 1) as nat);
    }
}

/// A number below `256^width` is read back from the `width` bytes that
/// spell it.
pub proof fn lemma_be_nat_of_bytes(value: nat, width: nat)
    requires
        value < radix(width),
    ensures
        be_nat(nat_be_bytes(value, width)) == value,
    decreases width,
{
    if width > 0 {
        let front = nat_be_bytes(value / 256, (width - 1) as nat);
        let all = nat_be_bytes(value, width);
        assert(all == front.push((value % 256) as u8));
        assert(all.drop_last() =~= front);
        assert(all.last() == (value % 256) as u8);
        lemma_be_nat_of_bytes(value / 256, (width - 1) as nat);
    }
}

/// Bytes spell a number below `256^len`, and spelling that number in as
/// many bytes gives the bytes back.
pub proof fn lemma_bytes_of_be_nat(bytes: Seq<u8>)
    ensures
        be_nat(bytes) < radix(bytes.len()),
        nat_be_bytes(be_nat(bytes), bytes.len()) == bytes,
    decreases bytes.len(),
{
    if bytes.len() > 0 {
        let front = bytes.drop_last();
        lemma_bytes_of_be_nat(front);
        let value = be_nat(bytes);
        assert(value == be_nat(front) * 256 + bytes.last() as nat);
        assert(value / 256 == be_nat(front));
        assert(value % 256 == bytes.last() as nat);
        assert(nat_be_bytes(value, bytes.len()) == nat_be_bytes(
            value / 256,
            (bytes.len() - 1) as nat,
        ).push((value % 256) as u8));
        assert(front.push(bytes.last()) =~= bytes);
    } else {
        assert(nat_be_bytes(0, 0) =~= bytes);
    }
}

/// A signed 16-bit integer takes two bytes and is read back from them,
/// whatever follows.
pub proof fn lemma_i16_round_trip(value: i16, rest: Seq<u8>)
    ensures
        i16_be_bytes(value).len() == 2,
        parse_i16(i16_be_bytes(value) + rest) == Ok::<(i16, Seq<u8>), DecodeError>((value, rest)),
{
    let spelled = i16_be_bytes(value);
    lemma_radix_values();
    lemma_nat_be_bytes_len(unsigned(value as int, 0x8000), 2);
    lemma_be_nat_of_bytes(unsigned(value as int, 0x8000), 2);
    assert((spelled + rest).take(2) =~= spelled);
    assert((spelled + rest).skip(2) =~= rest);
}

/// An unsigned 32-bit integer takes four bytes and is read back from them,
/// whatever follows.
pub proof fn lemma_u32_round_trip(value: u32, rest: Seq<u8>)
    ensures
        u32_be_bytes(value).len() == 4,
        parse_u32(u32_be_bytes(value) + rest) == Ok::<(u32, Seq<u8>), DecodeError>((value, rest)),
{
    let spelled = u32_be_bytes(value);
    lemma_radix_values();
    lemma_nat_be_bytes_len(value as nat, 4);
    lemma_be_nat_of_bytes(value as nat, 4);
    assert((spelled + rest).take(4) =~= spelled);
    assert((spelled + rest).skip(4) =~= rest);
}

/// A signed 32-bit integer takes four bytes and is read back from them,
/// whatever follows.
pub proof fn lemma_i32_round_trip(value: i32, rest: Seq<u8>)
    ensures
        i32_be_bytes(value).len() == 4,
        parse_i32(i32_be_bytes(value) + rest) == Ok::<(i32, Seq<u8>), DecodeError>((value, rest)),
{
    let spelled = i32_be_bytes(value);
    lemma_radix_values();
    lemma_nat_be_bytes_len(unsigned(value as int, 0x8000_0000), 4);
    lemma_be_nat_of_bytes(unsigned(value as int, 0x8000_0000), 4);
    assert((spelled + rest).take(4) =~= spelled);
    assert((spelled + rest).skip(4) =~= rest);
}

/// A signed 64-bit integer takes eight bytes and is read back from them,
/// whatever follows.
pub proof fn lemma_i64_round_trip(value: i64, rest: Seq<u8>)
    ensures
        i64_be_bytes(value).len() == 8,
        parse_i64(i64_be_bytes(value) + rest) == Ok::<(i64, Seq<u8>), DecodeError>((value, rest)),
{
    let spelled = i64_be_bytes(value);
    lemma_radix_values();
    lemma_nat_be_bytes_len(unsigned(value as int, 0x8000_0000_0000_0000), 8);
    lemma_be_nat_of_bytes(unsigned(value as int, 0x8000_0000_0000_0000), 8);
    assert((spelled + rest).take(8) =~= spelled);
    assert((spelled + rest).skip(8) =~= rest);
}

/// A 128-bit identifier takes sixteen bytes and is read back from them,
/// whatever follows.
pub proof fn lemma_uuid_round_trip(value: u128, rest: Seq<u8>)
    ensures
        u128_be_bytes(value).len() == 16,
        parse_uuid(u128_be_bytes(value) + rest) == Ok::<(u128, Seq<u8>), DecodeError>(
            (value, rest),
        ),
{
    let spelled = u128_be_bytes(value);
    lemma_radix_values();
    lemma_nat_be_bytes_len(value as nat, 16);
    lemma_be_nat_of_bytes(value as nat, 16);
    assert((spelled + rest).take(16) =~= spelled);
    assert((spelled + rest).skip(16) =~= rest);
}

/// The four bytes from which a signed 32-bit integer was read are the
/// bytes that spell it.
pub proof fn lemma_i32_bytes_round_trip(bytes: Seq<u8>)
    requires
        bytes.len() >= 4,
    ensures
        i32_be_bytes(be_i32(bytes) as i32) == bytes.take(4),
{
    lemma_radix_values();
    lemma_bytes_of_be_nat(bytes.take(4));
}

/// The compact length prefix of `count` elements or bytes is `count + 1`,
/// and it is read back as `count`.
pub proof fn lemma_compact_length_round_trip(count: nat, rest: Seq<u8>)
    requires
        count <= MAX_COMPACT_LEN,
    ensures
        compact_prefix(count) == count + 1,
        compact_count(compact_prefix(count)) == count,
        parse_compact_length(seq![compact_prefix(count)] + rest) == Ok::<
            (nat, Seq<u8>),
            DecodeError,
        >((count, rest)),
{
    assert((seq![compact_prefix(count)] + rest).skip(1) =~= rest);
}

/// A stored length of zero announces nothing, and any other stored length
/// announces one less than itself.
pub proof fn lemma_compact_count(stored: u8)
    ensures
        stored == 0 ==> compact_count(stored) == 0,
        stored > 0 ==> compact_count(stored) == stored - 1,
        compact_count(stored) <= MAX_COMPACT_LEN,
{
}

/// A compact string starts with its length in bytes plus one, and is read
/// back from its own bytes, whatever follows.
pub proof fn lemma_compact_string_round_trip(text: Seq<char>, rest: Seq<u8>)
    requires
        compact_string_fits(text),
    ensures
        compact_string_wire(text)[0] == encode_utf8(text).len() + 1,
        compact_string_wire(text).len() == encode_utf8(text).len() + 1,
        parse_string(compact_string_wire(text) + rest, Encoding::Compact) == Ok::<
            (Seq<char>, Seq<u8>),
            DecodeError,
        >((text, rest)),
{
    let raw = encode_utf8(text);
    let all = compact_string_wire(text) + rest;
    assert(all.skip(1) =~= raw + rest);
    assert((raw + rest).take(raw.len() as int) =~= raw);
    assert((raw + rest).skip(raw.len() as int) =~= rest);
    encode_utf8_valid_utf8(text);
    encode_utf8_decode_utf8(text);
}

/// Bytes that are valid UTF-8 are the bytes of the text read from them: a
/// string that was read from at most `MAX_COMPACT_LEN` such bytes is
/// written back as it was read.
pub proof fn lemma_valid_text_is_kept(raw: Seq<u8>)
    requires
        valid_utf8(raw),
    ensures
        encode_utf8(lenient_text(raw)) == raw,
        raw.len() <= MAX_COMPACT_LEN ==> compact_string_fits(lenient_text(raw))
            && compact_string_wire(lenient_text(raw)) == seq![compact_prefix(raw.len())] + raw,
{
    decode_utf8_encode_utf8(raw);
}

/// A compact string whose stored length is zero or one reads as the empty
/// string, and only the length is consumed.
pub proof fn lemma_absent_string_is_empty(bytes: Seq<u8>)
    requires
        bytes.len() >= 1,
        bytes[0] <= 1,
    ensures
        parse_string(bytes, Encoding::Compact) == Ok::<(Seq<char>, Seq<u8>), DecodeError>(
            (Seq::empty(), bytes.skip(1)),
        ),
{
    assert(bytes.skip(1).take(0) =~= Seq::<u8>::empty());
    assert(bytes.skip(1).skip(0) =~= bytes.skip(1));
}

/// A compact string that decodes was read from one byte less than its
/// stored length, and from none for a stored length of zero.
pub proof fn lemma_compact_string_consumes(bytes: Seq<u8>)
    requires
        parse_string(bytes, Encoding::Compact) is Ok,
    ensures
        bytes.len() >= 1 + compact_count(bytes[0]),
        parse_string(bytes, Encoding::Compact)->Ok_0.0 == lenient_text(
            bytes.subrange(1, 1 + compact_count(bytes[0]) as int),
        ),
        parse_string(bytes, Encoding::Compact)->Ok_0.1 == bytes.skip(
            1 + compact_count(bytes[0]) as int,
        ),
{
    let count = compact_count(bytes[0]) as int;
    assert(bytes.skip(1).take(count) =~= bytes.subrange(1, 1 + count));
    assert(bytes.skip(1).skip(count) =~= bytes.skip(1 + count));
}

/// How many bytes each fixed-width integer takes.
pub proof fn lemma_be_bytes_len()
    ensures
        forall|value: i16| #[trigger] i16_be_bytes(value).len() == 2,
        forall|value: u32| #[trigger] u32_be_bytes(value).len() == 4,
        forall|value: i32| #[trigger] i32_be_bytes(value).len() == 4,
        forall|value: i64| #[trigger] i64_be_bytes(value).len() == 8,
        forall|value: u128| #[trigger] u128_be_bytes(value).len() == 16,
{
    assert forall|value: i16| #[trigger] i16_be_bytes(value).len() == 2 by {
        lemma_nat_be_bytes_len(unsigned(value as int, 0x8000), 2);
    }
    assert forall|value: u32| #[trigger] u32_be_bytes(value).len() == 4 by {
        lemma_nat_be_bytes_len(value as nat, 4);
    }
    assert forall|value: i32| #[trigger] i32_be_bytes(value).len() == 4 by {
        lemma_nat_be_bytes_len(unsigned(value as int, 0x8000_0000), 4);
    }
    assert forall|value: i64| #[trigger] i64_be_bytes(value).len() == 8 by {
        lemma_nat_be_bytes_len(unsigned(value as int, 0x8000_0000_0000_0000), 8);
    }
    assert forall|value: u128| #[trigger] u128_be_bytes(value).len() == 16 by {
        lemma_nat_be_bytes_len(value as nat, 16);
    }
}

} // verus!
