//! Frames: a four-byte big-endian length, then that many bytes of payload.

use crate::codec::{
    lemma_nat_be_bytes_len, lemma_u32_round_trip, parse_bytes, parse_u32, read_bytes, read_u32,
    u32_be_bytes, DecodeError, Parsed,
};
use crate::response::{Response, ResponseView};
use crate::serialize::Serialize;
use bytes::BytesMut;
use vstd::prelude::*;

verus! {

/// `bytes::BytesMut`: a growable buffer of bytes.
#[verifier::external_type_specification]
#[verifier::external_body]
pub struct ExBytesMut(BytesMut);

/// The bytes that a `BytesMut` holds, first to last.
pub uninterp spec fn bytes_mut_contents(buffer: BytesMut) -> Seq<u8>;

/// `BytesMut::new`: a buffer that holds nothing.
#[verifier::external_body]
fn bytes_mut_new() -> (buffer: BytesMut)
    ensures
        bytes_mut_contents(buffer) == Seq::<u8>::empty(),
{
    BytesMut::new()
}

/// `bytes::BufMut::put_u32` on a `BytesMut`: appends the four bytes of the
/// number, most significant first. The call panics when the new length
/// overflows `usize`, which the precondition rules out.
#[verifier::external_body]
fn bytes_mut_put_u32(buffer: &mut BytesMut, value: u32)
    requires
        bytes_mut_contents(*old(buffer)).len() + 4 <= usize::MAX,
    ensures
        bytes_mut_contents(*final(buffer)) == bytes_mut_contents(*old(buffer)) + u32_be_bytes(
            value,
        ),
{
    bytes::BufMut::put_u32(buffer, value)
}

/// `BytesMut::extend_from_slice`: appends the bytes of the slice. The call
/// panics when the new length overflows `usize`, which the precondition
/// rules out.
#[verifier::external_body]
fn bytes_mut_extend_from_slice(buffer: &mut BytesMut, bytes: &[u8])
    requires
        bytes_mut_contents(*old(buffer)).len() + bytes@.len() <= usize::MAX,
    ensures
        bytes_mut_contents(*final(buffer)) == bytes_mut_contents(*old(buffer)) + bytes@,
{
    buffer.extend_from_slice(bytes)
}

/// The longest payload that a frame can carry: its length must fit the
/// four-byte prefix, and the frame must fit in memory.
pub open spec fn max_payload_len() -> int {
    if usize::MAX - 4 < u32::MAX {
        usize::MAX - 4
    } else {
        u32::MAX as int
    }
}

/// The frame around a payload: the length of the payload in four bytes, most
/// significant first, then the payload.
pub open spec fn frame_wire(payload: Seq<u8>) -> Seq<u8>
    recommends
        payload.len() <= max_payload_len(),
{
    u32_be_bytes(payload.len() as u32) + payload
}

/// A frame at the front of a byte sequence: its payload, and the bytes
/// after the frame.
pub open spec fn parse_frame(bytes: Seq<u8>) -> Parsed<Seq<u8>> {
    match parse_u32(bytes) {
        Err(error) => Err(error),
        Ok((length, rest)) => parse_bytes(rest, length as nat),
    }
}

/// The frame of a response, where it has one: the response must be
/// encodable.
pub open spec fn response_frame(response: ResponseView) -> Option<Seq<u8>> {
    if Response::encodable(response) {
        Some(frame_wire(Response::wire(response)))
    } else {
        None
    }
}

/// The bytes of an encodable response are few enough for a frame.
pub proof fn lemma_response_fits_frame(response: ResponseView)
    requires
        Response::encodable(response),
    ensures
        Response::wire(response).len() <= Response::max_wire_len(),
        Response::max_wire_len() == 329_102_990,
        Response::wire(response).len() <= max_payload_len(),
{
    Response::lemma_wire_len(response);
}

/// Puts a payload into a frame. The length prefix is computed from the
/// payload as it is handed in.
pub fn frame_payload(payload: &[u8]) -> (frame: Option<BytesMut>)
    ensures
        match frame {
            Some(buffer) => payload@.len() <= max_payload_len() && bytes_mut_contents(buffer)
                == frame_wire(payload@),
            None => payload@.len() > max_payload_len(),
        },
{
    if payload.len() > usize::MAX - 4 || payload.len() > u32::MAX as usize {
        return None;
    }
    let mut buffer = bytes_mut_new();
    bytes_mut_put_u32(&mut buffer, payload.len() as u32);
    proof {
        lemma_nat_be_bytes_len(payload@.len(), 4);
    }
    bytes_mut_extend_from_slice(&mut buffer, payload);
    Some(buffer)
}

/// Encodes a response, header first and body after it, and puts the bytes
/// into a frame. There is a frame for every response that can be encoded,
/// and for no other.
pub fn response_to_bytes(response: &Response) -> (frame: Option<BytesMut>)
    ensures
        match frame {
            Some(buffer) => response_frame(response@) == Some(bytes_mut_contents(buffer)),
            None => response_frame(response@) is None,
        },
{
    if !response.is_encodable() {
        return None;
    }
    let payload = response.to_bytes();
    proof {
        lemma_response_fits_frame(response@);
    }
    frame_payload(payload.as_slice())
}

/// Reads the length prefix of a frame: four bytes, most significant first.
pub fn read_frame_length(buffer: &mut &[u8]) -> (outcome: Result<u32, DecodeError>)
    ensures
        match outcome {
            Ok(length) => parse_u32(old(buffer)@) == Ok::<(u32, Seq<u8>), DecodeError>(
                (length, final(buffer)@),
            ),
            Err(error) => parse_u32(old(buffer)@) == Err::<(u32, Seq<u8>), DecodeError>(error),
        },
{
    read_u32(buffer)
}

/// Reads a whole frame and returns its payload.
pub fn read_frame(buffer: &mut &[u8]) -> (outcome: Result<Vec<u8>, DecodeError>)
    ensures
        match outcome {
            Ok(payload) => parse_frame(old(buffer)@) == Ok::<(Seq<u8>, Seq<u8>), DecodeError>(
                (payload@, final(buffer)@),
            ),
            Err(error) => parse_frame(old(buffer)@) == Err::<(Seq<u8>, Seq<u8>), DecodeError>(
                error,
            ),
        },
{
    let length = read_u32(buffer)?;
    read_bytes(buffer, length as usize)
}

/// The length prefix of a frame is the exact number of bytes that follow
/// it, and reading the frame back yields the payload and leaves what came
/// after the frame.
pub proof fn lemma_frame_round_trip(payload: Seq<u8>, rest: Seq<u8>)
    requires
        payload.len() <= max_payload_len(),
    ensures
        frame_wire(payload).len() == 4 + payload.len(),
        parse_u32(frame_wire(payload)) == Ok::<(u32, Seq<u8>), DecodeError>(
            (payload.len() as u32, payload),
        ),
        parse_frame(frame_wire(payload) + rest) == Ok::<(Seq<u8>, Seq<u8>), DecodeError>(
            (payload, rest),
        ),
{
    let length = payload.len() as u32;
    lemma_u32_round_trip(length, payload);
    lemma_u32_round_trip(length, payload + rest);
    assert(frame_wire(payload) + rest =~= u32_be_bytes(length) + (payload + rest));
    assert((payload + rest).take(payload.len() as int) =~= payload);
    assert((payload + rest).skip(payload.len() as int) =~= rest);
}

} // verus!
