//! What holds of the codec and the dispatcher as a whole, proved from the
//! definitions of the other modules.

use crate::api_version::{
    capability_table, ApiKey, ApiVersion, ApiVersionView, API_VERSIONS, FETCH,
    FETCH_MAX_VERSION, NO_ERROR, UNKNOWN_TOPIC_OR_PARTITION, UNSUPPORTED_VERSION,
};
use crate::codec::{
    be_u32, compact_count, compact_prefix, compact_string_wire, i16_be_bytes, i32_be_bytes,
    lemma_be_bytes_len, nat_be_bytes,
    lemma_be_nat_of_bytes, lemma_compact_string_round_trip, lemma_i32_bytes_round_trip,
    lemma_i32_round_trip, lemma_radix_values, tag_buffer_wire, u32_be_bytes, DecodeError,
    Encoding, MAX_COMPACT_LEN,
};
use crate::connection::{reply, ReplyError};
use crate::describe::{
    lemma_describe_response_encodable, request_can_be_echoed, Cursor, CursorView,
};
use crate::deserialize::{lemma_parse_items_len, parse_array, parse_items, Deserialize};
use crate::dispatch::{response_body_for, response_for, version_error};
use crate::fetch::{lemma_fetch_response_encodable, Topic};
use crate::frame::{frame_wire, lemma_frame_round_trip, lemma_response_fits_frame, parse_frame};
use crate::request::{parse_header, Request, RequestBodyView, RequestView};
use crate::response::{Response, ResponseBodyView};
use crate::serialize::{
    compact_array_encodable, compact_array_wire, items_encodable, wire_items, Serialize,
};
use vstd::prelude::*;
use vstd::utf8::encode_utf8;

verus! {

// ---------------------------------------------------------------------------
// Compact arrays
// ---------------------------------------------------------------------------

/// The first byte of a compact array is the number of its elements plus
/// one.
pub proof fn lemma_compact_array_prefix<T: Serialize>(items: Seq<T::V>)
    requires
        items.len() <= MAX_COMPACT_LEN,
    ensures
        compact_array_wire::<T>(items)[0] == items.len() + 1,
        compact_count(compact_array_wire::<T>(items)[0]) == items.len(),
{
}

/// A compact array whose stored length is zero reads as empty, and no byte
/// after the length is touched.
pub proof fn lemma_absent_array_is_empty<T: Deserialize>(bytes: Seq<u8>)
    requires
        bytes.len() >= 1,
        bytes[0] == 0,
    ensures
        parse_array::<T>(bytes, Encoding::Compact) == Ok::<(Seq<T::V>, Seq<u8>), DecodeError>(
            (Seq::empty(), bytes.skip(1)),
        ),
{
}

/// A compact array that decodes holds one element less than its stored
/// length, and none for a stored length of zero.
pub proof fn lemma_compact_array_len<T: Deserialize>(bytes: Seq<u8>)
    requires
        parse_array::<T>(bytes, Encoding::Compact) is Ok,
    ensures
        bytes.len() >= 1,
        parse_array::<T>(bytes, Encoding::Compact)->Ok_0.0.len() == compact_count(bytes[0]),
{
    lemma_parse_items_len::<T>(bytes.skip(1), compact_count(bytes[0]));
}

/// Every encodable value of the type is read back from its own bytes,
/// whatever follows them.
pub open spec fn round_trips<T: Serialize + Deserialize>() -> bool {
    forall|value: <T as View>::V, rest: Seq<u8>|
        <T as Serialize>::encodable(value) ==> #[trigger] <T as Deserialize>::parse(
            <T as Serialize>::wire(value) + rest,
        ) == Ok::<(<T as View>::V, Seq<u8>), DecodeError>((value, rest))
}

/// Elements that are read back one by one are read back in a row.
pub proof fn lemma_items_round_trip<T: Serialize + Deserialize>(
    items: Seq<<T as View>::V>,
    rest: Seq<u8>,
)
    requires
        round_trips::<T>(),
        items_encodable::<T>(items),
    ensures
        parse_items::<T>(wire_items::<T>(items) + rest, items.len()) == Ok::<
            (Seq<<T as View>::V>, Seq<u8>),
            DecodeError,
        >((items, rest)),
    decreases items.len(),
{
    if items.len() == 0 {
        assert(wire_items::<T>(items) + rest =~= rest);
        assert(items =~= Seq::empty());
    } else {
        let front = items.drop_last();
        let last = items.last();
        let tail = <T as Serialize>::wire(last) + rest;
        assert(items_encodable::<T>(front)) by {
            assert forall|i: int| 0 <= i < front.len() implies <T as Serialize>::encodable(
                #[trigger] front[i],
            ) by {
                assert(front[i] == items[i]);
            }
        }
        lemma_items_round_trip::<T>(front, tail);
        assert(wire_items::<T>(items) + rest =~= wire_items::<T>(front) + tail);
        assert(<T as Serialize>::encodable(last));
        assert(<T as Deserialize>::parse(tail) == Ok::<(<T as View>::V, Seq<u8>), DecodeError>(
            (last, rest),
        ));
        assert(front.push(last) =~= items);
    }
}

/// A compact array of elements that are read back one by one is read back
/// as a whole: decoding undoes encoding.
pub proof fn lemma_compact_array_round_trip<T: Serialize + Deserialize>(
    items: Seq<<T as View>::V>,
    rest: Seq<u8>,
)
    requires
        round_trips::<T>(),
        compact_array_encodable::<T>(items),
    ensures
        parse_array::<T>(compact_array_wire::<T>(items) + rest, Encoding::Compact) == Ok::<
            (Seq<<T as View>::V>, Seq<u8>),
            DecodeError,
        >((items, rest)),
{
    let all = compact_array_wire::<T>(items) + rest;
    lemma_items_round_trip::<T>(items, rest);
    assert(all[0] == compact_prefix(items.len()));
    assert(all.skip(1) =~= wire_items::<T>(items) + rest);
}

/// Signed 32-bit integers are read back from their own bytes.
pub proof fn lemma_i32_round_trips()
    ensures
        round_trips::<i32>(),
{
    assert forall|value: i32, rest: Seq<u8>| <i32 as Serialize>::encodable(value) implies (
    #[trigger] <i32 as Deserialize>::parse(<i32 as Serialize>::wire(value) + rest)) == Ok::<
        (i32, Seq<u8>),
        DecodeError,
    >((value, rest)) by {
        lemma_i32_round_trip(value, rest);
    }
}

/// A cursor is read back from its own bytes and the tag buffer that
/// follows them, whatever comes after.
pub proof fn lemma_cursor_round_trips(cursor: CursorView, rest: Seq<u8>)
    requires
        Cursor::encodable(cursor),
    ensures
        Cursor::wire(cursor).len() == encode_utf8(cursor.topic_name).len() + 5,
        Cursor::parse(Cursor::wire(cursor) + tag_buffer_wire() + rest) == Ok::<
            (CursorView, Seq<u8>),
            DecodeError,
        >((cursor, rest)),
{
    let tail = i32_be_bytes(cursor.partition_index) + tag_buffer_wire() + rest;
    lemma_be_bytes_len();
    lemma_compact_string_round_trip(cursor.topic_name, tail);
    lemma_i32_round_trip(cursor.partition_index, tag_buffer_wire() + rest);
    assert(Cursor::wire(cursor) + tag_buffer_wire() + rest =~= compact_string_wire(
        cursor.topic_name,
    ) + tail);
    assert(tail =~= i32_be_bytes(cursor.partition_index) + (tag_buffer_wire() + rest));
    assert((tag_buffer_wire() + rest).skip(1) =~= rest);
}

// ---------------------------------------------------------------------------
// The version policy
// ---------------------------------------------------------------------------

/// An ApiVersions request in a version from 0 to 4 is answered without an
/// error, in any other version with "unsupported version"; the answer
/// always carries the capability table, which lists ApiVersions and Fetch.
pub proof fn lemma_api_versions_boundary(version: i16)
    ensures
        response_body_for(version, RequestBodyView::ApiVersion) is ApiVersion,
        response_body_for(version, RequestBodyView::ApiVersion)->ApiVersion_0 == (ApiVersionView {
            error_code: if 0 <= version <= 4 {
                NO_ERROR
            } else {
                UNSUPPORTED_VERSION
            },
            api_keys: capability_table(),
            throttle_time_ms: 0,
        }),
        NO_ERROR == 0,
        UNSUPPORTED_VERSION == 35,
        capability_table().len() == 2,
        capability_table()[0].api_key == API_VERSIONS,
        capability_table()[1].api_key == FETCH,
{
}

/// The two bytes of a 16-bit integer that is not negative: the high byte,
/// then the low byte.
pub proof fn lemma_i16_bytes(value: i16)
    requires
        value >= 0,
    ensures
        i16_be_bytes(value) == seq![(value / 256) as u8, (value % 256) as u8],
{
    reveal_with_fuel(nat_be_bytes, 3);
    assert(i16_be_bytes(value) =~= seq![(value / 256) as u8, (value % 256) as u8]);
}

/// The four bytes of a 32-bit integer from 0 to 255: three zero bytes, then
/// the number.
pub proof fn lemma_small_i32_bytes(value: i32)
    requires
        0 <= value < 256,
    ensures
        i32_be_bytes(value) == seq![0u8, 0u8, 0u8, value as u8],
{
    reveal_with_fuel(nat_be_bytes, 5);
    assert(i32_be_bytes(value) =~= seq![0u8, 0u8, 0u8, value as u8]);
}

/// The bytes of the ApiVersions response without an error, one by one:
/// error code 0, two entries announced as 3, ApiVersions in versions 0 to
/// 4, Fetch in versions 0 to 16, throttle time 0, tag buffer.
pub proof fn lemma_api_versions_bytes()
    ensures
        ApiVersion::wire(
            ApiVersionView { error_code: 0, api_keys: capability_table(), throttle_time_ms: 0 },
        ) == seq![
            0u8, 0u8, 3u8, 0u8, 18u8, 0u8, 0u8, 0u8, 4u8, 0u8, 1u8, 0u8, 0u8, 0u8, 16u8, 0u8,
            0u8, 0u8, 0u8, 0u8,
        ],
{
    let table = capability_table();
    lemma_i16_bytes(0);
    lemma_i16_bytes(1);
    lemma_i16_bytes(4);
    lemma_i16_bytes(16);
    lemma_i16_bytes(18);
    lemma_small_i32_bytes(0);
    let first = ApiKey::wire(table[0]);
    let second = ApiKey::wire(table[1]);
    assert(first =~= seq![0u8, 18u8, 0u8, 0u8, 0u8, 4u8]);
    assert(second =~= seq![0u8, 1u8, 0u8, 0u8, 0u8, 16u8]);
    assert(table.drop_last() =~= seq![table[0]]);
    assert(table.drop_last().drop_last() =~= Seq::<ApiKey>::empty());
    assert(wire_items::<ApiKey>(table.drop_last().drop_last()) =~= Seq::<u8>::empty());
    assert(wire_items::<ApiKey>(table.drop_last()) =~= first) by {
        assert(table.drop_last().last() == table[0]);
    }
    assert(wire_items::<ApiKey>(table) =~= first + second) by {
        assert(table.last() == table[1]);
    }
    assert(compact_array_wire::<ApiKey>(table) =~= seq![3u8] + first + second);
    assert(ApiVersion::wire(
        ApiVersionView { error_code: 0, api_keys: table, throttle_time_ms: 0 },
    ) =~= seq![
        0u8, 0u8, 3u8, 0u8, 18u8, 0u8, 0u8, 0u8, 4u8, 0u8, 1u8, 0u8, 0u8, 0u8, 16u8, 0u8, 0u8,
        0u8, 0u8, 0u8,
    ]);
}

/// The header of a response carries the correlation id of the request.
pub proof fn lemma_correlation_echo(request: RequestView)
    ensures
        response_for(request).header.correlation_id == request.header.correlation_id,
{
}

// ---------------------------------------------------------------------------
// Frames on the wire
// ---------------------------------------------------------------------------

/// Of every answer to a payload: the four bytes of its length prefix spell
/// the exact number of bytes that follow them; read as a frame, it yields
/// those bytes and nothing is left; and the four bytes after the prefix are
/// the correlation id as the request spelled it, in bytes four to eight of
/// the payload.
pub proof fn lemma_reply_is_framed(payload: Seq<u8>)
    requires
        reply(payload) is Ok,
    ensures
        reply(payload)->Ok_0.len() >= 9,
        be_u32(reply(payload)->Ok_0) == reply(payload)->Ok_0.len() - 4,
        parse_frame(reply(payload)->Ok_0) == Ok::<(Seq<u8>, Seq<u8>), DecodeError>(
            (reply(payload)->Ok_0.skip(4), Seq::empty()),
        ),
        payload.len() >= 8,
        reply(payload)->Ok_0.subrange(4, 8) == payload.subrange(4, 8),
{
    let frame = reply(payload)->Ok_0;
    let request = Request::parse(payload)->Ok_0.0;
    let response = response_for(request);
    let body = Response::wire(response);
    assert(frame == frame_wire(body));
    lemma_response_fits_frame(response);
    lemma_frame_round_trip(body, Seq::empty());
    assert(frame_wire(body) + Seq::<u8>::empty() =~= frame);
    assert(frame.skip(4) =~= body);
    assert(frame.take(4) =~= u32_be_bytes(body.len() as u32));
    lemma_radix_values();
    lemma_be_nat_of_bytes(body.len(), 4);

    let id = i32_be_bytes(response.header.correlation_id);
    lemma_be_bytes_len();
    assert(id.len() == 4);
    assert(body.subrange(0, 4) =~= id);
    assert(frame.subrange(4, 8) =~= body.subrange(0, 4));
    assert(response.header.correlation_id == request.header.correlation_id);
    lemma_i32_bytes_round_trip(payload.skip(4));
    assert(payload.skip(4).take(4) =~= payload.subrange(4, 8));
}

/// No payload is answered unless it decodes as a request, and the reason
/// for which a payload does not decode is handed on unchanged.
pub proof fn lemma_reply_needs_request(payload: Seq<u8>)
    ensures
        Request::parse(payload) is Err ==> reply(payload) == Err::<
            Seq<u8>,
            ReplyError,
        >(ReplyError::Decode(Request::parse(payload)->Err_0)),
{
}

/// Which payloads are answered: those that decode as a request, except a
/// DescribeTopicPartitions request with a string or a topic array too long
/// to be sent back. Every ApiVersions and every Fetch request is answered.
pub proof fn lemma_reply_exists(payload: Seq<u8>)
    ensures
        reply(payload) is Ok <==> {
            &&& Request::parse(payload) is Ok
            &&& Request::parse(payload)->Ok_0.0.body matches RequestBodyView::Describe(request)
                ==> request_can_be_echoed(request)
        },
{
    if Request::parse(payload) is Ok {
        let request = Request::parse(payload)->Ok_0.0;
        let header = parse_header(payload, Encoding::Compact)->Ok_0;
        let version = request.header.request_api_version;
        match request.body {
            RequestBodyView::ApiVersion => {
                assert(capability_table().len() == 2);
                assert(Response::encodable(response_for(request)));
            },
            RequestBodyView::Fetch(fetch) => {
                lemma_compact_array_len::<Topic>(header.1.skip(21));
                lemma_fetch_response_encodable(version_error(version, FETCH_MAX_VERSION), fetch);
                assert(Response::encodable(response_for(request)));
            },
            RequestBodyView::Describe(describe) => {
                lemma_describe_response_encodable(UNKNOWN_TOPIC_OR_PARTITION, describe);
            },
        }
    }
}

} // verus!
