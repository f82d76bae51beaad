//! What a parser does not read: bytes after a value have no part in it.
//!
//! Every parser reads from the front. If it finds a value in some bytes, it
//! finds the same value when more bytes follow, and what it leaves is what
//! it left before with the new bytes after it.

use crate::codec::{
    parse_array_length, parse_bytes, parse_compact_length, parse_i16, parse_i32, parse_i64,
    parse_i8, parse_string, parse_string_length, parse_tag_buffer, parse_u32, parse_u8,
    parse_uuid, DecodeError, Encoding, Parsed,
};
use crate::describe::{Cursor, DescribeTopicPartitionsRequest};
use crate::deserialize::{parse_array, parse_items, Deserialize};
use crate::fetch::{FetchRequest, ForgottenTopicsData, PartitionReq, Topic};
use crate::frame::parse_frame;
use crate::request::{parse_body, parse_header, parse_request};
use vstd::prelude::*;

verus! {

/// Where the parse of some bytes has a value, the parse of the longer bytes
/// has the same value and leaves `more` after what the first left.
pub open spec fn leaves_rest<V>(short: Parsed<V>, long: Parsed<V>, more: Seq<u8>) -> bool {
    short is Ok ==> long == Ok::<(V, Seq<u8>), DecodeError>(
        (short->Ok_0.0, short->Ok_0.1 + more),
    )
}

/// The type is parsed from the front: bytes after a value have no part in
/// it.
pub open spec fn reads_front_only<T: Deserialize>() -> bool {
    forall|bytes: Seq<u8>, more: Seq<u8>|
        leaves_rest(T::parse(bytes), #[trigger] T::parse(bytes + more), more)
}

/// The front of a sequence is its front whatever follows it.
pub proof fn lemma_front(bytes: Seq<u8>, more: Seq<u8>, offset: int, width: int)
    requires
        0 <= offset,
        0 <= width,
        offset + width <= bytes.len(),
    ensures
        (bytes + more).skip(offset).take(width) == bytes.skip(offset).take(width),
        (bytes + more).take(width) == bytes.take(width),
        (bytes + more).skip(offset) == bytes.skip(offset) + more,
        offset < bytes.len() ==> (bytes + more).skip(offset)[0] == bytes.skip(offset)[0],
{
    assert((bytes + more).skip(offset).take(width) =~= bytes.skip(offset).take(width));
    assert((bytes + more).take(width) =~= bytes.take(width));
    assert((bytes + more).skip(offset) =~= bytes.skip(offset) + more);
}

// ---------------------------------------------------------------------------
// Primitives
// ---------------------------------------------------------------------------

/// One unsigned byte is read from the front.
pub proof fn lemma_u8_leaves_rest(bytes: Seq<u8>, more: Seq<u8>)
    ensures
        leaves_rest(parse_u8(bytes), parse_u8(bytes + more), more),
{
    if bytes.len() >= 1 {
        lemma_front(bytes, more, 1, 0);
    }
}

/// One signed byte is read from the front.
pub proof fn lemma_i8_leaves_rest(bytes: Seq<u8>, more: Seq<u8>)
    ensures
        leaves_rest(parse_i8(bytes), parse_i8(bytes + more), more),
{
    if bytes.len() >= 1 {
        lemma_front(bytes, more, 1, 0);
    }
}

/// A 16-bit integer is read from the front.
pub proof fn lemma_i16_leaves_rest(bytes: Seq<u8>, more: Seq<u8>)
    ensures
        leaves_rest(parse_i16(bytes), parse_i16(bytes + more), more),
{
    if bytes.len() >= 2 {
        lemma_front(bytes, more, 0, 2);
        lemma_front(bytes, more, 2, 0);
    }
}

/// An unsigned 32-bit integer is read from the front.
pub proof fn lemma_u32_leaves_rest(bytes: Seq<u8>, more: Seq<u8>)
    ensures
        leaves_rest(parse_u32(bytes), parse_u32(bytes + more), more),
{
    if bytes.len() >= 4 {
        lemma_front(bytes, more, 0, 4);
        lemma_front(bytes, more, 4, 0);
    }
}

/// A 32-bit integer is read from the front.
pub proof fn lemma_i32_leaves_rest(bytes: Seq<u8>, more: Seq<u8>)
    ensures
        leaves_rest(parse_i32(bytes), parse_i32(bytes + more), more),
{
    if bytes.len() >= 4 {
        lemma_front(bytes, more, 0, 4);
        lemma_front(bytes, more, 4, 0);
    }
}

/// A 64-bit integer is read from the front.
pub proof fn lemma_i64_leaves_rest(bytes: Seq<u8>, more: Seq<u8>)
    ensures
        leaves_rest(parse_i64(bytes), parse_i64(bytes + more), more),
{
    if bytes.len() >= 8 {
        lemma_front(bytes, more, 0, 8);
        lemma_front(bytes, more, 8, 0);
    }
}

/// An identifier is read from the front.
pub proof fn lemma_uuid_leaves_rest(bytes: Seq<u8>, more: Seq<u8>)
    ensures
        leaves_rest(parse_uuid(bytes), parse_uuid(bytes + more), more),
{
    if bytes.len() >= 16 {
        lemma_front(bytes, more, 0, 16);
        lemma_front(bytes, more, 16, 0);
    }
}

/// A run of bytes is read from the front.
pub proof fn lemma_bytes_leaves_rest(bytes: Seq<u8>, more: Seq<u8>, count: nat)
    ensures
        leaves_rest(parse_bytes(bytes, count), parse_bytes(bytes + more, count), more),
{
    if bytes.len() >= count {
        lemma_front(bytes, more, 0, count as int);
        lemma_front(bytes, more, count as int, 0);
    }
}

/// A compact length is read from the front.
pub proof fn lemma_compact_length_leaves_rest(bytes: Seq<u8>, more: Seq<u8>)
    ensures
        leaves_rest(parse_compact_length(bytes), parse_compact_length(bytes + more), more),
{
    lemma_u8_leaves_rest(bytes, more);
}

/// The length of an array is read from the front.
pub proof fn lemma_array_length_leaves_rest(bytes: Seq<u8>, more: Seq<u8>, encoding: Encoding)
    ensures
        leaves_rest(
            parse_array_length(bytes, encoding),
            parse_array_length(bytes + more, encoding),
            more,
        ),
{
    lemma_u8_leaves_rest(bytes, more);
    lemma_i8_leaves_rest(bytes, more);
}

/// The length of a string is read from the front.
pub proof fn lemma_string_length_leaves_rest(bytes: Seq<u8>, more: Seq<u8>, encoding: Encoding)
    ensures
        leaves_rest(
            parse_string_length(bytes, encoding),
            parse_string_length(bytes + more, encoding),
            more,
        ),
{
    lemma_u8_leaves_rest(bytes, more);
    lemma_i16_leaves_rest(bytes, more);
}

/// A string is read from the front.
pub proof fn lemma_string_leaves_rest(bytes: Seq<u8>, more: Seq<u8>, encoding: Encoding)
    ensures
        leaves_rest(parse_string(bytes, encoding), parse_string(bytes + more, encoding), more),
{
    lemma_string_length_leaves_rest(bytes, more, encoding);
    if parse_string_length(bytes, encoding) is Ok {
        let (count, rest) = parse_string_length(bytes, encoding)->Ok_0;
        lemma_bytes_leaves_rest(rest, more, count);
    }
}

/// A tag buffer is read from the front.
pub proof fn lemma_tag_buffer_leaves_rest(bytes: Seq<u8>, more: Seq<u8>)
    ensures
        leaves_rest(parse_tag_buffer(bytes), parse_tag_buffer(bytes + more), more),
{
    lemma_u8_leaves_rest(bytes, more);
}

/// A frame is read from the front.
pub proof fn lemma_frame_leaves_rest(bytes: Seq<u8>, more: Seq<u8>)
    ensures
        leaves_rest(parse_frame(bytes), parse_frame(bytes + more), more),
{
    lemma_u32_leaves_rest(bytes, more);
    if parse_u32(bytes) is Ok {
        let (length, rest) = parse_u32(bytes)->Ok_0;
        lemma_bytes_leaves_rest(rest, more, length as nat);
    }
}

// ---------------------------------------------------------------------------
// Arrays
// ---------------------------------------------------------------------------

/// Values in a row are read from the front where one value is.
pub proof fn lemma_items_leave_rest<T: Deserialize>(bytes: Seq<u8>, more: Seq<u8>, count: nat)
    requires
        reads_front_only::<T>(),
    ensures
        leaves_rest(parse_items::<T>(bytes, count), parse_items::<T>(bytes + more, count), more),
    decreases count,
{
    if count == 0 {
    } else {
        let fewer = (count - 1) as nat;
        lemma_items_leave_rest::<T>(bytes, more, fewer);
        if parse_items::<T>(bytes, count) is Ok {
            let (items, rest) = parse_items::<T>(bytes, fewer)->Ok_0;
            assert(parse_items::<T>(bytes + more, fewer) == Ok::<(Seq<T::V>, Seq<u8>), DecodeError>(
                (items, rest + more),
            ));
            assert(leaves_rest(T::parse(rest), T::parse(rest + more), more));
        }
    }
}

/// An array is read from the front where its elements are.
pub proof fn lemma_array_leaves_rest<T: Deserialize>(
    bytes: Seq<u8>,
    more: Seq<u8>,
    encoding: Encoding,
)
    requires
        reads_front_only::<T>(),
    ensures
        leaves_rest(
            parse_array::<T>(bytes, encoding),
            parse_array::<T>(bytes + more, encoding),
            more,
        ),
{
    lemma_array_length_leaves_rest(bytes, more, encoding);
    if parse_array_length(bytes, encoding) is Ok {
        let (count, rest) = parse_array_length(bytes, encoding)->Ok_0;
        lemma_items_leave_rest::<T>(rest, more, count);
    }
}

/// 32-bit integers are read from the front.
pub proof fn lemma_i32_reads_front_only()
    ensures
        reads_front_only::<i32>(),
{
    assert forall|bytes: Seq<u8>, more: Seq<u8>|
        leaves_rest(<i32 as Deserialize>::parse(bytes), #[trigger] <i32 as Deserialize>::parse(
            bytes + more,
        ), more) by {
        lemma_i32_leaves_rest(bytes, more);
    }
}

/// Compact strings are read from the front.
pub proof fn lemma_string_reads_front_only()
    ensures
        reads_front_only::<String>(),
{
    assert forall|bytes: Seq<u8>, more: Seq<u8>|
        leaves_rest(
            <String as Deserialize>::parse(bytes),
            #[trigger] <String as Deserialize>::parse(bytes + more),
            more,
        ) by {
        lemma_string_leaves_rest(bytes, more, Encoding::Compact);
    }
}

// ---------------------------------------------------------------------------
// Fetch
// ---------------------------------------------------------------------------

/// What is asked of a partition is read from the front.
pub proof fn lemma_partition_req_reads_front_only()
    ensures
        reads_front_only::<PartitionReq>(),
{
    assert forall|bytes: Seq<u8>, more: Seq<u8>|
        leaves_rest(PartitionReq::parse(bytes), #[trigger] PartitionReq::parse(bytes + more), more) by {
        if bytes.len() >= 33 {
            lemma_front(bytes, more, 0, 4);
            lemma_front(bytes, more, 4, 4);
            lemma_front(bytes, more, 8, 8);
            lemma_front(bytes, more, 16, 4);
            lemma_front(bytes, more, 20, 8);
            lemma_front(bytes, more, 28, 4);
            lemma_front(bytes, more, 33, 0);
            assert((bytes + more)[32] == bytes[32]);
        }
    }
}

/// A topic of a Fetch request is read from the front.
pub proof fn lemma_fetch_topic_reads_front_only()
    ensures
        reads_front_only::<Topic>(),
{
    lemma_partition_req_reads_front_only();
    assert forall|bytes: Seq<u8>, more: Seq<u8>|
        leaves_rest(Topic::parse(bytes), #[trigger] Topic::parse(bytes + more), more) by {
        lemma_uuid_leaves_rest(bytes, more);
        if Topic::parse(bytes) is Ok {
            let after_id = parse_uuid(bytes)->Ok_0.1;
            lemma_array_leaves_rest::<PartitionReq>(after_id, more, Encoding::Compact);
            let after_partitions = parse_array::<PartitionReq>(after_id, Encoding::Compact)->Ok_0.1;
            lemma_tag_buffer_leaves_rest(after_partitions, more);
        }
    }
}

/// A forgotten topic is read from the front.
pub proof fn lemma_forgotten_topic_reads_front_only()
    ensures
        reads_front_only::<ForgottenTopicsData>(),
{
    lemma_i32_reads_front_only();
    assert forall|bytes: Seq<u8>, more: Seq<u8>|
        leaves_rest(
            ForgottenTopicsData::parse(bytes),
            #[trigger] ForgottenTopicsData::parse(bytes + more),
            more,
        ) by {
        lemma_uuid_leaves_rest(bytes, more);
        if ForgottenTopicsData::parse(bytes) is Ok {
            let after_id = parse_uuid(bytes)->Ok_0.1;
            lemma_array_leaves_rest::<i32>(after_id, more, Encoding::Legacy);
            let after_partitions = parse_array::<i32>(after_id, Encoding::Legacy)->Ok_0.1;
            lemma_tag_buffer_leaves_rest(after_partitions, more);
        }
    }
}

/// A Fetch request is read from the front: bytes after it are left as they
/// are.
pub proof fn lemma_fetch_request_leaves_rest(bytes: Seq<u8>, more: Seq<u8>)
    ensures
        leaves_rest(FetchRequest::parse(bytes), FetchRequest::parse(bytes + more), more),
        FetchRequest::parse(bytes) is Ok && FetchRequest::parse(bytes)->Ok_0.1.len() == 0
            ==> FetchRequest::parse(bytes + more) == Ok::<
            (crate::fetch::FetchRequestView, Seq<u8>),
            DecodeError,
        >((FetchRequest::parse(bytes)->Ok_0.0, more)),
{
    lemma_fetch_topic_reads_front_only();
    lemma_forgotten_topic_reads_front_only();
    if FetchRequest::parse(bytes) is Ok {
        lemma_front(bytes, more, 0, 4);
        lemma_front(bytes, more, 4, 4);
        lemma_front(bytes, more, 8, 4);
        lemma_front(bytes, more, 12, 1);
        lemma_front(bytes, more, 13, 4);
        lemma_front(bytes, more, 17, 4);
        lemma_front(bytes, more, 21, 0);
        let body = bytes.skip(21);
        lemma_array_leaves_rest::<Topic>(body, more, Encoding::Compact);
        let after_topics = parse_array::<Topic>(body, Encoding::Compact)->Ok_0.1;
        lemma_array_leaves_rest::<ForgottenTopicsData>(after_topics, more, Encoding::Compact);
        let after_forgotten = parse_array::<ForgottenTopicsData>(
            after_topics,
            Encoding::Compact,
        )->Ok_0.1;
        lemma_string_leaves_rest(after_forgotten, more, Encoding::Compact);
        let after_rack = parse_string(after_forgotten, Encoding::Compact)->Ok_0.1;
        lemma_tag_buffer_leaves_rest(after_rack, more);
        let rest = FetchRequest::parse(bytes)->Ok_0.1;
        if rest.len() == 0 {
            assert(rest + more =~= more);
        }
    }
}

// ---------------------------------------------------------------------------
// DescribeTopicPartitions
// ---------------------------------------------------------------------------

/// A cursor, with the tag buffer after it, is read from the front.
pub proof fn lemma_cursor_leaves_rest(bytes: Seq<u8>, more: Seq<u8>)
    ensures
        leaves_rest(Cursor::parse(bytes), Cursor::parse(bytes + more), more),
{
    lemma_string_leaves_rest(bytes, more, Encoding::Compact);
    if Cursor::parse(bytes) is Ok {
        let after_name = parse_string(bytes, Encoding::Compact)->Ok_0.1;
        lemma_i32_leaves_rest(after_name, more);
        let after_index = parse_i32(after_name)->Ok_0.1;
        lemma_tag_buffer_leaves_rest(after_index, more);
    }
}

/// A DescribeTopicPartitions request is read from the front: bytes after it
/// are left as they are.
pub proof fn lemma_describe_request_leaves_rest(bytes: Seq<u8>, more: Seq<u8>)
    ensures
        leaves_rest(
            DescribeTopicPartitionsRequest::parse(bytes),
            DescribeTopicPartitionsRequest::parse(bytes + more),
            more,
        ),
        DescribeTopicPartitionsRequest::parse(bytes) is Ok && DescribeTopicPartitionsRequest::parse(
            bytes,
        )->Ok_0.1.len() == 0 ==> DescribeTopicPartitionsRequest::parse(bytes + more) == Ok::<
            (crate::describe::DescribeTopicPartitionsRequestView, Seq<u8>),
            DecodeError,
        >((DescribeTopicPartitionsRequest::parse(bytes)->Ok_0.0, more)),
{
    lemma_string_reads_front_only();
    if DescribeTopicPartitionsRequest::parse(bytes) is Ok {
        lemma_array_leaves_rest::<String>(bytes, more, Encoding::Compact);
        let after_topics = parse_array::<String>(bytes, Encoding::Compact)->Ok_0.1;
        lemma_tag_buffer_leaves_rest(after_topics, more);
        let after_tag = parse_tag_buffer(after_topics)->Ok_0.1;
        lemma_i32_leaves_rest(after_tag, more);
        let after_limit = parse_i32(after_tag)->Ok_0.1;
        lemma_cursor_leaves_rest(after_limit, more);
        let after_cursor = Cursor::parse(after_limit)->Ok_0.1;
        lemma_tag_buffer_leaves_rest(after_cursor, more);
        let rest = DescribeTopicPartitionsRequest::parse(bytes)->Ok_0.1;
        if rest.len() == 0 {
            assert(rest + more =~= more);
        }
    }
}

// ---------------------------------------------------------------------------
// Requests
// ---------------------------------------------------------------------------

/// A request header is read from the front, in either layout.
pub proof fn lemma_header_leaves_rest(bytes: Seq<u8>, more: Seq<u8>, layout: Encoding)
    ensures
        leaves_rest(parse_header(bytes, layout), parse_header(bytes + more, layout), more),
        parse_header(bytes, layout) is Ok && parse_header(bytes, layout)->Ok_0.1.len() == 0
            ==> parse_header(bytes + more, layout) == Ok::<
            (crate::request::RequestHeaderView, Seq<u8>),
            DecodeError,
        >((parse_header(bytes, layout)->Ok_0.0, more)),
{
    if parse_header(bytes, layout) is Ok {
        lemma_front(bytes, more, 0, 2);
        lemma_front(bytes, more, 2, 2);
        lemma_front(bytes, more, 4, 4);
        lemma_front(bytes, more, 8, 0);
        let after_fixed = bytes.skip(8);
        lemma_string_leaves_rest(after_fixed, more, layout);
        let after_client = parse_string(after_fixed, layout)->Ok_0.1;
        lemma_tag_buffer_leaves_rest(after_client, more);
        let rest = parse_header(bytes, layout)->Ok_0.1;
        if rest.len() == 0 {
            assert(rest + more =~= more);
        }
    }
}

/// The body of a request is read from the front, whatever the API key.
pub proof fn lemma_body_leaves_rest(api_key: i16, bytes: Seq<u8>, more: Seq<u8>)
    ensures
        leaves_rest(parse_body(api_key, bytes), parse_body(api_key, bytes + more), more),
{
    lemma_fetch_request_leaves_rest(bytes, more);
    lemma_describe_request_leaves_rest(bytes, more);
}

/// A request is read from the front: bytes after its body are left as they
/// are, and have no part in the request.
pub proof fn lemma_request_leaves_rest(bytes: Seq<u8>, more: Seq<u8>, layout: Encoding)
    ensures
        leaves_rest(parse_request(bytes, layout), parse_request(bytes + more, layout), more),
{
    lemma_header_leaves_rest(bytes, more, layout);
    if parse_request(bytes, layout) is Ok {
        let (header, after_header) = parse_header(bytes, layout)->Ok_0;
        lemma_body_leaves_rest(header.request_api_key, after_header, more);
    }
}

} // verus!
