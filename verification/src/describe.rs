//! The DescribeTopicPartitions API: the request that names topics, and the
//! response, which reports every topic as unknown because no metadata store
//! stands behind it.

use crate::codec::{
    compact_string_fits, compact_string_wire, i16_be_bytes, i32_be_bytes, lemma_be_bytes_len,
    parse_i32,
    parse_string, parse_tag_buffer, read_compact_string, read_i32, read_tag_buffer,
    string_fits, tag_buffer_wire, u128_be_bytes, write_compact_string, write_i16, write_i32,
    write_tag_buffer, write_u8, write_uuid, DecodeError, Encoding, Parsed, MAX_COMPACT_LEN,
};
use crate::deserialize::{parse_array, read_array, views, Deserialize};
use crate::serialize::{
    compact_array_encodable, compact_array_wire, is_compact_array_encodable,
    lemma_compact_array_wire_len, max_compact_array_len, write_compact_array, Serialize,
};
use vstd::prelude::*;

verus! {

// ---------------------------------------------------------------------------
// Cursor
// ---------------------------------------------------------------------------

/// The place at which a paged listing goes on. It is opaque here: the
/// response hands back the cursor of the request.
#[derive(Clone, Debug, PartialEq, Eq)]
pub struct Cursor {
    pub topic_name: String,
    pub partition_index: i32,
}

/// A cursor as a mathematical value.
pub struct CursorView {
    pub topic_name: Seq<char>,
    pub partition_index: i32,
}

impl View for Cursor {
    type V = CursorView;

    open spec fn view(&self) -> CursorView {
        CursorView { topic_name: self.topic_name@, partition_index: self.partition_index }
    }
}

/// What is read: topic name as a compact string, partition index, and the
/// tag buffer that follows a cursor.
impl Deserialize for Cursor {
    open spec fn parse(bytes: Seq<u8>) -> Parsed<CursorView> {
        match parse_string(bytes, Encoding::Compact) {
            Err(error) => Err(error),
            Ok((topic_name, rest)) => match parse_i32(rest) {
                Err(error) => Err(error),
                Ok((partition_index, rest)) => match parse_tag_buffer(rest) {
                    Err(error) => Err(error),
                    Ok((_, rest)) => Ok((CursorView { topic_name, partition_index }, rest)),
                },
            },
        }
    }

    fn from_bytes(buffer: &mut &[u8]) -> (outcome: Result<Cursor, DecodeError>) {
        let topic_name = read_compact_string(buffer)?;
        let partition_index = read_i32(buffer)?;
        read_tag_buffer(buffer)?;
        Ok(Cursor { topic_name, partition_index })
    }
}

/// The layout: topic name as a compact string, partition index. The tag
/// buffer that the decoder reads after a cursor is not part of it: whoever
/// writes a cursor writes the tag buffer after it.
impl Serialize for Cursor {
    open spec fn wire(value: CursorView) -> Seq<u8> {
        compact_string_wire(value.topic_name) + i32_be_bytes(value.partition_index)
    }

    open spec fn encodable(value: CursorView) -> bool {
        compact_string_fits(value.topic_name)
    }

    fn is_encodable(&self) -> (ok: bool) {
        string_fits(self.topic_name.as_str())
    }

    fn to_bytes(&self) -> (out: Vec<u8>) {
        let mut out = Vec::new();
        write_compact_string(&mut out, self.topic_name.as_str());
        write_i32(&mut out, self.partition_index);
        assert(out@ =~= Self::wire(self@));
        out
    }

    open spec fn max_wire_len() -> nat {
        1 + MAX_COMPACT_LEN as nat + 4
    }

    proof fn lemma_wire_len(value: CursorView) {
        lemma_be_bytes_len();
    }
}

// ---------------------------------------------------------------------------
// Request
// ---------------------------------------------------------------------------

/// The body of a DescribeTopicPartitions request.
#[derive(Clone, Debug, PartialEq, Eq)]
pub struct DescribeTopicPartitionsRequest {
    pub topics: Vec<String>,
    pub response_partition_limit: i32,
    pub cursor: Cursor,
}

/// A DescribeTopicPartitions request body as a mathematical value.
pub struct DescribeTopicPartitionsRequestView {
    pub topics: Seq<Seq<char>>,
    pub response_partition_limit: i32,
    pub cursor: CursorView,
}

impl View for DescribeTopicPartitionsRequest {
    type V = DescribeTopicPartitionsRequestView;

    open spec fn view(&self) -> DescribeTopicPartitionsRequestView {
        DescribeTopicPartitionsRequestView {
            topics: views(self.topics@),
            response_partition_limit: self.response_partition_limit,
            cursor: self.cursor@,
        }
    }
}

/// The layout: compact array of topic names, each a compact string; one tag
/// buffer after the array, which is read whether or not the array holds a
/// name; partition limit; cursor; tag buffer.
impl Deserialize for DescribeTopicPartitionsRequest {
    open spec fn parse(bytes: Seq<u8>) -> Parsed<DescribeTopicPartitionsRequestView> {
        match parse_array::<String>(bytes, Encoding::Compact) {
            Err(error) => Err(error),
            Ok((topics, rest)) => match parse_tag_buffer(rest) {
                Err(error) => Err(error),
                Ok((_, rest)) => match parse_i32(rest) {
                    Err(error) => Err(error),
                    Ok((response_partition_limit, rest)) => match Cursor::parse(rest) {
                        Err(error) => Err(error),
                        Ok((cursor, rest)) => match parse_tag_buffer(rest) {
                            Err(error) => Err(error),
                            Ok((_, rest)) => Ok(
                                (
                                    DescribeTopicPartitionsRequestView {
                                        topics,
                                        response_partition_limit,
                                        cursor,
                                    },
                                    rest,
                                ),
                            ),
                        },
                    },
                },
            },
        }
    }

    fn from_bytes(buffer: &mut &[u8]) -> (outcome: Result<
        DescribeTopicPartitionsRequest,
        DecodeError,
    >) {
        let topics = read_array::<String>(buffer, Encoding::Compact)?;
        read_tag_buffer(buffer)?;
        let response_partition_limit = read_i32(buffer)?;
        let cursor = Cursor::from_bytes(buffer)?;
        read_tag_buffer(buffer)?;
        Ok(DescribeTopicPartitionsRequest { topics, response_partition_limit, cursor })
    }
}

// ---------------------------------------------------------------------------
// Response
// ---------------------------------------------------------------------------

/// What a response says of one partition of a topic.
#[derive(Clone, Debug, PartialEq, Eq)]
pub struct Partition {
    pub error_code: i16,
    pub partition_index: i32,
    pub leader_id: i32,
    pub leader_epoch: i32,
    pub replica_nodes: Vec<i32>,
    pub isr_nodes: Vec<i32>,
    pub eligible_leader_replicas: Vec<i32>,
    pub last_known_elr: Vec<i32>,
    pub offline_replicas: Vec<i32>,
}

/// A partition description as a mathematical value.
pub struct PartitionView {
    pub error_code: i16,
    pub partition_index: i32,
    pub leader_id: i32,
    pub leader_epoch: i32,
    pub replica_nodes: Seq<i32>,
    pub isr_nodes: Seq<i32>,
    pub eligible_leader_replicas: Seq<i32>,
    pub last_known_elr: Seq<i32>,
    pub offline_replicas: Seq<i32>,
}

impl View for Partition {
    type V = PartitionView;

    open spec fn view(&self) -> PartitionView {
        PartitionView {
            error_code: self.error_code,
            partition_index: self.partition_index,
            leader_id: self.leader_id,
            leader_epoch: self.leader_epoch,
            replica_nodes: views(self.replica_nodes@),
            isr_nodes: views(self.isr_nodes@),
            eligible_leader_replicas: views(self.eligible_leader_replicas@),
            last_known_elr: views(self.last_known_elr@),
            offline_replicas: views(self.offline_replicas@),
        }
    }
}

/// The layout: error code, partition index, leader id, leader epoch, five
/// compact arrays of node ids (replicas, in-sync replicas, eligible leader
/// replicas, last known eligible leader replicas, offline replicas), tag
/// buffer.
impl Serialize for Partition {
    open spec fn wire(value: PartitionView) -> Seq<u8> {
        i16_be_bytes(value.error_code) + i32_be_bytes(value.partition_index) + i32_be_bytes(
            value.leader_id,
        ) + i32_be_bytes(value.leader_epoch) + compact_array_wire::<i32>(value.replica_nodes)
            + compact_array_wire::<i32>(value.isr_nodes) + compact_array_wire::<i32>(
            value.eligible_leader_replicas,
        ) + compact_array_wire::<i32>(value.last_known_elr) + compact_array_wire::<i32>(
            value.offline_replicas,
        ) + tag_buffer_wire()
    }

    open spec fn encodable(value: PartitionView) -> bool {
        &&& compact_array_encodable::<i32>(value.replica_nodes)
        &&& compact_array_encodable::<i32>(value.isr_nodes)
        &&& compact_array_encodable::<i32>(value.eligible_leader_replicas)
        &&& compact_array_encodable::<i32>(value.last_known_elr)
        &&& compact_array_encodable::<i32>(value.offline_replicas)
    }

    fn is_encodable(&self) -> (ok: bool) {
        is_compact_array_encodable(&self.replica_nodes) && is_compact_array_encodable(
            &self.isr_nodes,
        ) && is_compact_array_encodable(&self.eligible_leader_replicas)
            && is_compact_array_encodable(&self.last_known_elr) && is_compact_array_encodable(
            &self.offline_replicas,
        )
    }

    fn to_bytes(&self) -> (out: Vec<u8>) {
        let mut out = Vec::new();
        write_i16(&mut out, self.error_code);
        write_i32(&mut out, self.partition_index);
        write_i32(&mut out, self.leader_id);
        write_i32(&mut out, self.leader_epoch);
        write_compact_array(&mut out, &self.replica_nodes);
        write_compact_array(&mut out, &self.isr_nodes);
        write_compact_array(&mut out, &self.eligible_leader_replicas);
        write_compact_array(&mut out, &self.last_known_elr);
        write_compact_array(&mut out, &self.offline_replicas);
        write_tag_buffer(&mut out);
        assert(out@ =~= Self::wire(self@));
        out
    }

    open spec fn max_wire_len() -> nat {
        2 + 4 + 4 + 4 + 5 * max_compact_array_len::<i32>() + 1
    }

    proof fn lemma_wire_len(value: PartitionView) {
        lemma_be_bytes_len();
        lemma_compact_array_wire_len::<i32>(value.replica_nodes);
        lemma_compact_array_wire_len::<i32>(value.isr_nodes);
        lemma_compact_array_wire_len::<i32>(value.eligible_leader_replicas);
        lemma_compact_array_wire_len::<i32>(value.last_known_elr);
        lemma_compact_array_wire_len::<i32>(value.offline_replicas);
    }
}

/// What a response says of one topic.
#[derive(Clone, Debug, PartialEq, Eq)]
pub struct Topic {
    pub error_code: i16,
    pub name: String,
    pub topic_id: u128,
    pub is_internal: bool,
    pub partitions: Vec<Partition>,
    pub topic_authorized_operations: i32,
}

/// A topic description as a mathematical value.
pub struct TopicView {
    pub error_code: i16,
    pub name: Seq<char>,
    pub topic_id: u128,
    pub is_internal: bool,
    pub partitions: Seq<PartitionView>,
    pub topic_authorized_operations: i32,
}

impl View for Topic {
    type V = TopicView;

    open spec fn view(&self) -> TopicView {
        TopicView {
            error_code: self.error_code,
            name: self.name@,
            topic_id: self.topic_id,
            is_internal: self.is_internal,
            partitions: views(self.partitions@),
            topic_authorized_operations: self.topic_authorized_operations,
        }
    }
}

/// The description of a topic of which nothing is known but its name: the
/// identifier is zero, the topic is not internal, it has no partitions and
/// grants no operations.
pub open spec fn unknown_topic(error_code: i16, name: Seq<char>) -> TopicView {
    TopicView {
        error_code,
        name,
        topic_id: 0,
        is_internal: false,
        partitions: Seq::empty(),
        topic_authorized_operations: 0,
    }
}

impl Topic {
    /// The description of a topic of which nothing is known but its name.
    pub fn new(error_code: i16, name: String) -> (topic: Self)
        ensures
            topic@ == unknown_topic(error_code, name@),
            compact_string_fits(name@) ==> Topic::encodable(topic@),
    {
        let topic = Topic {
            error_code,
            name,
            topic_id: 0,
            is_internal: false,
            partitions: Vec::new(),
            topic_authorized_operations: 0,
        };
        assert(topic@.partitions =~= Seq::empty());
        topic
    }
}

/// One byte for a flag: 1 when it is set, 0 when it is not.
pub open spec fn bool_wire(flag: bool) -> Seq<u8> {
    seq![if flag { 1u8 } else { 0u8 }]
}

/// The layout: error code, name as a compact string, identifier, the
/// internal flag in one byte, compact array of partitions, authorized
/// operations, tag buffer.
impl Serialize for Topic {
    open spec fn wire(value: TopicView) -> Seq<u8> {
        i16_be_bytes(value.error_code) + compact_string_wire(value.name) + u128_be_bytes(
            value.topic_id,
        ) + bool_wire(value.is_internal) + compact_array_wire::<Partition>(value.partitions)
            + i32_be_bytes(value.topic_authorized_operations) + tag_buffer_wire()
    }

    open spec fn encodable(value: TopicView) -> bool {
        &&& compact_string_fits(value.name)
        &&& compact_array_encodable::<Partition>(value.partitions)
    }

    fn is_encodable(&self) -> (ok: bool) {
        string_fits(self.name.as_str()) && is_compact_array_encodable(&self.partitions)
    }

    fn to_bytes(&self) -> (out: Vec<u8>) {
        let mut out = Vec::new();
        write_i16(&mut out, self.error_code);
        write_compact_string(&mut out, self.name.as_str());
        write_uuid(&mut out, self.topic_id);
        write_u8(&mut out, if self.is_internal { 1 } else { 0 });
        write_compact_array(&mut out, &self.partitions);
        write_i32(&mut out, self.topic_authorized_operations);
        write_tag_buffer(&mut out);
        assert(out@ =~= Self::wire(self@));
        out
    }

    open spec fn max_wire_len() -> nat {
        2 + 1 + MAX_COMPACT_LEN as nat + 16 + 1 + max_compact_array_len::<Partition>() + 4 + 1
    }

    proof fn lemma_wire_len(value: TopicView) {
        lemma_be_bytes_len();
        lemma_compact_array_wire_len::<Partition>(value.partitions);
    }
}

/// The body of a DescribeTopicPartitions response.
#[derive(Clone, Debug, PartialEq, Eq)]
pub struct DescribeTopicPartitionsResponse {
    pub throttle_time_ms: i32,
    pub topics: Vec<Topic>,
    pub next_cursor: Cursor,
}

/// A DescribeTopicPartitions response body as a mathematical value.
pub struct DescribeTopicPartitionsResponseView {
    pub throttle_time_ms: i32,
    pub topics: Seq<TopicView>,
    pub next_cursor: CursorView,
}

impl View for DescribeTopicPartitionsResponse {
    type V = DescribeTopicPartitionsResponseView;

    open spec fn view(&self) -> DescribeTopicPartitionsResponseView {
        DescribeTopicPartitionsResponseView {
            throttle_time_ms: self.throttle_time_ms,
            topics: views(self.topics@),
            next_cursor: self.next_cursor@,
        }
    }
}

/// The response to a request when no metadata is stored: it never
/// throttles, describes each requested topic, in the order of the request,
/// as unknown under the given error code, and hands back the cursor of the
/// request.
pub open spec fn describe_response(
    error_code: i16,
    request: DescribeTopicPartitionsRequestView,
) -> DescribeTopicPartitionsResponseView {
    DescribeTopicPartitionsResponseView {
        throttle_time_ms: 0,
        topics: request.topics.map_values(|name: Seq<char>| unknown_topic(error_code, name)),
        next_cursor: request.cursor,
    }
}

/// Every string of the request, and the array of its topics, is short
/// enough for a compact length prefix, so that the names and the cursor can
/// be sent back.
pub open spec fn request_can_be_echoed(request: DescribeTopicPartitionsRequestView) -> bool {
    &&& request.topics.len() <= MAX_COMPACT_LEN
    &&& forall|i: int| 0 <= i < request.topics.len() ==> compact_string_fits(#[trigger] request.topics[i])
    &&& compact_string_fits(request.cursor.topic_name)
}

impl DescribeTopicPartitionsResponse {
    /// Answers a request with the given error code for every topic. The
    /// answer can be encoded exactly when the strings and the topic array
    /// of the request are short enough to be sent back.
    pub fn new(error_code: i16, request: &DescribeTopicPartitionsRequest) -> (response: Self)
        ensures
            response@ == describe_response(error_code, request@),
            DescribeTopicPartitionsResponse::encodable(response@) == request_can_be_echoed(
                request@,
            ),
    {
        let ghost wanted = describe_response(error_code, request@).topics;
        let mut topics: Vec<Topic> = Vec::new();
        let mut at: usize = 0;
        while at < request.topics.len()
            invariant
                at <= request.topics@.len(),
                wanted == describe_response(error_code, request@).topics,
                views(topics@) =~= wanted.take(at as int),
            decreases request.topics@.len() - at,
        {
            let ghost before = topics@;
            let topic = Topic::new(error_code, request.topics[at].clone());
            proof {
                assert(request@.topics[at as int] == request.topics@[at as int]@);
                assert(wanted[at as int] == topic@);
            }
            topics.push(topic);
            proof {
                assert(views(topics@) =~= views(before).push(topic@));
                assert(views(topics@) =~= wanted.take(at + 1));
            }
            at += 1;
        }
        assert(wanted.take(at as int) =~= wanted);
        let next_cursor = Cursor {
            topic_name: request.cursor.topic_name.clone(),
            partition_index: request.cursor.partition_index,
        };
        let response = DescribeTopicPartitionsResponse { throttle_time_ms: 0, topics, next_cursor };
        proof {
            lemma_describe_response_encodable(error_code, request@);
        }
        response
    }
}

/// The answer to a request can be encoded exactly when the request can be
/// echoed.
pub proof fn lemma_describe_response_encodable(
    error_code: i16,
    request: DescribeTopicPartitionsRequestView,
)
    ensures
        DescribeTopicPartitionsResponse::encodable(describe_response(error_code, request))
            == request_can_be_echoed(request),
{
    let response = describe_response(error_code, request);
    assert forall|i: int| 0 <= i < request.topics.len() implies (Topic::encodable(
        #[trigger] response.topics[i],
    ) == compact_string_fits(request.topics[i])) by {
        assert(response.topics[i] == unknown_topic(error_code, request.topics[i]));
    }
    if request_can_be_echoed(request) {
        assert(DescribeTopicPartitionsResponse::encodable(response));
    }
    if DescribeTopicPartitionsResponse::encodable(response) {
        assert forall|i: int| 0 <= i < request.topics.len() implies compact_string_fits(
            #[trigger] request.topics[i],
        ) by {
            assert(Topic::encodable(response.topics[i]));
        }
    }
}

/// The layout: throttle time, compact array of topics, cursor, tag buffer.
impl Serialize for DescribeTopicPartitionsResponse {
    open spec fn wire(value: DescribeTopicPartitionsResponseView) -> Seq<u8> {
        i32_be_bytes(value.throttle_time_ms) + compact_array_wire::<Topic>(value.topics)
            + Cursor::wire(value.next_cursor) + tag_buffer_wire()
    }

    open spec fn encodable(value: DescribeTopicPartitionsResponseView) -> bool {
        &&& compact_array_encodable::<Topic>(value.topics)
        &&& Cursor::encodable(value.next_cursor)
    }

    fn is_encodable(&self) -> (ok: bool) {
        is_compact_array_encodable(&self.topics) && self.next_cursor.is_encodable()
    }

    fn to_bytes(&self) -> (out: Vec<u8>) {
        let mut out = Vec::new();
        write_i32(&mut out, self.throttle_time_ms);
        write_compact_array(&mut out, &self.topics);
        let cursor = self.next_cursor.to_bytes();
        out.extend_from_slice(cursor.as_slice());
        write_tag_buffer(&mut out);
        assert(out@ =~= Self::wire(self@));
        out
    }

    open spec fn max_wire_len() -> nat {
        4 + max_compact_array_len::<Topic>() + Cursor::max_wire_len() + 1
    }

    proof fn lemma_wire_len(value: DescribeTopicPartitionsResponseView) {
        lemma_be_bytes_len();
        lemma_compact_array_wire_len::<Topic>(value.topics);
        Cursor::lemma_wire_len(value.next_cursor);
    }
}

} // verus!
