//! The Fetch API: the request with its topics and partitions, and the
//! response, which carries no records because no log stands behind it.

use crate::codec::{
    be_i32, be_i64, compact_prefix, i16_be_bytes, i32_be_bytes, i64_be_bytes,
    lemma_be_bytes_len, parse_i8,
    parse_string, parse_tag_buffer, parse_uuid, read_compact_string, read_i32, read_i64, read_i8,
    read_tag_buffer, read_uuid, tag_buffer_wire, u128_be_bytes, write_bytes,
    write_compact_length, write_i16, write_i32, write_i64, write_tag_buffer, write_uuid,
    DecodeError, Encoding, Parsed, MAX_COMPACT_LEN,
};
use crate::deserialize::{parse_array, read_array, views, Deserialize};
use crate::serialize::{
    compact_array_encodable, compact_array_wire, is_compact_array_encodable,
    lemma_compact_array_wire_len, max_compact_array_len, write_compact_array, Serialize,
};
use vstd::prelude::*;
use vstd::seq_lib::lemma_seq_skip_of_skip;

verus! {

// ---------------------------------------------------------------------------
// Request
// ---------------------------------------------------------------------------

/// What a Fetch request asks of one partition.
#[derive(Clone, Copy, Debug, PartialEq, Eq, Structural)]
pub struct PartitionReq {
    pub partition: i32,
    pub current_leader_epoch: i32,
    pub fetch_offset: i64,
    pub last_fetched_epoch: i32,
    pub log_start_offset: i64,
    pub partition_max_bytes: i32,
}

impl View for PartitionReq {
    type V = PartitionReq;

    open spec fn view(&self) -> PartitionReq {
        *self
    }
}

/// The layout is fixed: 32 bytes of integers and a tag buffer.
impl Deserialize for PartitionReq {
    open spec fn parse(bytes: Seq<u8>) -> Parsed<PartitionReq> {
        if bytes.len() < 33 {
            Err(DecodeError::Truncated)
        } else if bytes[32] != 0 {
            Err(DecodeError::UnsupportedFeature)
        } else {
            Ok(
                (
                    PartitionReq {
                        partition: be_i32(bytes) as i32,
                        current_leader_epoch: be_i32(bytes.skip(4)) as i32,
                        fetch_offset: be_i64(bytes.skip(8)) as i64,
                        last_fetched_epoch: be_i32(bytes.skip(16)) as i32,
                        log_start_offset: be_i64(bytes.skip(20)) as i64,
                        partition_max_bytes: be_i32(bytes.skip(28)) as i32,
                    },
                    bytes.skip(33),
                ),
            )
        }
    }

    fn from_bytes(buffer: &mut &[u8]) -> (outcome: Result<PartitionReq, DecodeError>) {
        broadcast use lemma_seq_skip_of_skip;

        let partition = read_i32(buffer)?;
        let current_leader_epoch = read_i32(buffer)?;
        let fetch_offset = read_i64(buffer)?;
        let last_fetched_epoch = read_i32(buffer)?;
        let log_start_offset = read_i64(buffer)?;
        let partition_max_bytes = read_i32(buffer)?;
        read_tag_buffer(buffer)?;
        Ok(
            PartitionReq {
                partition,
                current_leader_epoch,
                fetch_offset,
                last_fetched_epoch,
                log_start_offset,
                partition_max_bytes,
            },
        )
    }
}

/// A topic of a Fetch request, with the partitions asked of it.
#[derive(Clone, Debug, PartialEq, Eq)]
pub struct Topic {
    pub topic_id: u128,
    pub partitions: Vec<PartitionReq>,
}

/// A topic of a Fetch request as a mathematical value.
pub struct TopicView {
    pub topic_id: u128,
    pub partitions: Seq<PartitionReq>,
}

impl View for Topic {
    type V = TopicView;

    open spec fn view(&self) -> TopicView {
        TopicView { topic_id: self.topic_id, partitions: views(self.partitions@) }
    }
}

/// The layout: identifier, compact array of partitions, tag buffer.
impl Deserialize for Topic {
    open spec fn parse(bytes: Seq<u8>) -> Parsed<TopicView> {
        match parse_uuid(bytes) {
            Err(error) => Err(error),
            Ok((topic_id, rest)) => match parse_array::<PartitionReq>(rest, Encoding::Compact) {
                Err(error) => Err(error),
                Ok((partitions, rest)) => match parse_tag_buffer(rest) {
                    Err(error) => Err(error),
                    Ok((_, rest)) => Ok((TopicView { topic_id, partitions }, rest)),
                },
            },
        }
    }

    fn from_bytes(buffer: &mut &[u8]) -> (outcome: Result<Topic, DecodeError>) {
        let topic_id = read_uuid(buffer)?;
        let partitions = read_array::<PartitionReq>(buffer, Encoding::Compact)?;
        read_tag_buffer(buffer)?;
        Ok(Topic { topic_id, partitions })
    }
}

/// A topic whose partitions the client drops from its fetch session.
#[derive(Clone, Debug, PartialEq, Eq)]
pub struct ForgottenTopicsData {
    pub topic_id: u128,
    pub partitions: Vec<i32>,
}

/// A forgotten topic as a mathematical value.
pub struct ForgottenTopicsDataView {
    pub topic_id: u128,
    pub partitions: Seq<i32>,
}

impl View for ForgottenTopicsData {
    type V = ForgottenTopicsDataView;

    open spec fn view(&self) -> ForgottenTopicsDataView {
        ForgottenTopicsDataView { topic_id: self.topic_id, partitions: views(self.partitions@) }
    }
}

/// The layout: identifier, legacy array of partition numbers (a signed byte
/// count, then that many 32-bit integers), tag buffer.
impl Deserialize for ForgottenTopicsData {
    open spec fn parse(bytes: Seq<u8>) -> Parsed<ForgottenTopicsDataView> {
        match parse_uuid(bytes) {
            Err(error) => Err(error),
            Ok((topic_id, rest)) => match parse_array::<i32>(rest, Encoding::Legacy) {
                Err(error) => Err(error),
                Ok((partitions, rest)) => match parse_tag_buffer(rest) {
                    Err(error) => Err(error),
                    Ok((_, rest)) => Ok((ForgottenTopicsDataView { topic_id, partitions }, rest)),
                },
            },
        }
    }

    fn from_bytes(buffer: &mut &[u8]) -> (outcome: Result<ForgottenTopicsData, DecodeError>) {
        let topic_id = read_uuid(buffer)?;
        let partitions = read_array::<i32>(buffer, Encoding::Legacy)?;
        read_tag_buffer(buffer)?;
        Ok(ForgottenTopicsData { topic_id, partitions })
    }
}

/// The body of a Fetch request.
#[derive(Clone, Debug, PartialEq, Eq)]
pub struct FetchRequest {
    pub max_wait_ms: i32,
    pub min_bytes: i32,
    pub max_bytes: i32,
    pub isolation_level: i8,
    pub session_id: i32,
    pub session_epoch: i32,
    pub topics: Vec<Topic>,
    pub forgotten_topics_data: Vec<ForgottenTopicsData>,
    pub rack_id: String,
}

/// A Fetch request body as a mathematical value.
pub struct FetchRequestView {
    pub max_wait_ms: i32,
    pub min_bytes: i32,
    pub max_bytes: i32,
    pub isolation_level: i8,
    pub session_id: i32,
    pub session_epoch: i32,
    pub topics: Seq<TopicView>,
    pub forgotten_topics_data: Seq<ForgottenTopicsDataView>,
    pub rack_id: Seq<char>,
}

impl View for FetchRequest {
    type V = FetchRequestView;

    open spec fn view(&self) -> FetchRequestView {
        FetchRequestView {
            max_wait_ms: self.max_wait_ms,
            min_bytes: self.min_bytes,
            max_bytes: self.max_bytes,
            isolation_level: self.isolation_level,
            session_id: self.session_id,
            session_epoch: self.session_epoch,
            topics: views(self.topics@),
            forgotten_topics_data: views(self.forgotten_topics_data@),
            rack_id: self.rack_id@,
        }
    }
}

/// The fixed-width fields at the front of a Fetch request take 21 bytes.
pub open spec fn fetch_request_fixed(
    bytes: Seq<u8>,
    topics: Seq<TopicView>,
    forgotten_topics_data: Seq<ForgottenTopicsDataView>,
    rack_id: Seq<char>,
) -> FetchRequestView {
    FetchRequestView {
        max_wait_ms: be_i32(bytes) as i32,
        min_bytes: be_i32(bytes.skip(4)) as i32,
        max_bytes: be_i32(bytes.skip(8)) as i32,
        isolation_level: parse_i8(bytes.skip(12))->Ok_0.0,
        session_id: be_i32(bytes.skip(13)) as i32,
        session_epoch: be_i32(bytes.skip(17)) as i32,
        topics,
        forgotten_topics_data,
        rack_id,
    }
}

/// The layout: 21 bytes of integers (wait time, minimum and maximum size,
/// isolation level in one byte, session id and epoch), compact array of
/// topics, compact array of forgotten topics, rack id as a compact string,
/// tag buffer.
impl Deserialize for FetchRequest {
    open spec fn parse(bytes: Seq<u8>) -> Parsed<FetchRequestView> {
        if bytes.len() < 21 {
            Err(DecodeError::Truncated)
        } else {
            match parse_array::<Topic>(bytes.skip(21), Encoding::Compact) {
                Err(error) => Err(error),
                Ok((topics, rest)) => match parse_array::<ForgottenTopicsData>(
                    rest,
                    Encoding::Compact,
                ) {
                    Err(error) => Err(error),
                    Ok((forgotten, rest)) => match parse_string(rest, Encoding::Compact) {
                        Err(error) => Err(error),
                        Ok((rack_id, rest)) => match parse_tag_buffer(rest) {
                            Err(error) => Err(error),
                            Ok((_, rest)) => Ok(
                                (fetch_request_fixed(bytes, topics, forgotten, rack_id), rest),
                            ),
                        },
                    },
                },
            }
        }
    }

    fn from_bytes(buffer: &mut &[u8]) -> (outcome: Result<FetchRequest, DecodeError>) {
        broadcast use lemma_seq_skip_of_skip;

        let max_wait_ms = read_i32(buffer)?;
        let min_bytes = read_i32(buffer)?;
        let max_bytes = read_i32(buffer)?;
        let isolation_level = read_i8(buffer)?;
        let session_id = read_i32(buffer)?;
        let session_epoch = read_i32(buffer)?;
        let topics = read_array::<Topic>(buffer, Encoding::Compact)?;
        let forgotten_topics_data = read_array::<ForgottenTopicsData>(buffer, Encoding::Compact)?;
        let rack_id = read_compact_string(buffer)?;
        read_tag_buffer(buffer)?;
        Ok(
            FetchRequest {
                max_wait_ms,
                min_bytes,
                max_bytes,
                isolation_level,
                session_id,
                session_epoch,
                topics,
                forgotten_topics_data,
                rack_id,
            },
        )
    }
}

// ---------------------------------------------------------------------------
// Response
// ---------------------------------------------------------------------------

/// A transaction that was aborted within the fetched range.
#[derive(Clone, Copy, Debug, PartialEq, Eq, Structural)]
pub struct AbortedTransaction {
    pub producer_id: i64,
    pub first_offset: i64,
}

impl View for AbortedTransaction {
    type V = AbortedTransaction;

    open spec fn view(&self) -> AbortedTransaction {
        *self
    }
}

/// The layout: producer id, first offset, tag buffer.
impl Serialize for AbortedTransaction {
    open spec fn wire(value: AbortedTransaction) -> Seq<u8> {
        i64_be_bytes(value.producer_id) + i64_be_bytes(value.first_offset) + tag_buffer_wire()
    }

    open spec fn encodable(value: AbortedTransaction) -> bool {
        true
    }

    fn is_encodable(&self) -> (ok: bool) {
        true
    }

    fn to_bytes(&self) -> (out: Vec<u8>) {
        let mut out = Vec::new();
        write_i64(&mut out, self.producer_id);
        write_i64(&mut out, self.first_offset);
        write_tag_buffer(&mut out);
        assert(out@ =~= Self::wire(self@));
        out
    }

    open spec fn max_wire_len() -> nat {
        17
    }

    proof fn lemma_wire_len(value: AbortedTransaction) {
        lemma_be_bytes_len();
    }
}

/// What a Fetch response says of one partition.
#[derive(Clone, Debug, PartialEq, Eq)]
pub struct PartitionResp {
    pub partition_index: i32,
    pub error_code: i16,
    pub high_watermark: i64,
    pub last_stable_offset: i64,
    pub log_start_offset: i64,
    pub aborted_transactions: Vec<AbortedTransaction>,
    pub preferred_read_replica: i32,
    pub records: Vec<u8>,
}

/// A partition result as a mathematical value.
pub struct PartitionRespView {
    pub partition_index: i32,
    pub error_code: i16,
    pub high_watermark: i64,
    pub last_stable_offset: i64,
    pub log_start_offset: i64,
    pub aborted_transactions: Seq<AbortedTransaction>,
    pub preferred_read_replica: i32,
    pub records: Seq<u8>,
}

impl View for PartitionResp {
    type V = PartitionRespView;

    open spec fn view(&self) -> PartitionRespView {
        PartitionRespView {
            partition_index: self.partition_index,
            error_code: self.error_code,
            high_watermark: self.high_watermark,
            last_stable_offset: self.last_stable_offset,
            log_start_offset: self.log_start_offset,
            aborted_transactions: views(self.aborted_transactions@),
            preferred_read_replica: self.preferred_read_replica,
            records: self.records@,
        }
    }
}

/// The result for a partition of which nothing is stored: all offsets are
/// zero, no transaction was aborted, and there are no records.
pub open spec fn empty_partition(partition_index: i32, error_code: i16) -> PartitionRespView {
    PartitionRespView {
        partition_index,
        error_code,
        high_watermark: 0,
        last_stable_offset: 0,
        log_start_offset: 0,
        aborted_transactions: Seq::empty(),
        preferred_read_replica: 0,
        records: Seq::empty(),
    }
}

impl PartitionResp {
    /// The result for a partition of which nothing is stored.
    pub fn new(partition_index: i32, error_code: i16) -> (result: Self)
        ensures
            result@ == empty_partition(partition_index, error_code),
            PartitionResp::encodable(result@),
    {
        let result = PartitionResp {
            partition_index,
            error_code,
            high_watermark: 0,
            last_stable_offset: 0,
            log_start_offset: 0,
            aborted_transactions: Vec::new(),
            preferred_read_replica: 0,
            records: Vec::new(),
        };
        assert(result@.aborted_transactions =~= Seq::empty());
        result
    }
}

/// The layout: partition index, error code, three offsets, compact array of
/// aborted transactions, preferred read replica, the records as a compact
/// length and that many bytes, tag buffer.
impl Serialize for PartitionResp {
    open spec fn wire(value: PartitionRespView) -> Seq<u8> {
        i32_be_bytes(value.partition_index) + i16_be_bytes(value.error_code) + i64_be_bytes(
            value.high_watermark,
        ) + i64_be_bytes(value.last_stable_offset) + i64_be_bytes(value.log_start_offset)
            + compact_array_wire::<AbortedTransaction>(value.aborted_transactions) + i32_be_bytes(
            value.preferred_read_replica,
        ) + seq![compact_prefix(value.records.len())] + value.records + tag_buffer_wire()
    }

    open spec fn encodable(value: PartitionRespView) -> bool {
        &&& compact_array_encodable::<AbortedTransaction>(value.aborted_transactions)
        &&& value.records.len() <= MAX_COMPACT_LEN
    }

    fn is_encodable(&self) -> (ok: bool) {
        is_compact_array_encodable(&self.aborted_transactions) && self.records.len()
            <= MAX_COMPACT_LEN
    }

    fn to_bytes(&self) -> (out: Vec<u8>) {
        let mut out = Vec::new();
        write_i32(&mut out, self.partition_index);
        write_i16(&mut out, self.error_code);
        write_i64(&mut out, self.high_watermark);
        write_i64(&mut out, self.last_stable_offset);
        write_i64(&mut out, self.log_start_offset);
        write_compact_array(&mut out, &self.aborted_transactions);
        write_i32(&mut out, self.preferred_read_replica);
        write_compact_length(&mut out, self.records.len());
        write_bytes(&mut out, self.records.as_slice());
        write_tag_buffer(&mut out);
        assert(out@ =~= Self::wire(self@));
        out
    }

    open spec fn max_wire_len() -> nat {
        4 + 2 + 8 + 8 + 8 + max_compact_array_len::<AbortedTransaction>() + 4 + 1
            + MAX_COMPACT_LEN as nat + 1
    }

    proof fn lemma_wire_len(value: PartitionRespView) {
        lemma_be_bytes_len();
        lemma_compact_array_wire_len::<AbortedTransaction>(value.aborted_transactions);
    }
}

/// The part of a Fetch response that answers for one topic.
#[derive(Clone, Debug, PartialEq, Eq)]
pub struct Response {
    pub topic_id: u128,
    pub partitions: Vec<PartitionResp>,
}

/// A topic of a Fetch response as a mathematical value.
pub struct ResponseView {
    pub topic_id: u128,
    pub partitions: Seq<PartitionRespView>,
}

impl View for Response {
    type V = ResponseView;

    open spec fn view(&self) -> ResponseView {
        ResponseView { topic_id: self.topic_id, partitions: views(self.partitions@) }
    }
}

/// The answer for a topic of which nothing is stored: one empty result, for
/// partition 0, with the error code of the whole response.
pub open spec fn empty_topic(topic_id: u128, error_code: i16) -> ResponseView {
    ResponseView { topic_id, partitions: seq![empty_partition(0, error_code)] }
}

impl Response {
    /// The answer for a topic of which nothing is stored.
    pub fn new(topic_id: u128, error_code: i16) -> (response: Self)
        ensures
            response@ == empty_topic(topic_id, error_code),
            Response::encodable(response@),
    {
        let mut partitions = Vec::new();
        partitions.push(PartitionResp::new(0, error_code));
        let response = Response { topic_id, partitions };
        assert(response@.partitions =~= seq![empty_partition(0, error_code)]);
        response
    }
}

/// The layout: identifier, compact array of partition results, tag buffer.
impl Serialize for Response {
    open spec fn wire(value: ResponseView) -> Seq<u8> {
        u128_be_bytes(value.topic_id) + compact_array_wire::<PartitionResp>(value.partitions)
            + tag_buffer_wire()
    }

    open spec fn encodable(value: ResponseView) -> bool {
        compact_array_encodable::<PartitionResp>(value.partitions)
    }

    fn is_encodable(&self) -> (ok: bool) {
        is_compact_array_encodable(&self.partitions)
    }

    fn to_bytes(&self) -> (out: Vec<u8>) {
        let mut out = Vec::new();
        write_uuid(&mut out, self.topic_id);
        write_compact_array(&mut out, &self.partitions);
        write_tag_buffer(&mut out);
        assert(out@ =~= Self::wire(self@));
        out
    }

    open spec fn max_wire_len() -> nat {
        16 + max_compact_array_len::<PartitionResp>() + 1
    }

    proof fn lemma_wire_len(value: ResponseView) {
        lemma_be_bytes_len();
        lemma_compact_array_wire_len::<PartitionResp>(value.partitions);
    }
}

/// The body of a Fetch response.
#[derive(Clone, Debug, PartialEq, Eq)]
pub struct FetchResponse {
    pub throttle_time_ms: i32,
    pub error_code: i16,
    pub session_id: i32,
    pub responses: Vec<Response>,
}

/// A Fetch response body as a mathematical value.
pub struct FetchResponseView {
    pub throttle_time_ms: i32,
    pub error_code: i16,
    pub session_id: i32,
    pub responses: Seq<ResponseView>,
}

impl View for FetchResponse {
    type V = FetchResponseView;

    open spec fn view(&self) -> FetchResponseView {
        FetchResponseView {
            throttle_time_ms: self.throttle_time_ms,
            error_code: self.error_code,
            session_id: self.session_id,
            responses: views(self.responses@),
        }
    }
}

/// The response to a Fetch request when nothing is stored: it echoes the
/// session id, never throttles, and answers each requested topic, in the
/// order of the request, with one empty partition result.
pub open spec fn fetch_response(error_code: i16, request: FetchRequestView) -> FetchResponseView {
    FetchResponseView {
        throttle_time_ms: 0,
        error_code,
        session_id: request.session_id,
        responses: request.topics.map_values(
            |topic: TopicView| empty_topic(topic.topic_id, error_code),
        ),
    }
}

impl FetchResponse {
    /// Answers a Fetch request with the given error code and no records.
    /// The answer can be encoded when the request names at most
    /// `MAX_COMPACT_LEN` topics, as every decoded request does.
    pub fn new(error_code: i16, request: &FetchRequest) -> (response: Self)
        ensures
            response@ == fetch_response(error_code, request@),
            request@.topics.len() <= MAX_COMPACT_LEN ==> FetchResponse::encodable(response@),
    {
        let ghost wanted = fetch_response(error_code, request@).responses;
        let mut responses: Vec<Response> = Vec::new();
        let mut at: usize = 0;
        while at < request.topics.len()
            invariant
                at <= request.topics@.len(),
                wanted == fetch_response(error_code, request@).responses,
                views(responses@) =~= wanted.take(at as int),
                forall|i: int| 0 <= i < at ==> Response::encodable(#[trigger] views(responses@)[i]),
            decreases request.topics@.len() - at,
        {
            let ghost before = responses@;
            let answer = Response::new(request.topics[at].topic_id, error_code);
            proof {
                assert(request@.topics[at as int] == request.topics@[at as int]@);
                assert(wanted[at as int] == answer@);
            }
            responses.push(answer);
            proof {
                assert(views(responses@) =~= views(before).push(answer@));
                assert(views(responses@) =~= wanted.take(at + 1));
            }
            at += 1;
        }
        assert(wanted.take(at as int) =~= wanted);
        FetchResponse { throttle_time_ms: 0, error_code, session_id: request.session_id, responses }
    }
}

/// The answer to a request that names at most `MAX_COMPACT_LEN` topics can
/// be encoded.
pub proof fn lemma_fetch_response_encodable(error_code: i16, request: FetchRequestView)
    requires
        request.topics.len() <= MAX_COMPACT_LEN,
    ensures
        FetchResponse::encodable(fetch_response(error_code, request)),
{
    let answers = fetch_response(error_code, request).responses;
    assert forall|i: int| 0 <= i < answers.len() implies Response::encodable(
        #[trigger] answers[i],
    ) by {
        let answer = answers[i];
        assert(answer == empty_topic(request.topics[i].topic_id, error_code));
        assert forall|j: int| 0 <= j < answer.partitions.len() implies PartitionResp::encodable(
            #[trigger] answer.partitions[j],
        ) by {
            assert(answer.partitions[j] == empty_partition(0, error_code));
        }
    }
}

/// The layout: throttle time, error code, session id, compact array of
/// topics, tag buffer.
impl Serialize for FetchResponse {
    open spec fn wire(value: FetchResponseView) -> Seq<u8> {
        i32_be_bytes(value.throttle_time_ms) + i16_be_bytes(value.error_code) + i32_be_bytes(
            value.session_id,
        ) + compact_array_wire::<Response>(value.responses) + tag_buffer_wire()
    }

    open spec fn encodable(value: FetchResponseView) -> bool {
        compact_array_encodable::<Response>(value.responses)
    }

    fn is_encodable(&self) -> (ok: bool) {
        is_compact_array_encodable(&self.responses)
    }

    fn to_bytes(&self) -> (out: Vec<u8>) {
        let mut out = Vec::new();
        write_i32(&mut out, self.throttle_time_ms);
        write_i16(&mut out, self.error_code);
        write_i32(&mut out, self.session_id);
        write_compact_array(&mut out, &self.responses);
        write_tag_buffer(&mut out);
        assert(out@ =~= Self::wire(self@));
        out
    }

    open spec fn max_wire_len() -> nat {
        4 + 2 + 4 + max_compact_array_len::<Response>() + 1
    }

    proof fn lemma_wire_len(value: FetchResponseView) {
        lemma_be_bytes_len();
        lemma_compact_array_wire_len::<Response>(value.responses);
    }
}

} // verus!
