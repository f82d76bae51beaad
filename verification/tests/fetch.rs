use kafka_wire::codec::DecodeError;
use kafka_wire::deserialize::Deserialize;
use kafka_wire::fetch::{
    AbortedTransaction, FetchRequest, FetchResponse, ForgottenTopicsData, PartitionReq,
    PartitionResp, Response, Topic,
};
use kafka_wire::serialize::Serialize;

fn partition_bytes(partition: u8) -> Vec<u8> {
    let mut bytes = vec![0u8, 0, 0, partition]; // partition
    bytes.extend_from_slice(&[0, 0, 0, 2]); // current leader epoch
    bytes.extend_from_slice(&[0, 0, 0, 0, 0, 0, 0, 3]); // fetch offset
    bytes.extend_from_slice(&[0xff, 0xff, 0xff, 0xff]); // last fetched epoch
    bytes.extend_from_slice(&[0, 0, 0, 0, 0, 0, 0, 5]); // log start offset
    bytes.extend_from_slice(&[0, 0x10, 0, 0]); // partition max bytes
    bytes.push(0); // tag buffer
    bytes
}

fn partition(partition: i32) -> PartitionReq {
    PartitionReq {
        partition,
        current_leader_epoch: 2,
        fetch_offset: 3,
        last_fetched_epoch: -1,
        log_start_offset: 5,
        partition_max_bytes: 0x0010_0000,
    }
}

fn uuid_bytes(last: u8) -> Vec<u8> {
    let mut bytes = vec![0u8; 15];
    bytes.push(last);
    bytes
}

fn fetch_request_bytes() -> Vec<u8> {
    let mut bytes = vec![0u8, 0, 1, 0xf4]; // max wait 500
    bytes.extend_from_slice(&[0, 0, 0, 1]); // min bytes
    bytes.extend_from_slice(&[0x03, 0x20, 0, 0]); // max bytes
    bytes.push(0xff); // isolation level -1
    bytes.extend_from_slice(&[0x01, 0x02, 0x03, 0x04]); // session id
    bytes.extend_from_slice(&[0, 0, 0, 9]); // session epoch
    bytes.push(3); // two topics
    bytes.extend_from_slice(&uuid_bytes(0xaa));
    bytes.push(3); // two partitions
    bytes.extend_from_slice(&partition_bytes(0));
    bytes.extend_from_slice(&partition_bytes(1));
    bytes.push(0); // topic tag buffer
    bytes.extend_from_slice(&uuid_bytes(0xbb));
    bytes.push(1); // no partitions
    bytes.push(0); // topic tag buffer
    bytes.push(2); // one forgotten topic
    bytes.extend_from_slice(&uuid_bytes(0xcc));
    bytes.push(2); // legacy count: two partition numbers
    bytes.extend_from_slice(&[0, 0, 0, 7, 0, 0, 0, 8]);
    bytes.push(0); // forgotten topic tag buffer
    bytes.extend_from_slice(&[3, b'r', b'1']); // rack id
    bytes.push(0); // tag buffer
    bytes
}

fn fetch_request() -> FetchRequest {
    FetchRequest {
        max_wait_ms: 500,
        min_bytes: 1,
        max_bytes: 0x0320_0000,
        isolation_level: -1,
        session_id: 0x0102_0304,
        session_epoch: 9,
        topics: vec![
            Topic { topic_id: 0xaa, partitions: vec![partition(0), partition(1)] },
            Topic { topic_id: 0xbb, partitions: vec![] },
        ],
        forgotten_topics_data: vec![ForgottenTopicsData { topic_id: 0xcc, partitions: vec![7, 8] }],
        rack_id: String::from("r1"),
    }
}

#[test]
fn partition_request_decodes() {
    let mut bytes = partition_bytes(4);
    bytes.push(0x55);
    let mut cursor = &bytes[..];
    assert_eq!(PartitionReq::from_bytes(&mut cursor), Ok(partition(4)));
    assert_eq!(cursor, &[0x55u8][..]);
}

#[test]
fn partition_request_of_32_bytes_is_truncated() {
    let bytes = partition_bytes(4);
    let mut cursor = &bytes[..32];
    assert_eq!(PartitionReq::from_bytes(&mut cursor), Err(DecodeError::Truncated));
}

#[test]
fn partition_request_with_tagged_fields_is_unsupported() {
    let mut bytes = partition_bytes(4);
    bytes[32] = 1;
    let mut cursor = &bytes[..];
    assert_eq!(PartitionReq::from_bytes(&mut cursor), Err(DecodeError::UnsupportedFeature));
}

#[test]
fn fetch_topic_decodes() {
    let mut bytes = uuid_bytes(0x11);
    bytes.push(2);
    bytes.extend_from_slice(&partition_bytes(3));
    bytes.push(0);
    let mut cursor = &bytes[..];
    assert_eq!(
        Topic::from_bytes(&mut cursor),
        Ok(Topic { topic_id: 0x11, partitions: vec![partition(3)] })
    );
    assert!(cursor.is_empty());
}

#[test]
fn fetch_topic_without_partitions_decodes() {
    let mut bytes = uuid_bytes(0x11);
    bytes.push(0);
    bytes.push(0);
    let mut cursor = &bytes[..];
    assert_eq!(Topic::from_bytes(&mut cursor), Ok(Topic { topic_id: 0x11, partitions: vec![] }));
}

#[test]
fn forgotten_topic_counts_partitions_without_offset() {
    let mut bytes = uuid_bytes(0x22);
    bytes.push(1);
    bytes.extend_from_slice(&[0, 0, 0, 9]);
    bytes.push(0);
    let mut cursor = &bytes[..];
    assert_eq!(
        ForgottenTopicsData::from_bytes(&mut cursor),
        Ok(ForgottenTopicsData { topic_id: 0x22, partitions: vec![9] })
    );
    assert!(cursor.is_empty());
}

#[test]
fn forgotten_topic_with_negative_count_is_malformed() {
    let mut bytes = uuid_bytes(0x22);
    bytes.push(0xff);
    bytes.push(0);
    let mut cursor = &bytes[..];
    assert_eq!(ForgottenTopicsData::from_bytes(&mut cursor), Err(DecodeError::MalformedLength));
}

#[test]
fn fetch_request_decodes() {
    let mut bytes = fetch_request_bytes();
    bytes.extend_from_slice(&[1, 2, 3]);
    let mut cursor = &bytes[..];
    assert_eq!(FetchRequest::from_bytes(&mut cursor), Ok(fetch_request()));
    assert_eq!(cursor, &[1u8, 2, 3][..]);
}

#[test]
fn fetch_request_without_topics_decodes() {
    let mut bytes = vec![0u8; 21];
    bytes.extend_from_slice(&[0, 0, 0, 0]); // absent topics, absent forgotten, absent rack, tag
    let mut cursor = &bytes[..];
    let request = FetchRequest::from_bytes(&mut cursor).unwrap();
    assert_eq!(request.topics, vec![]);
    assert_eq!(request.forgotten_topics_data, vec![]);
    assert_eq!(request.rack_id, "");
    assert_eq!(request.isolation_level, 0);
    assert!(cursor.is_empty());
}

#[test]
fn fetch_request_cut_anywhere_is_truncated() {
    let bytes = fetch_request_bytes();
    for end in 0..bytes.len() {
        let mut cursor = &bytes[..end];
        assert_eq!(FetchRequest::from_bytes(&mut cursor), Err(DecodeError::Truncated));
    }
}

#[test]
fn fetch_request_with_tagged_fields_is_unsupported() {
    let mut bytes = fetch_request_bytes();
    let last = bytes.len() - 1;
    bytes[last] = 2;
    let mut cursor = &bytes[..];
    assert_eq!(FetchRequest::from_bytes(&mut cursor), Err(DecodeError::UnsupportedFeature));
}

#[test]
fn aborted_transaction_golden_bytes() {
    let entry = AbortedTransaction { producer_id: 1, first_offset: -1 };
    assert!(entry.is_encodable());
    assert_eq!(
        entry.to_bytes(),
        vec![0u8, 0, 0, 0, 0, 0, 0, 1, 0xff, 0xff, 0xff, 0xff, 0xff, 0xff, 0xff, 0xff, 0]
    );
}

#[test]
fn new_partition_result_is_empty() {
    let result = PartitionResp::new(7, 35);
    assert_eq!(
        result,
        PartitionResp {
            partition_index: 7,
            error_code: 35,
            high_watermark: 0,
            last_stable_offset: 0,
            log_start_offset: 0,
            aborted_transactions: vec![],
            preferred_read_replica: 0,
            records: vec![],
        }
    );
    assert!(result.is_encodable());
}

#[test]
fn empty_partition_result_golden_bytes() {
    let mut expected = vec![0u8, 0, 0, 7]; // partition index
    expected.extend_from_slice(&[0, 35]); // error code
    expected.extend_from_slice(&[0; 24]); // three offsets
    expected.push(1); // no aborted transactions
    expected.extend_from_slice(&[0, 0, 0, 0]); // preferred read replica
    expected.push(1); // no records
    expected.push(0); // tag buffer
    assert_eq!(PartitionResp::new(7, 35).to_bytes(), expected);
}

#[test]
fn full_partition_result_golden_bytes() {
    let result = PartitionResp {
        partition_index: 1,
        error_code: 2,
        high_watermark: 3,
        last_stable_offset: 4,
        log_start_offset: 5,
        aborted_transactions: vec![AbortedTransaction { producer_id: 6, first_offset: 7 }],
        preferred_read_replica: 8,
        records: vec![0xde, 0xad],
    };
    let mut expected = vec![0u8, 0, 0, 1, 0, 2];
    expected.extend_from_slice(&[0, 0, 0, 0, 0, 0, 0, 3]);
    expected.extend_from_slice(&[0, 0, 0, 0, 0, 0, 0, 4]);
    expected.extend_from_slice(&[0, 0, 0, 0, 0, 0, 0, 5]);
    expected.push(2);
    expected.extend_from_slice(&[0, 0, 0, 0, 0, 0, 0, 6, 0, 0, 0, 0, 0, 0, 0, 7, 0]);
    expected.extend_from_slice(&[0, 0, 0, 8]);
    expected.extend_from_slice(&[3, 0xde, 0xad]);
    expected.push(0);
    assert!(result.is_encodable());
    assert_eq!(result.to_bytes(), expected);
}

#[test]
fn partition_result_with_long_records_is_not_encodable() {
    let mut result = PartitionResp::new(0, 0);
    result.records = vec![0; 254];
    assert!(result.is_encodable());
    result.records = vec![0; 255];
    assert!(!result.is_encodable());
}

#[test]
fn new_topic_answer_has_one_empty_partition() {
    let answer = Response::new(0xabc, 35);
    assert_eq!(
        answer,
        Response { topic_id: 0xabc, partitions: vec![PartitionResp::new(0, 35)] }
    );
    assert!(answer.is_encodable());
}

#[test]
fn topic_answer_golden_bytes() {
    let mut expected = uuid_bytes(0x42);
    expected.push(2);
    expected.extend_from_slice(&PartitionResp::new(0, 0).to_bytes());
    expected.push(0);
    assert_eq!(Response::new(0x42, 0).to_bytes(), expected);
    assert_eq!(expected.len(), 16 + 1 + 37 + 1);
}

#[test]
fn fetch_response_answers_each_topic_in_order() {
    let response = FetchResponse::new(0, &fetch_request());
    assert_eq!(
        response,
        FetchResponse {
            throttle_time_ms: 0,
            error_code: 0,
            session_id: 0x0102_0304,
            responses: vec![Response::new(0xaa, 0), Response::new(0xbb, 0)],
        }
    );
    assert!(response.is_encodable());
}

#[test]
fn fetch_response_hands_the_error_to_each_partition() {
    let response = FetchResponse::new(35, &fetch_request());
    assert_eq!(response.error_code, 35);
    assert_eq!(response.responses.len(), 2);
    for answer in &response.responses {
        assert_eq!(answer.partitions.len(), 1);
        assert_eq!(answer.partitions[0].error_code, 35);
        assert_eq!(answer.partitions[0].partition_index, 0);
    }
}

#[test]
fn fetch_response_golden_bytes() {
    let mut request = fetch_request();
    request.topics.truncate(1);
    let bytes = FetchResponse::new(0, &request).to_bytes();
    let mut expected = vec![0u8, 0, 0, 0]; // throttle time
    expected.extend_from_slice(&[0, 0]); // error code
    expected.extend_from_slice(&[1, 2, 3, 4]); // session id
    expected.push(2); // one topic
    expected.extend_from_slice(&uuid_bytes(0xaa));
    expected.push(2); // one partition
    expected.extend_from_slice(&[0, 0, 0, 0]); // partition index
    expected.extend_from_slice(&[0, 0]); // error code
    expected.extend_from_slice(&[0; 24]); // offsets
    expected.push(1); // no aborted transactions
    expected.extend_from_slice(&[0, 0, 0, 0]); // preferred read replica
    expected.push(1); // no records
    expected.push(0); // partition tag buffer
    expected.push(0); // topic tag buffer
    expected.push(0); // tag buffer
    assert_eq!(bytes, expected);
}

#[test]
fn fetch_response_without_topics_golden_bytes() {
    let mut request = fetch_request();
    request.topics.clear();
    request.session_id = -1;
    let bytes = FetchResponse::new(35, &request).to_bytes();
    assert_eq!(bytes, vec![0u8, 0, 0, 0, 0, 35, 0xff, 0xff, 0xff, 0xff, 1, 0]);
}

#[test]
fn fetch_response_for_too_many_topics_is_not_encodable() {
    let mut request = fetch_request();
    request.topics = vec![Topic { topic_id: 1, partitions: vec![] }; 255];
    let response = FetchResponse::new(0, &request);
    assert_eq!(response.responses.len(), 255);
    assert!(!response.is_encodable());
}
