use kafka_wire::api_version::ApiVersion;
use kafka_wire::codec::DecodeError;
use kafka_wire::describe::{Cursor, DescribeTopicPartitionsResponse};
use kafka_wire::frame::{frame_payload, read_frame, read_frame_length, response_to_bytes};
use kafka_wire::response::{Response, ResponseBody, ResponseHeader};
use kafka_wire::serialize::Serialize;

#[test]
fn frame_is_length_then_payload() {
    let frame = frame_payload(&[0xaa, 0xbb, 0xcc]).unwrap();
    assert_eq!(&frame[..], &[0u8, 0, 0, 3, 0xaa, 0xbb, 0xcc][..]);
}

#[test]
fn frame_of_nothing_is_four_zero_bytes() {
    let frame = frame_payload(&[]).unwrap();
    assert_eq!(&frame[..], &[0u8, 0, 0, 0][..]);
}

#[test]
fn frame_length_is_big_endian() {
    let payload = vec![7u8; 0x0102];
    let frame = frame_payload(&payload).unwrap();
    assert_eq!(&frame[..4], &[0u8, 0, 1, 2][..]);
    assert_eq!(&frame[4..], &payload[..]);
}

#[test]
fn frame_is_read_back_from_a_fresh_cursor() {
    for size in [0usize, 1, 2, 255, 256, 70_000] {
        let payload: Vec<u8> = (0..size).map(|i| (i % 251) as u8).collect();
        let frame = frame_payload(&payload).unwrap();
        assert_eq!(frame.len(), 4 + size);
        let mut bytes = frame.to_vec();
        bytes.extend_from_slice(&[1, 2]);
        let mut cursor = &bytes[..];
        assert_eq!(read_frame(&mut cursor), Ok(payload));
        assert_eq!(cursor, &[1u8, 2][..]);
    }
}

#[test]
fn read_frame_length_reads_four_bytes() {
    let data = [0u8, 1, 0, 2, 9];
    let mut cursor = &data[..];
    assert_eq!(read_frame_length(&mut cursor), Ok(0x0001_0002));
    assert_eq!(cursor, &[9u8][..]);
    let data = [0xffu8, 0xff, 0xff, 0xff];
    let mut cursor = &data[..];
    assert_eq!(read_frame_length(&mut cursor), Ok(u32::MAX));
}

#[test]
fn read_frame_length_of_three_bytes_is_truncated() {
    let data = [0u8, 1, 0];
    let mut cursor = &data[..];
    assert_eq!(read_frame_length(&mut cursor), Err(DecodeError::Truncated));
}

#[test]
fn read_frame_with_short_payload_is_truncated() {
    let data = [0u8, 0, 0, 3, 1, 2];
    let mut cursor = &data[..];
    assert_eq!(read_frame(&mut cursor), Err(DecodeError::Truncated));
}

#[test]
fn response_frame_prefix_counts_the_rest() {
    let response = Response {
        header: ResponseHeader { correlation_id: 7 },
        body: ResponseBody::ApiVersion(ApiVersion::new(0)),
    };
    let frame = response_to_bytes(&response).unwrap();
    let payload = response.to_bytes();
    assert_eq!(frame.len(), 4 + payload.len());
    assert_eq!(&frame[..4], &(payload.len() as u32).to_be_bytes()[..]);
    assert_eq!(&frame[4..], &payload[..]);
    let mut cursor = &frame[..];
    assert_eq!(read_frame(&mut cursor), Ok(payload));
    assert!(cursor.is_empty());
}

#[test]
fn response_frame_golden_bytes() {
    let response = Response {
        header: ResponseHeader { correlation_id: 7 },
        body: ResponseBody::ApiVersion(ApiVersion::new(0)),
    };
    let frame = response_to_bytes(&response).unwrap();
    assert_eq!(
        &frame[..],
        &[
            0u8, 0, 0, 25, // length
            0, 0, 0, 7, 0, // header
            0, 0, 3, 0, 18, 0, 0, 0, 4, 0, 1, 0, 0, 0, 16, 0, 0, 0, 0, 0, // body
        ][..]
    );
}

#[test]
fn unencodable_response_has_no_frame() {
    let response = Response {
        header: ResponseHeader { correlation_id: 7 },
        body: ResponseBody::Describe(DescribeTopicPartitionsResponse {
            throttle_time_ms: 0,
            topics: vec![],
            next_cursor: Cursor { topic_name: "c".repeat(255), partition_index: 0 },
        }),
    };
    assert!(response_to_bytes(&response).is_none());
}
