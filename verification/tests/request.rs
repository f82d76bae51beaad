use kafka_wire::codec::{DecodeError, Encoding};
use kafka_wire::describe::{Cursor, DescribeTopicPartitionsRequest};
use kafka_wire::deserialize::Deserialize;
use kafka_wire::fetch::FetchRequest;
use kafka_wire::request::{Request, RequestBody, RequestHeader};

fn compact_header(api_key: u8, version: u8, correlation: u8) -> Vec<u8> {
    let mut bytes = vec![0u8, api_key, 0, version, 0, 0, 0, correlation];
    bytes.extend_from_slice(&[4, b'c', b'l', b'i']);
    bytes.push(0);
    bytes
}

fn legacy_header(api_key: u8, version: u8, correlation: u8) -> Vec<u8> {
    let mut bytes = vec![0u8, api_key, 0, version, 0, 0, 0, correlation];
    bytes.extend_from_slice(&[0, 3, b'c', b'l', b'i']);
    bytes
}

fn header(api_key: i16, version: i16, correlation: i32) -> RequestHeader {
    RequestHeader {
        request_api_key: api_key,
        request_api_version: version,
        correlation_id: correlation,
        client_id: String::from("cli"),
    }
}

fn empty_fetch_body() -> Vec<u8> {
    let mut bytes = vec![0u8; 21];
    bytes.extend_from_slice(&[1, 1, 1, 0]);
    bytes
}

fn empty_describe_body() -> Vec<u8> {
    vec![1u8, 0, 0, 0, 0, 5, 1, 0, 0, 0, 0, 0, 0]
}

#[test]
fn compact_header_decodes() {
    let mut bytes = compact_header(18, 4, 7);
    bytes.push(0x99);
    let mut cursor = &bytes[..];
    assert_eq!(RequestHeader::decode(&mut cursor, Encoding::Compact), Ok(header(18, 4, 7)));
    assert_eq!(cursor, &[0x99u8][..]);
}

#[test]
fn header_on_its_own_is_compact() {
    let bytes = compact_header(1, 16, 9);
    let mut cursor = &bytes[..];
    assert_eq!(RequestHeader::from_bytes(&mut cursor), Ok(header(1, 16, 9)));
    assert!(cursor.is_empty());
}

#[test]
fn legacy_header_decodes_without_tag_buffer() {
    let mut bytes = legacy_header(18, 0, 5);
    bytes.push(0x99);
    let mut cursor = &bytes[..];
    assert_eq!(RequestHeader::decode(&mut cursor, Encoding::Legacy), Ok(header(18, 0, 5)));
    assert_eq!(cursor, &[0x99u8][..]);
}

#[test]
fn header_fields_are_signed_big_endian() {
    let bytes = [0xffu8, 0xff, 0x01, 0x02, 0x80, 0x00, 0x00, 0x01, 0, 0];
    let mut cursor = &bytes[..];
    assert_eq!(
        RequestHeader::decode(&mut cursor, Encoding::Compact),
        Ok(RequestHeader {
            request_api_key: -1,
            request_api_version: 0x0102,
            correlation_id: i32::MIN + 1,
            client_id: String::new(),
        })
    );
}

#[test]
fn header_cut_anywhere_is_truncated() {
    let bytes = compact_header(18, 4, 7);
    for end in 0..bytes.len() {
        let mut cursor = &bytes[..end];
        assert_eq!(
            RequestHeader::decode(&mut cursor, Encoding::Compact),
            Err(DecodeError::Truncated)
        );
    }
    let bytes = legacy_header(18, 4, 7);
    for end in 0..bytes.len() {
        let mut cursor = &bytes[..end];
        assert_eq!(
            RequestHeader::decode(&mut cursor, Encoding::Legacy),
            Err(DecodeError::Truncated)
        );
    }
}

#[test]
fn compact_header_with_tagged_fields_is_unsupported() {
    let mut bytes = compact_header(18, 4, 7);
    let last = bytes.len() - 1;
    bytes[last] = 3;
    let mut cursor = &bytes[..];
    assert_eq!(
        RequestHeader::decode(&mut cursor, Encoding::Compact),
        Err(DecodeError::UnsupportedFeature)
    );
}

#[test]
fn legacy_header_with_negative_client_id_length_is_malformed() {
    let bytes = [0u8, 18, 0, 4, 0, 0, 0, 7, 0xff, 0xff];
    let mut cursor = &bytes[..];
    assert_eq!(
        RequestHeader::decode(&mut cursor, Encoding::Legacy),
        Err(DecodeError::MalformedLength)
    );
}

#[test]
fn body_of_api_versions_reads_nothing() {
    let bytes = [1u8, 2, 3];
    let mut cursor = &bytes[..];
    assert_eq!(RequestBody::decode(18, &mut cursor), Ok(RequestBody::ApiVersion));
    assert_eq!(cursor, &[1u8, 2, 3][..]);
}

#[test]
fn body_of_fetch_is_a_fetch_request() {
    let bytes = empty_fetch_body();
    let mut cursor = &bytes[..];
    let mut expected = &bytes[..];
    let request = FetchRequest::from_bytes(&mut expected).unwrap();
    assert_eq!(RequestBody::decode(1, &mut cursor), Ok(RequestBody::Fetch(request)));
    assert!(cursor.is_empty());
}

#[test]
fn body_of_describe_is_a_describe_request() {
    let bytes = empty_describe_body();
    let mut cursor = &bytes[..];
    assert_eq!(
        RequestBody::decode(75, &mut cursor),
        Ok(RequestBody::Describe(DescribeTopicPartitionsRequest {
            topics: vec![],
            response_partition_limit: 5,
            cursor: Cursor { topic_name: String::new(), partition_index: 0 },
        }))
    );
}

#[test]
fn body_of_unknown_key_is_refused() {
    for key in [0i16, 2, 17, 19, 74, 76, -1, i16::MAX, i16::MIN] {
        let bytes = empty_fetch_body();
        let mut cursor = &bytes[..];
        assert_eq!(RequestBody::decode(key, &mut cursor), Err(DecodeError::UnsupportedApiKey));
    }
}

#[test]
fn request_decodes_header_then_body() {
    let mut bytes = compact_header(75, 0, 11);
    bytes.extend_from_slice(&empty_describe_body());
    let mut cursor = &bytes[..];
    let request = Request::from_bytes(&mut cursor).unwrap();
    assert_eq!(request.header, header(75, 0, 11));
    assert!(matches!(request.body, RequestBody::Describe(_)));
    assert!(cursor.is_empty());
}

#[test]
fn request_with_legacy_header_decodes() {
    let mut bytes = legacy_header(1, 16, 12);
    bytes.extend_from_slice(&empty_fetch_body());
    let mut cursor = &bytes[..];
    let request = Request::decode(&mut cursor, Encoding::Legacy).unwrap();
    assert_eq!(request.header, header(1, 16, 12));
    assert!(matches!(request.body, RequestBody::Fetch(_)));
}

#[test]
fn request_with_unknown_key_is_refused() {
    let mut bytes = compact_header(3, 0, 1);
    bytes.extend_from_slice(&empty_fetch_body());
    let mut cursor = &bytes[..];
    assert_eq!(Request::from_bytes(&mut cursor), Err(DecodeError::UnsupportedApiKey));
}

#[test]
fn request_whose_body_is_cut_is_truncated() {
    let mut bytes = compact_header(1, 16, 1);
    bytes.extend_from_slice(&empty_fetch_body()[..20]);
    let mut cursor = &bytes[..];
    assert_eq!(Request::from_bytes(&mut cursor), Err(DecodeError::Truncated));
}

#[test]
fn request_leaves_bytes_after_the_body() {
    let mut bytes = compact_header(18, 4, 1);
    bytes.extend_from_slice(&[9, 9]);
    let mut cursor = &bytes[..];
    let request = Request::from_bytes(&mut cursor).unwrap();
    assert_eq!(request.body, RequestBody::ApiVersion);
    assert_eq!(cursor, &[9u8, 9][..]);
}
