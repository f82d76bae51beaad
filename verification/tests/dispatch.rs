use kafka_wire::api_version::{capabilities, ApiVersion};
use kafka_wire::describe::{Cursor, DescribeTopicPartitionsRequest, DescribeTopicPartitionsResponse};
use kafka_wire::dispatch::{build_response, check_version};
use kafka_wire::fetch::{FetchRequest, FetchResponse, Topic};
use kafka_wire::request::{Request, RequestBody, RequestHeader};
use kafka_wire::response::{Response, ResponseBody, ResponseHeader};
use kafka_wire::serialize::Serialize;

fn request(version: i16, correlation_id: i32, body: RequestBody) -> Request {
    let request_api_key = match body {
        RequestBody::ApiVersion => 18,
        RequestBody::Fetch(_) => 1,
        RequestBody::Describe(_) => 75,
    };
    Request {
        header: RequestHeader {
            request_api_key,
            request_api_version: version,
            correlation_id,
            client_id: String::from("test"),
        },
        body,
    }
}

fn fetch_request() -> FetchRequest {
    FetchRequest {
        max_wait_ms: 0,
        min_bytes: 0,
        max_bytes: 0,
        isolation_level: 0,
        session_id: 77,
        session_epoch: 0,
        topics: vec![Topic { topic_id: 5, partitions: vec![] }],
        forgotten_topics_data: vec![],
        rack_id: String::new(),
    }
}

fn describe_request() -> DescribeTopicPartitionsRequest {
    DescribeTopicPartitionsRequest {
        topics: vec![String::from("foo")],
        response_partition_limit: 1,
        cursor: Cursor { topic_name: String::from("foo"), partition_index: 3 },
    }
}

#[test]
fn check_version_accepts_the_range() {
    assert_eq!(check_version(0, 4), 0);
    assert_eq!(check_version(4, 4), 0);
    assert_eq!(check_version(5, 4), 35);
    assert_eq!(check_version(-1, 4), 35);
    assert_eq!(check_version(i16::MAX, 16), 35);
    assert_eq!(check_version(i16::MIN, 16), 35);
    assert_eq!(check_version(0, 0), 0);
    assert_eq!(check_version(1, 0), 35);
}

#[test]
fn api_versions_boundary() {
    for version in 0i16..=4 {
        let response = build_response(&request(version, 1, RequestBody::ApiVersion));
        assert_eq!(response.body, ResponseBody::ApiVersion(ApiVersion::new(0)));
    }
    for version in [5i16, 6, 100, -1, i16::MAX, i16::MIN] {
        let response = build_response(&request(version, 1, RequestBody::ApiVersion));
        assert_eq!(response.body, ResponseBody::ApiVersion(ApiVersion::new(35)));
    }
}

#[test]
fn api_versions_response_lists_both_apis() {
    let response = build_response(&request(4, 7, RequestBody::ApiVersion));
    match response.body {
        ResponseBody::ApiVersion(body) => {
            assert_eq!(body.error_code, 0);
            assert_eq!(body.api_keys, capabilities());
            assert!(body.api_keys.iter().any(|entry| entry.api_key == 18));
            assert!(body.api_keys.iter().any(|entry| entry.api_key == 1));
        },
        _ => panic!("not an ApiVersions response"),
    }
}

#[test]
fn fetch_boundary() {
    for version in 0i16..=16 {
        let response = build_response(&request(version, 1, RequestBody::Fetch(fetch_request())));
        assert_eq!(response.body, ResponseBody::Fetch(FetchResponse::new(0, &fetch_request())));
    }
    for version in [17i16, -1, 1000] {
        let response = build_response(&request(version, 1, RequestBody::Fetch(fetch_request())));
        assert_eq!(response.body, ResponseBody::Fetch(FetchResponse::new(35, &fetch_request())));
    }
}

#[test]
fn describe_is_unknown_topic_in_every_version() {
    for version in [0i16, 1, -1, 35] {
        let response =
            build_response(&request(version, 1, RequestBody::Describe(describe_request())));
        assert_eq!(
            response.body,
            ResponseBody::Describe(DescribeTopicPartitionsResponse::new(3, &describe_request()))
        );
    }
}

#[test]
fn correlation_id_is_echoed() {
    for id in [0i32, 7, -1, i32::MAX, i32::MIN, 0x1234_5678] {
        let response = build_response(&request(4, id, RequestBody::ApiVersion));
        assert_eq!(response.header, ResponseHeader { correlation_id: id });
        let response = build_response(&request(99, id, RequestBody::Fetch(fetch_request())));
        assert_eq!(response.header.correlation_id, id);
        let response = build_response(&request(0, id, RequestBody::Describe(describe_request())));
        assert_eq!(response.header.correlation_id, id);
    }
}

#[test]
fn response_header_golden_bytes() {
    let header = ResponseHeader { correlation_id: 0x0102_0304 };
    assert!(header.is_encodable());
    assert_eq!(header.to_bytes(), vec![1u8, 2, 3, 4, 0]);
}

#[test]
fn response_is_header_then_body() {
    let response = Response {
        header: ResponseHeader { correlation_id: 7 },
        body: ResponseBody::ApiVersion(ApiVersion::new(0)),
    };
    assert!(response.is_encodable());
    let mut expected = vec![0u8, 0, 0, 7, 0];
    expected.extend_from_slice(&ApiVersion::new(0).to_bytes());
    assert_eq!(response.to_bytes(), expected);
}

#[test]
fn response_body_has_the_layout_of_what_it_holds() {
    let fetch = FetchResponse::new(0, &fetch_request());
    assert_eq!(ResponseBody::Fetch(fetch.clone()).to_bytes(), fetch.to_bytes());
    let describe = DescribeTopicPartitionsResponse::new(3, &describe_request());
    assert_eq!(ResponseBody::Describe(describe.clone()).to_bytes(), describe.to_bytes());
    let versions = ApiVersion::new(35);
    assert_eq!(ResponseBody::ApiVersion(versions.clone()).to_bytes(), versions.to_bytes());
}

#[test]
fn response_is_encodable_when_its_body_is() {
    let mut describe = describe_request();
    describe.topics.push("n".repeat(300));
    let response = build_response(&request(0, 1, RequestBody::Describe(describe)));
    assert!(!response.is_encodable());
    assert!(!response.body.is_encodable());
}
