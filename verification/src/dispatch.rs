//! The version policy: which response a request receives.

use crate::api_version::{
    capability_table, ApiVersion, ApiVersionView, API_VERSIONS_MAX_VERSION, FETCH_MAX_VERSION,
    NO_ERROR, UNKNOWN_TOPIC_OR_PARTITION, UNSUPPORTED_VERSION,
};
use crate::describe::{describe_response, DescribeTopicPartitionsResponse};
use crate::fetch::{fetch_response, FetchResponse};
use crate::request::{Request, RequestBody, RequestBodyView, RequestView};
use crate::response::{Response, ResponseBody, ResponseBodyView, ResponseHeader, ResponseView};
use vstd::prelude::*;

verus! {

/// The error code for a request version: none when the version lies between
/// 0 and the highest supported version, and "unsupported version" when it
/// does not.
pub open spec fn version_error(version: i16, highest: i16) -> i16 {
    if 0 <= version <= highest {
        NO_ERROR
    } else {
        UNSUPPORTED_VERSION
    }
}

/// Computes the error code for a request version.
pub fn check_version(version: i16, highest: i16) -> (error_code: i16)
    ensures
        error_code == version_error(version, highest),
{
    if 0 <= version && version <= highest {
        NO_ERROR
    } else {
        UNSUPPORTED_VERSION
    }
}

/// The body that answers a request body sent in the given version.
///
/// * Fetch in versions 0 to 16 is answered without an error, in any other
///   version with "unsupported version"; in both cases without records.
/// * ApiVersions in versions 0 to 4 is answered without an error, in any
///   other version with "unsupported version"; in both cases with the
///   capability table.
/// * DescribeTopicPartitions is answered in every version with "unknown
///   topic or partition" for each topic.
pub open spec fn response_body_for(version: i16, body: RequestBodyView) -> ResponseBodyView {
    match body {
        RequestBodyView::Fetch(request) => ResponseBodyView::Fetch(
            fetch_response(version_error(version, FETCH_MAX_VERSION), request),
        ),
        RequestBodyView::ApiVersion => ResponseBodyView::ApiVersion(
            ApiVersionView {
                error_code: version_error(version, API_VERSIONS_MAX_VERSION),
                api_keys: capability_table(),
                throttle_time_ms: 0,
            },
        ),
        RequestBodyView::Describe(request) => ResponseBodyView::Describe(
            describe_response(UNKNOWN_TOPIC_OR_PARTITION, request),
        ),
    }
}

/// The response to a request: the header echoes the correlation id, and the
/// body answers the body of the request in the version of its header.
pub open spec fn response_for(request: RequestView) -> ResponseView {
    ResponseView {
        header: ResponseHeader { correlation_id: request.header.correlation_id },
        body: response_body_for(request.header.request_api_version, request.body),
    }
}

/// Builds the response to a request.
pub fn build_response(request: &Request) -> (response: Response)
    ensures
        response@ == response_for(request@),
        response.header.correlation_id == request.header.correlation_id,
{
    let version = request.header.request_api_version;
    let body = match &request.body {
        RequestBody::Fetch(fetch) => {
            let error_code = check_version(version, FETCH_MAX_VERSION);
            ResponseBody::Fetch(FetchResponse::new(error_code, fetch))
        },
        RequestBody::ApiVersion => {
            let error_code = check_version(version, API_VERSIONS_MAX_VERSION);
            ResponseBody::ApiVersion(ApiVersion::new(error_code))
        },
        RequestBody::Describe(describe) => {
            ResponseBody::Describe(
                DescribeTopicPartitionsResponse::new(UNKNOWN_TOPIC_OR_PARTITION, describe),
            )
        },
    };
    Response { header: ResponseHeader { correlation_id: request.header.correlation_id }, body }
}

} // verus!
