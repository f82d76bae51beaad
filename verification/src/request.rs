//! Requests: the common header, the closed set of bodies, and the dispatch
//! from the API key of the header to the decoder of the body.

use crate::api_version::{API_VERSIONS, DESCRIBE_TOPIC_PARTITIONS, FETCH};
use crate::codec::{
    be_i16, be_i32, parse_string, parse_tag_buffer, read_i16, read_i32, read_string,
    read_tag_buffer, DecodeError, Encoding, Parsed,
};
use crate::describe::{DescribeTopicPartitionsRequest, DescribeTopicPartitionsRequestView};
use crate::deserialize::Deserialize;
use crate::fetch::{FetchRequest, FetchRequestView};
use vstd::prelude::*;
use vstd::seq_lib::lemma_seq_skip_of_skip;

verus! {

/// The header that every request starts with.
#[derive(Clone, Debug, PartialEq, Eq)]
pub struct RequestHeader {
    pub request_api_key: i16,
    pub request_api_version: i16,
    pub correlation_id: i32,
    pub client_id: String,
}

/// A request header as a mathematical value.
pub struct RequestHeaderView {
    pub request_api_key: i16,
    pub request_api_version: i16,
    pub correlation_id: i32,
    pub client_id: Seq<char>,
}

impl View for RequestHeader {
    type V = RequestHeaderView;

    open spec fn view(&self) -> RequestHeaderView {
        RequestHeaderView {
            request_api_key: self.request_api_key,
            request_api_version: self.request_api_version,
            correlation_id: self.correlation_id,
            client_id: self.client_id@,
        }
    }
}

/// A header in the given layout: API key, API version and correlation id in
/// eight bytes, then the client id. In the legacy layout the client id has
/// a 16-bit length prefix and ends the header. In the compact layout it is
/// a compact string, and a tag buffer follows it.
pub open spec fn parse_header(bytes: Seq<u8>, layout: Encoding) -> Parsed<RequestHeaderView> {
    if bytes.len() < 8 {
        Err(DecodeError::Truncated)
    } else {
        match parse_string(bytes.skip(8), layout) {
            Err(error) => Err(error),
            Ok((client_id, rest)) => {
                let header = RequestHeaderView {
                    request_api_key: be_i16(bytes) as i16,
                    request_api_version: be_i16(bytes.skip(2)) as i16,
                    correlation_id: be_i32(bytes.skip(4)) as i32,
                    client_id,
                };
                match layout {
                    Encoding::Legacy => Ok((header, rest)),
                    Encoding::Compact => match parse_tag_buffer(rest) {
                        Err(error) => Err(error),
                        Ok((_, rest)) => Ok((header, rest)),
                    },
                }
            },
        }
    }
}

impl RequestHeader {
    /// Decodes a header in the given layout.
    pub fn decode(buffer: &mut &[u8], layout: Encoding) -> (outcome: Result<
        RequestHeader,
        DecodeError,
    >)
        ensures
            match outcome {
                Ok(header) => parse_header(old(buffer)@, layout) == Ok::<
                    (RequestHeaderView, Seq<u8>),
                    DecodeError,
                >((header@, final(buffer)@)),
                Err(error) => parse_header(old(buffer)@, layout) == Err::<
                    (RequestHeaderView, Seq<u8>),
                    DecodeError,
                >(error),
            },
    {
        broadcast use lemma_seq_skip_of_skip;

        let request_api_key = read_i16(buffer)?;
        let request_api_version = read_i16(buffer)?;
        let correlation_id = read_i32(buffer)?;
        let client_id = read_string(buffer, layout)?;
        match layout {
            Encoding::Legacy => {},
            Encoding::Compact => {
                read_tag_buffer(buffer)?;
            },
        }
        Ok(RequestHeader { request_api_key, request_api_version, correlation_id, client_id })
    }
}

/// A header on its own decodes in the compact layout.
impl Deserialize for RequestHeader {
    open spec fn parse(bytes: Seq<u8>) -> Parsed<RequestHeaderView> {
        parse_header(bytes, Encoding::Compact)
    }

    fn from_bytes(buffer: &mut &[u8]) -> (outcome: Result<RequestHeader, DecodeError>) {
        RequestHeader::decode(buffer, Encoding::Compact)
    }
}

/// The body of a request, one variant for each supported API.
#[derive(Clone, Debug, PartialEq, Eq)]
pub enum RequestBody {
    /// ApiVersions: no payload.
    ApiVersion,
    /// Fetch.
    Fetch(FetchRequest),
    /// DescribeTopicPartitions.
    Describe(DescribeTopicPartitionsRequest),
}

/// A request body as a mathematical value.
pub enum RequestBodyView {
    ApiVersion,
    Fetch(FetchRequestView),
    Describe(DescribeTopicPartitionsRequestView),
}

impl View for RequestBody {
    type V = RequestBodyView;

    open spec fn view(&self) -> RequestBodyView {
        match self {
            RequestBody::ApiVersion => RequestBodyView::ApiVersion,
            RequestBody::Fetch(request) => RequestBodyView::Fetch(request@),
            RequestBody::Describe(request) => RequestBodyView::Describe(request@),
        }
    }
}

/// The body that belongs to an API key: key 1 is Fetch, key 18 is
/// ApiVersions, which reads nothing, key 75 is DescribeTopicPartitions.
/// Every other key is refused.
pub open spec fn parse_body(api_key: i16, bytes: Seq<u8>) -> Parsed<RequestBodyView> {
    if api_key == FETCH {
        match FetchRequest::parse(bytes) {
            Err(error) => Err(error),
            Ok((request, rest)) => Ok((RequestBodyView::Fetch(request), rest)),
        }
    } else if api_key == API_VERSIONS {
        Ok((RequestBodyView::ApiVersion, bytes))
    } else if api_key == DESCRIBE_TOPIC_PARTITIONS {
        match DescribeTopicPartitionsRequest::parse(bytes) {
            Err(error) => Err(error),
            Ok((request, rest)) => Ok((RequestBodyView::Describe(request), rest)),
        }
    } else {
        Err(DecodeError::UnsupportedApiKey)
    }
}

impl RequestBody {
    /// Decodes the body that belongs to the API key.
    pub fn decode(api_key: i16, buffer: &mut &[u8]) -> (outcome: Result<
        RequestBody,
        DecodeError,
    >)
        ensures
            match outcome {
                Ok(body) => parse_body(api_key, old(buffer)@) == Ok::<
                    (RequestBodyView, Seq<u8>),
                    DecodeError,
                >((body@, final(buffer)@)),
                Err(error) => parse_body(api_key, old(buffer)@) == Err::<
                    (RequestBodyView, Seq<u8>),
                    DecodeError,
                >(error),
            },
    {
        if api_key == FETCH {
            Ok(RequestBody::Fetch(FetchRequest::from_bytes(buffer)?))
        } else if api_key == API_VERSIONS {
            Ok(RequestBody::ApiVersion)
        } else if api_key == DESCRIBE_TOPIC_PARTITIONS {
            Ok(RequestBody::Describe(DescribeTopicPartitionsRequest::from_bytes(buffer)?))
        } else {
            Err(DecodeError::UnsupportedApiKey)
        }
    }
}

/// A request: its header and the body that the header announces.
#[derive(Clone, Debug, PartialEq, Eq)]
pub struct Request {
    pub header: RequestHeader,
    pub body: RequestBody,
}

/// A request as a mathematical value.
pub struct RequestView {
    pub header: RequestHeaderView,
    pub body: RequestBodyView,
}

impl View for Request {
    type V = RequestView;

    open spec fn view(&self) -> RequestView {
        RequestView { header: self.header@, body: self.body@ }
    }
}

/// A request whose header has the given layout: the header, then the body
/// for the API key of the header. Bytes after the body are left over.
pub open spec fn parse_request(bytes: Seq<u8>, layout: Encoding) -> Parsed<RequestView> {
    match parse_header(bytes, layout) {
        Err(error) => Err(error),
        Ok((header, rest)) => match parse_body(header.request_api_key, rest) {
            Err(error) => Err(error),
            Ok((body, rest)) => Ok((RequestView { header, body }, rest)),
        },
    }
}

impl Request {
    /// Decodes a request whose header has the given layout.
    pub fn decode(buffer: &mut &[u8], layout: Encoding) -> (outcome: Result<Request, DecodeError>)
        ensures
            match outcome {
                Ok(request) => parse_request(old(buffer)@, layout) == Ok::<
                    (RequestView, Seq<u8>),
                    DecodeError,
                >((request@, final(buffer)@)),
                Err(error) => parse_request(old(buffer)@, layout) == Err::<
                    (RequestView, Seq<u8>),
                    DecodeError,
                >(error),
            },
    {
        let header = RequestHeader::decode(buffer, layout)?;
        let body = RequestBody::decode(header.request_api_key, buffer)?;
        Ok(Request { header, body })
    }
}

/// A request on its own has a header in the compact layout.
impl Deserialize for Request {
    open spec fn parse(bytes: Seq<u8>) -> Parsed<RequestView> {
        parse_request(bytes, Encoding::Compact)
    }

    fn from_bytes(buffer: &mut &[u8]) -> (outcome: Result<Request, DecodeError>) {
        Request::decode(buffer, Encoding::Compact)
    }
}

} // verus!
