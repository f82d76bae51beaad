//! Responses: the header that echoes the correlation id, and the closed set
//! of bodies.

use crate::api_version::{ApiVersion, ApiVersionView};
use crate::codec::{
    i32_be_bytes, lemma_be_bytes_len, tag_buffer_wire, write_i32, write_tag_buffer,
};
use crate::describe::{DescribeTopicPartitionsResponse, DescribeTopicPartitionsResponseView};
use crate::fetch::{FetchResponse, FetchResponseView};
use crate::serialize::Serialize;
use vstd::prelude::*;

verus! {

/// The header that every response starts with.
#[derive(Clone, Copy, Debug, PartialEq, Eq, Structural)]
pub struct ResponseHeader {
    pub correlation_id: i32,
}

impl View for ResponseHeader {
    type V = ResponseHeader;

    open spec fn view(&self) -> ResponseHeader {
        *self
    }
}

/// The layout: correlation id, tag buffer.
impl Serialize for ResponseHeader {
    open spec fn wire(value: ResponseHeader) -> Seq<u8> {
        i32_be_bytes(value.correlation_id) + tag_buffer_wire()
    }

    open spec fn encodable(value: ResponseHeader) -> bool {
        true
    }

    fn is_encodable(&self) -> (ok: bool) {
        true
    }

    fn to_bytes(&self) -> (out: Vec<u8>) {
        let mut out = Vec::new();
        write_i32(&mut out, self.correlation_id);
        write_tag_buffer(&mut out);
        assert(out@ =~= Self::wire(self@));
        out
    }

    open spec fn max_wire_len() -> nat {
        5
    }

    proof fn lemma_wire_len(value: ResponseHeader) {
        lemma_be_bytes_len();
    }
}

/// The body of a response, one variant for each supported API.
#[derive(Clone, Debug, PartialEq, Eq)]
pub enum ResponseBody {
    /// ApiVersions.
    ApiVersion(ApiVersion),
    /// Fetch.
    Fetch(FetchResponse),
    /// DescribeTopicPartitions.
    Describe(DescribeTopicPartitionsResponse),
}

/// A response body as a mathematical value.
pub enum ResponseBodyView {
    ApiVersion(ApiVersionView),
    Fetch(FetchResponseView),
    Describe(DescribeTopicPartitionsResponseView),
}

impl View for ResponseBody {
    type V = ResponseBodyView;

    open spec fn view(&self) -> ResponseBodyView {
        match self {
            ResponseBody::ApiVersion(response) => ResponseBodyView::ApiVersion(response@),
            ResponseBody::Fetch(response) => ResponseBodyView::Fetch(response@),
            ResponseBody::Describe(response) => ResponseBodyView::Describe(response@),
        }
    }
}

/// A body has the layout of the response that it holds.
impl Serialize for ResponseBody {
    open spec fn wire(value: ResponseBodyView) -> Seq<u8> {
        match value {
            ResponseBodyView::ApiVersion(response) => ApiVersion::wire(response),
            ResponseBodyView::Fetch(response) => FetchResponse::wire(response),
            ResponseBodyView::Describe(response) => DescribeTopicPartitionsResponse::wire(response),
        }
    }

    open spec fn encodable(value: ResponseBodyView) -> bool {
        match value {
            ResponseBodyView::ApiVersion(response) => ApiVersion::encodable(response),
            ResponseBodyView::Fetch(response) => FetchResponse::encodable(response),
            ResponseBodyView::Describe(response) => DescribeTopicPartitionsResponse::encodable(
                response,
            ),
        }
    }

    fn is_encodable(&self) -> (ok: bool) {
        match self {
            ResponseBody::ApiVersion(response) => response.is_encodable(),
            ResponseBody::Fetch(response) => response.is_encodable(),
            ResponseBody::Describe(response) => response.is_encodable(),
        }
    }

    fn to_bytes(&self) -> (out: Vec<u8>) {
        match self {
            ResponseBody::ApiVersion(response) => response.to_bytes(),
            ResponseBody::Fetch(response) => response.to_bytes(),
            ResponseBody::Describe(response) => response.to_bytes(),
        }
    }

    open spec fn max_wire_len() -> nat {
        DescribeTopicPartitionsResponse::max_wire_len()
    }

    proof fn lemma_wire_len(value: ResponseBodyView) {
        match value {
            ResponseBodyView::ApiVersion(response) => ApiVersion::lemma_wire_len(response),
            ResponseBodyView::Fetch(response) => FetchResponse::lemma_wire_len(response),
            ResponseBodyView::Describe(response) => {
                DescribeTopicPartitionsResponse::lemma_wire_len(response)
            },
        }
    }
}

/// A response: its header and its body.
#[derive(Clone, Debug, PartialEq, Eq)]
pub struct Response {
    pub header: ResponseHeader,
    pub body: ResponseBody,
}

/// A response as a mathematical value.
pub struct ResponseView {
    pub header: ResponseHeader,
    pub body: ResponseBodyView,
}

impl View for Response {
    type V = ResponseView;

    open spec fn view(&self) -> ResponseView {
        ResponseView { header: self.header, body: self.body@ }
    }
}

/// The layout: the header, then the body.
impl Serialize for Response {
    open spec fn wire(value: ResponseView) -> Seq<u8> {
        ResponseHeader::wire(value.header) + ResponseBody::wire(value.body)
    }

    open spec fn encodable(value: ResponseView) -> bool {
        ResponseBody::encodable(value.body)
    }

    fn is_encodable(&self) -> (ok: bool) {
        self.body.is_encodable()
    }

    fn to_bytes(&self) -> (out: Vec<u8>) {
        let mut out = self.header.to_bytes();
        let body = self.body.to_bytes();
        out.extend_from_slice(body.as_slice());
        assert(out@ =~= Self::wire(self@));
        out
    }

    open spec fn max_wire_len() -> nat {
        ResponseHeader::max_wire_len() + ResponseBody::max_wire_len()
    }

    proof fn lemma_wire_len(value: ResponseView) {
        ResponseHeader::lemma_wire_len(value.header);
        ResponseBody::lemma_wire_len(value.body);
    }
}

} // verus!
