//! The ApiVersions API: the table of supported APIs and the response that
//! carries it. An ApiVersions request has no body.

use crate::codec::{
    i16_be_bytes, i32_be_bytes, lemma_be_bytes_len, tag_buffer_wire, write_i16, write_i32,
    write_tag_buffer,
};
use crate::deserialize::views;
use crate::serialize::{
    compact_array_encodable, compact_array_wire, is_compact_array_encodable,
    lemma_compact_array_wire_len, max_compact_array_len, write_compact_array, Serialize,
};
use vstd::prelude::*;

verus! {

/// The API key of Fetch.
pub const FETCH: i16 = 1;

/// The API key of ApiVersions.
pub const API_VERSIONS: i16 = 18;

/// The API key of DescribeTopicPartitions.
pub const DESCRIBE_TOPIC_PARTITIONS: i16 = 75;

/// The highest request version of ApiVersions that is supported; the lowest
/// is 0.
pub const API_VERSIONS_MAX_VERSION: i16 = 4;

/// The highest request version of Fetch that is supported; the lowest is 0.
pub const FETCH_MAX_VERSION: i16 = 16;

/// The error code of a response without an error.
pub const NO_ERROR: i16 = 0;

/// The error code for a topic or partition that the broker does not know.
pub const UNKNOWN_TOPIC_OR_PARTITION: i16 = 3;

/// The error code for a request version outside the supported range.
pub const UNSUPPORTED_VERSION: i16 = 35;

/// One entry of the capability table: an API and the request versions of it
/// that the broker accepts.
#[derive(Clone, Copy, Debug, PartialEq, Eq, Structural)]
pub struct ApiKey {
    pub api_key: i16,
    pub min_version: i16,
    pub max_version: i16,
}

impl View for ApiKey {
    type V = ApiKey;

    open spec fn view(&self) -> ApiKey {
        *self
    }
}

/// An entry is three 16-bit integers: the key, the lowest and the highest
/// version.
impl Serialize for ApiKey {
    open spec fn wire(value: ApiKey) -> Seq<u8> {
        i16_be_bytes(value.api_key) + i16_be_bytes(value.min_version) + i16_be_bytes(
            value.max_version,
        )
    }

    open spec fn encodable(value: ApiKey) -> bool {
        true
    }

    fn is_encodable(&self) -> (ok: bool) {
        true
    }

    fn to_bytes(&self) -> (out: Vec<u8>) {
        let mut out = Vec::new();
        write_i16(&mut out, self.api_key);
        write_i16(&mut out, self.min_version);
        write_i16(&mut out, self.max_version);
        assert(out@ =~= Self::wire(self@));
        out
    }

    open spec fn max_wire_len() -> nat {
        6
    }

    proof fn lemma_wire_len(value: ApiKey) {
        lemma_be_bytes_len();
    }
}

/// The capability table that every ApiVersions response advertises:
/// ApiVersions in versions 0 to 4, then Fetch in versions 0 to 16.
pub open spec fn capability_table() -> Seq<ApiKey> {
    seq![
        ApiKey { api_key: API_VERSIONS, min_version: 0, max_version: API_VERSIONS_MAX_VERSION },
        ApiKey { api_key: FETCH, min_version: 0, max_version: FETCH_MAX_VERSION },
    ]
}

/// Builds the capability table.
pub fn capabilities() -> (table: Vec<ApiKey>)
    ensures
        table@ == capability_table(),
{
    let mut table = Vec::new();
    table.push(ApiKey { api_key: API_VERSIONS, min_version: 0, max_version: API_VERSIONS_MAX_VERSION });
    table.push(ApiKey { api_key: FETCH, min_version: 0, max_version: FETCH_MAX_VERSION });
    assert(table@ =~= capability_table());
    table
}

/// The body of an ApiVersions response.
#[derive(Clone, Debug, PartialEq, Eq)]
pub struct ApiVersion {
    pub error_code: i16,
    pub api_keys: Vec<ApiKey>,
    pub throttle_time_ms: i32,
}

/// An ApiVersions response body as a mathematical value.
pub struct ApiVersionView {
    pub error_code: i16,
    pub api_keys: Seq<ApiKey>,
    pub throttle_time_ms: i32,
}

impl View for ApiVersion {
    type V = ApiVersionView;

    open spec fn view(&self) -> ApiVersionView {
        ApiVersionView {
            error_code: self.error_code,
            api_keys: views(self.api_keys@),
            throttle_time_ms: self.throttle_time_ms,
        }
    }
}

impl ApiVersion {
    /// The response with the given error code: it advertises the capability
    /// table and never throttles.
    pub fn new(error_code: i16) -> (response: Self)
        ensures
            response@ == (ApiVersionView {
                error_code,
                api_keys: capability_table(),
                throttle_time_ms: 0,
            }),
            ApiVersion::encodable(response@),
    {
        let response = ApiVersion { error_code, api_keys: capabilities(), throttle_time_ms: 0 };
        assert(response@.api_keys =~= capability_table());
        response
    }
}

/// The layout: error code, compact array of entries, throttle time, tag
/// buffer.
impl Serialize for ApiVersion {
    open spec fn wire(value: ApiVersionView) -> Seq<u8> {
        i16_be_bytes(value.error_code) + compact_array_wire::<ApiKey>(value.api_keys)
            + i32_be_bytes(value.throttle_time_ms) + tag_buffer_wire()
    }

    open spec fn encodable(value: ApiVersionView) -> bool {
        compact_array_encodable::<ApiKey>(value.api_keys)
    }

    fn is_encodable(&self) -> (ok: bool) {
        is_compact_array_encodable(&self.api_keys)
    }

    fn to_bytes(&self) -> (out: Vec<u8>) {
        let mut out = Vec::new();
        write_i16(&mut out, self.error_code);
        write_compact_array(&mut out, &self.api_keys);
        write_i32(&mut out, self.throttle_time_ms);
        write_tag_buffer(&mut out);
        assert(out@ =~= Self::wire(self@));
        out
    }

    open spec fn max_wire_len() -> nat {
        2 + max_compact_array_len::<ApiKey>() + 4 + 1
    }

    proof fn lemma_wire_len(value: ApiVersionView) {
        lemma_be_bytes_len();
        lemma_compact_array_wire_len::<ApiKey>(value.api_keys);
    }
}

} // verus!
