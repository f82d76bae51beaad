//! Wire codec and request dispatcher for a small broker that speaks a subset
//! of the Kafka protocol.
//!
//! Every frame on the wire is a four-byte big-endian length followed by that
//! many bytes of payload. The modules, leaves first:
//!
//! * [`codec`]: fixed-width integers, compact and legacy lengths, strings,
//!   tag buffers and identifiers.
//! * [`deserialize`] and [`serialize`]: the two traits that every schema
//!   type implements, and the array forms built on them.
//! * [`api_version`], [`fetch`], [`describe`]: the schemas of the three
//!   supported APIs.
//! * [`request`] and [`response`]: headers, the closed set of bodies, and
//!   the dispatch on the API key.
//! * [`dispatch`]: the version policy that turns a request into a response.
//! * [`frame`]: the length-prefixed frame around a response.
//! * [`connection`]: the per-connection state machine.
//! * [`laws`]: what holds of all of these together.
//! * [`leftover`]: that no parser reads past the value it finds.
//!
//! Contracts are stated over byte sequences: each decoder is held to a
//! `parse` function from bytes to a value and the bytes that remain, each
//! encoder to a `wire` function from a value to its bytes. Every type with
//! a string or an array in it has a view, a value of the same shape over
//! mathematical sequences, and the contracts speak of views.
//!
//! Reading from a byte slice goes through `bytes::Buf`, and frames are
//! built in a `bytes::BytesMut`. What is assumed of those calls, and of the
//! few std functions that have no specification of their own, is written
//! beside each of them in [`codec`] and [`frame`].

pub mod api_version;
pub mod codec;
pub mod connection;
pub mod describe;
pub mod deserialize;
pub mod dispatch;
pub mod fetch;
pub mod frame;
pub mod laws;
pub mod leftover;
pub mod request;
pub mod response;
pub mod serialize;
