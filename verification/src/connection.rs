//! One connection: the cycle of reading a frame, answering it and writing
//! the answer.
//!
//! The transport is not here. Whoever owns it performs each [`Action`] and
//! reports what happened as an [`Event`]; [`step`] decides what comes next.
//! A connection starts with [`start`], answers one request at a time, and
//! keeps nothing from one request to the next.

use crate::codec::{be_u32, DecodeError};
use crate::deserialize::Deserialize;
use crate::dispatch::{build_response, response_for};
use crate::frame::{bytes_mut_contents, read_frame_length, response_frame, response_to_bytes};
use crate::request::Request;
use bytes::BytesMut;
use vstd::prelude::*;

verus! {

/// Why a payload received no answer.
#[derive(Clone, Copy, Debug, PartialEq, Eq, Structural)]
pub enum ReplyError {
    /// The payload is not a request.
    Decode(DecodeError),
    /// The response holds a string or an array too long for its length
    /// prefix.
    Unencodable,
}

/// The frame that answers the payload of a request frame. The header of
/// the request is in the compact layout; bytes after the request are
/// ignored.
pub open spec fn reply(payload: Seq<u8>) -> Result<Seq<u8>, ReplyError> {
    match Request::parse(payload) {
        Err(error) => Err(ReplyError::Decode(error)),
        Ok((request, _)) => match response_frame(response_for(request)) {
            None => Err(ReplyError::Unencodable),
            Some(frame) => Ok(frame),
        },
    }
}

/// Answers the payload of one request frame: decodes the request, builds
/// the response and frames it.
pub fn serve(payload: &[u8]) -> (outcome: Result<BytesMut, ReplyError>)
    ensures
        match outcome {
            Ok(frame) => reply(payload@) == Ok::<Seq<u8>, ReplyError>(bytes_mut_contents(frame)),
            Err(error) => reply(payload@) == Err::<Seq<u8>, ReplyError>(error),
        },
{
    let mut cursor = payload;
    let request = match Request::from_bytes(&mut cursor) {
        Err(error) => { return Err(ReplyError::Decode(error)); },
        Ok(request) => request,
    };
    let response = build_response(&request);
    match response_to_bytes(&response) {
        None => Err(ReplyError::Unencodable),
        Some(frame) => Ok(frame),
    }
}

/// Where a connection stands between two actions.
#[derive(Clone, Copy, Debug, PartialEq, Eq, Structural)]
pub enum ConnectionState {
    /// The four bytes of a length prefix are being read.
    AwaitLength,
    /// The payload of a frame is being read.
    AwaitBody { length: u32 },
    /// A response frame is being written.
    Respond,
    /// The connection has ended.
    Closed,
}

/// What the transport reports.
#[derive(Clone, Debug, PartialEq, Eq)]
pub enum Event {
    /// A read has ended with these bytes.
    Read(Vec<u8>),
    /// The write has ended.
    Written,
    /// A read or a write has failed.
    Failed,
}

/// An event as a mathematical value.
pub enum EventView {
    Read(Seq<u8>),
    Written,
    Failed,
}

impl View for Event {
    type V = EventView;

    open spec fn view(&self) -> EventView {
        match self {
            Event::Read(bytes) => EventView::Read(bytes@),
            Event::Written => EventView::Written,
            Event::Failed => EventView::Failed,
        }
    }
}

/// What the transport is to do next.
#[derive(Debug)]
pub enum Action {
    /// Read exactly this many bytes.
    Read(usize),
    /// Write all of these bytes.
    Write(BytesMut),
    /// Close the connection.
    Close,
}

/// An action as a mathematical value.
pub enum ActionView {
    Read(nat),
    Write(Seq<u8>),
    Close,
}

impl View for Action {
    type V = ActionView;

    open spec fn view(&self) -> ActionView {
        match self {
            Action::Read(count) => ActionView::Read(*count as nat),
            Action::Write(frame) => ActionView::Write(bytes_mut_contents(*frame)),
            Action::Close => ActionView::Close,
        }
    }
}

/// The transition of a connection.
///
/// * While a length is awaited, four bytes lead on to the payload of that
///   length.
/// * While a payload is awaited, as many bytes as the length announced are
///   dispatched: a payload that has an answer leads on to writing it.
/// * When the answer is written, the next length is awaited.
/// * Everything else closes the connection: a failure of the transport, a
///   read of another length than was asked for, a payload without an
///   answer, an event that the state does not await. A closed connection
///   stays closed.
pub open spec fn transition(state: ConnectionState, event: EventView) -> (
    ConnectionState,
    ActionView,
) {
    match (state, event) {
        (ConnectionState::AwaitLength, EventView::Read(bytes)) => if bytes.len() == 4 {
            let length = be_u32(bytes) as u32;
            (ConnectionState::AwaitBody { length }, ActionView::Read(length as nat))
        } else {
            (ConnectionState::Closed, ActionView::Close)
        },
        (ConnectionState::AwaitBody { length }, EventView::Read(bytes)) => if bytes.len()
            == length {
            match reply(bytes) {
                Ok(frame) => (ConnectionState::Respond, ActionView::Write(frame)),
                Err(_) => (ConnectionState::Closed, ActionView::Close),
            }
        } else {
            (ConnectionState::Closed, ActionView::Close)
        },
        (ConnectionState::Respond, EventView::Written) => (
            ConnectionState::AwaitLength,
            ActionView::Read(4),
        ),
        _ => (ConnectionState::Closed, ActionView::Close),
    }
}

/// The state in which a connection starts, and its first action: to read a
/// length prefix.
pub fn start() -> (first: (ConnectionState, Action))
    ensures
        first.0 == ConnectionState::AwaitLength,
        first.1@ == ActionView::Read(4),
{
    (ConnectionState::AwaitLength, Action::Read(4))
}

/// Takes a connection from one state to the next and says what the
/// transport is to do.
pub fn step(state: ConnectionState, event: Event) -> (next: (ConnectionState, Action))
    ensures
        (next.0, next.1@) == transition(state, event@),
{
    match (state, event) {
        (ConnectionState::AwaitLength, Event::Read(bytes)) => {
            if bytes.len() != 4 {
                return (ConnectionState::Closed, Action::Close);
            }
            let mut cursor = bytes.as_slice();
            match read_frame_length(&mut cursor) {
                Err(_) => (ConnectionState::Closed, Action::Close),
                Ok(length) => (ConnectionState::AwaitBody { length }, Action::Read(length as usize)),
            }
        },
        (ConnectionState::AwaitBody { length }, Event::Read(bytes)) => {
            if bytes.len() != length as usize {
                return (ConnectionState::Closed, Action::Close);
            }
            match serve(bytes.as_slice()) {
                Ok(frame) => (ConnectionState::Respond, Action::Write(frame)),
                Err(_) => (ConnectionState::Closed, Action::Close),
            }
        },
        (ConnectionState::Respond, Event::Written) => (
            ConnectionState::AwaitLength,
            Action::Read(4),
        ),
        _ => (ConnectionState::Closed, Action::Close),
    }
}

/// A failure of the transport closes the connection from every state.
pub proof fn lemma_failure_closes(state: ConnectionState)
    ensures
        transition(state, EventView::Failed) == (ConnectionState::Closed, ActionView::Close),
{
}

/// A closed connection stays closed, whatever is reported.
pub proof fn lemma_closed_is_terminal(event: EventView)
    ensures
        transition(ConnectionState::Closed, event) == (
            ConnectionState::Closed,
            ActionView::Close,
        ),
{
}

/// A response is written only for a whole payload, and it is the answer to
/// that payload; after the write the connection awaits the next length. So
/// the answers on a connection come in the order of its requests.
pub proof fn lemma_one_answer_per_request(state: ConnectionState, event: EventView)
    ensures
        transition(state, event).1 is Write ==> {
            &&& state is AwaitBody
            &&& event is Read
            &&& event->Read_0.len() == state->length
            &&& reply(event->Read_0) == Ok::<Seq<u8>, ReplyError>(transition(state, event).1->Write_0)
            &&& transition(state, event).0 == ConnectionState::Respond
        },
        transition(state, event).0 is Respond ==> transition(state, event).1 is Write,
        transition(state, event).0 is AwaitLength ==> state is Respond && event is Written,
{
}

} // verus!
