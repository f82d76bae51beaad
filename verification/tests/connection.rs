use kafka_wire::codec::DecodeError;
use kafka_wire::connection::{serve, start, step, Action, ConnectionState, Event, ReplyError};
use kafka_wire::frame::read_frame;

fn api_versions_payload(version: u8, correlation: u8) -> Vec<u8> {
    vec![0u8, 18, 0, version, 0, 0, 0, correlation, 1, 0]
}

fn describe_payload(names: &[&str], cursor: &str, cursor_partition: u8) -> Vec<u8> {
    let mut bytes = vec![0u8, 75, 0, 0, 0, 0, 0, 9, 2, b'c', 0];
    bytes.push(names.len() as u8 + 1);
    for name in names {
        bytes.push(name.len() as u8 + 1);
        bytes.extend_from_slice(name.as_bytes());
    }
    bytes.push(0);
    bytes.extend_from_slice(&[0, 0, 0, 10]);
    bytes.push(cursor.len() as u8 + 1);
    bytes.extend_from_slice(cursor.as_bytes());
    bytes.extend_from_slice(&[0, 0, 0, cursor_partition]);
    bytes.push(0);
    bytes.push(0);
    bytes
}

fn fetch_payload(version: u8, topic: u8) -> Vec<u8> {
    let mut bytes = vec![0u8, 1, 0, version, 0, 0, 1, 0, 1, 0];
    bytes.extend_from_slice(&[0; 13]);
    bytes.extend_from_slice(&[0, 0, 0, 42]); // session id
    bytes.extend_from_slice(&[0; 4]);
    bytes.push(2);
    bytes.extend_from_slice(&[0; 15]);
    bytes.push(topic);
    bytes.push(1);
    bytes.push(0);
    bytes.push(1);
    bytes.push(1);
    bytes.push(0);
    bytes
}

#[test]
fn api_versions_end_to_end() {
    let frame = serve(&api_versions_payload(4, 7)).unwrap();
    let mut cursor = &frame[..];
    let payload = read_frame(&mut cursor).unwrap();
    assert!(cursor.is_empty());
    assert_eq!(&payload[0..4], &[0u8, 0, 0, 7][..]); // correlation id
    assert_eq!(payload[4], 0); // header tag buffer
    assert_eq!(&payload[5..7], &[0u8, 0][..]); // error code
    assert_eq!(payload[7], 3); // two entries
    assert_eq!(&payload[8..14], &[0u8, 18, 0, 0, 0, 4][..]);
    assert_eq!(&payload[14..20], &[0u8, 1, 0, 0, 0, 16][..]);
    assert_eq!(&payload[20..24], &[0u8, 0, 0, 0][..]); // throttle time
    assert_eq!(payload[24], 0); // tag buffer
    assert_eq!(payload.len(), 25);
    assert_eq!(&frame[..4], &[0u8, 0, 0, 25][..]);
}

#[test]
fn api_versions_version_5_is_unsupported() {
    let frame = serve(&api_versions_payload(5, 8)).unwrap();
    assert_eq!(&frame[4..8], &[0u8, 0, 0, 8][..]);
    assert_eq!(&frame[9..11], &[0u8, 35][..]);
    for version in 0u8..=4 {
        let frame = serve(&api_versions_payload(version, 8)).unwrap();
        assert_eq!(&frame[9..11], &[0u8, 0][..]);
    }
}

#[test]
fn describe_end_to_end() {
    let frame = serve(&describe_payload(&["foo"], "bar", 5)).unwrap();
    let mut expected = vec![0u8, 0, 0, 9, 0]; // header
    expected.extend_from_slice(&[0, 0, 0, 0]); // throttle time
    expected.push(2); // one topic
    expected.extend_from_slice(&[0, 3]); // unknown topic or partition
    expected.extend_from_slice(&[4, b'f', b'o', b'o']);
    expected.extend_from_slice(&[0; 16]); // topic id
    expected.push(0); // not internal
    expected.push(1); // no partitions
    expected.extend_from_slice(&[0, 0, 0, 0]); // authorized operations
    expected.push(0); // topic tag buffer
    expected.extend_from_slice(&[4, b'b', b'a', b'r', 0, 0, 0, 5, 0]); // cursor
    assert_eq!(&frame[..4], &(expected.len() as u32).to_be_bytes()[..]);
    assert_eq!(&frame[4..], &expected[..]);
}

#[test]
fn describe_of_two_topics_keeps_their_order() {
    let frame = serve(&describe_payload(&["b", "a"], "", 0)).unwrap();
    let text = frame.to_vec();
    let first = text.windows(2).position(|w| w == [2, b'b']).unwrap();
    let second = text.windows(2).position(|w| w == [2, b'a']).unwrap();
    assert!(first < second);
    assert_eq!(text[4 + 5 + 4], 3);
}

#[test]
fn fetch_end_to_end() {
    let frame = serve(&fetch_payload(16, 0xee)).unwrap();
    let mut expected = vec![0u8, 0, 1, 0, 0]; // header
    expected.extend_from_slice(&[0, 0, 0, 0]); // throttle time
    expected.extend_from_slice(&[0, 0]); // error code
    expected.extend_from_slice(&[0, 0, 0, 42]); // session id
    expected.push(2);
    expected.extend_from_slice(&[0; 15]);
    expected.push(0xee);
    expected.push(2);
    expected.extend_from_slice(&[0, 0, 0, 0, 0, 0]);
    expected.extend_from_slice(&[0; 24]);
    expected.push(1);
    expected.extend_from_slice(&[0, 0, 0, 0]);
    expected.push(1);
    expected.extend_from_slice(&[0, 0, 0]);
    assert_eq!(&frame[..4], &(expected.len() as u32).to_be_bytes()[..]);
    assert_eq!(&frame[4..], &expected[..]);
}

#[test]
fn fetch_version_17_is_unsupported() {
    let frame = serve(&fetch_payload(17, 1)).unwrap();
    assert_eq!(&frame[13..15], &[0u8, 35][..]);
}

#[test]
fn correlation_bytes_are_echoed() {
    for id in [[0u8, 0, 0, 0], [0xff, 0xff, 0xff, 0xff], [0x80, 0, 0, 0], [1, 2, 3, 4]] {
        let mut payload = api_versions_payload(4, 0);
        payload[4..8].copy_from_slice(&id);
        let frame = serve(&payload).unwrap();
        assert_eq!(&frame[4..8], &id[..]);
    }
}

#[test]
fn frame_prefix_counts_the_rest_of_every_answer() {
    let payloads = vec![
        api_versions_payload(0, 1),
        api_versions_payload(9, 1),
        describe_payload(&[], "", 0),
        describe_payload(&["a", "bb", "ccc"], "zz", 1),
        fetch_payload(3, 4),
    ];
    for payload in payloads {
        let frame = serve(&payload).unwrap();
        let length = u32::from_be_bytes([frame[0], frame[1], frame[2], frame[3]]) as usize;
        assert_eq!(length, frame.len() - 4);
    }
}

#[test]
fn payload_that_is_no_request_has_no_answer() {
    assert_eq!(serve(&[]).unwrap_err(), ReplyError::Decode(DecodeError::Truncated));
    assert_eq!(
        serve(&[0, 2, 0, 0, 0, 0, 0, 1, 1, 0]).unwrap_err(),
        ReplyError::Decode(DecodeError::UnsupportedApiKey)
    );
    assert_eq!(
        serve(&[0, 18, 0, 0, 0, 0, 0, 1, 1, 1]).unwrap_err(),
        ReplyError::Decode(DecodeError::UnsupportedFeature)
    );
}

#[test]
fn request_whose_names_grow_too_long_has_no_answer() {
    let mut payload = vec![0u8, 75, 0, 0, 0, 0, 0, 9, 1, 0];
    payload.push(2);
    payload.push(101);
    payload.extend_from_slice(&[0xff; 100]);
    payload.push(0);
    payload.extend_from_slice(&[0, 0, 0, 10]);
    payload.extend_from_slice(&[1, 0, 0, 0, 0, 0]);
    payload.push(0);
    assert_eq!(serve(&payload).unwrap_err(), ReplyError::Unencodable);
}

#[test]
fn connection_starts_by_reading_a_length() {
    let (state, action) = start();
    assert_eq!(state, ConnectionState::AwaitLength);
    assert!(matches!(action, Action::Read(4)));
}

#[test]
fn connection_cycle() {
    let payload = api_versions_payload(4, 7);
    let (state, _) = start();
    let (state, action) = step(state, Event::Read(vec![0, 0, 0, payload.len() as u8]));
    assert_eq!(state, ConnectionState::AwaitBody { length: payload.len() as u32 });
    assert!(matches!(action, Action::Read(n) if n == payload.len()));
    let (state, action) = step(state, Event::Read(payload.clone()));
    assert_eq!(state, ConnectionState::Respond);
    match action {
        Action::Write(frame) => assert_eq!(frame, serve(&payload).unwrap()),
        _ => panic!("no write"),
    }
    let (state, action) = step(state, Event::Written);
    assert_eq!(state, ConnectionState::AwaitLength);
    assert!(matches!(action, Action::Read(4)));
}

#[test]
fn length_is_read_big_endian() {
    let (state, action) = step(ConnectionState::AwaitLength, Event::Read(vec![0, 1, 2, 3]));
    assert_eq!(state, ConnectionState::AwaitBody { length: 0x0001_0203 });
    assert!(matches!(action, Action::Read(0x0001_0203)));
}

#[test]
fn short_read_closes() {
    let (state, action) = step(ConnectionState::AwaitLength, Event::Read(vec![0, 0, 0]));
    assert_eq!(state, ConnectionState::Closed);
    assert!(matches!(action, Action::Close));
    let payload = api_versions_payload(4, 7);
    let (state, action) = step(
        ConnectionState::AwaitBody { length: payload.len() as u32 + 1 },
        Event::Read(payload),
    );
    assert_eq!(state, ConnectionState::Closed);
    assert!(matches!(action, Action::Close));
}

#[test]
fn payload_without_answer_closes() {
    let (state, action) =
        step(ConnectionState::AwaitBody { length: 3 }, Event::Read(vec![0, 18, 0]));
    assert_eq!(state, ConnectionState::Closed);
    assert!(matches!(action, Action::Close));
}

#[test]
fn failure_closes_from_every_state() {
    for state in [
        ConnectionState::AwaitLength,
        ConnectionState::AwaitBody { length: 10 },
        ConnectionState::Respond,
        ConnectionState::Closed,
    ] {
        let (next, action) = step(state, Event::Failed);
        assert_eq!(next, ConnectionState::Closed);
        assert!(matches!(action, Action::Close));
    }
}

#[test]
fn unexpected_event_closes() {
    let (state, _) = step(ConnectionState::AwaitLength, Event::Written);
    assert_eq!(state, ConnectionState::Closed);
    let (state, _) = step(ConnectionState::AwaitBody { length: 1 }, Event::Written);
    assert_eq!(state, ConnectionState::Closed);
    let (state, _) = step(ConnectionState::Respond, Event::Read(vec![0, 0, 0, 1]));
    assert_eq!(state, ConnectionState::Closed);
}

#[test]
fn closed_stays_closed() {
    for event in [Event::Read(vec![0, 0, 0, 1]), Event::Written, Event::Failed] {
        let (state, action) = step(ConnectionState::Closed, event);
        assert_eq!(state, ConnectionState::Closed);
        assert!(matches!(action, Action::Close));
    }
}
