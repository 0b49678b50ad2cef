use portal::codec::StreamId;
use portal::ids::ClientId;
use portal::registry::{ConnectedClient, SinkHandle};
use portal::streams::{linger_close, ActiveStream, ActiveStreams, StreamMessage};

fn a_client() -> ConnectedClient {
    ConnectedClient {
        id: ClientId::from_name("c"),
        host: "foo.tunnelto.dev".to_string(),
        is_anonymous: true,
        sink: SinkHandle(1),
    }
}

fn stream_with_id(v: u64) -> ActiveStream {
    ActiveStream {
        id: StreamId(v),
        client: a_client(),
        inbound: Vec::new(),
        closed: false,
    }
}

#[test]
fn new_stream_has_random_id_and_empty_queue() {
    let s = ActiveStream::new(a_client());
    assert!(s.inbound.is_empty());
    assert!(!s.closed);
}

#[test]
fn insert_then_contains_and_client_of() {
    let mut t = ActiveStreams::new();
    assert_eq!(t.len(), 0);
    t.insert(stream_with_id(5));
    assert_eq!(t.len(), 1);
    assert!(t.contains(StreamId(5)));
    assert!(!t.contains(StreamId(6)));
    let c = t.client_of(StreamId(5)).unwrap();
    assert_eq!(c.id.0, "c");
}

#[test]
fn data_for_one_stream_never_reaches_another() {
    // stream isolation: bytes pushed for stream A stay out of B's queue
    let mut t = ActiveStreams::new();
    t.insert(stream_with_id(1));
    t.insert(stream_with_id(2));

    assert!(t.push_message(StreamId(1), StreamMessage::Data(vec![1, 2, 3])));

    // B's queue is still empty; A's queue holds exactly the bytes
    assert!(t.pop_message(StreamId(2)).is_none());
    match t.pop_message(StreamId(1)) {
        Some(StreamMessage::Data(d)) => assert_eq!(d, vec![1, 2, 3]),
        _ => panic!("expected the data on stream A"),
    }
    assert!(t.pop_message(StreamId(1)).is_none());
}

#[test]
fn push_to_unknown_stream_is_dropped() {
    let mut t = ActiveStreams::new();
    assert!(!t.push_message(StreamId(9), StreamMessage::Data(vec![1])));
}

#[test]
fn closed_queue_refuses_messages() {
    let mut t = ActiveStreams::new();
    t.insert(stream_with_id(1));
    t.close_queue(StreamId(1));
    assert!(!t.push_message(StreamId(1), StreamMessage::Data(vec![1])));
}

#[test]
fn remove_returns_the_stream_with_its_queue() {
    let mut t = ActiveStreams::new();
    t.insert(stream_with_id(1));
    assert!(t.push_message(StreamId(1), StreamMessage::Data(vec![7])));
    let s = t.remove(StreamId(1)).unwrap();
    assert_eq!(s.inbound.len(), 1);
    assert!(!t.contains(StreamId(1)));
    assert!(t.remove(StreamId(1)).is_none());
}

#[test]
fn linger_close_appends_close_and_removes() {
    let mut t = ActiveStreams::new();
    t.insert(stream_with_id(1));
    assert!(t.push_message(StreamId(1), StreamMessage::Data(vec![7])));
    let s = linger_close(&mut t, StreamId(1)).unwrap();
    assert_eq!(s.inbound.len(), 2);
    assert!(matches!(s.inbound[0], StreamMessage::Data(_)));
    assert!(matches!(s.inbound[1], StreamMessage::Close));
    assert!(!t.contains(StreamId(1)));
}
