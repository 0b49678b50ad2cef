//! One request's bytes walked through both endpoints' logic: the
//! end-user's bytes travel to the client's local queue, and the local
//! service's answer travels back, byte for byte.

use portal::client::{attach_local_stream, client_handle_frame, ClientFrameAction, ClientState};
use portal::codec::{ControlPacket, StreamId};
use portal::ids::ClientId;
use portal::registry::{ConnectedClient, Connections, SinkHandle};
use portal::remote::{packet_for_chunk, route_request, sink_action, RemoteRoute, SinkAction};
use portal::server::{server_handle_frame, Config, ServerFrameAction};
use portal::streams::{ActiveStream, ActiveStreams, StreamMessage};

fn client_record() -> ConnectedClient {
    ConnectedClient {
        id: ClientId::from_name("c1"),
        host: "foo.tunnelto.dev".to_string(),
        is_anonymous: true,
        sink: SinkHandle(1),
    }
}

#[test]
fn request_and_response_bytes_travel_verbatim() {
    let config = Config::from_parts(
        Some(vec!["tunnelto.dev".to_string()]),
        None,
        None,
        None,
        None,
    );

    // server side: the end-user's connection routes to the client
    let mut registry = Connections::new();
    let _ = registry.add(client_record());
    let request = b"GET / HTTP/1.1\r\nHost: foo.tunnelto.dev\r\n\r\n";
    let client = match route_request(&config, &registry, request) {
        RemoteRoute::Tunnel(c) => c,
        _ => panic!("the request must route to the client"),
    };

    // the dispatcher opens a stream and turns the peeked bytes into a
    // data frame for the control channel
    let mut server_streams = ActiveStreams::new();
    let stream = ActiveStream {
        id: StreamId(11),
        client,
        inbound: Vec::new(),
        closed: false,
    };
    server_streams.insert(stream);
    let packet = packet_for_chunk(StreamId(11), request, request.len());
    let frame = packet.serialize();

    // client side: the frame arrives; no local stream yet, so the
    // client dials and attaches, and the bytes reach the local queue
    let mut state = ClientState::new(0);
    let (sid, first) = match client_handle_frame(&mut state, &frame, 1) {
        ClientFrameAction::OpenLocalStream(sid, data) => (sid, data),
        _ => panic!("first data must open the local stream"),
    };
    assert_eq!(first, request.to_vec());
    let local = ActiveStream {
        id: sid,
        client: client_record(),
        inbound: Vec::new(),
        closed: false,
    };
    assert!(attach_local_stream(&mut state, local, first));
    let to_local = match state.streams.pop_message(sid) {
        Some(StreamMessage::Data(d)) => d,
        _ => panic!("the request must be queued for the local socket"),
    };
    assert_eq!(to_local, request.to_vec());

    // the local service answers; the client frames the bytes upstream
    let response = b"HTTP/1.1 200 OK\r\nContent-Length: 2\r\n\r\nhi";
    let mut st2 = state;
    let upstream = portal::client::local_read_step(&mut st2, sid, response, response.len())
        .expect("a non-empty read goes upstream");
    let upstream_frame = upstream.serialize();

    // back at the server: the frame lands in the end-user stream's
    // queue, and the pump writes exactly the response bytes
    match server_handle_frame(&mut server_streams, &upstream_frame) {
        ServerFrameAction::DataDelivered(true) => {}
        _ => panic!("the response must reach the end-user stream"),
    }
    let msg = server_streams.pop_message(StreamId(11));
    match sink_action(msg) {
        SinkAction::Write(bytes) => assert_eq!(bytes, response.to_vec()),
        _ => panic!("the response bytes must be written verbatim"),
    }
}
