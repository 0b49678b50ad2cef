use portal::codec::{ControlPacket, StreamId};
use portal::ids::ClientId;
use portal::registry::{ConnectedClient, Connections, SinkHandle};
use portal::remote::{
    find_header, health_check_path, invalid_host_response, normalize_host, not_found_response,
    ok_response, packet_for_chunk, peek_header, peek_host, redirect_response, request_path,
    route_request, sink_action, tunnel_refused_response, RemoteRoute, SinkAction,
};
use portal::server::Config;
use portal::streams::StreamMessage;

fn test_config() -> Config {
    Config::from_parts(
        Some(vec!["tunnelto.dev".to_string()]),
        None,
        None,
        None,
        None,
    )
}

fn registry_with(host: &str, sink: u64) -> Connections {
    let mut reg = Connections::new();
    let _ = reg.add(ConnectedClient {
        id: ClientId::from_name("c1"),
        host: host.to_string(),
        is_anonymous: true,
        sink: SinkHandle(sink),
    });
    reg
}

#[test]
fn peek_host_reads_the_host_header() {
    let req = b"GET / HTTP/1.1\r\nHost: foo.tunnelto.dev\r\nAccept: */*\r\n\r\n";
    assert_eq!(peek_host(req), Some(b"foo.tunnelto.dev".to_vec()));
}

#[test]
fn peek_host_is_case_insensitive_and_trims() {
    let req = b"GET / HTTP/1.1\r\nhOsT: \t foo.tunnelto.dev \r\n\r\n";
    assert_eq!(peek_host(req), Some(b"foo.tunnelto.dev".to_vec()));
}

#[test]
fn peek_host_none_when_absent() {
    let req = b"GET / HTTP/1.1\r\nAccept: */*\r\n\r\nbody-bytes";
    assert_eq!(peek_host(req), None);
    // a header after the blank line is part of the body, not the head
    let req = b"GET / HTTP/1.1\r\n\r\nHost: foo.tunnelto.dev\r\n";
    assert_eq!(peek_host(req), None);
}

#[test]
fn find_header_reads_forwarded_for() {
    let head = b"Host: a\r\nX-Forwarded-For: 10.0.0.1\r\n\r\n";
    assert_eq!(
        find_header(head, b"x-forwarded-for"),
        Some(b"10.0.0.1".to_vec())
    );
    // the whole-request form skips the request line first
    let req = b"GET / HTTP/1.1\r\nHost: a\r\nX-Forwarded-For: 10.0.0.1\r\n\r\n";
    assert_eq!(
        peek_header(req, b"x-forwarded-for"),
        Some(b"10.0.0.1".to_vec())
    );
}

#[test]
fn request_path_is_the_second_token() {
    let req = b"GET /some/path HTTP/1.1\r\nHost: a\r\n\r\n";
    assert_eq!(request_path(req), Some(b"/some/path".to_vec()));
    assert_eq!(request_path(b"NOSPACES\r\n\r\n"), None);
}

#[test]
fn normalize_strips_port_and_lowercases() {
    assert_eq!(
        normalize_host(b"Foo.TunnelTo.DEV:8080"),
        Some(b"foo.tunnelto.dev".to_vec())
    );
    assert_eq!(normalize_host(b"plain"), Some(b"plain".to_vec()));
    assert_eq!(normalize_host(b""), None);
    assert_eq!(normalize_host(b":443"), None);
    assert_eq!(normalize_host(b"bad host"), None);
}

#[test]
fn route_no_host_drops() {
    let reg = Connections::new();
    let r = route_request(&test_config(), &reg, b"GET / HTTP/1.1\r\n\r\n");
    assert!(matches!(r, RemoteRoute::Drop));
}

#[test]
fn route_wormhole_splices_to_control() {
    // Host: wormhole goes transparently to the control port
    let reg = Connections::new();
    let req = b"GET / HTTP/1.1\r\nHost: wormhole\r\n\r\n";
    let r = route_request(&test_config(), &reg, req);
    assert!(matches!(r, RemoteRoute::DirectToControl));
}

#[test]
fn route_foreign_apex_redirects() {
    let reg = Connections::new();
    let req = b"GET / HTTP/1.1\r\nHost: foo.elsewhere.example\r\n\r\n";
    let r = route_request(&test_config(), &reg, req);
    assert!(matches!(r, RemoteRoute::Redirect));
}

#[test]
fn route_health_check() {
    let reg = Connections::new();
    let req = b"GET /0xDEADBEEF_HEALTH_CHECK HTTP/1.1\r\nHost: foo.tunnelto.dev\r\n\r\n";
    let r = route_request(&test_config(), &reg, req);
    assert!(matches!(r, RemoteRoute::HealthCheck));
}

#[test]
fn route_unknown_host_is_not_found() {
    let reg = Connections::new();
    let req = b"GET / HTTP/1.1\r\nHost: ghost.tunnelto.dev\r\n\r\n";
    let r = route_request(&test_config(), &reg, req);
    assert!(matches!(r, RemoteRoute::NotFound));
}

#[test]
fn route_registered_host_opens_a_tunnel() {
    let reg = registry_with("foo.tunnelto.dev", 42);
    let req = b"GET / HTTP/1.1\r\nHost: Foo.tunnelto.dev:8080\r\n\r\n";
    match route_request(&test_config(), &reg, req) {
        RemoteRoute::Tunnel(c) => assert_eq!(c.sink, SinkHandle(42)),
        _ => panic!("the registered client must be routed to"),
    }
}

#[test]
fn route_dotless_host_is_invalid() {
    let reg = Connections::new();
    let req = b"GET / HTTP/1.1\r\nHost: localhost\r\n\r\n";
    let r = route_request(&test_config(), &reg, req);
    assert!(matches!(r, RemoteRoute::InvalidHost));
}

#[test]
fn literal_responses() {
    assert_eq!(
        tunnel_refused_response(),
        "HTTP/1.1 500\r\nContent-Length: 32\r\n\r\nTunnel says: connection refused."
    );
    assert_eq!(
        not_found_response(),
        "HTTP/1.1 404\r\nContent-Length: 23\r\n\r\nError: Tunnel Not Found"
    );
    assert_eq!(
        invalid_host_response(),
        "HTTP/1.1 400\r\nContent-Length: 23\r\n\r\nError: Invalid Hostname"
    );
    assert_eq!(ok_response(), "HTTP/1.1 200 OK\r\nContent-Length: 2\r\n\r\nok");
    assert_eq!(
        redirect_response(),
        "HTTP/1.1 301 Moved Permanently\r\nLocation: https://tunnelto.dev/\r\nContent-Length: 20\r\n\r\nhttps://tunnelto.dev"
    );
    assert_eq!(health_check_path(), "/0xDEADBEEF_HEALTH_CHECK");
}

#[test]
fn refused_stream_answers_the_literal_500() {
    // end-user side of a refused local dial: the dequeued
    // TunnelRefused makes the pump write the exact 500 response
    match sink_action(Some(StreamMessage::TunnelRefused)) {
        SinkAction::WriteRefusedThenStop => {}
        _ => panic!("TunnelRefused must answer the refused response"),
    }
    assert_eq!(
        tunnel_refused_response().as_bytes(),
        b"HTTP/1.1 500\r\nContent-Length: 32\r\n\r\nTunnel says: connection refused."
    );
}

#[test]
fn sink_action_mapping() {
    match sink_action(Some(StreamMessage::Data(vec![1, 2]))) {
        SinkAction::Write(b) => assert_eq!(b, vec![1, 2]),
        _ => panic!("data must be written through"),
    }
    assert!(matches!(
        sink_action(Some(StreamMessage::NoClientTunnel)),
        SinkAction::WriteNotFoundThenStop
    ));
    assert!(matches!(
        sink_action(Some(StreamMessage::Close)),
        SinkAction::Shutdown
    ));
    assert!(matches!(sink_action(None), SinkAction::Shutdown));
}

#[test]
fn packet_for_chunk_data_and_end() {
    let buf = [1u8, 2, 3, 4];
    match packet_for_chunk(StreamId(5), &buf, 2) {
        ControlPacket::Data(sid, d) => {
            assert_eq!(sid.0, 5);
            assert_eq!(d, vec![1, 2]);
        }
        _ => panic!("a non-empty read becomes data"),
    }
    assert!(matches!(
        packet_for_chunk(StreamId(5), &buf, 0),
        ControlPacket::End(StreamId(5))
    ));
}
