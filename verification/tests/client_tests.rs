use portal::agent::Version;
use portal::client::{
    client_handle_frame, attach_local_stream, dec_string, get_cli, interpret_server_hello,
    local_read_step, make_client_hello, refuse_stream, retry_decision, update_available,
    watchdog_expired, ClientFrameAction, ClientState, Config, Error, RetryDecision,
    RETRY_TRANSPORT_SECS,
};
use portal::codec::{ControlPacket, ReconnectToken, StreamId};
use portal::ids::{ClientId, ClientType, SecretKey, ServerHello};
use portal::registry::{ConnectedClient, SinkHandle};
use portal::streams::{linger_close, ActiveStream, StreamMessage};

#[test]
fn cli_defaults() {
    let cli = get_cli();
    assert_eq!(cli.local_host, "localhost");
    assert_eq!(cli.port, 8000);
    assert!(!cli.use_tls);
    assert!(cli.sub_domain.is_none());
}

#[test]
fn config_defaults_and_urls() {
    let c = Config::from_options(None, None, None, None, None, None, None, None);
    assert_eq!(c.portal_host, "localhost");
    assert_eq!(c.portal_port, 5000);
    assert!(c.portal_tls);
    assert_eq!(c.local_host, "localhost");
    assert_eq!(c.local_port, 8000);
    assert!(!c.local_tls);
    assert_eq!(c.portal_schema(), "wss");
    assert_eq!(c.portal_url(), "wss://localhost:5000/wormhole");
    assert_eq!(c.forward_url(), "http://localhost:8000");
    assert_eq!(c.ws_forward_url(), "ws://localhost:8000");
}

#[test]
fn activation_url_scheme_follows_tls() {
    // TLS on must give https, TLS off plain http
    let tls_on = Config::from_options(None, None, Some(true), None, None, None, None, None);
    assert_eq!(tls_on.activation_url("foo.tunnelto.dev"), "https://foo.tunnelto.dev");
    let tls_off = Config::from_options(None, None, Some(false), None, None, None, None, None);
    assert_eq!(tls_off.activation_url("foo.tunnelto.dev"), "http://foo.tunnelto.dev");
    assert_eq!(tls_off.portal_schema(), "ws");
    assert_eq!(tls_off.portal_url(), "ws://localhost:5000/wormhole");
}

#[test]
fn dec_string_spells_numbers() {
    assert_eq!(dec_string(0), "0");
    assert_eq!(dec_string(7), "7");
    assert_eq!(dec_string(8080), "8080");
    assert_eq!(dec_string(65535), "65535");
}

#[test]
fn hello_prefers_token_then_key_then_anonymous() {
    // a stored reconnect token wins, even over a configured key
    let keyed = Config::from_options(
        None,
        None,
        None,
        None,
        None,
        None,
        Some("sub".to_string()),
        Some(SecretKey("k".to_string())),
    );
    let h = make_client_hello(&keyed, &Some(ReconnectToken(b"t".to_vec())));
    assert!(matches!(h.client_type, ClientType::Anonymous));
    assert!(h.sub_domain.is_none());
    assert_eq!(h.reconnect_token.unwrap().0, b"t".to_vec());

    // no token: the key makes an auth hello
    let h = make_client_hello(&keyed, &None);
    assert!(matches!(h.client_type, ClientType::Auth { .. }));
    assert_eq!(h.sub_domain, Some("sub".to_string()));
    assert!(h.reconnect_token.is_none());

    // neither: anonymous
    let anon = Config::from_options(None, None, None, None, None, None, None, None);
    let h = make_client_hello(&anon, &None);
    assert!(matches!(h.client_type, ClientType::Anonymous));
    assert!(h.reconnect_token.is_none());
}

#[test]
fn server_hello_interpretation() {
    let ok = interpret_server_hello(ServerHello::Success {
        sub_domain: "foo".to_string(),
        hostname: "foo.tunnelto.dev".to_string(),
        client_id: ClientId::from_name("c"),
    });
    assert_eq!(
        ok.unwrap(),
        ("foo".to_string(), "foo.tunnelto.dev".to_string())
    );
    assert!(matches!(
        interpret_server_hello(ServerHello::AuthFailed),
        Err(Error::AuthenticationFailed)
    ));
    assert!(matches!(
        interpret_server_hello(ServerHello::SubDomainInUse),
        Err(Error::SubDomainInUse)
    ));
    assert!(matches!(
        interpret_server_hello(ServerHello::InvalidSubDomain),
        Err(Error::InvalidSubDomain)
    ));
    match interpret_server_hello(ServerHello::Error("boom".to_string())) {
        Err(Error::ServerError(m)) => assert_eq!(m, "boom"),
        _ => panic!("a server error must surface"),
    }
}

#[test]
fn retry_rules() {
    assert_eq!(
        retry_decision(&Error::Timeout),
        RetryDecision::RetryAfter(RETRY_TRANSPORT_SECS)
    );
    assert_eq!(
        retry_decision(&Error::WebSocketError("eof".to_string())),
        RetryDecision::RetryAfter(5)
    );
    assert_eq!(
        retry_decision(&Error::NoResponseFromServer),
        RetryDecision::RetryAfter(5)
    );
    assert_eq!(retry_decision(&Error::AuthenticationFailed), RetryDecision::Fatal);
    assert_eq!(retry_decision(&Error::SubDomainInUse), RetryDecision::Fatal);
}

#[test]
fn watchdog_fires_after_61_seconds_of_silence() {
    assert!(watchdog_expired(1000, 1061));
    assert!(!watchdog_expired(1000, 1060));
    assert!(!watchdog_expired(1000, 1000));
}

#[test]
fn ping_stores_token_and_refreshes_clock() {
    // a session that receives Ping(Some(tok)) keeps tok; a later
    // reconnect hello presents it
    let mut state = ClientState::new(100);
    let frame = ControlPacket::Ping(Some(ReconnectToken(b"tok".to_vec()))).serialize();
    let act = client_handle_frame(&mut state, &frame, 130);
    assert!(matches!(act, ClientFrameAction::ReplyPing));
    assert_eq!(state.last_ping, 130);
    assert_eq!(state.reconnect_token.as_ref().unwrap().0, b"tok".to_vec());

    let anon = Config::from_options(None, None, None, None, None, None, None, None);
    let h = make_client_hello(&anon, &state.reconnect_token);
    assert_eq!(h.reconnect_token.unwrap().0, b"tok".to_vec());

    // a bare ping keeps the stored token
    let frame = ControlPacket::Ping(None).serialize();
    let _ = client_handle_frame(&mut state, &frame, 140);
    assert_eq!(state.reconnect_token.as_ref().unwrap().0, b"tok".to_vec());
    assert_eq!(state.last_ping, 140);
}

fn self_client() -> ConnectedClient {
    ConnectedClient {
        id: ClientId::from_name("me"),
        host: "foo.tunnelto.dev".to_string(),
        is_anonymous: true,
        sink: SinkHandle(0),
    }
}

#[test]
fn data_for_unknown_stream_asks_for_a_local_dial() {
    let mut state = ClientState::new(0);
    let frame = ControlPacket::Data(StreamId(9), vec![5, 6]).serialize();
    match client_handle_frame(&mut state, &frame, 1) {
        ClientFrameAction::OpenLocalStream(sid, data) => {
            assert_eq!(sid.0, 9);
            assert_eq!(data, vec![5, 6]);
            // the dial succeeded: attach the stream and deliver
            let s = ActiveStream {
                id: sid,
                client: self_client(),
                inbound: Vec::new(),
                closed: false,
            };
            assert!(attach_local_stream(&mut state, s, data));
            match state.streams.pop_message(StreamId(9)) {
                Some(StreamMessage::Data(d)) => assert_eq!(d, vec![5, 6]),
                _ => panic!("the first bytes must be queued"),
            }
        }
        _ => panic!("unknown stream data must open a local stream"),
    }
}

#[test]
fn data_for_live_stream_is_forwarded() {
    let mut state = ClientState::new(0);
    let s = ActiveStream {
        id: StreamId(4),
        client: self_client(),
        inbound: Vec::new(),
        closed: false,
    };
    state.streams.insert(s);
    let frame = ControlPacket::Data(StreamId(4), vec![1]).serialize();
    assert!(matches!(
        client_handle_frame(&mut state, &frame, 1),
        ClientFrameAction::DataForwarded(StreamId(4))
    ));
}

#[test]
fn data_for_closed_stream_is_refused() {
    let mut state = ClientState::new(0);
    let s = ActiveStream {
        id: StreamId(4),
        client: self_client(),
        inbound: Vec::new(),
        closed: true,
    };
    state.streams.insert(s);
    let frame = ControlPacket::Data(StreamId(4), vec![1]).serialize();
    assert!(matches!(
        client_handle_frame(&mut state, &frame, 1),
        ClientFrameAction::RefuseData(StreamId(4))
    ));
    let p = refuse_stream(StreamId(4));
    assert!(matches!(p, ControlPacket::Refused(StreamId(4))));
}

#[test]
fn end_schedules_the_lingering_close() {
    let mut state = ClientState::new(0);
    let s = ActiveStream {
        id: StreamId(4),
        client: self_client(),
        inbound: Vec::new(),
        closed: false,
    };
    state.streams.insert(s);
    let frame = ControlPacket::End(StreamId(4)).serialize();
    assert!(matches!(
        client_handle_frame(&mut state, &frame, 1),
        ClientFrameAction::ScheduleClose(StreamId(4))
    ));
    // after the linger, the stream closes and leaves the table
    let rest = linger_close(&mut state.streams, StreamId(4)).unwrap();
    assert!(matches!(rest.inbound.last(), Some(StreamMessage::Close)));
    assert!(!state.streams.contains(StreamId(4)));
}

#[test]
fn refused_and_malformed_and_init() {
    // a Refused frame is only logged; the session state is untouched
    let mut state = ClientState::new(0);
    let frame = ControlPacket::Refused(StreamId(1)).serialize();
    assert!(matches!(
        client_handle_frame(&mut state, &frame, 1),
        ClientFrameAction::RefusedLogged
    ));
    let frame = ControlPacket::Init(StreamId(1)).serialize();
    assert!(matches!(
        client_handle_frame(&mut state, &frame, 1),
        ClientFrameAction::InitLogged
    ));
    assert!(matches!(
        client_handle_frame(&mut state, &[1, 2], 1),
        ClientFrameAction::Malformed
    ));
}

#[test]
fn local_eof_removes_the_stream_quietly() {
    let mut state = ClientState::new(0);
    let s = ActiveStream {
        id: StreamId(4),
        client: self_client(),
        inbound: Vec::new(),
        closed: false,
    };
    state.streams.insert(s);
    let buf = [9u8; 4];
    // a read of bytes becomes a data packet
    match local_read_step(&mut state, StreamId(4), &buf, 3) {
        Some(ControlPacket::Data(sid, d)) => {
            assert_eq!(sid.0, 4);
            assert_eq!(d, vec![9, 9, 9]);
        }
        _ => panic!("bytes must go upstream as data"),
    }
    // a read of nothing ends the stream without an upstream packet
    assert!(local_read_step(&mut state, StreamId(4), &buf, 0).is_none());
    assert!(!state.streams.contains(StreamId(4)));
}

#[test]
fn update_version_comparison() {
    let v = |a, b, c| Version {
        major: a,
        minor: b,
        patch: c,
    };
    assert!(update_available(v(1, 2, 3), v(1, 2, 4)));
    assert!(update_available(v(1, 2, 3), v(1, 3, 0)));
    assert!(update_available(v(1, 2, 3), v(2, 0, 0)));
    assert!(!update_available(v(1, 2, 3), v(1, 2, 3)));
    assert!(!update_available(v(2, 0, 0), v(1, 9, 9)));
}
