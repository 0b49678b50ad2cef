use portal::agent::{
    handshake_frame_len, parse_version, AgentHandshake, Auth, Encryption, IpV4, LocalInfo,
    ServiceInfo, Version,
};

#[test]
fn parse_version_cases() {
    assert_eq!(
        parse_version("1.0.0"),
        Some(Version {
            major: 1,
            minor: 0,
            patch: 0
        })
    );
    assert_eq!(
        parse_version("10.20.30"),
        Some(Version {
            major: 10,
            minor: 20,
            patch: 30
        })
    );
    assert_eq!(parse_version("1.0"), None);
    assert_eq!(parse_version("a.b.c"), None);
    assert_eq!(parse_version(""), None);
    assert_eq!(parse_version("1..2"), None);
}

#[test]
fn handshake_frame_length_is_big_endian() {
    assert_eq!(handshake_frame_len(&[0, 0, 1, 2]), 258);
    assert_eq!(handshake_frame_len(&[1, 0, 0, 0]), 1 << 24);
}

#[test]
fn test_agent_handshake_builder() {
    let handshake = AgentHandshake::builder()
        .agent_id("agent-123")
        .auth("secret-key")
        .version("1.0.0")
        .local_info(LocalInfo {
            ip: IpV4(127, 0, 0, 1),
            port: 8080,
        })
        .service_info(ServiceInfo {
            target_ip: IpV4(192, 168, 0, 1),
            target_port: 9000,
        })
        .encryption(Encryption {
            method: "AES-256".into(),
            key: "encryption-key".into(),
        })
        .heartbeat_interval(5000u32)
        .timestamp(1631234567890u64)
        .build()
        .unwrap();

    assert_eq!(handshake.agent_id.0, "agent-123");
    assert!(matches!(handshake.auth, Auth::Key(ref k) if k == "secret-key"));
    assert_eq!(
        handshake.version,
        Some(Version {
            major: 1,
            minor: 0,
            patch: 0
        })
    );
    assert_eq!(handshake.heartbeat_interval, 5000);
    assert_eq!(handshake.timestamp, 1631234567890);
}

#[test]
fn test_builder_with_default() {
    let handshake = AgentHandshake::builder().build().unwrap();
    println!("{:?}", handshake);
}
