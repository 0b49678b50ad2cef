use portal::codec::{ControlPacket, MalformedFrame, ReconnectToken, StreamId};

fn sid_bytes(v: u64) -> [u8; 8] {
    v.to_be_bytes()
}

#[test]
fn serialize_init_exact_bytes() {
    let p = ControlPacket::Init(StreamId(0x0102030405060708));
    let b = p.serialize();
    let mut expected = vec![0x01u8];
    expected.extend_from_slice(&sid_bytes(0x0102030405060708));
    assert_eq!(b, expected);
}

#[test]
fn serialize_data_exact_bytes() {
    let p = ControlPacket::Data(StreamId(7), vec![10, 20, 30]);
    let b = p.serialize();
    let mut expected = vec![0x02u8];
    expected.extend_from_slice(&sid_bytes(7));
    expected.extend_from_slice(&[10, 20, 30]);
    assert_eq!(b, expected);
}

#[test]
fn serialize_ping_without_token_uses_empty_sentinel() {
    let p = ControlPacket::Ping(None);
    let b = p.serialize();
    let mut expected = vec![0x05u8];
    expected.extend_from_slice(&[0x0F, 0, 0, 0, 0, 0, 0, 0]);
    assert_eq!(b, expected);
}

#[test]
fn serialize_ping_with_token_uses_token_sentinel() {
    let p = ControlPacket::Ping(Some(ReconnectToken(b"tok".to_vec())));
    let b = p.serialize();
    let mut expected = vec![0x05u8];
    expected.extend_from_slice(&[0x0F, 0, 0, 0, 0, 0, 0, 1]);
    expected.extend_from_slice(b"tok");
    assert_eq!(b, expected);
}

#[test]
fn round_trip_every_variant() {
    let cases = vec![
        ControlPacket::Init(StreamId(1)),
        ControlPacket::Data(StreamId(2), vec![0, 255, 128]),
        ControlPacket::Data(StreamId(3), vec![]),
        ControlPacket::Refused(StreamId(4)),
        ControlPacket::End(StreamId(5)),
        ControlPacket::Ping(None),
        ControlPacket::Ping(Some(ReconnectToken(vec![1, 2, 3]))),
        ControlPacket::Ping(Some(ReconnectToken(vec![]))),
    ];
    for p in cases {
        let copy = p.clone();
        let b = p.serialize();
        let q = ControlPacket::deserialize(&b).expect("round trip must parse");
        match (copy, q) {
            (ControlPacket::Init(a), ControlPacket::Init(b)) => assert_eq!(a.0, b.0),
            (ControlPacket::Data(a, d1), ControlPacket::Data(b, d2)) => {
                assert_eq!(a.0, b.0);
                assert_eq!(d1, d2);
            }
            (ControlPacket::Refused(a), ControlPacket::Refused(b)) => assert_eq!(a.0, b.0),
            (ControlPacket::End(a), ControlPacket::End(b)) => assert_eq!(a.0, b.0),
            (ControlPacket::Ping(None), ControlPacket::Ping(None)) => {}
            (ControlPacket::Ping(Some(t1)), ControlPacket::Ping(Some(t2))) => {
                assert_eq!(t1.0, t2.0)
            }
            _ => panic!("variant changed across the wire"),
        }
    }
}

#[test]
fn short_frame_is_malformed() {
    assert!(matches!(
        ControlPacket::deserialize(&[0x01, 0, 0, 0]),
        Err(MalformedFrame)
    ));
    assert!(matches!(ControlPacket::deserialize(&[]), Err(MalformedFrame)));
}

#[test]
fn unknown_tag_is_malformed() {
    let mut b = vec![0x09u8];
    b.extend_from_slice(&[0; 8]);
    assert!(matches!(ControlPacket::deserialize(&b), Err(MalformedFrame)));
}

#[test]
fn ping_with_unknown_sentinel_still_carries_token() {
    // be liberal on inbound: any stream id but the empty sentinel
    // means "token present", the token being the raw payload
    let mut b = vec![0x05u8];
    b.extend_from_slice(&[0x0F, 0, 0, 0, 0, 0, 0, 9]);
    b.extend_from_slice(b"abc");
    match ControlPacket::deserialize(&b).unwrap() {
        ControlPacket::Ping(Some(t)) => assert_eq!(t.0, b"abc".to_vec()),
        _ => panic!("expected a token-bearing ping"),
    }
}

#[test]
fn packet_type_labels() {
    assert_eq!(ControlPacket::Ping(None).packet_type(), "PING");
    assert_eq!(ControlPacket::Init(StreamId(0)).packet_type(), "INIT STREAM");
    assert_eq!(
        ControlPacket::Data(StreamId(0), vec![]).packet_type(),
        "STREAM DATA"
    );
    assert_eq!(ControlPacket::Refused(StreamId(0)).packet_type(), "REFUSED");
    assert_eq!(ControlPacket::End(StreamId(0)).packet_type(), "END STREAM");
}
