//! Wire codec for the control channel.
//!
//! Every message on the control channel is one framed `ControlPacket`:
//! a one-byte tag, an eight-byte big-endian stream id, and a variable
//! payload. Two stream-id values are reserved as sentinels for the
//! `Ping` packet: the "empty" sentinel means a ping without a reconnect
//! token, the "token" sentinel means the payload carries one.

use vstd::prelude::*;

verus! {

/// Stream id sentinel on `Ping` frames: no reconnect token follows.
pub const EMPTY_STREAM_ID: u64 = 0x0F00_0000_0000_0000;

/// Stream id sentinel on `Ping` frames: the payload is a reconnect token.
pub const TOKEN_STREAM_ID: u64 = 0x0F00_0000_0000_0001;

/// Seconds between server-initiated pings on a control channel.
pub const PING_INTERVAL: u64 = 30;

/// Identifier of one multiplexed stream: eight bytes on the wire,
/// held here as the big-endian value of those bytes.
#[derive(Clone, Copy, PartialEq, Eq, Structural, Debug, Hash)]
pub struct StreamId(pub u64);

/// Opaque bearer credential issued by the server; presenting it on a
/// later hello re-binds the connection to the prior session. Held as
/// the raw bytes that travel in a `Ping` frame.
#[derive(Clone, Debug)]
pub struct ReconnectToken(pub Vec<u8>);

/// One message of the control protocol.
#[derive(Clone, Debug)]
pub enum ControlPacket {
    Init(StreamId),
    Data(StreamId, Vec<u8>),
    Refused(StreamId),
    End(StreamId),
    Ping(Option<ReconnectToken>),
}

/// Mathematical image of a `ControlPacket`: payloads as byte sequences.
pub enum PacketView {
    Init(u64),
    Data(u64, Seq<u8>),
    Refused(u64),
    End(u64),
    Ping(Option<Seq<u8>>),
}

impl View for ControlPacket {
    type V = PacketView;

    open spec fn view(&self) -> PacketView {
        match self {
            ControlPacket::Init(sid) => PacketView::Init(sid.0),
            ControlPacket::Data(sid, data) => PacketView::Data(sid.0, data@),
            ControlPacket::Refused(sid) => PacketView::Refused(sid.0),
            ControlPacket::End(sid) => PacketView::End(sid.0),
            ControlPacket::Ping(tok) => PacketView::Ping(match tok {
                Some(t) => Some(t.0@),
                None => None,
            }),
        }
    }
}

/// The eight big-endian bytes of `x`.
pub open spec fn be_bytes_of(x: u64) -> Seq<u8> {
    seq![
        (x >> 56) as u8,
        (x >> 48) as u8,
        (x >> 40) as u8,
        (x >> 32) as u8,
        (x >> 24) as u8,
        (x >> 16) as u8,
        (x >> 8) as u8,
        x as u8,
    ]
}

/// The value of eight bytes read big-endian.
pub open spec fn u64_of_be(s: Seq<u8>) -> u64
    recommends
        s.len() == 8,
{
    ((s[0] as u64) << 56) | ((s[1] as u64) << 48) | ((s[2] as u64) << 40) | ((s[3] as u64) << 32)
        | ((s[4] as u64) << 24) | ((s[5] as u64) << 16) | ((s[6] as u64) << 8) | (s[7] as u64)
}

/// Reading back the eight big-endian bytes of a value yields the value.
pub proof fn lemma_be_roundtrip(x: u64)
    ensures
        u64_of_be(be_bytes_of(x)) == x,
{
    assert((((x >> 56) as u8) as u64) << 56 | (((x >> 48) as u8) as u64) << 48 | (((x >> 40)
        as u8) as u64) << 40 | (((x >> 32) as u8) as u64) << 32 | (((x >> 24) as u8) as u64) << 24
        | (((x >> 16) as u8) as u64) << 16 | (((x >> 8) as u8) as u64) << 8 | ((x as u8) as u64)
        == x) by (bit_vector);
}

/// The exact frame bytes of a packet: tag, stream id, payload.
pub open spec fn spec_serialize(p: PacketView) -> Seq<u8> {
    match p {
        PacketView::Init(sid) => seq![0x01u8] + be_bytes_of(sid),
        PacketView::Data(sid, data) => seq![0x02u8] + be_bytes_of(sid) + data,
        PacketView::Refused(sid) => seq![0x03u8] + be_bytes_of(sid),
        PacketView::End(sid) => seq![0x04u8] + be_bytes_of(sid),
        PacketView::Ping(tok) => match tok {
            None => seq![0x05u8] + be_bytes_of(EMPTY_STREAM_ID),
            Some(t) => seq![0x05u8] + be_bytes_of(TOKEN_STREAM_ID) + t,
        },
    }
}

/// What a frame decodes to. `None` stands for a malformed frame: fewer
/// than nine bytes, or an unknown tag. A `Ping` whose stream id is any
/// value but the empty sentinel decodes as "token present", the token
/// being the raw payload bytes: the decoder is liberal on inbound.
pub open spec fn spec_deserialize(d: Seq<u8>) -> Option<PacketView> {
    if d.len() < 9 {
        None
    } else {
        let sid = u64_of_be(d.subrange(1, 9));
        if d[0] == 0x01 {
            Some(PacketView::Init(sid))
        } else if d[0] == 0x02 {
            Some(PacketView::Data(sid, d.skip(9)))
        } else if d[0] == 0x03 {
            Some(PacketView::Refused(sid))
        } else if d[0] == 0x04 {
            Some(PacketView::End(sid))
        } else if d[0] == 0x05 {
            if sid == EMPTY_STREAM_ID {
                Some(PacketView::Ping(None))
            } else {
                Some(PacketView::Ping(Some(d.skip(9))))
            }
        } else {
            None
        }
    }
}

/// A frame that does not parse as a `ControlPacket`.
#[derive(Clone, Copy, PartialEq, Eq, Structural, Debug)]
pub struct MalformedFrame;

/// Pushes the eight big-endian bytes of `x` onto `out`.
fn push_be_bytes(out: &mut Vec<u8>, x: u64)
    ensures
        final(out)@ == old(out)@ + be_bytes_of(x),
{
    out.push((x >> 56) as u8);
    out.push((x >> 48) as u8);
    out.push((x >> 40) as u8);
    out.push((x >> 32) as u8);
    out.push((x >> 24) as u8);
    out.push((x >> 16) as u8);
    out.push((x >> 8) as u8);
    out.push(x as u8);
    assert(out@ =~= old(out)@ + be_bytes_of(x));
}

/// Reads a big-endian u64 from `d[1..9]`.
fn read_sid(d: &[u8]) -> (r: u64)
    requires
        d@.len() >= 9,
    ensures
        r == u64_of_be(d@.subrange(1, 9)),
{
    let r = ((d[1] as u64) << 56) | ((d[2] as u64) << 48) | ((d[3] as u64) << 40) | ((d[4]
        as u64) << 32) | ((d[5] as u64) << 24) | ((d[6] as u64) << 16) | ((d[7] as u64) << 8) | (
    d[8] as u64);
    assert(d@.subrange(1, 9)[0] == d@[1]);
    assert(d@.subrange(1, 9)[1] == d@[2]);
    assert(d@.subrange(1, 9)[2] == d@[3]);
    assert(d@.subrange(1, 9)[3] == d@[4]);
    assert(d@.subrange(1, 9)[4] == d@[5]);
    assert(d@.subrange(1, 9)[5] == d@[6]);
    assert(d@.subrange(1, 9)[6] == d@[7]);
    assert(d@.subrange(1, 9)[7] == d@[8]);
    r
}

impl ControlPacket {
    /// Frames the packet for the wire.
    pub fn serialize(self) -> (r: Vec<u8>)
        ensures
            r@ == spec_serialize(self@),
    {
        let mut out: Vec<u8> = Vec::new();
        match self {
            ControlPacket::Init(sid) => {
                out.push(0x01);
                push_be_bytes(&mut out, sid.0);
                assert(out@ =~= spec_serialize(PacketView::Init(sid.0)));
            },
            ControlPacket::Data(sid, data) => {
                out.push(0x02);
                push_be_bytes(&mut out, sid.0);
                let ghost dv = data@;
                let mut data = data;
                out.append(&mut data);
                assert(out@ =~= spec_serialize(PacketView::Data(sid.0, dv)));
            },
            ControlPacket::Refused(sid) => {
                out.push(0x03);
                push_be_bytes(&mut out, sid.0);
                assert(out@ =~= spec_serialize(PacketView::Refused(sid.0)));
            },
            ControlPacket::End(sid) => {
                out.push(0x04);
                push_be_bytes(&mut out, sid.0);
                assert(out@ =~= spec_serialize(PacketView::End(sid.0)));
            },
            ControlPacket::Ping(tok) => {
                out.push(0x05);
                match tok {
                    None => {
                        push_be_bytes(&mut out, EMPTY_STREAM_ID);
                        assert(out@ =~= spec_serialize(PacketView::Ping(None)));
                    },
                    Some(t) => {
                        push_be_bytes(&mut out, TOKEN_STREAM_ID);
                        let ghost tv = t.0@;
                        let mut bytes = t.0;
                        out.append(&mut bytes);
                        assert(out@ =~= spec_serialize(PacketView::Ping(Some(tv))));
                    },
                }
            },
        }
        out
    }

    /// The packet's kind, as a short label for diagnostics.
    pub fn packet_type(&self) -> (r: &'static str)
        ensures
            r@ == match self@ {
                PacketView::Ping(_) => "PING"@,
                PacketView::Init(_) => "INIT STREAM"@,
                PacketView::Data(_, _) => "STREAM DATA"@,
                PacketView::Refused(_) => "REFUSED"@,
                PacketView::End(_) => "END STREAM"@,
            },
    {
        match self {
            ControlPacket::Ping(_) => "PING",
            ControlPacket::Init(_) => "INIT STREAM",
            ControlPacket::Data(_, _) => "STREAM DATA",
            ControlPacket::Refused(_) => "REFUSED",
            ControlPacket::End(_) => "END STREAM",
        }
    }

    /// Parses one frame; fails exactly on the frames that
    /// `spec_deserialize` rejects.
    pub fn deserialize(data: &[u8]) -> (r: Result<Self, MalformedFrame>)
        ensures
            r is Ok <==> spec_deserialize(data@) is Some,
            r is Ok ==> r->Ok_0@ == spec_deserialize(data@)->0,
    {
        if data.len() < 9 {
            return Err(MalformedFrame);
        }
        let sid_val = read_sid(data);
        let sid = StreamId(sid_val);
        let tag = data[0];
        if tag == 0x01 {
            Ok(ControlPacket::Init(sid))
        } else if tag == 0x02 {
            let payload = copy_tail(data);
            Ok(ControlPacket::Data(sid, payload))
        } else if tag == 0x03 {
            Ok(ControlPacket::Refused(sid))
        } else if tag == 0x04 {
            Ok(ControlPacket::End(sid))
        } else if tag == 0x05 {
            if sid_val == EMPTY_STREAM_ID {
                Ok(ControlPacket::Ping(None))
            } else {
                let payload = copy_tail(data);
                Ok(ControlPacket::Ping(Some(ReconnectToken(payload))))
            }
        } else {
            Err(MalformedFrame)
        }
    }
}

/// Copies the payload bytes `d[9..]` of a frame.
fn copy_tail(d: &[u8]) -> (r: Vec<u8>)
    requires
        d@.len() >= 9,
    ensures
        r@ == d@.skip(9),
{
    let mut out: Vec<u8> = Vec::new();
    let mut i: usize = 9;
    while i < d.len()
        invariant
            9 <= i <= d@.len(),
            out@ == d@.subrange(9, i as int),
        decreases d@.len() - i,
    {
        out.push(d[i]);
        assert(out@ =~= d@.subrange(9, i as int + 1));
        i = i + 1;
    }
    assert(out@ =~= d@.skip(9));
    out
}

/// Decoding an encoded packet yields the packet back, byte payloads
/// identical: the frame format loses nothing.
pub proof fn lemma_serialize_roundtrip(p: PacketView)
    ensures
        spec_deserialize(spec_serialize(p)) == Some(p),
{
    let d = spec_serialize(p);
    match p {
        PacketView::Init(sid) => {
            assert(d.subrange(1, 9) =~= be_bytes_of(sid));
            lemma_be_roundtrip(sid);
        },
        PacketView::Data(sid, data) => {
            assert(d.subrange(1, 9) =~= be_bytes_of(sid));
            lemma_be_roundtrip(sid);
            assert(d.skip(9) =~= data);
        },
        PacketView::Refused(sid) => {
            assert(d.subrange(1, 9) =~= be_bytes_of(sid));
            lemma_be_roundtrip(sid);
        },
        PacketView::End(sid) => {
            assert(d.subrange(1, 9) =~= be_bytes_of(sid));
            lemma_be_roundtrip(sid);
        },
        PacketView::Ping(tok) => match tok {
            None => {
                assert(d.subrange(1, 9) =~= be_bytes_of(EMPTY_STREAM_ID));
                lemma_be_roundtrip(EMPTY_STREAM_ID);
            },
            Some(t) => {
                assert(d.subrange(1, 9) =~= be_bytes_of(TOKEN_STREAM_ID));
                lemma_be_roundtrip(TOKEN_STREAM_ID);
                assert(u64_of_be(d.subrange(1, 9)) != EMPTY_STREAM_ID);
                assert(d.skip(9) =~= t);
            },
        },
    }
}

} // verus!
