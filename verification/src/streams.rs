//! Active streams and their inbound queues.
//!
//! Each end-user connection becomes one stream, identified by a
//! `StreamId` and owning a queue of `StreamMessage`s: the bytes and
//! the channel-shaped error signals that travel to the socket pump.
//! The table maps stream ids to streams; both the server's remote
//! dispatcher and the client's tunnel runtime keep one.

use vstd::prelude::*;
use crate::assoc::{
    assoc_map,
    distinct_keys,
    lemma_assoc_contains,
    lemma_assoc_get,
    lemma_assoc_push,
    lemma_assoc_remove,
    lemma_distinct_remove,
    lemma_map_values_remove,
};
use crate::codec::StreamId;
use crate::registry::{ClientView, ConnectedClient};

verus! {

/// One element of a stream's inbound queue.
#[derive(Debug)]
pub enum StreamMessage {
    /// Bytes to write to the socket.
    Data(Vec<u8>),
    /// The stream ended; shut the write half down.
    Close,
    /// The other side refused the stream.
    TunnelRefused,
    /// No client serves this stream's host any more.
    NoClientTunnel,
}

/// Mathematical image of a `StreamMessage`.
pub enum MessageView {
    Data(Seq<u8>),
    Close,
    TunnelRefused,
    NoClientTunnel,
}

impl View for StreamMessage {
    type V = MessageView;

    open spec fn view(&self) -> MessageView {
        match self {
            StreamMessage::Data(d) => MessageView::Data(d@),
            StreamMessage::Close => MessageView::Close,
            StreamMessage::TunnelRefused => MessageView::TunnelRefused,
            StreamMessage::NoClientTunnel => MessageView::NoClientTunnel,
        }
    }
}

impl Clone for StreamMessage {
    fn clone(&self) -> (r: Self)
        ensures
            r@ == self@,
    {
        match self {
            StreamMessage::Data(d) => StreamMessage::Data(clone_bytes(d)),
            StreamMessage::Close => StreamMessage::Close,
            StreamMessage::TunnelRefused => StreamMessage::TunnelRefused,
            StreamMessage::NoClientTunnel => StreamMessage::NoClientTunnel,
        }
    }
}

/// Byte-for-byte copy of a buffer.
pub fn clone_bytes(d: &Vec<u8>) -> (r: Vec<u8>)
    ensures
        r@ == d@,
{
    let mut out: Vec<u8> = Vec::new();
    let mut i: usize = 0;
    while i < d.len()
        invariant
            i <= d@.len(),
            out@ == d@.subrange(0, i as int),
        decreases d@.len() - i,
    {
        out.push(d[i]);
        assert(out@ =~= d@.subrange(0, i as int + 1));
        i = i + 1;
    }
    assert(out@ =~= d@);
    out
}

/// One active stream: its id, the client it belongs to, and the
/// inbound queue of messages on their way to the socket pump.
#[derive(Debug)]
pub struct ActiveStream {
    pub id: StreamId,
    pub client: ConnectedClient,
    pub inbound: Vec<StreamMessage>,
    pub closed: bool,
}

/// Mathematical image of an `ActiveStream`.
pub struct StreamView {
    pub id: u64,
    pub client: ClientView,
    pub inbound: Seq<MessageView>,
    pub closed: bool,
}

impl View for ActiveStream {
    type V = StreamView;

    open spec fn view(&self) -> StreamView {
        StreamView {
            id: self.id.0,
            client: self.client@,
            inbound: self.inbound@.map_values(|m: StreamMessage| m@),
            closed: self.closed,
        }
    }
}

impl ActiveStream {
    /// A fresh stream for `client` with a random id and an empty,
    /// open queue.
    pub fn new(client: ConnectedClient) -> (r: Self)
        ensures
            r@.client == client@,
            r@.inbound == Seq::<MessageView>::empty(),
            !r@.closed,
    {
        let r = ActiveStream { id: StreamId::generate(), client, inbound: Vec::new(), closed: false };
        proof {
            assert(r@.inbound =~= Seq::<MessageView>::empty());
        }
        r
    }
}

/// The images of a sequence of streams.
pub open spec fn stream_views(s: Seq<ActiveStream>) -> Seq<StreamView> {
    s.map_values(|a: ActiveStream| a@)
}

/// The key function of the stream table.
pub open spec fn by_sid() -> spec_fn(StreamView) -> u64 {
    |s: StreamView| s.id
}

/// Delivery of one message into one stream's queue: the addressed
/// stream, if present and open, gains the message at the back; every
/// other stream keeps its queue untouched.
pub open spec fn spec_deliver(m: Map<u64, StreamView>, sid: u64, msg: MessageView) -> Map<
    u64,
    StreamView,
> {
    if m.contains_key(sid) && !m[sid].closed {
        m.insert(
            sid,
            StreamView {
                id: m[sid].id,
                client: m[sid].client,
                inbound: m[sid].inbound.push(msg),
                closed: m[sid].closed,
            },
        )
    } else {
        m
    }
}

/// Stream isolation: delivering to stream `a` leaves every other
/// stream's queue exactly as it was.
pub proof fn lemma_stream_isolation(m: Map<u64, StreamView>, a: u64, b: u64, msg: MessageView)
    requires
        a != b,
    ensures
        spec_deliver(m, a, msg).contains_key(b) == m.contains_key(b),
        m.contains_key(b) ==> spec_deliver(m, a, msg)[b] == m[b],
{
}

/// Closing of one stream's queue: the stream, if present, is marked
/// closed and keeps its messages; nothing else changes.
pub open spec fn spec_close(m: Map<u64, StreamView>, sid: u64) -> Map<u64, StreamView> {
    if m.contains_key(sid) {
        m.insert(
            sid,
            StreamView {
                id: m[sid].id,
                client: m[sid].client,
                inbound: m[sid].inbound,
                closed: true,
            },
        )
    } else {
        m
    }
}

/// The table of active streams, keyed by stream id.
pub struct ActiveStreams {
    streams: Vec<ActiveStream>,
}

impl ActiveStreams {
    /// The table as a map from stream id to stream.
    pub closed spec fn map(self) -> Map<u64, StreamView> {
        assoc_map(stream_views(self.streams@), by_sid())
    }

    /// Well-formed: each id occurs at most once.
    pub closed spec fn wf(self) -> bool {
        distinct_keys(stream_views(self.streams@), by_sid())
    }

    /// An empty table.
    pub fn new() -> (r: Self)
        ensures
            r.wf(),
            r.map() == Map::<u64, StreamView>::empty(),
    {
        let r = ActiveStreams { streams: Vec::new() };
        proof {
            assert(stream_views(r.streams@) =~= Seq::<StreamView>::empty());
        }
        r
    }

    /// How many streams are active.
    pub fn len(&self) -> (r: usize)
        requires
            self.wf(),
        ensures
            r == self.map().dom().len(),
    {
        proof {
            lemma_assoc_dom_len(stream_views(self.streams@), by_sid());
        }
        self.streams.len()
    }

    /// Whether a stream with this id is in the table.
    pub fn contains(&self, id: StreamId) -> (r: bool)
        requires
            self.wf(),
        ensures
            r == self.map().contains_key(id.0),
    {
        proof {
            lemma_assoc_contains(stream_views(self.streams@), by_sid(), id.0);
        }
        let idx = find_stream(&self.streams, id);
        idx.is_some()
    }

    /// The client a stream belongs to, if the stream is active.
    pub fn client_of(&self, id: StreamId) -> (r: Option<ConnectedClient>)
        requires
            self.wf(),
        ensures
            r is Some <==> self.map().contains_key(id.0),
            r is Some ==> r->0@ == self.map()[id.0].client,
    {
        proof {
            lemma_assoc_contains(stream_views(self.streams@), by_sid(), id.0);
        }
        match find_stream(&self.streams, id) {
            Some(i) => {
                proof {
                    lemma_assoc_get(stream_views(self.streams@), by_sid(), i as int);
                }
                Some(self.streams[i].client.clone())
            },
            None => None,
        }
    }

    /// Puts a stream in the table, replacing any stream with the same
    /// id.
    pub fn insert(&mut self, stream: ActiveStream)
        requires
            old(self).wf(),
        ensures
            final(self).wf(),
            final(self).map() == old(self).map().insert(stream@.id, stream@),
    {
        let ghost k = stream@.id;
        let ghost sv = stream@;
        let _ = self.remove(StreamId(stream.id.0));
        proof {
            lemma_assoc_contains(stream_views(self.streams@), by_sid(), k);
        }
        let ghost mid = self.streams@;
        self.streams.push(stream);
        proof {
            assert(stream_views(self.streams@) =~= stream_views(mid).push(sv));
            lemma_assoc_push(stream_views(mid), by_sid(), sv);
            assert(assoc_map(stream_views(mid), by_sid()).insert(k, sv) =~= old(self).map().insert(
                k,
                sv,
            ));
        }
    }

    /// Takes the stream with this id out of the table and returns it,
    /// remaining queue and all.
    pub fn remove(&mut self, id: StreamId) -> (r: Option<ActiveStream>)
        requires
            old(self).wf(),
        ensures
            final(self).wf(),
            final(self).map() == old(self).map().remove(id.0),
            !final(self).map().contains_key(id.0),
            r is Some <==> old(self).map().contains_key(id.0),
            r is Some ==> r->0@ == old(self).map()[id.0],
    {
        let idx = find_stream(&self.streams, id);
        match idx {
            Some(i) => {
                proof {
                    lemma_assoc_get(stream_views(self.streams@), by_sid(), i as int);
                    lemma_assoc_remove(stream_views(self.streams@), by_sid(), i as int);
                    lemma_map_values_remove(self.streams@, |a: ActiveStream| a@, i as int);
                    lemma_distinct_remove(stream_views(self.streams@), by_sid(), i as int);
                }
                let removed = self.streams.remove(i);
                proof {
                    lemma_assoc_contains(stream_views(self.streams@), by_sid(), id.0);
                }
                Some(removed)
            },
            None => {
                proof {
                    lemma_assoc_contains(stream_views(self.streams@), by_sid(), id.0);
                    assert(self.map() =~= self.map().remove(id.0));
                }
                None
            },
        }
    }

    /// Delivers a message into the queue of the stream with this id.
    /// Returns whether it was delivered: the stream must be present
    /// and its queue still open. No other stream's queue changes.
    pub fn push_message(&mut self, id: StreamId, msg: StreamMessage) -> (delivered: bool)
        requires
            old(self).wf(),
        ensures
            final(self).wf(),
            final(self).map() == spec_deliver(old(self).map(), id.0, msg@),
            delivered <==> old(self).map().contains_key(id.0) && !old(self).map()[id.0].closed,
    {
        let ghost mv = msg@;
        proof {
            lemma_assoc_contains(stream_views(self.streams@), by_sid(), id.0);
        }
        let idx = find_stream(&self.streams, id);
        match idx {
            Some(i) => {
                proof {
                    lemma_assoc_get(stream_views(self.streams@), by_sid(), i as int);
                }
                if self.streams[i].closed {
                    return false;
                }
                let ghost pre = *self;
                proof {
                    lemma_assoc_remove(stream_views(self.streams@), by_sid(), i as int);
                    lemma_map_values_remove(self.streams@, |a: ActiveStream| a@, i as int);
                    lemma_distinct_remove(stream_views(self.streams@), by_sid(), i as int);
                }
                let mut s = self.streams.remove(i);
                proof {
                    lemma_assoc_contains(stream_views(self.streams@), by_sid(), id.0);
                }
                s.inbound.push(msg);
                proof {
                    assert(s@.inbound =~= pre.map()[id.0].inbound.push(mv));
                }
                let ghost sv = s@;
                let ghost mid = self.streams@;
                self.streams.push(s);
                proof {
                    assert(stream_views(self.streams@) =~= stream_views(mid).push(sv));
                    lemma_assoc_push(stream_views(mid), by_sid(), sv);
                    assert(self.map() == assoc_map(stream_views(mid), by_sid()).insert(id.0, sv));
                    assert(assoc_map(stream_views(mid), by_sid()).insert(id.0, sv) =~= spec_deliver(
                        pre.map(),
                        id.0,
                        mv,
                    ));
                }
                true
            },
            None => {
                false
            },
        }
    }

    /// Takes the message at the front of a stream's queue, as the
    /// socket pump consumes it.
    pub fn pop_message(&mut self, id: StreamId) -> (r: Option<StreamMessage>)
        requires
            old(self).wf(),
        ensures
            final(self).wf(),
            r is Some <==> old(self).map().contains_key(id.0) && old(self).map()[id.0].inbound.len()
                > 0,
            r is Some ==> r->0@ == old(self).map()[id.0].inbound[0] && final(self).map() == old(
                self,
            ).map().insert(
                id.0,
                StreamView {
                    id: old(self).map()[id.0].id,
                    client: old(self).map()[id.0].client,
                    inbound: old(self).map()[id.0].inbound.skip(1),
                    closed: old(self).map()[id.0].closed,
                },
            ),
            r is None ==> final(self).map() == old(self).map(),
    {
        proof {
            lemma_assoc_contains(stream_views(self.streams@), by_sid(), id.0);
        }
        let idx = find_stream(&self.streams, id);
        match idx {
            Some(i) => {
                proof {
                    lemma_assoc_get(stream_views(self.streams@), by_sid(), i as int);
                }
                if self.streams[i].inbound.len() == 0 {
                    proof {
                        assert(self.map() =~= self.map());
                    }
                    return None;
                }
                let ghost pre = *self;
                proof {
                    lemma_assoc_remove(stream_views(self.streams@), by_sid(), i as int);
                    lemma_map_values_remove(self.streams@, |a: ActiveStream| a@, i as int);
                    lemma_distinct_remove(stream_views(self.streams@), by_sid(), i as int);
                }
                let mut s = self.streams.remove(i);
                proof {
                    lemma_assoc_contains(stream_views(self.streams@), by_sid(), id.0);
                }
                let ghost q0 = s.inbound@;
                let front = s.inbound.remove(0);
                proof {
                    lemma_map_values_remove(q0, |m: StreamMessage| m@, 0);
                    assert(s@.inbound =~= pre.map()[id.0].inbound.skip(1));
                }
                let ghost sv = s@;
                let ghost mid = self.streams@;
                self.streams.push(s);
                proof {
                    assert(stream_views(self.streams@) =~= stream_views(mid).push(sv));
                    lemma_assoc_push(stream_views(mid), by_sid(), sv);
                    assert(self.map() == assoc_map(stream_views(mid), by_sid()).insert(id.0, sv));
                    assert(assoc_map(stream_views(mid), by_sid()).insert(id.0, sv) =~= pre.map().insert(
                        id.0,
                        sv,
                    ));
                }
                Some(front)
            },
            None => None,
        }
    }

    /// Marks a stream's queue closed: later messages are not delivered.
    pub fn close_queue(&mut self, id: StreamId)
        requires
            old(self).wf(),
        ensures
            final(self).wf(),
            final(self).map() == spec_close(old(self).map(), id.0),
    {
        proof {
            lemma_assoc_contains(stream_views(self.streams@), by_sid(), id.0);
        }
        let idx = find_stream(&self.streams, id);
        match idx {
            Some(i) => {
                proof {
                    lemma_assoc_get(stream_views(self.streams@), by_sid(), i as int);
                }
                let ghost pre = *self;
                proof {
                    lemma_assoc_remove(stream_views(self.streams@), by_sid(), i as int);
                    lemma_map_values_remove(self.streams@, |a: ActiveStream| a@, i as int);
                    lemma_distinct_remove(stream_views(self.streams@), by_sid(), i as int);
                }
                let mut s = self.streams.remove(i);
                proof {
                    lemma_assoc_contains(stream_views(self.streams@), by_sid(), id.0);
                }
                s.closed = true;
                let ghost sv = s@;
                let ghost mid = self.streams@;
                self.streams.push(s);
                proof {
                    assert(stream_views(self.streams@) =~= stream_views(mid).push(sv));
                    lemma_assoc_push(stream_views(mid), by_sid(), sv);
                    assert(self.map() == assoc_map(stream_views(mid), by_sid()).insert(id.0, sv));
                    assert(assoc_map(stream_views(mid), by_sid()).insert(id.0, sv) =~= pre.map().insert(
                        id.0,
                        sv,
                    ));
                }
            },
            None => {},
        }
    }
}

/// Finds the index of the stream with this id.
fn find_stream(v: &Vec<ActiveStream>, id: StreamId) -> (r: Option<usize>)
    ensures
        r is Some ==> 0 <= r->0 < v@.len() && stream_views(v@)[r->0 as int].id == id.0,
        r is None ==> forall|j: int|
            0 <= j < v@.len() ==> (#[trigger] stream_views(v@)[j]).id != id.0,
{
    let mut i: usize = 0;
    while i < v.len()
        invariant
            i <= v@.len(),
            forall|j: int| 0 <= j < i ==> (#[trigger] stream_views(v@)[j]).id != id.0,
        decreases v@.len() - i,
    {
        if v[i].id.0 == id.0 {
            return Some(i);
        }
        i = i + 1;
    }
    None
}

/// With distinct keys, the denoted map has exactly one key per entry.
proof fn lemma_assoc_dom_len(s: Seq<StreamView>, f: spec_fn(StreamView) -> u64)
    requires
        distinct_keys(s, f),
    ensures
        assoc_map(s, f).dom().len() == s.len(),
        assoc_map(s, f).dom().finite(),
    decreases s.len(),
{
    if s.len() == 0 {
        assert(assoc_map(s, f).dom() =~= Set::<u64>::empty());
    } else {
        assert(distinct_keys(s.drop_last(), f));
        lemma_assoc_dom_len(s.drop_last(), f);
        lemma_assoc_contains(s.drop_last(), f, f(s.last()));
        assert(forall|j: int|
            0 <= j < s.drop_last().len() ==> f(#[trigger] s.drop_last()[j]) != f(s.last()));
        assert(!assoc_map(s.drop_last(), f).contains_key(f(s.last())));
        assert(assoc_map(s, f).dom() =~= assoc_map(s.drop_last(), f).dom().insert(f(s.last())));
    }
}


/// Finishes an ended stream after the linger: pushes `Close` into its
/// queue and takes it out of the table. What remains of the stream is
/// returned so its socket pump can drain it.
pub fn linger_close(streams: &mut ActiveStreams, sid: StreamId) -> (rest: Option<ActiveStream>)
    requires
        old(streams).wf(),
    ensures
        final(streams).wf(),
        final(streams).map() == spec_deliver(old(streams).map(), sid.0, MessageView::Close).remove(
            sid.0,
        ),
        rest is Some <==> old(streams).map().contains_key(sid.0),
        rest is Some ==> rest->0@ == spec_deliver(
            old(streams).map(),
            sid.0,
            MessageView::Close,
        )[sid.0],
{
    let _ = streams.push_message(sid, StreamMessage::Close);
    streams.remove(sid)
}



/// The bytes the socket pump writes for a queue before it stops: the
/// payloads of the leading `Data` messages, concatenated in queue
/// order; the first other message (or the queue's end) stops it.
pub open spec fn spec_pump_writes(q: Seq<MessageView>) -> Seq<u8>
    decreases q.len(),
{
    if q.len() == 0 {
        Seq::empty()
    } else {
        match q[0] {
            MessageView::Data(d) => d + spec_pump_writes(q.skip(1)),
            _ => Seq::empty(),
        }
    }
}

/// Byte fidelity of a stream: delivering one more data message at the
/// back of a queue of data messages extends what the pump writes by
/// exactly those bytes, at the end — the tunneled bytes reach the
/// socket in order, none reordered, duplicated or dropped.
pub proof fn lemma_pump_writes_in_order(q: Seq<MessageView>, d: Seq<u8>)
    requires
        forall|i: int| 0 <= i < q.len() ==> (#[trigger] q[i]) is Data,
    ensures
        spec_pump_writes(q.push(MessageView::Data(d))) == spec_pump_writes(q) + d,
    decreases q.len(),
{
    if q.len() == 0 {
        assert(q.push(MessageView::Data(d))[0] == MessageView::Data(d));
        assert(q.push(MessageView::Data(d)).skip(1) =~= Seq::<MessageView>::empty());
        assert(spec_pump_writes(Seq::<MessageView>::empty()) == Seq::<u8>::empty());
        assert(spec_pump_writes(q.push(MessageView::Data(d))) == d + Seq::<u8>::empty());
        assert(d + Seq::<u8>::empty() =~= Seq::<u8>::empty() + d);
        assert(spec_pump_writes(q) == Seq::<u8>::empty());
    } else {
        assert(q[0] is Data);
        let d0 = q[0]->Data_0;
        assert(q.push(MessageView::Data(d)).skip(1) =~= q.skip(1).push(MessageView::Data(d)));
        assert(forall|i: int| 0 <= i < q.skip(1).len() ==> (#[trigger] q.skip(1)[i]) is Data);
        lemma_pump_writes_in_order(q.skip(1), d);
        assert(spec_pump_writes(q.push(MessageView::Data(d))) == d0 + (spec_pump_writes(q.skip(1))
            + d));
        assert(d0 + (spec_pump_writes(q.skip(1)) + d) =~= (d0 + spec_pump_writes(q.skip(1))) + d);
    }
}


} // verus!
