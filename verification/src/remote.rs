//! Remote dispatcher: routing of end-user TCP connections.
//!
//! The application peeks up to 4 KiB from each accepted socket without
//! consuming and hands the bytes here. The functions in this module
//! parse the request head for the `Host` header and the request path,
//! normalize the host, and decide the route: splice to the control
//! port, redirect, answer the health check, refuse, or open a stream
//! to the client serving the host. They also supply the literal HTTP
//! error responses and the per-chunk decisions of the two byte pumps.

use vstd::prelude::*;
use vstd::slice::{slice_subrange, slice_to_vec};
use vstd::string::StringSliceAdditionalSpecFns;
use crate::codec::{ControlPacket, StreamId};
use crate::ids::ClientId;
use crate::registry::{ConnectedClient, Connections};
use crate::server::{bytes_eq, spec_in_list, str_views, Config};
use crate::streams::{ActiveStreams, MessageView, StreamMessage, spec_close, spec_deliver};

verus! {

/// Most bytes the dispatcher peeks while looking for the host.
pub const MAX_HEADER_PEEK: usize = 4096;

/// Bytes read from the end-user socket per chunk on the way to the
/// client.
pub const REMOTE_CHUNK: usize = 1024;

/// Index of the first occurrence of `x`, if any.
pub open spec fn spec_find_byte(b: Seq<u8>, x: u8) -> Option<int>
    decreases b.len(),
{
    if b.len() == 0 {
        None
    } else if b[0] == x {
        Some(0)
    } else {
        match spec_find_byte(b.skip(1), x) {
            Some(j) => Some(j + 1),
            None => None,
        }
    }
}

proof fn lemma_find_byte_bounds(b: Seq<u8>, x: u8)
    ensures
        spec_find_byte(b, x) matches Some(j) ==> 0 <= j < b.len() && b[j] == x,
    decreases b.len(),
{
    if b.len() > 0 && b[0] != x {
        lemma_find_byte_bounds(b.skip(1), x);
    }
}

/// First occurrence of `x` in `b`, if any.
pub fn find_byte(b: &[u8], x: u8) -> (r: Option<usize>)
    ensures
        r is Some <==> spec_find_byte(b@, x) is Some,
        r is Some ==> Some(r->0 as int) == spec_find_byte(b@, x) && r->0 < b@.len() && b@[r->0
            as int] == x,
    decreases b@.len(),
{
    proof {
        lemma_find_byte_bounds(b@, x);
    }
    if b.len() == 0 {
        return None;
    }
    if b[0] == x {
        return Some(0);
    }
    let rest = slice_subrange(b, 1, b.len());
    match find_byte(rest, x) {
        Some(j) => Some(j + 1),
        None => None,
    }
}

/// Length of the first line: the bytes before the first CRLF, or all
/// of `b` when no CRLF occurs.
pub open spec fn spec_line_len(b: Seq<u8>) -> nat
    decreases b.len(),
{
    if b.len() < 2 {
        b.len()
    } else if b[0] == 13 && b[1] == 10 {
        0
    } else {
        (1 + spec_line_len(b.skip(1))) as nat
    }
}

proof fn lemma_line_len_bounds(b: Seq<u8>)
    ensures
        0 <= spec_line_len(b) <= b.len(),
    decreases b.len(),
{
    if b.len() >= 2 && !(b[0] == 13 && b[1] == 10) {
        lemma_line_len_bounds(b.skip(1));
    }
}

/// Length of the first line of `b`.
pub fn line_len(b: &[u8]) -> (r: usize)
    ensures
        r as int == spec_line_len(b@),
        r <= b@.len(),
    decreases b@.len(),
{
    proof {
        lemma_line_len_bounds(b@);
    }
    if b.len() < 2 {
        b.len()
    } else if b[0] == 13 && b[1] == 10 {
        0
    } else {
        1 + line_len(slice_subrange(b, 1, b.len()))
    }
}

/// Whether a byte is linear whitespace inside a header line.
pub open spec fn spec_is_ows(x: u8) -> bool {
    x == 32 || x == 9
}

/// The bytes after the leading whitespace.
pub open spec fn spec_trim_front(b: Seq<u8>) -> Seq<u8>
    decreases b.len(),
{
    if b.len() > 0 && spec_is_ows(b[0]) {
        spec_trim_front(b.skip(1))
    } else {
        b
    }
}

/// The bytes before the trailing whitespace.
pub open spec fn spec_trim_back(b: Seq<u8>) -> Seq<u8>
    decreases b.len(),
{
    if b.len() > 0 && spec_is_ows(b[b.len() - 1]) {
        spec_trim_back(b.drop_last())
    } else {
        b
    }
}

/// A header value with its surrounding whitespace removed.
pub open spec fn spec_trim(b: Seq<u8>) -> Seq<u8> {
    spec_trim_back(spec_trim_front(b))
}

fn trim_front(b: &[u8]) -> (r: &[u8])
    ensures
        r@ == spec_trim_front(b@),
    decreases b@.len(),
{
    if b.len() > 0 && (b[0] == 32 || b[0] == 9) {
        trim_front(slice_subrange(b, 1, b.len()))
    } else {
        b
    }
}

fn trim_back(b: &[u8]) -> (r: &[u8])
    ensures
        r@ == spec_trim_back(b@),
    decreases b@.len(),
{
    if b.len() > 0 && (b[b.len() - 1] == 32 || b[b.len() - 1] == 9) {
        proof {
            assert(b@.subrange(0, b@.len() - 1) =~= b@.drop_last());
        }
        trim_back(slice_subrange(b, 0, b.len() - 1))
    } else {
        b
    }
}

/// A byte sequence lower-cased byte by byte.
pub open spec fn spec_lower_bytes(b: Seq<u8>) -> Seq<u8> {
    b.map_values(|x: u8| spec_byte_lower(x))
}

/// A byte lower-cased: ASCII letters fold, all else stays.
pub open spec fn spec_byte_lower(x: u8) -> u8 {
    if 65 <= x && x <= 90 {
        (x + 32) as u8
    } else {
        x
    }
}

fn byte_lower(x: u8) -> (r: u8)
    ensures
        r == spec_byte_lower(x),
{
    if 65 <= x && x <= 90 {
        x + 32
    } else {
        x
    }
}

/// The value of a header line whose lower-cased name is `name`: the
/// bytes after the first colon, trimmed. `None` when the line has no
/// colon or names another header.
pub open spec fn spec_header_value(line: Seq<u8>, name: Seq<u8>) -> Option<Seq<u8>> {
    match spec_find_byte(line, 58) {
        None => None,
        Some(c) => if spec_lower_bytes(line.subrange(0, c)) == name {
            Some(spec_trim(line.skip(c + 1)))
        } else {
            None
        },
    }
}

/// Reads one header line against a lower-case header name.
#[verifier::loop_isolation(false)]
fn header_value(line: &[u8], name: &[u8]) -> (r: Option<Vec<u8>>)
    ensures
        r is Some <==> spec_header_value(line@, name@) is Some,
        r is Some ==> Some(r->0@) == spec_header_value(line@, name@),
{
    let c = match find_byte(line, 58) {
        Some(c) => c,
        None => {
            return None;
        },
    };
    let raw_name = slice_subrange(line, 0, c);
    if raw_name.len() != name.len() {
        proof {
            assert(spec_lower_bytes(line@.subrange(0, c as int)).len() == raw_name@.len());
            assert(spec_lower_bytes(line@.subrange(0, c as int)) != name@);
        }
        return None;
    }
    let mut i: usize = 0;
    while i < raw_name.len()
        invariant
            i <= raw_name@.len(),
            raw_name@.len() == name@.len(),
            forall|j: int| 0 <= j < i ==> spec_byte_lower(raw_name@[j]) == name@[j],
        decreases raw_name@.len() - i,
    {
        if byte_lower(raw_name[i]) != name[i] {
            proof {
                let m = spec_lower_bytes(line@.subrange(0, c as int));
                assert(line@.subrange(0, c as int)[i as int] == raw_name@[i as int]);
                assert(m[i as int] == spec_byte_lower(raw_name@[i as int]));
                assert(m[i as int] != name@[i as int]);
                assert(m != name@);
            }
            return None;
        }
        i = i + 1;
    }
    proof {
        assert(spec_lower_bytes(line@.subrange(0, c as int)) =~= name@);
    }
    let llen = line.len();
    let tail = slice_subrange(line, c + 1, llen);
    proof {
        assert(tail@ =~= line@.skip(c as int + 1));
    }
    let value = trim_back(trim_front(tail));
    Some(slice_to_vec(value))
}

/// The value of the first header whose lower-cased name is `name`,
/// searching line by line until the blank line that ends the head.
pub open spec fn spec_find_header(b: Seq<u8>, name: Seq<u8>) -> Option<Seq<u8>>
    decreases b.len(),
{
    if b.len() == 0 {
        None
    } else {
        let e = spec_line_len(b);
        if e == 0 {
            None
        } else {
            match spec_header_value(b.subrange(0, e as int), name) {
                Some(v) => Some(v),
                None => if b.len() - e >= 2 {
                    spec_find_header(b.skip(e + 2 as int), name)
                } else {
                    None
                },
            }
        }
    }
}

/// Finds a header among the header lines.
pub fn find_header(b: &[u8], name: &[u8]) -> (r: Option<Vec<u8>>)
    ensures
        r is Some <==> spec_find_header(b@, name@) is Some,
        r is Some ==> Some(r->0@) == spec_find_header(b@, name@),
    decreases b@.len(),
{
    if b.len() == 0 {
        return None;
    }
    let e = line_len(b);
    if e == 0 {
        return None;
    }
    let line = slice_subrange(b, 0, e);
    match header_value(line, name) {
        Some(v) => Some(v),
        None => {
            if b.len() - e >= 2 {
                let rest = slice_subrange(b, e + 2, b.len());
                proof {
                    assert(rest@ =~= b@.skip(e as int + 2));
                }
                find_header(rest, name)
            } else {
                None
            }
        },
    }
}

/// The request path: the token between the first and second space of
/// the request line.
pub open spec fn spec_request_path(b: Seq<u8>) -> Option<Seq<u8>> {
    let line = b.subrange(0, spec_line_len(b) as int);
    match spec_find_byte(line, 32) {
        None => None,
        Some(s1) => {
            let rest = line.skip(s1 + 1);
            match spec_find_byte(rest, 32) {
                None => None,
                Some(s2) => Some(rest.subrange(0, s2)),
            }
        },
    }
}

/// Reads the request path out of the peeked bytes.
pub fn request_path(b: &[u8]) -> (r: Option<Vec<u8>>)
    ensures
        r is Some <==> spec_request_path(b@) is Some,
        r is Some ==> Some(r->0@) == spec_request_path(b@),
{
    let e = line_len(b);
    let line = slice_subrange(b, 0, e);
    let s1 = match find_byte(line, 32) {
        Some(s1) => s1,
        None => {
            return None;
        },
    };
    let rest = slice_subrange(line, s1 + 1, line.len());
    proof {
        assert(rest@ =~= line@.skip(s1 as int + 1));
    }
    match find_byte(rest, 32) {
        Some(s2) => Some(slice_to_vec(slice_subrange(rest, 0, s2))),
        None => None,
    }
}

/// The lower-cased name of the host header.
pub open spec fn spec_host_name() -> Seq<u8> {
    seq![104u8, 111u8, 115u8, 116u8]
}

/// The headers region of the peeked bytes: what follows the request
/// line's CRLF.
pub open spec fn spec_headers_region(b: Seq<u8>) -> Seq<u8> {
    let e = spec_line_len(b);
    if b.len() - e >= 2 {
        b.skip(e + 2 as int)
    } else {
        Seq::empty()
    }
}

/// The value of the named header in the peeked bytes, if it stands in
/// the head after the request line.
pub open spec fn spec_peek_header(b: Seq<u8>, name: Seq<u8>) -> Option<Seq<u8>> {
    spec_find_header(spec_headers_region(b), name)
}

/// Extracts a header from the peeked bytes by its lower-cased name,
/// skipping the request line.
pub fn peek_header(b: &[u8], name: &[u8]) -> (r: Option<Vec<u8>>)
    ensures
        r is Some <==> spec_peek_header(b@, name@) is Some,
        r is Some ==> Some(r->0@) == spec_peek_header(b@, name@),
{
    let e = line_len(b);
    if b.len() - e >= 2 {
        let rest = slice_subrange(b, e + 2, b.len());
        proof {
            assert(rest@ =~= spec_headers_region(b@));
        }
        find_header(rest, name)
    } else {
        proof {
            assert(spec_headers_region(b@) =~= Seq::<u8>::empty());
        }
        None
    }
}

/// The raw `Host` header value in the peeked bytes, if one is present
/// in the head.
pub open spec fn spec_peek_host(b: Seq<u8>) -> Option<Seq<u8>> {
    spec_find_header(spec_headers_region(b), spec_host_name())
}

/// Extracts the raw `Host` header value from the peeked bytes.
pub fn peek_host(b: &[u8]) -> (r: Option<Vec<u8>>)
    ensures
        r is Some <==> spec_peek_host(b@) is Some,
        r is Some ==> Some(r->0@) == spec_peek_host(b@),
{
    let name: Vec<u8> = vec![104u8, 111u8, 115u8, 116u8];
    proof {
        assert(name@ =~= spec_host_name());
    }
    peek_header(b, name.as_slice())
}

/// Whether a byte may stand in a normalized host: a lower-case letter,
/// a digit, hyphen, dot, or underscore.
pub open spec fn spec_host_byte(x: u8) -> bool {
    (97 <= x && x <= 122) || (48 <= x && x <= 57) || x == 45 || x == 46 || x == 95
}

/// Whether lowered bytes make a host name: non-empty, every byte one
/// a host may hold.
pub open spec fn spec_valid_host_bytes(b: Seq<u8>) -> bool {
    b.len() > 0 && (forall|i: int| 0 <= i < b.len() ==> spec_host_byte(#[trigger] b[i]))
}

/// The normalized host: the raw value up to any `:port`, lower-cased;
/// `None` when empty or holding a byte no host name may hold.
pub open spec fn spec_normalize_host(raw: Seq<u8>) -> Option<Seq<u8>> {
    let cut = match spec_find_byte(raw, 58) {
        Some(c) => raw.subrange(0, c),
        None => raw,
    };
    let low = spec_lower_bytes(cut);
    if spec_valid_host_bytes(low) {
        Some(low)
    } else {
        None
    }
}

/// Normalizes a raw host header value.
#[verifier::loop_isolation(false)]
pub fn normalize_host(raw: &[u8]) -> (r: Option<Vec<u8>>)
    ensures
        r is Some <==> spec_normalize_host(raw@) is Some,
        r is Some ==> Some(r->0@) == spec_normalize_host(raw@),
        r is Some ==> r->0@.len() > 0 && forall|i: int|
            0 <= i < r->0@.len() ==> spec_host_byte(#[trigger] r->0@[i]),
{
    let cut: &[u8] = match find_byte(raw, 58) {
        Some(c) => slice_subrange(raw, 0, c),
        None => raw,
    };
    let ghost cutv = cut@;
    let ghost lowv = spec_lower_bytes(cutv);
    let mut low: Vec<u8> = Vec::new();
    let mut i: usize = 0;
    while i < cut.len()
        invariant
            i <= cut@.len(),
            cut@ == cutv,
            lowv == spec_lower_bytes(cutv),
            low@ =~= lowv.subrange(0, i as int),
            forall|j: int| 0 <= j < i ==> spec_host_byte(#[trigger] lowv[j]),
        decreases cut@.len() - i,
    {
        let x = byte_lower(cut[i]);
        let ok = (97 <= x && x <= 122) || (48 <= x && x <= 57) || x == 45 || x == 46 || x == 95;
        proof {
            assert(lowv[i as int] == x);
        }
        if !ok {
            proof {
                assert(!spec_host_byte(lowv[i as int]));
                assert(!spec_valid_host_bytes(lowv));
                assert(spec_normalize_host(raw@) is None);
            }
            return None;
        }
        low.push(x);
        proof {
            assert(low@ =~= lowv.subrange(0, i as int + 1));
        }
        i = i + 1;
    }
    proof {
        assert(low@ =~= lowv);
    }
    if low.len() > 0 {
        Some(low)
    } else {
        None
    }
}

/// The characters of ASCII bytes, one for one.
pub open spec fn ascii_chars(b: Seq<u8>) -> Seq<char> {
    b.map_values(|x: u8| x as char)
}

/// A string from normalized host bytes.
pub fn host_string(b: &Vec<u8>) -> (r: String)
    requires
        forall|i: int| 0 <= i < b@.len() ==> spec_host_byte(#[trigger] b@[i]),
    ensures
        r@ == ascii_chars(b@),
{
    let copy = crate::streams::clone_bytes(b);
    let r = crate::ids::ascii_to_string(copy);
    proof {
        assert(r@ =~= ascii_chars(b@));
    }
    r
}

/// Where an end-user connection goes.
pub enum RemoteRoute {
    /// No host could be read from the peeked bytes: drop the socket.
    Drop,
    /// The control host: splice the socket to the control port.
    DirectToControl,
    /// The host does not parse as one this server could serve.
    InvalidHost,
    /// The host's apex is not among the allowed hosts: redirect home.
    Redirect,
    /// The health-check path: answer OK.
    HealthCheck,
    /// No client serves this host.
    NotFound,
    /// Open a stream to this client.
    Tunnel(ConnectedClient),
}

/// The path the health check is served on.
pub fn health_check_path() -> (r: &'static str)
    ensures
        r@ == "/0xDEADBEEF_HEALTH_CHECK"@,
{
    "/0xDEADBEEF_HEALTH_CHECK"
}

/// Routes one peeked connection: no host drops the socket; the
/// literal host `wormhole` splices to the control port; a host whose
/// apex is not allowed is redirected; the health-check path is
/// answered; otherwise the connection goes to the client registered
/// for the full host, or is refused with the not-found response.
pub fn route_request(config: &Config, registry: &Connections, peeked: &[u8]) -> (r: RemoteRoute)
    requires
        registry.wf(),
    ensures
        ({
            let b = peeked@;
            match spec_peek_host(b) {
                None => r is Drop,
                Some(raw) => match spec_normalize_host(raw) {
                    None => r is InvalidHost,
                    Some(h) => if ascii_chars(h) == "wormhole"@ {
                        r is DirectToControl
                    } else {
                        match spec_find_byte(h, 46) {
                            None => r is InvalidHost,
                            Some(d) => if !spec_in_list(
                                str_views(config.allowed_hosts@),
                                ascii_chars(h.skip(d + 1)),
                            ) {
                                r is Redirect
                            } else if spec_request_path(b) == Some(
                                "/0xDEADBEEF_HEALTH_CHECK".spec_bytes(),
                            ) {
                                r is HealthCheck
                            } else if registry.host_map().contains_key(ascii_chars(h)) {
                                r matches RemoteRoute::Tunnel(c) && c@ == registry.host_map()[ascii_chars(
                                    h,
                                )]
                            } else {
                                r is NotFound
                            },
                        }
                    },
                },
            }
        }),
{
    let raw = match peek_host(peeked) {
        Some(raw) => raw,
        None => {
            return RemoteRoute::Drop;
        },
    };
    let hostb = match normalize_host(raw.as_slice()) {
        Some(h) => h,
        None => {
            return RemoteRoute::InvalidHost;
        },
    };
    let host = host_string(&hostb);
    let wormhole = "wormhole".to_owned();
    if crate::server::string_eq(&host, &wormhole) {
        return RemoteRoute::DirectToControl;
    }
    let d = match find_byte(hostb.as_slice(), 46) {
        Some(d) => d,
        None => {
            return RemoteRoute::InvalidHost;
        },
    };
    let hlen = hostb.len();
    let apexb = slice_to_vec(slice_subrange(hostb.as_slice(), d + 1, hlen));
    proof {
        assert(apexb@ =~= hostb@.skip(d as int + 1));
    }
    proof {
        assert forall|i: int| 0 <= i < apexb@.len() implies spec_host_byte(
            #[trigger] apexb@[i],
        ) by {
            assert(apexb@[i] == hostb@[d + 1 + i]);
        }
    }
    let apex = host_string(&apexb);
    if !crate::server::string_in_list(&config.allowed_hosts, &apex) {
        return RemoteRoute::Redirect;
    }
    match request_path(peeked) {
        Some(p) => {
            if bytes_eq(&p, &slice_to_vec(health_check_path().as_bytes())) {
                return RemoteRoute::HealthCheck;
            }
        },
        None => {},
    }
    match registry.find_by_host(&host) {
        Some(client) => RemoteRoute::Tunnel(client),
        None => RemoteRoute::NotFound,
    }
}

/// The literal redirect answer for a host outside the allowed apexes.
pub fn redirect_response() -> (r: &'static str)
    ensures
        r@
            == "HTTP/1.1 301 Moved Permanently\r\nLocation: https://tunnelto.dev/\r\nContent-Length: 20\r\n\r\nhttps://tunnelto.dev"@,
{
    "HTTP/1.1 301 Moved Permanently\r\nLocation: https://tunnelto.dev/\r\nContent-Length: 20\r\n\r\nhttps://tunnelto.dev"
}

/// The literal answer for a host that does not parse.
pub fn invalid_host_response() -> (r: &'static str)
    ensures
        r@ == "HTTP/1.1 400\r\nContent-Length: 23\r\n\r\nError: Invalid Hostname"@,
{
    "HTTP/1.1 400\r\nContent-Length: 23\r\n\r\nError: Invalid Hostname"
}

/// The literal answer when no tunnel serves the host.
pub fn not_found_response() -> (r: &'static str)
    ensures
        r@ == "HTTP/1.1 404\r\nContent-Length: 23\r\n\r\nError: Tunnel Not Found"@,
{
    "HTTP/1.1 404\r\nContent-Length: 23\r\n\r\nError: Tunnel Not Found"
}

/// The literal answer when the client refused the stream.
pub fn tunnel_refused_response() -> (r: &'static str)
    ensures
        r@ == "HTTP/1.1 500\r\nContent-Length: 32\r\n\r\nTunnel says: connection refused."@,
{
    "HTTP/1.1 500\r\nContent-Length: 32\r\n\r\nTunnel says: connection refused."
}

/// The literal health-check answer.
pub fn ok_response() -> (r: &'static str)
    ensures
        r@ == "HTTP/1.1 200 OK\r\nContent-Length: 2\r\n\r\nok"@,
{
    "HTTP/1.1 200 OK\r\nContent-Length: 2\r\n\r\nok"
}

/// The packet the socket-to-tunnel pump sends for one read: the first
/// `n` bytes of the buffer as a `Data` frame, or `End` when the read
/// returned nothing — the socket is done.
pub fn packet_for_chunk(sid: StreamId, buf: &[u8], n: usize) -> (p: ControlPacket)
    requires
        n <= buf@.len(),
    ensures
        n == 0 ==> p == ControlPacket::End(sid),
        n > 0 ==> (p matches ControlPacket::Data(s, d) && s == sid && d@ == buf@.subrange(
            0,
            n as int,
        )),
{
    if n == 0 {
        ControlPacket::End(sid)
    } else {
        ControlPacket::Data(sid, slice_to_vec(slice_subrange(buf, 0, n)))
    }
}

/// The socket-to-tunnel pump's first check each round: whether the
/// stream's client is still registered. When it is gone, the stream's
/// queue gets `NoClientTunnel` and is closed, and the pump must stop.
pub fn check_client_alive(
    registry: &Connections,
    streams: &mut ActiveStreams,
    sid: StreamId,
    client_id: &ClientId,
) -> (alive: bool)
    requires
        registry.wf(),
        old(streams).wf(),
    ensures
        final(streams).wf(),
        alive == registry.id_map().contains_key(client_id@),
        alive ==> final(streams).map() == old(streams).map(),
        !alive ==> final(streams).map() == spec_close(
            spec_deliver(old(streams).map(), sid.0, MessageView::NoClientTunnel),
            sid.0,
        ),
{
    match registry.get(client_id) {
        Some(_) => true,
        None => {
            let _ = streams.push_message(sid, StreamMessage::NoClientTunnel);
            streams.close_queue(sid);
            false
        },
    }
}

/// What the tunnel-to-socket pump does with one queue element: bytes
/// are written through; `TunnelRefused` answers the refused response
/// and ends the stream; `NoClientTunnel` answers the not-found
/// response and ends it; `Close` — or a closed queue, passed as
/// `None` — shuts the write half down and ends it.
pub enum SinkAction {
    Write(Vec<u8>),
    WriteRefusedThenStop,
    WriteNotFoundThenStop,
    Shutdown,
}

/// Decides the tunnel-to-socket pump's step for one dequeued message.
pub fn sink_action(msg: Option<StreamMessage>) -> (act: SinkAction)
    ensures
        match msg {
            None => act is Shutdown,
            Some(m) => match m@ {
                MessageView::Data(d) => act matches SinkAction::Write(b) && b@ == d,
                MessageView::TunnelRefused => act is WriteRefusedThenStop,
                MessageView::NoClientTunnel => act is WriteNotFoundThenStop,
                MessageView::Close => act is Shutdown,
            },
        },
{
    match msg {
        None => SinkAction::Shutdown,
        Some(StreamMessage::Data(d)) => SinkAction::Write(d),
        Some(StreamMessage::TunnelRefused) => SinkAction::WriteRefusedThenStop,
        Some(StreamMessage::NoClientTunnel) => SinkAction::WriteNotFoundThenStop,
        Some(StreamMessage::Close) => SinkAction::Shutdown,
    }
}

} // verus!
