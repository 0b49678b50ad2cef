//! Client side of the tunnel: configuration, the hello it sends, the
//! dispatch of control packets it receives, and the liveness rules.
//!
//! The surrounding application dials the WebSocket and the local
//! service, runs the timers, and moves bytes; every decision — what
//! hello to send, what a received frame means, when to reconnect or
//! give up — is a function here over a `ClientState` the application
//! owns.

use vstd::prelude::*;
use crate::codec::{ControlPacket, ReconnectToken, StreamId};
use crate::ids::{ClientHello, ClientType, SecretKey, ServerHello};
use crate::server::SILENCE_TIMEOUT;
use crate::streams::{ActiveStreams, MessageView, StreamMessage, spec_deliver};

verus! {

/// Seconds the client waits after a transport error before it
/// reconnects.
pub const RETRY_TRANSPORT_SECS: u64 = 5;

/// Seconds the client waits after a requested restart.
pub const RETRY_RESTART_SECS: u64 = 3;

/// Bytes read from the local service per chunk on the way upstream.
pub const LOCAL_CHUNK: usize = 4096;

/// The client command line.
pub struct Cli {
    /// Print more while running.
    pub verbose: bool,
    /// An optional subcommand.
    pub command: Option<Commands>,
    /// Path of an optional configuration file.
    pub config: Option<String>,
    /// An API authentication key.
    pub key: Option<String>,
    /// The sub-domain to request.
    pub sub_domain: Option<String>,
    /// The host incoming traffic is forwarded to.
    pub local_host: String,
    /// Whether the local forward uses TLS.
    pub use_tls: bool,
    /// The port incoming traffic is forwarded to.
    pub port: u16,
    /// The port of the local introspection dashboard.
    pub dashboard_port: Option<u16>,
}

/// The client subcommands.
pub enum Commands {
    /// Store an API authentication key.
    SetAuth { key: String },
}

/// The command line before any argument is given: every option at its
/// default.
pub fn get_cli() -> (r: Cli)
    ensures
        !r.verbose,
        r.command is None,
        r.config is None,
        r.key is None,
        r.sub_domain is None,
        r.local_host@ == "localhost"@,
        !r.use_tls,
        r.port == 8000,
        r.dashboard_port is None,
{
    Cli {
        verbose: false,
        command: None,
        config: None,
        key: None,
        sub_domain: None,
        local_host: "localhost".to_owned(),
        use_tls: false,
        port: 8000,
        dashboard_port: None,
    }
}

/// A release of this tool, as the release feed describes it.
#[derive(Debug, Clone)]
pub struct Update {
    pub html_url: String,
    pub name: String,
}

/// Whether the remote version is newer than the current one, by
/// major, then minor, then patch.
pub fn update_available(current: crate::agent::Version, remote: crate::agent::Version) -> (r:
    bool)
    ensures
        r == crate::agent::spec_version_newer(remote, current),
{
    if remote.major != current.major {
        remote.major > current.major
    } else if remote.minor != current.minor {
        remote.minor > current.minor
    } else {
        remote.patch > current.patch
    }
}

/// Client configuration, the subset the tunnel logic reads.
pub struct Config {
    /// The control server's host.
    pub portal_host: String,
    /// The control server's port.
    pub portal_port: u16,
    /// Whether the control channel uses TLS.
    pub portal_tls: bool,
    /// The local service's host.
    pub local_host: String,
    /// The local service's port.
    pub local_port: u16,
    /// Whether the local forward uses TLS.
    pub local_tls: bool,
    /// The sub-domain to request, if any.
    pub sub_domain: Option<String>,
    /// The key to authenticate with, if any.
    pub secret_key: Option<SecretKey>,
}

impl Config {
    /// Builds the configuration from optional settings, filling in
    /// each default: portal `localhost:5000` with TLS, local
    /// `localhost:8000` without.
    pub fn from_options(
        portal_host: Option<String>,
        portal_port: Option<u16>,
        portal_tls: Option<bool>,
        local_host: Option<String>,
        local_port: Option<u16>,
        local_tls: Option<bool>,
        sub_domain: Option<String>,
        secret_key: Option<SecretKey>,
    ) -> (r: Config)
        ensures
            portal_host is Some ==> r.portal_host@ == portal_host->0@,
            portal_host is None ==> r.portal_host@ == "localhost"@,
            r.portal_port == if portal_port is Some {
                portal_port->0
            } else {
                5000u16
            },
            r.portal_tls == if portal_tls is Some {
                portal_tls->0
            } else {
                true
            },
            local_host is Some ==> r.local_host@ == local_host->0@,
            local_host is None ==> r.local_host@ == "localhost"@,
            r.local_port == if local_port is Some {
                local_port->0
            } else {
                8000u16
            },
            r.local_tls == if local_tls is Some {
                local_tls->0
            } else {
                false
            },
            r.sub_domain == sub_domain,
            r.secret_key == secret_key,
    {
        Config {
            portal_host: match portal_host {
                Some(h) => h,
                None => "localhost".to_owned(),
            },
            portal_port: match portal_port {
                Some(p) => p,
                None => 5000,
            },
            portal_tls: match portal_tls {
                Some(t) => t,
                None => true,
            },
            local_host: match local_host {
                Some(h) => h,
                None => "localhost".to_owned(),
            },
            local_port: match local_port {
                Some(p) => p,
                None => 8000,
            },
            local_tls: match local_tls {
                Some(t) => t,
                None => false,
            },
            sub_domain,
            secret_key,
        }
    }

    /// The scheme of the control channel: secure WebSocket under TLS.
    pub fn portal_schema(&self) -> (r: &'static str)
        ensures
            self.portal_tls ==> r@ == "wss"@,
            !self.portal_tls ==> r@ == "ws"@,
    {
        if self.portal_tls {
            "wss"
        } else {
            "ws"
        }
    }

    /// The URL of the control endpoint:
    /// `{schema}://{portal_host}:{portal_port}/wormhole`.
    pub fn portal_url(&self) -> (r: String)
        ensures
            self.portal_tls ==> r@ == "wss"@ + "://"@ + self.portal_host@ + ":"@ + spec_dec_chars(
                self.portal_port as int,
            ) + "/wormhole"@,
            !self.portal_tls ==> r@ == "ws"@ + "://"@ + self.portal_host@ + ":"@ + spec_dec_chars(
                self.portal_port as int,
            ) + "/wormhole"@,
    {
        let mut r = self.portal_schema().to_owned();
        r.append("://");
        r.append(self.portal_host.as_str());
        r.append(":");
        let port = dec_string(self.portal_port);
        r.append(port.as_str());
        r.append("/wormhole");
        r
    }

    /// The public URL a connected tunnel is reached at: `https` when
    /// the portal connection uses TLS, plain `http` otherwise.
    pub fn activation_url(&self, full_hostname: &str) -> (r: String)
        ensures
            self.portal_tls ==> r@ == "https"@ + "://"@ + full_hostname@,
            !self.portal_tls ==> r@ == "http"@ + "://"@ + full_hostname@,
    {
        let mut r = if self.portal_tls {
            "https".to_owned()
        } else {
            "http".to_owned()
        };
        r.append("://");
        r.append(full_hostname);
        r
    }

    /// The URL traffic is forwarded to:
    /// `{http|https}://{local_host}:{local_port}`.
    pub fn forward_url(&self) -> (r: String)
        ensures
            self.local_tls ==> r@ == "https"@ + "://"@ + self.local_host@ + ":"@ + spec_dec_chars(
                self.local_port as int,
            ),
            !self.local_tls ==> r@ == "http"@ + "://"@ + self.local_host@ + ":"@ + spec_dec_chars(
                self.local_port as int,
            ),
    {
        let mut r = if self.local_tls {
            "https".to_owned()
        } else {
            "http".to_owned()
        };
        r.append("://");
        r.append(self.local_host.as_str());
        r.append(":");
        let port = dec_string(self.local_port);
        r.append(port.as_str());
        r
    }

    /// The WebSocket form of the forward URL:
    /// `{ws|wss}://{local_host}:{local_port}`.
    pub fn ws_forward_url(&self) -> (r: String)
        ensures
            self.local_tls ==> r@ == "wss"@ + "://"@ + self.local_host@ + ":"@ + spec_dec_chars(
                self.local_port as int,
            ),
            !self.local_tls ==> r@ == "ws"@ + "://"@ + self.local_host@ + ":"@ + spec_dec_chars(
                self.local_port as int,
            ),
    {
        let mut r = if self.local_tls {
            "wss".to_owned()
        } else {
            "ws".to_owned()
        };
        r.append("://");
        r.append(self.local_host.as_str());
        r.append(":");
        let port = dec_string(self.local_port);
        r.append(port.as_str());
        r
    }
}

/// The decimal digits of `n`, as bytes.
pub open spec fn spec_dec_bytes(n: int) -> Seq<u8>
    decreases n,
{
    if n < 10 {
        seq![(48 + (if n >= 0 {
            n
        } else {
            0
        })) as u8]
    } else {
        spec_dec_bytes(n / 10).push((48 + n % 10) as u8)
    }
}

/// The decimal digits of `n`, as characters.
pub open spec fn spec_dec_chars(n: int) -> Seq<char> {
    crate::remote::ascii_chars(spec_dec_bytes(n))
}

proof fn lemma_dec_bytes_ascii(n: int)
    ensures
        forall|i: int| 0 <= i < spec_dec_bytes(n).len() ==> 48 <= #[trigger] spec_dec_bytes(n)[i]
            <= 57,
    decreases n,
{
    if n < 10 {
        assert(spec_dec_bytes(n).len() == 1);
        assert(48 <= spec_dec_bytes(n)[0] <= 57);
    } else {
        lemma_dec_bytes_ascii(n / 10);
        assert forall|i: int| 0 <= i < spec_dec_bytes(n).len() implies 48 <= #[trigger] spec_dec_bytes(
            n,
        )[i] <= 57 by {
            if i < spec_dec_bytes(n).len() - 1 {
                assert(spec_dec_bytes(n)[i] == spec_dec_bytes(n / 10)[i]);
            } else {
                assert(spec_dec_bytes(n)[i] == (48 + n % 10) as u8);
            }
        }
    }
}

/// The decimal digits of `n`, as bytes.
fn dec_bytes(n: u16) -> (r: Vec<u8>)
    ensures
        r@ == spec_dec_bytes(n as int),
    decreases n,
{
    if n < 10 {
        let r: Vec<u8> = vec![48 + (n as u8)];
        proof {
            assert(r@ =~= spec_dec_bytes(n as int));
        }
        r
    } else {
        let mut r = dec_bytes(n / 10);
        r.push(48 + ((n % 10) as u8));
        r
    }
}

/// The decimal spelling of `n`.
pub fn dec_string(n: u16) -> (r: String)
    ensures
        r@ == spec_dec_chars(n as int),
{
    let b = dec_bytes(n);
    proof {
        lemma_dec_bytes_ascii(n as int);
    }
    let r = crate::ids::ascii_to_string(b);
    proof {
        assert(r@ =~= spec_dec_chars(n as int));
    }
    r
}

/// Why a client session ended.
#[derive(Debug)]
pub enum Error {
    /// The WebSocket failed; the carried text describes how.
    WebSocketError(String),
    /// The server never answered the hello.
    NoResponseFromServer,
    /// The transport went silent or closed unexpectedly.
    Timeout,
    /// The server refused the credentials; not retryable.
    AuthenticationFailed,
    /// The requested sub-domain is not a valid label.
    InvalidSubDomain,
    /// Another client holds the requested sub-domain.
    SubDomainInUse,
    /// The server's hello did not parse.
    ServerReplyInvalid,
    /// A control frame from the server did not parse.
    MalformedMessageFromServer,
    /// The server reported an error of its own.
    ServerError(String),
}

/// What the outer loop does after a session ends.
#[derive(Clone, Copy, PartialEq, Eq, Structural, Debug)]
pub enum RetryDecision {
    /// Reconnect after this many seconds.
    RetryAfter(u64),
    /// Stop for good.
    Fatal,
}

/// The outer loop's rule: transport failures retry after five
/// seconds; an authentication failure, and every other hello
/// refusal, stops the client.
pub fn retry_decision(e: &Error) -> (r: RetryDecision)
    ensures
        r == match e {
            Error::WebSocketError(_) | Error::NoResponseFromServer | Error::Timeout
                => RetryDecision::RetryAfter(RETRY_TRANSPORT_SECS),
            _ => RetryDecision::Fatal,
        },
{
    match e {
        Error::WebSocketError(_) => RetryDecision::RetryAfter(RETRY_TRANSPORT_SECS),
        Error::NoResponseFromServer => RetryDecision::RetryAfter(RETRY_TRANSPORT_SECS),
        Error::Timeout => RetryDecision::RetryAfter(RETRY_TRANSPORT_SECS),
        _ => RetryDecision::Fatal,
    }
}

/// The hello this client opens a session with: a stored reconnect
/// token wins and makes a reconnect-shaped hello; with no token, the
/// secret key makes an auth hello; with neither, a fresh anonymous
/// hello.
pub fn make_client_hello(config: &Config, stored: &Option<ReconnectToken>) -> (r: ClientHello)
    ensures
        stored matches Some(t) ==> ((r.reconnect_token matches Some(t2) && t2.0@ == t.0@)
            && r.client_type is Anonymous && r.sub_domain is None),
        stored is None ==> r.reconnect_token is None && r.sub_domain == config.sub_domain,
        stored is None ==> (config.secret_key matches Some(k) ==> (r.client_type
            matches ClientType::Auth { key } && key@ == k@)),
        stored is None && config.secret_key is None ==> r.client_type is Anonymous,
{
    match stored {
        Some(t) => ClientHello::reconnect(ReconnectToken(crate::streams::clone_bytes(&t.0))),
        None => match &config.secret_key {
            Some(k) => ClientHello::generate(
                clone_opt_string(&config.sub_domain),
                ClientType::Auth { key: k.clone() },
            ),
            None => ClientHello::generate(
                clone_opt_string(&config.sub_domain),
                ClientType::Anonymous,
            ),
        },
    }
}

/// A copy of an optional string.
fn clone_opt_string(s: &Option<String>) -> (r: Option<String>)
    ensures
        r == *s,
{
    match s {
        Some(x) => Some(x.clone()),
        None => None,
    }
}

/// Reads the server's answer to the hello: a success carries the
/// granted names; every refusal is the error the client surfaces,
/// fatal or retryable as `retry_decision` rules.
pub fn interpret_server_hello(hello: ServerHello) -> (r: Result<(String, String), Error>)
    ensures
        match hello {
            ServerHello::Success { sub_domain, hostname, client_id: _ } => (r matches Ok(p)
                && p.0@ == sub_domain@ && p.1@ == hostname@),
            ServerHello::AuthFailed => r matches Err(Error::AuthenticationFailed),
            ServerHello::InvalidSubDomain => r matches Err(Error::InvalidSubDomain),
            ServerHello::SubDomainInUse => r matches Err(Error::SubDomainInUse),
            ServerHello::Error(msg) => (r matches Err(Error::ServerError(m)) && m@ == msg@),
        },
{
    match hello {
        ServerHello::Success { sub_domain, hostname, client_id: _ } => Ok((sub_domain, hostname)),
        ServerHello::AuthFailed => Err(Error::AuthenticationFailed),
        ServerHello::InvalidSubDomain => Err(Error::InvalidSubDomain),
        ServerHello::SubDomainInUse => Err(Error::SubDomainInUse),
        ServerHello::Error(msg) => Err(Error::ServerError(msg)),
    }
}

/// The watchdog's rule: with a monotone clock, the session is dead
/// when more than the silence timeout has passed since the last ping.
pub fn watchdog_expired(last_ping: u64, now: u64) -> (r: bool)
    requires
        last_ping <= now,
    ensures
        r == (now - last_ping > SILENCE_TIMEOUT),
{
    now - last_ping > SILENCE_TIMEOUT
}

/// The client's tunnel state: its open local streams, the freshest
/// reconnect token, and when the last ping arrived.
pub struct ClientState {
    pub streams: ActiveStreams,
    pub reconnect_token: Option<ReconnectToken>,
    pub last_ping: u64,
}

impl ClientState {
    /// A fresh state: no streams, no token, the clock started now.
    pub fn new(now: u64) -> (r: Self)
        ensures
            r.streams.wf(),
            r.streams.map() == Map::<u64, crate::streams::StreamView>::empty(),
            r.reconnect_token is None,
            r.last_ping == now,
    {
        ClientState { streams: ActiveStreams::new(), reconnect_token: None, last_ping: now }
    }
}

/// What the client does with one control frame from the server.
pub enum ClientFrameAction {
    /// An `Init` frame: note it and go on.
    InitLogged,
    /// A ping arrived: answer with `Ping(None)`; any carried token is
    /// now stored, and the ping clock was refreshed.
    ReplyPing,
    /// A `Refused` frame: it is only error-logged; the session goes
    /// on, nothing changes.
    RefusedLogged,
    /// The server ended this stream: wait the linger, then call
    /// `linger_close` on it.
    ScheduleClose(StreamId),
    /// Data reached the stream's queue.
    DataForwarded(StreamId),
    /// Data arrived for a stream not in the table: dial the local
    /// service, then `attach_local_stream` with these bytes — or
    /// answer `Refused` if the dial fails.
    OpenLocalStream(StreamId, Vec<u8>),
    /// Data arrived for a stream whose queue is closed: answer
    /// `Refused` for it.
    RefuseData(StreamId),
    /// Not a control packet: the session ends.
    Malformed,
}

/// Dispatches one control frame from the server against the client
/// state: pings refresh the clock and store the carried token; an
/// `End` schedules the lingering close; data goes to its stream's
/// queue, or asks the caller to open one.
pub fn client_handle_frame(state: &mut ClientState, frame: &[u8], now: u64) -> (act:
    ClientFrameAction)
    requires
        old(state).streams.wf(),
    ensures
        final(state).streams.wf(),
        match crate::codec::spec_deserialize(frame@) {
            None => act is Malformed && *final(state) == *old(state),
            Some(p) => match p {
                crate::codec::PacketView::Init(_) => act is InitLogged && *final(state) == *old(state),
                crate::codec::PacketView::Refused(_) => act is RefusedLogged && *final(state) == *old(state),
                crate::codec::PacketView::End(sid) => act == ClientFrameAction::ScheduleClose(
                    StreamId(sid),
                ) && *final(state) == *old(state),
                crate::codec::PacketView::Ping(tok) => {
                    &&& act is ReplyPing
                    &&& final(state).last_ping == now
                    &&& final(state).streams == old(state).streams
                    &&& (match tok {
                        Some(t) => final(state).reconnect_token matches Some(t2) && t2.0@ == t,
                        None => final(state).reconnect_token == old(state).reconnect_token,
                    })
                },
                crate::codec::PacketView::Data(sid, d) => {
                    &&& final(state).last_ping == old(state).last_ping
                    &&& final(state).reconnect_token == old(state).reconnect_token
                    &&& (if !old(state).streams.map().contains_key(sid) {
                        act matches ClientFrameAction::OpenLocalStream(s, b) && s.0 == sid && b@
                            == d && final(state).streams == old(state).streams
                    } else if old(state).streams.map()[sid].closed {
                        act == ClientFrameAction::RefuseData(StreamId(sid))
                            && final(state).streams.map() == old(state).streams.map()
                    } else {
                        act == ClientFrameAction::DataForwarded(StreamId(sid))
                            && final(state).streams.map() == spec_deliver(
                            old(state).streams.map(),
                            sid,
                            MessageView::Data(d),
                        )
                    })
                },
            },
        },
{
    let packet = match ControlPacket::deserialize(frame) {
        Ok(p) => p,
        Err(_) => {
            return ClientFrameAction::Malformed;
        },
    };
    match packet {
        ControlPacket::Init(_) => ClientFrameAction::InitLogged,
        ControlPacket::Refused(_) => ClientFrameAction::RefusedLogged,
        ControlPacket::End(sid) => ClientFrameAction::ScheduleClose(sid),
        ControlPacket::Ping(tok) => {
            match tok {
                Some(t) => {
                    state.reconnect_token = Some(t);
                },
                None => {},
            }
            state.last_ping = now;
            ClientFrameAction::ReplyPing
        },
        ControlPacket::Data(sid, data) => {
            if !state.streams.contains(sid) {
                return ClientFrameAction::OpenLocalStream(sid, data);
            }
            let delivered = state.streams.push_message(sid, StreamMessage::Data(data));
            if delivered {
                ClientFrameAction::DataForwarded(sid)
            } else {
                ClientFrameAction::RefuseData(sid)
            }
        },
    }
}

/// The answer the client sends upstream when a stream cannot be
/// served: its local dial failed or its queue is gone.
pub fn refuse_stream(sid: StreamId) -> (p: ControlPacket)
    ensures
        p == ControlPacket::Refused(sid),
{
    ControlPacket::Refused(sid)
}

/// After the local service answered the dial for a new stream:
/// registers the stream and delivers the first data into its queue.
pub fn attach_local_stream(
    state: &mut ClientState,
    stream: crate::streams::ActiveStream,
    first_data: Vec<u8>,
) -> (delivered: bool)
    requires
        old(state).streams.wf(),
        !stream@.closed,
    ensures
        final(state).streams.wf(),
        final(state).last_ping == old(state).last_ping,
        final(state).reconnect_token == old(state).reconnect_token,
        final(state).streams.map() == spec_deliver(
            old(state).streams.map().insert(stream@.id, stream@),
            stream@.id,
            MessageView::Data(first_data@),
        ),
        delivered,
{
    let sid = StreamId(stream.id.0);
    state.streams.insert(stream);
    state.streams.push_message(sid, StreamMessage::Data(first_data))
}

/// The packet the local-to-tunnel pump sends for one read of the
/// local socket: the first `n` bytes as a `Data` frame; a read of
/// nothing ends the stream, which leaves the table, and nothing is
/// sent upstream.
pub fn local_read_step(
    state: &mut ClientState,
    sid: StreamId,
    buf: &[u8],
    n: usize,
) -> (p: Option<ControlPacket>)
    requires
        old(state).streams.wf(),
        n <= buf@.len(),
    ensures
        final(state).streams.wf(),
        final(state).last_ping == old(state).last_ping,
        final(state).reconnect_token == old(state).reconnect_token,
        n == 0 ==> p is None && final(state).streams.map() == old(state).streams.map().remove(
            sid.0,
        ),
        n > 0 ==> *final(state) == *old(state) && (p matches Some(pk) && (pk
            matches ControlPacket::Data(s, d) && s == sid && d@ == buf@.subrange(0, n as int))),
{
    if n == 0 {
        let _ = state.streams.remove(sid);
        None
    } else {
        Some(ControlPacket::Data(sid, vstd::slice::slice_to_vec(vstd::slice::slice_subrange(
            buf,
            0,
            n,
        ))))
    }
}

} // verus!
