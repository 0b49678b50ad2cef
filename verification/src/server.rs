//! Server side of the control channel: configuration, the auth hook,
//! the reconnect-token store, the hello handshake, and the dispatch of
//! inbound control packets onto the active streams.
//!
//! The surrounding application owns the sockets and timers; it hands
//! every parsed hello and every received frame to the functions here,
//! which decide and update the registries.

use vstd::prelude::*;
use crate::assoc::{
    assoc_map,
    distinct_keys,
    lemma_assoc_contains,
    lemma_assoc_get,
    lemma_assoc_push,
    lemma_assoc_remove,
    lemma_distinct_remove,
    lemma_map_values_remove,
};
use crate::codec::{ControlPacket, ReconnectToken, StreamId};
use crate::ids::{ClientHello, ClientId, ClientType, SecretKey, ServerHello};
use crate::registry::{ClientView, ConnectedClient, Connections, SinkHandle};
use crate::streams::{ActiveStream, ActiveStreams, StreamMessage, spec_deliver};

verus! {

/// Seconds of ping silence after which a client session is dead.
pub const SILENCE_TIMEOUT: u64 = 60;

/// Server command line: only the optional path of a config file.
pub struct Cli {
    pub config: Option<String>,
}

/// The command line before any argument is given: no config file.
pub fn get_cli() -> (r: Cli)
    ensures
        r.config is None,
{
    Cli { config: None }
}

/// Server configuration, the core subset the tunnel logic reads.
pub struct Config {
    /// Apex domains tunnels may be served under.
    pub allowed_hosts: Vec<String>,
    /// Sub-domains never handed to a client.
    pub blocked_sub_domains: Vec<String>,
    /// Port accepting end-user TCP.
    pub remote_port: u16,
    /// Port of the control server.
    pub control_port: u16,
    /// The host tunnels are created under.
    pub portal_host: String,
}

/// The sequence of views of a vector of strings.
pub open spec fn str_views(v: Seq<String>) -> Seq<Seq<char>> {
    v.map_values(|s: String| s@)
}

impl Config {
    /// Builds the configuration from optional settings, filling in
    /// each default: no allowed hosts, no blocked sub-domains, remote
    /// port 8080, control port 5000, portal host "tunnelto.dev".
    pub fn from_parts(
        allowed_hosts: Option<Vec<String>>,
        blocked_sub_domains: Option<Vec<String>>,
        remote_port: Option<u16>,
        control_port: Option<u16>,
        portal_host: Option<String>,
    ) -> (r: Config)
        ensures
            allowed_hosts is Some ==> r.allowed_hosts == allowed_hosts->0,
            allowed_hosts is None ==> r.allowed_hosts@ == Seq::<String>::empty(),
            blocked_sub_domains is Some ==> r.blocked_sub_domains == blocked_sub_domains->0,
            blocked_sub_domains is None ==> r.blocked_sub_domains@ == Seq::<String>::empty(),
            r.remote_port == if remote_port is Some {
                remote_port->0
            } else {
                8080u16
            },
            r.control_port == if control_port is Some {
                control_port->0
            } else {
                5000u16
            },
            portal_host is Some ==> r.portal_host@ == portal_host->0@,
            portal_host is None ==> r.portal_host@ == "tunnelto.dev"@,
    {
        Config {
            allowed_hosts: match allowed_hosts {
                Some(v) => v,
                None => Vec::new(),
            },
            blocked_sub_domains: match blocked_sub_domains {
                Some(v) => v,
                None => Vec::new(),
            },
            remote_port: match remote_port {
                Some(p) => p,
                None => 8080,
            },
            control_port: match control_port {
                Some(p) => p,
                None => 5000,
            },
            portal_host: match portal_host {
                Some(h) => h,
                None => "tunnelto.dev".to_owned(),
            },
        }
    }
}

/// The decimal value of a port string, if it is one: one to five
/// digits spelling a number up to 65535.
pub open spec fn spec_parse_port(s: Seq<char>) -> Option<u16>
    decreases s.len(),
{
    if s.len() == 0 || s.len() > 5 {
        None
    } else {
        spec_parse_port_digits(s, 0)
    }
}

/// Folds decimal digits left to right; `None` on a non-digit or on
/// overflow past 65535.
pub open spec fn spec_parse_port_digits(s: Seq<char>, acc: int) -> Option<u16>
    decreases s.len(),
{
    if !(0 <= acc <= 65535) {
        None
    } else if s.len() == 0 {
        Some(acc as u16)
    } else if '0' <= s[0] && s[0] <= '9' {
        let d = s[0] as int - '0' as int;
        if acc * 10 + d > 65535 {
            None
        } else {
            spec_parse_port_digits(s.skip(1), acc * 10 + d)
        }
    } else {
        None
    }
}

/// Parses a port number: the value `spec_parse_port` assigns.
pub fn parse_port(s: &str) -> (r: Option<u16>)
    ensures
        r == spec_parse_port(s@),
{
    let n = s.unicode_len();
    if n == 0 || n > 5 {
        return None;
    }
    let mut acc: u32 = 0;
    let mut i: usize = 0;
    proof {
        assert(s@.skip(0) =~= s@);
    }
    while i < n
        invariant
            i <= n,
            n == s@.len(),
            n <= 5,
            acc <= 65535,
            spec_parse_port_digits(s@, 0) == spec_parse_port_digits(s@.skip(i as int), acc as int),
        decreases n - i,
    {
        let c = s.get_char(i);
        if c < '0' || c > '9' {
            return None;
        }
        let d: u32 = (c as u32) - 48;
        proof {
            assert(s@.skip(i as int)[0] == s@[i as int]);
            assert(s@.skip(i as int).skip(1) =~= s@.skip(i as int + 1));
        }
        if acc > 6553 || (acc == 6553 && d > 5) {
            proof {
                assert(acc * 10 + d > 65535);
            }
            return None;
        }
        acc = acc * 10 + d;
        i = i + 1;
    }
    proof {
        assert(s@.skip(n as int) =~= Seq::<char>::empty());
    }
    Some(acc as u16)
}

/// A valid sub-domain label: one to 63 characters, each a lower-case
/// letter, a digit, or a hyphen.
pub open spec fn spec_valid_label(s: Seq<char>) -> bool {
    1 <= s.len() <= 63 && forall|i: int|
        0 <= i < s.len() ==> ('a' <= #[trigger] s[i] && s[i] <= 'z') || ('0' <= s[i] && s[i] <= '9')
            || s[i] == '-'
}

/// Whether `s` occurs in the list.
pub open spec fn spec_in_list(list: Seq<Seq<char>>, s: Seq<char>) -> bool {
    exists|i: int| 0 <= i < list.len() && list[i] == s
}

/// Checks a requested sub-domain against the label grammar.
pub fn is_valid_label(s: &String) -> (r: bool)
    ensures
        r == spec_valid_label(s@),
{
    let n = s.as_str().unicode_len();
    if n == 0 || n > 63 {
        return false;
    }
    let mut i: usize = 0;
    while i < n
        invariant
            i <= n,
            n == s@.len(),
            forall|j: int|
                0 <= j < i ==> ('a' <= #[trigger] s@[j] && s@[j] <= 'z') || ('0' <= s@[j] && s@[j]
                    <= '9') || s@[j] == '-',
        decreases n - i,
    {
        let c = s.as_str().get_char(i);
        let ok = ('a' <= c && c <= 'z') || ('0' <= c && c <= '9') || c == '-';
        if !ok {
            return false;
        }
        i = i + 1;
    }
    true
}

/// Whether `s` is one of the strings in `list`.
pub fn string_in_list(list: &Vec<String>, s: &String) -> (r: bool)
    ensures
        r == spec_in_list(str_views(list@), s@),
{
    let mut i: usize = 0;
    while i < list.len()
        invariant
            i <= list@.len(),
            forall|j: int| 0 <= j < i ==> #[trigger] str_views(list@)[j] != s@,
        decreases list@.len() - i,
    {
        if string_eq(&list[i], s) {
            assert(str_views(list@)[i as int] == s@);
            return true;
        }
        i = i + 1;
    }
    false
}

/// String equality, stated over the views.
pub fn string_eq(a: &String, b: &String) -> (r: bool)
    ensures
        r == (a@ == b@),
{
    *a == *b
}

/// The full host a sub-domain is served under.
pub open spec fn spec_hostname(sub: Seq<char>, portal: Seq<char>) -> Seq<char> {
    sub + seq!['.'] + portal
}

/// Builds `{sub}.{portal_host}`.
pub fn make_hostname(sub: &String, portal: &String) -> (r: String)
    ensures
        r@ == spec_hostname(sub@, portal@),
{
    let mut r = sub.clone();
    r.append(".");
    r.append(portal.as_str());
    proof {
        reveal_strlit(".");
        assert(r@ =~= spec_hostname(sub@, portal@));
    }
    r
}

/// A prior session a reconnect token restores: its identity and its
/// names.
#[derive(Debug)]
pub struct SessionRecord {
    pub client_id: ClientId,
    pub sub_domain: String,
    pub hostname: String,
}

/// Mathematical image of a `SessionRecord`.
pub struct SessionView {
    pub client_id: Seq<char>,
    pub sub_domain: Seq<char>,
    pub hostname: Seq<char>,
}

impl View for SessionRecord {
    type V = SessionView;

    open spec fn view(&self) -> SessionView {
        SessionView {
            client_id: self.client_id@,
            sub_domain: self.sub_domain@,
            hostname: self.hostname@,
        }
    }
}

impl Clone for SessionRecord {
    fn clone(&self) -> (r: Self)
        ensures
            r@ == self@,
    {
        SessionRecord {
            client_id: self.client_id.clone(),
            sub_domain: self.sub_domain.clone(),
            hostname: self.hostname.clone(),
        }
    }
}

/// One binding of a token to a session.
pub struct TokenEntry {
    pub token: Vec<u8>,
    pub session: SessionRecord,
}

/// Image of a token binding: the token bytes and the session.
pub struct TokenEntryView {
    pub token: Seq<u8>,
    pub session: SessionView,
}

impl View for TokenEntry {
    type V = TokenEntryView;

    open spec fn view(&self) -> TokenEntryView {
        TokenEntryView { token: self.token@, session: self.session@ }
    }
}

/// The images of a sequence of token bindings.
pub open spec fn token_views(s: Seq<TokenEntry>) -> Seq<TokenEntryView> {
    s.map_values(|e: TokenEntry| e@)
}

/// The key function of the token store.
pub open spec fn by_token() -> spec_fn(TokenEntryView) -> Seq<u8> {
    |e: TokenEntryView| e.token
}

/// The store binding reconnect tokens to the sessions they restore.
/// The server binds a fresh token on every ping it sends.
pub struct TokenStore {
    entries: Vec<TokenEntry>,
}

impl TokenStore {
    /// The store as a map from token bytes to the binding for them.
    pub closed spec fn map(self) -> Map<Seq<u8>, TokenEntryView> {
        assoc_map(token_views(self.entries@), by_token())
    }

    /// Well-formed: each token bound at most once.
    pub closed spec fn wf(self) -> bool {
        distinct_keys(token_views(self.entries@), by_token())
    }

    /// An empty store.
    pub fn new() -> (r: Self)
        ensures
            r.wf(),
            r.map() == Map::<Seq<u8>, TokenEntryView>::empty(),
    {
        let r = TokenStore { entries: Vec::new() };
        proof {
            assert(token_views(r.entries@) =~= Seq::<TokenEntryView>::empty());
        }
        r
    }

    /// Binds a token to a session, replacing any prior binding of the
    /// same token bytes.
    pub fn bind(&mut self, token: &ReconnectToken, session: SessionRecord)
        requires
            old(self).wf(),
        ensures
            final(self).wf(),
            final(self).map() == old(self).map().insert(
                token.0@,
                TokenEntryView { token: token.0@, session: session@ },
            ),
    {
        let ghost sv = session@;
        let ghost k = token.0@;
        let idx = find_token(&self.entries, token);
        match idx {
            Some(i) => {
                proof {
                    lemma_assoc_remove(token_views(self.entries@), by_token(), i as int);
                    lemma_map_values_remove(self.entries@, |e: TokenEntry| e@, i as int);
                    lemma_distinct_remove(token_views(self.entries@), by_token(), i as int);
                }
                let _ = self.entries.remove(i);
            },
            None => {
                proof {
                    lemma_assoc_contains(token_views(self.entries@), by_token(), k);
                    assert(assoc_map(token_views(self.entries@), by_token()) =~= assoc_map(
                        token_views(self.entries@),
                        by_token(),
                    ).remove(k));
                }
            },
        }
        proof {
            lemma_assoc_contains(token_views(self.entries@), by_token(), k);
        }
        let ghost mid = self.entries@;
        let entry = TokenEntry { token: crate::streams::clone_bytes(&token.0), session };
        let ghost ev = entry@;
        self.entries.push(entry);
        proof {
            assert(token_views(self.entries@) =~= token_views(mid).push(ev));
            lemma_assoc_push(token_views(mid), by_token(), ev);
            assert(assoc_map(token_views(mid), by_token()).insert(k, ev) =~= old(self).map().insert(
                k,
                ev,
            ));
        }
    }

    /// The session a token restores, if the token is bound.
    pub fn lookup(&self, token: &ReconnectToken) -> (r: Option<SessionRecord>)
        requires
            self.wf(),
        ensures
            r is Some <==> self.map().contains_key(token.0@),
            r is Some ==> r->0@ == self.map()[token.0@].session,
    {
        proof {
            lemma_assoc_contains(token_views(self.entries@), by_token(), token.0@);
        }
        match find_token(&self.entries, token) {
            Some(i) => {
                proof {
                    lemma_assoc_get(token_views(self.entries@), by_token(), i as int);
                }
                Some(self.entries[i].session.clone())
            },
            None => None,
        }
    }
}

/// Finds the index of the binding for these token bytes.
fn find_token(v: &Vec<TokenEntry>, token: &ReconnectToken) -> (r: Option<usize>)
    ensures
        r is Some ==> 0 <= r->0 < v@.len() && token_views(v@)[r->0 as int].token == token.0@,
        r is None ==> forall|j: int|
            0 <= j < v@.len() ==> (#[trigger] token_views(v@)[j]).token != token.0@,
{
    let mut i: usize = 0;
    while i < v.len()
        invariant
            i <= v@.len(),
            forall|j: int| 0 <= j < i ==> (#[trigger] token_views(v@)[j]).token != token.0@,
        decreases v@.len() - i,
    {
        if bytes_eq(&v[i].token, &token.0) {
            return Some(i);
        }
        i = i + 1;
    }
    None
}

/// Byte-sequence equality.
pub fn bytes_eq(a: &Vec<u8>, b: &Vec<u8>) -> (r: bool)
    ensures
        r == (a@ == b@),
{
    if a.len() != b.len() {
        return false;
    }
    let mut i: usize = 0;
    while i < a.len()
        invariant
            i <= a@.len(),
            a@.len() == b@.len(),
            forall|j: int| 0 <= j < i ==> a@[j] == b@[j],
        decreases a@.len() - i,
    {
        if a[i] != b[i] {
            return false;
        }
        i = i + 1;
    }
    proof {
        assert(a@ =~= b@);
    }
    true
}

/// Why the auth hook refuses a connection.
#[derive(Clone, Copy, PartialEq, Eq, Structural, Debug)]
pub enum AuthError {
    AuthFailed,
    SubDomainInUse,
    InvalidSubDomain,
}

/// What the auth hook grants: the identity the session runs under.
#[derive(Debug)]
pub struct AuthGrant {
    pub client_id: ClientId,
    pub is_anonymous: bool,
}

/// The do-nothing auth service: accepts anonymous clients and any key.
pub struct NoAuth;

/// The auth service before any backing store is configured.
pub fn get_auth_db_service() -> NoAuth {
    NoAuth
}

impl NoAuth {
    /// The stub auth hook: an anonymous client gets a fresh random
    /// identity; a key-bearing client gets the identity its key
    /// derives. It never refuses.
    pub fn authenticate(&self, key: Option<&SecretKey>) -> (r: Result<AuthGrant, AuthError>)
        ensures
            r is Ok,
            r->Ok_0.is_anonymous == (key is None),
            key is Some ==> r->Ok_0.client_id@ == crate::ids::b64_std_nopad_of(
                crate::ids::sha256_of(vstd::utf8::encode_utf8(key->0@)),
            ),
            key is None ==> r->Ok_0.client_id@.len() == 43 && (exists|b: Seq<u8>|
                b.len() == 32 && r->Ok_0.client_id@ == crate::ids::b64_url_nopad_of(b)),
    {
        match key {
            Some(k) => Ok(AuthGrant { client_id: k.client_id(), is_anonymous: false }),
            None => Ok(AuthGrant { client_id: ClientId::generate(), is_anonymous: true }),
        }
    }
}


/// The session a reconnect token in the hello restores, if any.
pub open spec fn spec_resume(tokens: Map<Seq<u8>, TokenEntryView>, hello: ClientHello) -> Option<
    SessionView,
> {
    match hello.reconnect_token {
        Some(t) => if tokens.contains_key(t.0@) {
            Some(tokens[t.0@].session)
        } else {
            None
        },
        None => None,
    }
}

/// Whether a host is already served by a different client.
pub open spec fn spec_host_taken(
    host_map: Map<Seq<char>, ClientView>,
    host: Seq<char>,
    id: Seq<char>,
) -> bool {
    host_map.contains_key(host) && host_map[host].id != id
}

/// The record a successful handshake registers.
pub open spec fn spec_new_client(
    id: Seq<char>,
    host: Seq<char>,
    is_anonymous: bool,
    sink: SinkHandle,
) -> ClientView {
    ClientView { id, host, is_anonymous, sink: sink.0 }
}

/// What a handshake produced: the reply to send back, and — when a
/// successful registration evicted the prior holder of the host —
/// that client's record, so the caller closes its send sink.
pub struct HandshakeOutcome {
    pub reply: ServerHello,
    pub evicted: Option<ConnectedClient>,
}

/// The server half of the hello exchange. Resolves the session a
/// reconnect token restores, applies the auth hook's verdict, checks
/// the requested sub-domain against the label grammar and the blocked
/// list, refuses a host another client holds, and registers the client
/// on success. The reply is what goes back over the transport; on any
/// reply but `Success` the registry is untouched and the session
/// closes.
pub fn server_handshake(
    config: &Config,
    registry: &mut Connections,
    tokens: &TokenStore,
    auth: Result<AuthGrant, AuthError>,
    hello: &ClientHello,
    sink: SinkHandle,
) -> (out: HandshakeOutcome)
    requires
        old(registry).wf(),
        tokens.wf(),
    ensures
        final(registry).wf(),
        !(out.reply is Success) ==> final(registry).id_map() == old(registry).id_map()
            && final(registry).host_map() == old(registry).host_map() && out.evicted is None,
        out.reply matches ServerHello::Success { sub_domain, hostname, client_id } ==> {
            let cv = spec_new_client(
                client_id@,
                hostname@,
                hello.client_type is Anonymous,
                sink,
            );
            &&& !spec_host_taken(old(registry).host_map(), hostname@, client_id@)
            &&& final(registry).id_map() == old(registry).id_map().insert(client_id@, cv)
            &&& final(registry).host_map() == old(registry).host_map().insert(hostname@, cv)
            &&& (out.evicted is Some <==> old(registry).host_map().contains_key(hostname@))
            &&& (out.evicted matches Some(e) ==> e@ == old(registry).host_map()[hostname@])
            &&& match spec_resume(tokens.map(), *hello) {
                Some(rec) => sub_domain@ == rec.sub_domain && hostname@ == rec.hostname
                    && client_id@ == rec.client_id,
                None => auth is Ok && client_id@ == auth->Ok_0.client_id@ && (
                hello.sub_domain is Some ==> sub_domain@ == hello.sub_domain->0@)
                    && spec_valid_label(sub_domain@) && hostname@ == spec_hostname(
                    sub_domain@,
                    config.portal_host@,
                ),
            }
        },
        match spec_resume(tokens.map(), *hello) {
            Some(rec) => {
                &&& (out.reply is Success <==> !spec_host_taken(
                    old(registry).host_map(),
                    rec.hostname,
                    rec.client_id,
                ))
                &&& (!(out.reply is Success) ==> out.reply is SubDomainInUse)
            },
            None => match auth {
                Err(e) => out.reply == match e {
                    AuthError::AuthFailed => ServerHello::AuthFailed,
                    AuthError::SubDomainInUse => ServerHello::SubDomainInUse,
                    AuthError::InvalidSubDomain => ServerHello::InvalidSubDomain,
                },
                Ok(grant) => match hello.sub_domain {
                    Some(req) => {
                        let bad = !spec_valid_label(req@) || spec_in_list(
                            str_views(config.blocked_sub_domains@),
                            req@,
                        );
                        &&& (bad ==> out.reply is InvalidSubDomain)
                        &&& (!bad ==> (out.reply is Success <==> !spec_host_taken(
                            old(registry).host_map(),
                            spec_hostname(req@, config.portal_host@),
                            grant.client_id@,
                        )) && (!(out.reply is Success) ==> out.reply is SubDomainInUse))
                    },
                    None => {
                        &&& (out.reply is Success || out.reply is SubDomainInUse)
                        &&& (out.reply is SubDomainInUse ==> exists|d: Seq<char>|
                            d.len() == 8 && spec_valid_label(d) && spec_host_taken(
                                old(registry).host_map(),
                                spec_hostname(d, config.portal_host@),
                                grant.client_id@,
                            ))
                    },
                },
            },
        },
{
    let is_anon = match &hello.client_type {
        ClientType::Anonymous => true,
        ClientType::Auth { .. } => false,
    };
    let resumed: Option<SessionRecord> = match &hello.reconnect_token {
        Some(t) => tokens.lookup(t),
        None => None,
    };
    match resumed {
        Some(rec) => {
            match registry.find_by_host(&rec.hostname) {
                Some(existing) => {
                    if !(existing.id == rec.client_id) {
                        return HandshakeOutcome {
                            reply: ServerHello::SubDomainInUse,
                            evicted: None,
                        };
                    }
                },
                None => {},
            }
            let client = ConnectedClient {
                id: rec.client_id.clone(),
                host: rec.hostname.clone(),
                is_anonymous: is_anon,
                sink,
            };
            let evicted = registry.add(client);
            return HandshakeOutcome {
                reply: ServerHello::Success {
                    sub_domain: rec.sub_domain,
                    hostname: rec.hostname,
                    client_id: rec.client_id,
                },
                evicted,
            };
        },
        None => {},
    }
    let grant = match auth {
        Ok(g) => g,
        Err(e) => {
            return HandshakeOutcome {
                reply: match e {
                    AuthError::AuthFailed => ServerHello::AuthFailed,
                    AuthError::SubDomainInUse => ServerHello::SubDomainInUse,
                    AuthError::InvalidSubDomain => ServerHello::InvalidSubDomain,
                },
                evicted: None,
            };
        },
    };
    let sub: String = match &hello.sub_domain {
        Some(req) => {
            if !is_valid_label(req) || string_in_list(&config.blocked_sub_domains, req) {
                return HandshakeOutcome { reply: ServerHello::InvalidSubDomain, evicted: None };
            }
            req.clone()
        },
        None => {
            let d = ServerHello::random_domain();
            assert(spec_valid_label(d@));
            d
        },
    };
    let hostname = make_hostname(&sub, &config.portal_host);
    match registry.find_by_host(&hostname) {
        Some(existing) => {
            if !(existing.id == grant.client_id) {
                proof {
                    assert(spec_host_taken(
                        old(registry).host_map(),
                        spec_hostname(sub@, config.portal_host@),
                        grant.client_id@,
                    ));
                }
                return HandshakeOutcome { reply: ServerHello::SubDomainInUse, evicted: None };
            }
        },
        None => {},
    }
    let client = ConnectedClient {
        id: grant.client_id.clone(),
        host: hostname.clone(),
        is_anonymous: is_anon,
        sink,
    };
    let evicted = registry.add(client);
    HandshakeOutcome {
        reply: ServerHello::Success { sub_domain: sub, hostname, client_id: grant.client_id },
        evicted,
    }
}

/// A token just bound restores exactly the session it was bound to:
/// a hello that presents it resumes that session, so a handshake that
/// does not collide replies `Success` with the same sub-domain and
/// hostname as before.
pub proof fn lemma_token_restores_session(
    m: Map<Seq<u8>, TokenEntryView>,
    tb: Seq<u8>,
    s: SessionView,
    hello: ClientHello,
)
    requires
        hello.reconnect_token matches Some(t) && t.0@ == tb,
    ensures
        spec_resume(m.insert(tb, TokenEntryView { token: tb, session: s }), hello) == Some(s),
{
}

/// What the server does with one inbound frame of a client session.
pub enum ServerFrameAction {
    /// A data frame: `true` when it reached its stream's queue, `false`
    /// when no such stream is active and the bytes were dropped.
    DataDelivered(bool),
    /// The client refused the stream: its queue got `TunnelRefused`
    /// and the stream left the table; what remains of it is here so
    /// the socket pump can drain it.
    StreamRefused(Option<ActiveStream>),
    /// The client ended the stream: after the linger, call
    /// `linger_close` with this id.
    EndScheduled(StreamId),
    /// An `Init` frame: nothing to do at the server.
    InitIgnored,
    /// A ping: refresh the session's last-seen time.
    PingSeen(Option<ReconnectToken>),
    /// Not a control packet: the session must close.
    Malformed,
}

/// Dispatches one inbound control frame of a client session onto the
/// stream table: data goes to its stream's queue and is dropped if the
/// stream is gone; `Refused` pushes `TunnelRefused` and drops the stream;
/// `End` only schedules the lingering close; `Init` is ignored; a ping
/// is reported to the caller; a malformed frame closes the session.
pub fn server_handle_frame(streams: &mut ActiveStreams, frame: &[u8]) -> (act: ServerFrameAction)
    requires
        old(streams).wf(),
    ensures
        final(streams).wf(),
        match crate::codec::spec_deserialize(frame@) {
            None => act is Malformed && final(streams).map() == old(streams).map(),
            Some(p) => match p {
                crate::codec::PacketView::Init(_) => act is InitIgnored && final(streams).map()
                    == old(streams).map(),
                crate::codec::PacketView::Data(sid, d) => final(streams).map() == spec_deliver(
                    old(streams).map(),
                    sid,
                    crate::streams::MessageView::Data(d),
                ) && act == ServerFrameAction::DataDelivered(
                    old(streams).map().contains_key(sid) && !old(streams).map()[sid].closed,
                ),
                crate::codec::PacketView::Refused(sid) => {
                    let delivered = spec_deliver(
                        old(streams).map(),
                        sid,
                        crate::streams::MessageView::TunnelRefused,
                    );
                    &&& final(streams).map() == delivered.remove(sid)
                    &&& act matches ServerFrameAction::StreamRefused(rest)
                    &&& (act matches ServerFrameAction::StreamRefused(rest) ==> (rest is Some
                        <==> old(streams).map().contains_key(sid)) && (rest is Some ==> rest->0@
                        == delivered[sid]))
                },
                crate::codec::PacketView::End(sid) => act == ServerFrameAction::EndScheduled(
                    StreamId(sid),
                ) && final(streams).map() == old(streams).map(),
                crate::codec::PacketView::Ping(tok) => final(streams).map() == old(streams).map()
                    && (act matches ServerFrameAction::PingSeen(t2) && (t2 is Some <==> tok
                    is Some) && (t2 is Some ==> (t2->0).0@ == tok->0)),
            },
        },
{
    let packet = match ControlPacket::deserialize(frame) {
        Ok(p) => p,
        Err(_) => {
            return ServerFrameAction::Malformed;
        },
    };
    match packet {
        ControlPacket::Init(_) => ServerFrameAction::InitIgnored,
        ControlPacket::Data(sid, data) => {
            let delivered = streams.push_message(sid, StreamMessage::Data(data));
            ServerFrameAction::DataDelivered(delivered)
        },
        ControlPacket::Refused(sid) => {
            let _ = streams.push_message(sid, StreamMessage::TunnelRefused);
            let rest = streams.remove(sid);
            ServerFrameAction::StreamRefused(rest)
        },
        ControlPacket::End(sid) => ServerFrameAction::EndScheduled(sid),
        ControlPacket::Ping(tok) => ServerFrameAction::PingSeen(tok),
    }
}



} // verus!
