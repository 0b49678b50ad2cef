//! Agent handshake messages and the server-side agent registries.
//!
//! An agent opens its control connection with one length-prefixed
//! handshake message describing itself; the server keeps the
//! connected agents, and the clients of the plain-TCP control path,
//! in the registries here.

use vstd::prelude::*;
use crate::assoc::{
    assoc_map,
    distinct_keys,
    lemma_assoc_contains,
    lemma_assoc_get,
    lemma_assoc_push,
    lemma_assoc_remove,
    lemma_distinct_remove,
    lemma_map_values_remove,
};
use crate::ids::ClientId;
use vstd::string::StringSliceAdditionalSpecFns;
use crate::registry::SinkHandle;

verus! {

/// A semantic version: major, minor, patch.
#[derive(Clone, Copy, PartialEq, Eq, Structural, Debug)]
pub struct Version {
    pub major: u64,
    pub minor: u64,
    pub patch: u64,
}

/// Whether `a` is a later version than `b`: by major, then minor,
/// then patch.
pub open spec fn spec_version_newer(a: Version, b: Version) -> bool {
    if a.major != b.major {
        a.major > b.major
    } else if a.minor != b.minor {
        a.minor > b.minor
    } else {
        a.patch > b.patch
    }
}

/// The value of decimal digit bytes, folded left to right; `None` on
/// a non-digit, an empty run, or overflow past `u64::MAX`.
pub open spec fn spec_parse_u64_digits(b: Seq<u8>, acc: int) -> Option<u64>
    decreases b.len(),
{
    if !(0 <= acc <= 0xffff_ffff_ffff_ffff) {
        None
    } else if b.len() == 0 {
        Some(acc as u64)
    } else if 48 <= b[0] && b[0] <= 57 {
        let d = b[0] as int - 48;
        if acc * 10 + d > 0xffff_ffff_ffff_ffff {
            None
        } else {
            spec_parse_u64_digits(b.skip(1), acc * 10 + d)
        }
    } else {
        None
    }
}

/// The value of a decimal byte string.
pub open spec fn spec_parse_u64(b: Seq<u8>) -> Option<u64> {
    if b.len() == 0 {
        None
    } else {
        spec_parse_u64_digits(b, 0)
    }
}

/// Parses an unsigned decimal number.
#[verifier::loop_isolation(false)]
pub fn parse_u64(b: &[u8]) -> (r: Option<u64>)
    ensures
        r == spec_parse_u64(b@),
{
    if b.len() == 0 {
        return None;
    }
    let mut acc: u64 = 0;
    let mut i: usize = 0;
    proof {
        assert(b@.skip(0) =~= b@);
    }
    while i < b.len()
        invariant
            i <= b@.len(),
            spec_parse_u64_digits(b@, 0) == spec_parse_u64_digits(b@.skip(i as int), acc as int),
        decreases b@.len() - i,
    {
        let x = b[i];
        if x < 48 || x > 57 {
            return None;
        }
        let d: u64 = (x - 48) as u64;
        proof {
            assert(b@.skip(i as int)[0] == b@[i as int]);
            assert(b@.skip(i as int).skip(1) =~= b@.skip(i as int + 1));
        }
        if acc > 0x1999_9999_9999_9999 || (acc == 0x1999_9999_9999_9999 && d > 5) {
            proof {
                assert(acc * 10 + d > 0xffff_ffff_ffff_ffff) by (nonlinear_arith)
                    requires
                        acc > 0x1999_9999_9999_9999 || (acc == 0x1999_9999_9999_9999 && d > 5),
                        d >= 0,
                ;
            }
            return None;
        }
        proof {
            assert(acc * 10 + d <= 0xffff_ffff_ffff_ffff) by (nonlinear_arith)
                requires
                    acc < 0x1999_9999_9999_9999 || (acc == 0x1999_9999_9999_9999 && d <= 5),
                    0 <= d <= 9,
                    acc >= 0,
            ;
        }
        acc = acc * 10 + d;
        i = i + 1;
    }
    proof {
        assert(b@.skip(b@.len() as int) =~= Seq::<u8>::empty());
    }
    Some(acc)
}

/// A version string `major.minor.patch`, each part a decimal number.
pub open spec fn spec_parse_version(b: Seq<u8>) -> Option<Version> {
    match crate::remote::spec_find_byte(b, 46) {
        None => None,
        Some(d1) => {
            let rest = b.skip(d1 + 1);
            match crate::remote::spec_find_byte(rest, 46) {
                None => None,
                Some(d2) => match (
                    spec_parse_u64(b.subrange(0, d1)),
                    spec_parse_u64(rest.subrange(0, d2)),
                    spec_parse_u64(rest.skip(d2 + 1)),
                ) {
                    (Some(major), Some(minor), Some(patch)) => Some(
                        Version { major, minor, patch },
                    ),
                    _ => None,
                },
            }
        },
    }
}

/// Parses a `major.minor.patch` version string.
pub fn parse_version(s: &str) -> (r: Option<Version>)
    ensures
        r == spec_parse_version(s.spec_bytes()),
{
    let b = s.as_bytes();
    let d1 = match crate::remote::find_byte(b, 46) {
        Some(d1) => d1,
        None => {
            return None;
        },
    };
    let blen = b.len();
    let rest = vstd::slice::slice_subrange(b, d1 + 1, blen);
    proof {
        assert(rest@ =~= b@.skip(d1 as int + 1));
    }
    let d2 = match crate::remote::find_byte(rest, 46) {
        Some(d2) => d2,
        None => {
            return None;
        },
    };
    let rlen = rest.len();
    let major = parse_u64(vstd::slice::slice_subrange(b, 0, d1));
    let minor = parse_u64(vstd::slice::slice_subrange(rest, 0, d2));
    let patch = parse_u64(vstd::slice::slice_subrange(rest, d2 + 1, rlen));
    proof {
        assert(rest@.subrange(d2 as int + 1, rest@.len() as int) =~= rest@.skip(d2 as int + 1));
    }
    match (major, minor, patch) {
        (Some(major), Some(minor), Some(patch)) => Some(Version { major, minor, patch }),
        _ => None,
    }
}

/// The length prefix of a handshake frame: a big-endian `u32` in the
/// first four bytes.
pub fn handshake_frame_len(b: &[u8]) -> (r: u32)
    requires
        b@.len() >= 4,
    ensures
        r == ((b@[0] as u32) << 24) | ((b@[1] as u32) << 16) | ((b@[2] as u32) << 8) | (b@[3]
            as u32),
{
    ((b[0] as u32) << 24) | ((b[1] as u32) << 16) | ((b[2] as u32) << 8) | (b[3] as u32)
}

/// Unique identifier of an agent.
#[derive(Debug)]
pub struct AgentId(pub String);

impl View for AgentId {
    type V = Seq<char>;

    open spec fn view(&self) -> Seq<char> {
        self.0@
    }
}

impl Clone for AgentId {
    fn clone(&self) -> (r: Self)
        ensures
            r@ == self@,
    {
        AgentId(self.0.clone())
    }
}

impl PartialEq for AgentId {
    fn eq(&self, other: &Self) -> (r: bool)
        ensures
            r == (self@ == other@),
    {
        self.0 == other.0
    }
}

impl vstd::std_specs::cmp::PartialEqSpecImpl for AgentId {
    open spec fn obeys_eq_spec() -> bool {
        true
    }

    open spec fn eq_spec(&self, other: &Self) -> bool {
        self@ == other@
    }
}

impl Default for AgentId {
    /// A fresh random id: the URL-safe base64 of 32 random bytes, a
    /// 43-character string.
    fn default() -> (r: Self)
        ensures
            r@.len() == 43,
            exists|b: Seq<u8>| b.len() == 32 && r@ == crate::ids::b64_url_nopad_of(b),
    {
        AgentId(crate::ids::ClientId::generate().0)
    }
}

impl AgentId {
    /// An agent id from its text.
    pub fn from_name(s: &str) -> (r: Self)
        ensures
            r@ == s@,
    {
        AgentId(s.to_owned())
    }
}

/// How an agent authenticates.
#[derive(Debug, Clone)]
pub enum Auth {
    /// A secret key.
    Key(String),
    /// No credentials.
    Anonymous,
}

impl Default for Auth {
    fn default() -> (r: Self)
        ensures
            r is Anonymous,
    {
        Auth::Anonymous
    }
}

/// Four dotted octets of a local address.
#[derive(Clone, Copy, PartialEq, Eq, Structural, Debug)]
pub struct IpV4(pub u8, pub u8, pub u8, pub u8);

/// The agent's local network information.
#[derive(Clone, Copy, PartialEq, Eq, Structural, Debug)]
pub struct LocalInfo {
    pub ip: IpV4,
    pub port: u16,
}

impl Default for LocalInfo {
    fn default() -> (r: Self)
        ensures
            r.ip == (IpV4(127, 0, 0, 1)),
            r.port == 8080,
    {
        LocalInfo { ip: IpV4(127, 0, 0, 1), port: 8080 }
    }
}

/// The service the agent provides or connects to.
#[derive(Clone, Copy, PartialEq, Eq, Structural, Debug)]
pub struct ServiceInfo {
    pub target_ip: IpV4,
    pub target_port: u16,
}

impl Default for ServiceInfo {
    fn default() -> (r: Self)
        ensures
            r.target_ip == (IpV4(127, 0, 0, 1)),
            r.target_port == 8080,
    {
        ServiceInfo { target_ip: IpV4(127, 0, 0, 1), target_port: 8080 }
    }
}

/// Encryption parameters for the tunnel.
#[derive(Debug, Clone)]
pub struct Encryption {
    pub method: String,
    pub key: String,
}

/// The handshake message an agent opens its control connection with.
#[derive(Debug)]
pub struct AgentHandshake {
    /// Unique identifier of the agent.
    pub agent_id: AgentId,
    /// Name of the agent.
    pub agent_name: Option<String>,
    /// How the agent authenticates.
    pub auth: Auth,
    /// The version of the agent software.
    pub version: Option<Version>,
    /// Local network information of the agent.
    pub local_info: Option<LocalInfo>,
    /// The service the agent serves.
    pub service_info: Option<ServiceInfo>,
    /// Encryption parameters.
    pub encryption: Option<Encryption>,
    /// Milliseconds between agent heartbeats.
    pub heartbeat_interval: u32,
    /// When the handshake was made.
    pub timestamp: u64,
}

impl AgentHandshake {
    /// A builder with every field at its default.
    pub fn builder() -> (r: AgentHandshakeBuilder)
        ensures
            r.agent_id is None,
            r.agent_name is None,
            r.auth is None,
            r.version is None,
            r.local_info is None,
            r.service_info is None,
            r.encryption is None,
            r.heartbeat_interval is None,
            r.timestamp is None,
    {
        AgentHandshakeBuilder {
            agent_id: None,
            agent_name: None,
            auth: None,
            version: None,
            local_info: None,
            service_info: None,
            encryption: None,
            heartbeat_interval: None,
            timestamp: None,
        }
    }
}

/// Step-by-step construction of an `AgentHandshake`; every unset
/// field takes its default at `build`.
pub struct AgentHandshakeBuilder {
    pub agent_id: Option<AgentId>,
    pub agent_name: Option<String>,
    pub auth: Option<Auth>,
    pub version: Option<Version>,
    pub local_info: Option<LocalInfo>,
    pub service_info: Option<ServiceInfo>,
    pub encryption: Option<Encryption>,
    pub heartbeat_interval: Option<u32>,
    pub timestamp: Option<u64>,
}

impl AgentHandshakeBuilder {
    /// Sets the agent id from its text.
    pub fn agent_id(self, v: &str) -> (r: Self)
        ensures
            r.agent_id matches Some(a) && a@ == v@,
            r.agent_name == self.agent_name,
            r.auth == self.auth,
            r.version == self.version,
            r.local_info == self.local_info,
            r.service_info == self.service_info,
            r.encryption == self.encryption,
            r.heartbeat_interval == self.heartbeat_interval,
            r.timestamp == self.timestamp,
    {
        AgentHandshakeBuilder { agent_id: Some(AgentId::from_name(v)), ..self }
    }

    /// Sets the agent's name.
    pub fn agent_name(self, v: &str) -> (r: Self)
        ensures
            r.agent_name matches Some(n) && n@ == v@,
            r.agent_id == self.agent_id,
    {
        AgentHandshakeBuilder { agent_name: Some(v.to_owned()), ..self }
    }

    /// Sets the authentication, a key's text standing for `Auth::Key`.
    pub fn auth(self, v: &str) -> (r: Self)
        ensures
            r.auth matches Some(a) && (a matches Auth::Key(k) && k@ == v@),
            r.agent_id == self.agent_id,
    {
        AgentHandshakeBuilder { auth: Some(Auth::Key(v.to_owned())), ..self }
    }

    /// Sets the version from a `major.minor.patch` string; a string
    /// that does not parse leaves the field unset.
    pub fn version(self, v: &str) -> (r: Self)
        ensures
            r.version == spec_parse_version(v.spec_bytes()),
            r.agent_id == self.agent_id,
            r.auth == self.auth,
    {
        AgentHandshakeBuilder { version: parse_version(v), ..self }
    }

    /// Sets the local network information.
    pub fn local_info(self, v: LocalInfo) -> (r: Self)
        ensures
            r.local_info == Some(v),
            r.agent_id == self.agent_id,
    {
        AgentHandshakeBuilder { local_info: Some(v), ..self }
    }

    /// Sets the service information.
    pub fn service_info(self, v: ServiceInfo) -> (r: Self)
        ensures
            r.service_info == Some(v),
            r.agent_id == self.agent_id,
    {
        AgentHandshakeBuilder { service_info: Some(v), ..self }
    }

    /// Sets the encryption parameters.
    pub fn encryption(self, v: Encryption) -> (r: Self)
        ensures
            r.encryption matches Some(e) && e.method@ == v.method@ && e.key@ == v.key@,
            r.agent_id == self.agent_id,
    {
        AgentHandshakeBuilder { encryption: Some(v), ..self }
    }

    /// Sets the heartbeat interval in milliseconds.
    pub fn heartbeat_interval(self, v: u32) -> (r: Self)
        ensures
            r.heartbeat_interval == Some(v),
            r.agent_id == self.agent_id,
    {
        AgentHandshakeBuilder { heartbeat_interval: Some(v), ..self }
    }

    /// Sets the timestamp.
    pub fn timestamp(self, v: u64) -> (r: Self)
        ensures
            r.timestamp == Some(v),
            r.agent_id == self.agent_id,
    {
        AgentHandshakeBuilder { timestamp: Some(v), ..self }
    }

    /// Builds the handshake, filling every unset field with its
    /// default: a random agent id, anonymous auth, nothing optional,
    /// interval and timestamp zero.
    pub fn build(self) -> (r: Result<AgentHandshake, ()>)
        ensures
            r is Ok,
            ({
                let h = r->Ok_0;
                &&& (self.agent_id is Some ==> h.agent_id == self.agent_id->0)
                &&& (self.agent_id is None ==> h.agent_id@.len() == 43 && (exists|b: Seq<u8>|
                    b.len() == 32 && h.agent_id@ == crate::ids::b64_url_nopad_of(b)))
                &&& h.agent_name == self.agent_name
                &&& (self.auth is Some ==> h.auth == self.auth->0)
                &&& (self.auth is None ==> h.auth is Anonymous)
                &&& h.version == self.version
                &&& h.local_info == self.local_info
                &&& h.service_info == self.service_info
                &&& h.encryption == self.encryption
                &&& h.heartbeat_interval == if self.heartbeat_interval is Some {
                    self.heartbeat_interval->0
                } else {
                    0u32
                }
                &&& h.timestamp == if self.timestamp is Some {
                    self.timestamp->0
                } else {
                    0u64
                }
            }),
    {
        Ok(
            AgentHandshake {
                agent_id: match self.agent_id {
                    Some(a) => a,
                    None => AgentId::default(),
                },
                agent_name: self.agent_name,
                auth: match self.auth {
                    Some(a) => a,
                    None => Auth::Anonymous,
                },
                version: self.version,
                local_info: self.local_info,
                service_info: self.service_info,
                encryption: self.encryption,
                heartbeat_interval: match self.heartbeat_interval {
                    Some(v) => v,
                    None => 0,
                },
                timestamp: match self.timestamp {
                    Some(v) => v,
                    None => 0,
                },
            },
        )
    }
}

/// The two directions of an agent's control connection, named by the
/// handles the application wires to the real channels.
#[derive(Clone, Copy, PartialEq, Eq, Structural, Debug)]
pub struct Tunnel {
    /// Names the channel control packets to the agent go out on.
    pub tx: SinkHandle,
    /// Names the channel control packets from the agent come in on.
    pub rx: SinkHandle,
}

/// One connected agent.
#[derive(Debug)]
pub struct Agent {
    pub id: AgentId,
    pub tunnel: Tunnel,
}

/// Mathematical image of an `Agent`.
pub struct AgentView {
    pub id: Seq<char>,
    pub tunnel: Tunnel,
}

impl View for Agent {
    type V = AgentView;

    open spec fn view(&self) -> AgentView {
        AgentView { id: self.id@, tunnel: self.tunnel }
    }
}

/// The images of a sequence of agents.
pub open spec fn agent_views(s: Seq<Agent>) -> Seq<AgentView> {
    s.map_values(|a: Agent| a@)
}

/// The key function of the agent registry.
pub open spec fn by_agent_id() -> spec_fn(AgentView) -> Seq<char> {
    |a: AgentView| a.id
}

/// The registry of connected agents.
pub struct AgentManager {
    agents: Vec<Agent>,
}

impl AgentManager {
    /// The registry as a map from agent id to agent.
    pub closed spec fn map(self) -> Map<Seq<char>, AgentView> {
        assoc_map(agent_views(self.agents@), by_agent_id())
    }

    /// Well-formed: each id at most once.
    pub closed spec fn wf(self) -> bool {
        distinct_keys(agent_views(self.agents@), by_agent_id())
    }

    /// An empty registry.
    pub fn new() -> (r: Self)
        ensures
            r.wf(),
            r.map() == Map::<Seq<char>, AgentView>::empty(),
    {
        let r = AgentManager { agents: Vec::new() };
        proof {
            assert(agent_views(r.agents@) =~= Seq::<AgentView>::empty());
        }
        r
    }

    /// How many agents are connected.
    pub fn len(&self) -> (r: usize)
        requires
            self.wf(),
        ensures
            r == self.map().dom().len(),
    {
        proof {
            lemma_agent_dom_len(agent_views(self.agents@), by_agent_id());
        }
        self.agents.len()
    }

    /// Whether no agent is connected.
    pub fn is_empty(&self) -> (r: bool)
        requires
            self.wf(),
        ensures
            r == (self.map().dom().len() == 0),
    {
        self.len() == 0
    }

    /// Whether an agent with this id is connected.
    pub fn contains(&self, id: &AgentId) -> (r: bool)
        requires
            self.wf(),
        ensures
            r == self.map().contains_key(id@),
    {
        proof {
            lemma_assoc_contains(agent_views(self.agents@), by_agent_id(), id@);
        }
        find_agent(&self.agents, id).is_some()
    }

    /// Connects an agent, replacing any prior agent with the same id.
    pub fn add(&mut self, agent: Agent)
        requires
            old(self).wf(),
        ensures
            final(self).wf(),
            final(self).map() == old(self).map().insert(agent@.id, agent@),
    {
        let ghost k = agent@.id;
        let ghost av = agent@;
        self.remove(&AgentId(agent.id.0.clone()));
        proof {
            lemma_assoc_contains(agent_views(self.agents@), by_agent_id(), k);
        }
        let ghost mid = self.agents@;
        self.agents.push(agent);
        proof {
            assert(agent_views(self.agents@) =~= agent_views(mid).push(av));
            lemma_assoc_push(agent_views(mid), by_agent_id(), av);
            assert(assoc_map(agent_views(mid), by_agent_id()).insert(k, av) =~= old(self).map().insert(
                k,
                av,
            ));
        }
    }

    /// Disconnects the agent with this id, if one is connected.
    pub fn remove(&mut self, id: &AgentId)
        requires
            old(self).wf(),
        ensures
            final(self).wf(),
            final(self).map() == old(self).map().remove(id@),
    {
        match find_agent(&self.agents, id) {
            Some(i) => {
                proof {
                    lemma_assoc_get(agent_views(self.agents@), by_agent_id(), i as int);
                    lemma_assoc_remove(agent_views(self.agents@), by_agent_id(), i as int);
                    lemma_map_values_remove(self.agents@, |a: Agent| a@, i as int);
                    lemma_distinct_remove(agent_views(self.agents@), by_agent_id(), i as int);
                }
                let _ = self.agents.remove(i);
            },
            None => {
                proof {
                    lemma_assoc_contains(agent_views(self.agents@), by_agent_id(), id@);
                    assert(self.map() =~= self.map().remove(id@));
                }
            },
        }
    }

    /// The agent with this id, if one is connected.
    pub fn get(&self, id: &AgentId) -> (r: Option<&Agent>)
        requires
            self.wf(),
        ensures
            r is Some <==> self.map().contains_key(id@),
            r is Some ==> r->0@ == self.map()[id@],
    {
        proof {
            lemma_assoc_contains(agent_views(self.agents@), by_agent_id(), id@);
        }
        match find_agent(&self.agents, id) {
            Some(i) => {
                proof {
                    lemma_assoc_get(agent_views(self.agents@), by_agent_id(), i as int);
                }
                Some(&self.agents[i])
            },
            None => None,
        }
    }
}

/// Finds the index of the agent with this id.
fn find_agent(v: &Vec<Agent>, id: &AgentId) -> (r: Option<usize>)
    ensures
        r is Some ==> 0 <= r->0 < v@.len() && agent_views(v@)[r->0 as int].id == id@,
        r is None ==> forall|j: int|
            0 <= j < v@.len() ==> (#[trigger] agent_views(v@)[j]).id != id@,
{
    let mut i: usize = 0;
    while i < v.len()
        invariant
            i <= v@.len(),
            forall|j: int| 0 <= j < i ==> (#[trigger] agent_views(v@)[j]).id != id@,
        decreases v@.len() - i,
    {
        if v[i].id == *id {
            return Some(i);
        }
        i = i + 1;
    }
    None
}

proof fn lemma_agent_dom_len(s: Seq<AgentView>, f: spec_fn(AgentView) -> Seq<char>)
    requires
        distinct_keys(s, f),
    ensures
        assoc_map(s, f).dom().len() == s.len(),
        assoc_map(s, f).dom().finite(),
    decreases s.len(),
{
    if s.len() == 0 {
        assert(assoc_map(s, f).dom() =~= Set::<Seq<char>>::empty());
    } else {
        assert(distinct_keys(s.drop_last(), f));
        lemma_agent_dom_len(s.drop_last(), f);
        lemma_assoc_contains(s.drop_last(), f, f(s.last()));
        assert(forall|j: int|
            0 <= j < s.drop_last().len() ==> f(#[trigger] s.drop_last()[j]) != f(s.last()));
        assert(!assoc_map(s.drop_last(), f).contains_key(f(s.last())));
        assert(assoc_map(s, f).dom() =~= assoc_map(s.drop_last(), f).dom().insert(f(s.last())));
    }
}

/// One client of the plain-TCP control path.
#[derive(Debug)]
pub struct Client {
    pub id: ClientId,
    /// Names the channel control packets to the client go out on.
    pub tx: SinkHandle,
    /// Names the channel control packets from the client come in on.
    pub rx: SinkHandle,
}

/// Mathematical image of a `Client`.
pub struct ClientRecView {
    pub id: Seq<char>,
    pub tx: SinkHandle,
    pub rx: SinkHandle,
}

impl View for Client {
    type V = ClientRecView;

    open spec fn view(&self) -> ClientRecView {
        ClientRecView { id: self.id@, tx: self.tx, rx: self.rx }
    }
}

/// The images of a sequence of client records.
pub open spec fn client_rec_views(s: Seq<Client>) -> Seq<ClientRecView> {
    s.map_values(|c: Client| c@)
}

/// The key function of the client registry.
pub open spec fn by_client_rec_id() -> spec_fn(ClientRecView) -> Seq<char> {
    |c: ClientRecView| c.id
}

/// The registry of connected control-path clients.
pub struct ClientManager {
    clients: Vec<Client>,
}

impl ClientManager {
    /// The registry as a map from client id to record.
    pub closed spec fn map(self) -> Map<Seq<char>, ClientRecView> {
        assoc_map(client_rec_views(self.clients@), by_client_rec_id())
    }

    /// Well-formed: each id at most once.
    pub closed spec fn wf(self) -> bool {
        distinct_keys(client_rec_views(self.clients@), by_client_rec_id())
    }

    /// An empty registry.
    pub fn new() -> (r: Self)
        ensures
            r.wf(),
            r.map() == Map::<Seq<char>, ClientRecView>::empty(),
    {
        let r = ClientManager { clients: Vec::new() };
        proof {
            assert(client_rec_views(r.clients@) =~= Seq::<ClientRecView>::empty());
        }
        r
    }

    /// How many clients are connected.
    pub fn len(&self) -> (r: usize)
        requires
            self.wf(),
        ensures
            r == self.map().dom().len(),
    {
        proof {
            lemma_client_rec_dom_len(client_rec_views(self.clients@), by_client_rec_id());
        }
        self.clients.len()
    }

    /// Whether no client is connected.
    pub fn is_empty(&self) -> (r: bool)
        requires
            self.wf(),
        ensures
            r == (self.map().dom().len() == 0),
    {
        self.len() == 0
    }

    /// Whether a client with this id is connected.
    pub fn contains(&self, id: &ClientId) -> (r: bool)
        requires
            self.wf(),
        ensures
            r == self.map().contains_key(id@),
    {
        proof {
            lemma_assoc_contains(client_rec_views(self.clients@), by_client_rec_id(), id@);
        }
        find_client_rec(&self.clients, id).is_some()
    }

    /// Connects a client, replacing any prior one with the same id.
    pub fn add(&mut self, client: Client)
        requires
            old(self).wf(),
        ensures
            final(self).wf(),
            final(self).map() == old(self).map().insert(client@.id, client@),
    {
        let ghost k = client@.id;
        let ghost cv = client@;
        self.remove(&ClientId(client.id.0.clone()));
        proof {
            lemma_assoc_contains(client_rec_views(self.clients@), by_client_rec_id(), k);
        }
        let ghost mid = self.clients@;
        self.clients.push(client);
        proof {
            assert(client_rec_views(self.clients@) =~= client_rec_views(mid).push(cv));
            lemma_assoc_push(client_rec_views(mid), by_client_rec_id(), cv);
            assert(assoc_map(client_rec_views(mid), by_client_rec_id()).insert(k, cv) =~= old(
                self,
            ).map().insert(k, cv));
        }
    }

    /// Disconnects the client with this id, if one is connected.
    pub fn remove(&mut self, id: &ClientId)
        requires
            old(self).wf(),
        ensures
            final(self).wf(),
            final(self).map() == old(self).map().remove(id@),
    {
        match find_client_rec(&self.clients, id) {
            Some(i) => {
                proof {
                    lemma_assoc_get(client_rec_views(self.clients@), by_client_rec_id(), i as int);
                    lemma_assoc_remove(
                        client_rec_views(self.clients@),
                        by_client_rec_id(),
                        i as int,
                    );
                    lemma_map_values_remove(self.clients@, |c: Client| c@, i as int);
                    lemma_distinct_remove(
                        client_rec_views(self.clients@),
                        by_client_rec_id(),
                        i as int,
                    );
                }
                let _ = self.clients.remove(i);
            },
            None => {
                proof {
                    lemma_assoc_contains(client_rec_views(self.clients@), by_client_rec_id(), id@);
                    assert(self.map() =~= self.map().remove(id@));
                }
            },
        }
    }

    /// The client with this id, if one is connected.
    pub fn get(&self, id: &ClientId) -> (r: Option<&Client>)
        requires
            self.wf(),
        ensures
            r is Some <==> self.map().contains_key(id@),
            r is Some ==> r->0@ == self.map()[id@],
    {
        proof {
            lemma_assoc_contains(client_rec_views(self.clients@), by_client_rec_id(), id@);
        }
        match find_client_rec(&self.clients, id) {
            Some(i) => {
                proof {
                    lemma_assoc_get(client_rec_views(self.clients@), by_client_rec_id(), i as int);
                }
                Some(&self.clients[i])
            },
            None => None,
        }
    }
}

/// Finds the index of the client record with this id.
fn find_client_rec(v: &Vec<Client>, id: &ClientId) -> (r: Option<usize>)
    ensures
        r is Some ==> 0 <= r->0 < v@.len() && client_rec_views(v@)[r->0 as int].id == id@,
        r is None ==> forall|j: int|
            0 <= j < v@.len() ==> (#[trigger] client_rec_views(v@)[j]).id != id@,
{
    let mut i: usize = 0;
    while i < v.len()
        invariant
            i <= v@.len(),
            forall|j: int| 0 <= j < i ==> (#[trigger] client_rec_views(v@)[j]).id != id@,
        decreases v@.len() - i,
    {
        if v[i].id == *id {
            return Some(i);
        }
        i = i + 1;
    }
    None
}

proof fn lemma_client_rec_dom_len(s: Seq<ClientRecView>, f: spec_fn(ClientRecView) -> Seq<char>)
    requires
        distinct_keys(s, f),
    ensures
        assoc_map(s, f).dom().len() == s.len(),
        assoc_map(s, f).dom().finite(),
    decreases s.len(),
{
    if s.len() == 0 {
        assert(assoc_map(s, f).dom() =~= Set::<Seq<char>>::empty());
    } else {
        assert(distinct_keys(s.drop_last(), f));
        lemma_client_rec_dom_len(s.drop_last(), f);
        lemma_assoc_contains(s.drop_last(), f, f(s.last()));
        assert(forall|j: int|
            0 <= j < s.drop_last().len() ==> f(#[trigger] s.drop_last()[j]) != f(s.last()));
        assert(!assoc_map(s.drop_last(), f).contains_key(f(s.last())));
        assert(assoc_map(s, f).dom() =~= assoc_map(s.drop_last(), f).dom().insert(f(s.last())));
    }
}

} // verus!
