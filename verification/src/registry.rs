//! Connection registry: which client serves which host.
//!
//! The registry keeps two indexes over the connected clients: by client
//! id and by host name. `add` replaces any prior holder of the same
//! host and hands the evicted record back so its send sink can be
//! closed; `remove` is tombstone-safe: it drops the host entry only
//! while that entry still points at the removed client, so a racing
//! replacement is not disturbed.

use vstd::prelude::*;
use crate::ids::ClientId;
use crate::assoc::{assoc_map, distinct_keys, lemma_assoc_contains, lemma_assoc_get, lemma_assoc_push, lemma_assoc_remove, lemma_distinct_remove, lemma_map_values_remove};

verus! {

/// Names the channel through which control packets reach one client
/// session. The surrounding application maps each handle to a real
/// transport sink; the registry only records which handle routing
/// must address.
#[derive(Clone, Copy, PartialEq, Eq, Structural, Debug)]
pub struct SinkHandle(pub u64);

/// One registered client session.
#[derive(Debug)]
pub struct ConnectedClient {
    pub id: ClientId,
    pub host: String,
    pub is_anonymous: bool,
    pub sink: SinkHandle,
}

/// Mathematical image of a `ConnectedClient`.
pub struct ClientView {
    pub id: Seq<char>,
    pub host: Seq<char>,
    pub is_anonymous: bool,
    pub sink: u64,
}

impl View for ConnectedClient {
    type V = ClientView;

    open spec fn view(&self) -> ClientView {
        ClientView {
            id: self.id@,
            host: self.host@,
            is_anonymous: self.is_anonymous,
            sink: self.sink.0,
        }
    }
}

impl Clone for ConnectedClient {
    fn clone(&self) -> (r: Self)
        ensures
            r@ == self@,
    {
        ConnectedClient {
            id: self.id.clone(),
            host: self.host.clone(),
            is_anonymous: self.is_anonymous,
            sink: self.sink,
        }
    }
}

/// The images of a sequence of client records.
pub open spec fn views(s: Seq<ConnectedClient>) -> Seq<ClientView> {
    s.map_values(|c: ConnectedClient| c@)
}

/// The key function of the id index.
pub open spec fn by_id() -> spec_fn(ClientView) -> Seq<char> {
    |c: ClientView| c.id
}

/// The key function of the host index.
pub open spec fn by_host() -> spec_fn(ClientView) -> Seq<char> {
    |c: ClientView| c.host
}

/// String equality, stated over the views.
fn eq_str(a: &String, b: &String) -> (r: bool)
    ensures
        r == (a@ == b@),
{
    *a == *b
}

/// Finds the index of the entry matching `client` by id (`use_id`) or
/// by host (otherwise).
fn find_entry(v: &Vec<ConnectedClient>, client: &ConnectedClient, use_id: bool) -> (r: Option<
    usize,
>)
    ensures
        r is Some ==> 0 <= r->0 < v@.len() && (if use_id {
            views(v@)[r->0 as int].id == client@.id
        } else {
            views(v@)[r->0 as int].host == client@.host
        }),
        r is None ==> forall|j: int|
            0 <= j < v@.len() ==> (if use_id {
                (#[trigger] views(v@)[j]).id != client@.id
            } else {
                views(v@)[j].host != client@.host
            }),
{
    let mut i: usize = 0;
    while i < v.len()
        invariant
            i <= v@.len(),
            forall|j: int|
                0 <= j < i ==> (if use_id {
                    (#[trigger] views(v@)[j]).id != client@.id
                } else {
                    views(v@)[j].host != client@.host
                }),
        decreases v@.len() - i,
    {
        let hit = if use_id {
            v[i].id == client.id
        } else {
            eq_str(&v[i].host, &client.host)
        };
        if hit {
            return Some(i);
        }
        i = i + 1;
    }
    None
}

/// Removes the entry whose key under the chosen index equals the
/// client's, if present; the denoted map loses that key.
fn remove_entry(v: &mut Vec<ConnectedClient>, client: &ConnectedClient, use_id: bool) -> (r: Option<
    ConnectedClient,
>)
    requires
        distinct_keys(views(old(v)@), if use_id {
            by_id()
        } else {
            by_host()
        }),
    ensures
        ({
            let f = if use_id {
                by_id()
            } else {
                by_host()
            };
            let k = if use_id {
                client@.id
            } else {
                client@.host
            };
            &&& distinct_keys(views(final(v)@), f)
            &&& !assoc_map(views(final(v)@), f).contains_key(k)
            &&& assoc_map(views(final(v)@), f) == assoc_map(views(old(v)@), f).remove(k)
            &&& (r is Some <==> assoc_map(views(old(v)@), f).contains_key(k))
            &&& (r is Some ==> r->0@ == assoc_map(views(old(v)@), f)[k])
        }),
{
    let ghost f = if use_id {
        by_id()
    } else {
        by_host()
    };
    let ghost k = if use_id {
        client@.id
    } else {
        client@.host
    };
    let idx = find_entry(v, client, use_id);
    match idx {
        Some(i) => {
            proof {
                lemma_assoc_get(views(v@), f, i as int);
                lemma_assoc_remove(views(v@), f, i as int);
                lemma_map_values_remove(v@, |c: ConnectedClient| c@, i as int);
                lemma_distinct_remove(views(v@), f, i as int);
            }
            let removed = v.remove(i);
            proof {
                lemma_assoc_contains(views(v@), f, k);
            }
            Some(removed)
        },
        None => {
            proof {
                lemma_assoc_contains(views(v@), f, k);
                assert(assoc_map(views(v@), f) =~= assoc_map(views(v@), f).remove(k));
            }
            None
        },
    }
}

/// Replaces or appends the entry for the client's key; the denoted map
/// gains or updates that key. Returns the replaced entry, if any.
fn upsert_entry(v: &mut Vec<ConnectedClient>, client: ConnectedClient, use_id: bool) -> (r: Option<
    ConnectedClient,
>)
    requires
        distinct_keys(views(old(v)@), if use_id {
            by_id()
        } else {
            by_host()
        }),
    ensures
        ({
            let f = if use_id {
                by_id()
            } else {
                by_host()
            };
            let k = if use_id {
                client@.id
            } else {
                client@.host
            };
            &&& distinct_keys(views(final(v)@), f)
            &&& assoc_map(views(final(v)@), f) == assoc_map(views(old(v)@), f).insert(k, client@)
            &&& (r is Some <==> assoc_map(views(old(v)@), f).contains_key(k))
            &&& (r is Some ==> r->0@ == assoc_map(views(old(v)@), f)[k])
        }),
{
    let ghost f = if use_id {
        by_id()
    } else {
        by_host()
    };
    let ghost k = if use_id {
        client@.id
    } else {
        client@.host
    };
    let ghost cv = client@;
    let r = remove_entry(v, &client, use_id);
    proof {
        lemma_assoc_contains(views(v@), f, k);
    }
    let ghost mid = v@;
    v.push(client);
    proof {
        assert(views(v@) =~= views(mid).push(cv));
        lemma_assoc_push(views(mid), f, cv);
        assert(assoc_map(views(old(v)@), f).remove(k).insert(k, cv) =~= assoc_map(
            views(old(v)@),
            f,
        ).insert(k, cv));
    }
    r
}

/// The connection registry.
pub struct Connections {
    clients: Vec<ConnectedClient>,
    hosts: Vec<ConnectedClient>,
}

impl Connections {
    /// The id index: client id to client record.
    pub closed spec fn id_map(self) -> Map<Seq<char>, ClientView> {
        assoc_map(views(self.clients@), by_id())
    }

    /// The host index: host name to client record.
    pub closed spec fn host_map(self) -> Map<Seq<char>, ClientView> {
        assoc_map(views(self.hosts@), by_host())
    }

    /// Well-formed: each index holds each key at most once.
    pub closed spec fn wf(self) -> bool {
        distinct_keys(views(self.clients@), by_id()) && distinct_keys(views(self.hosts@), by_host())
    }

    /// The two indexes agree: every host entry names its own host and
    /// points at a registered client, and that client's record is the
    /// host entry itself.
    pub open spec fn consistent(self) -> bool {
        self.wf() && forall|h: Seq<char>| #[trigger]
            self.host_map().contains_key(h) ==> self.host_map()[h].host == h
                && self.id_map().contains_key(self.host_map()[h].id) && self.id_map()[self.host_map()[h].id]
                == self.host_map()[h]
    }

    /// An empty registry.
    pub fn new() -> (r: Self)
        ensures
            r.wf(),
            r.consistent(),
            r.id_map() == Map::<Seq<char>, ClientView>::empty(),
            r.host_map() == Map::<Seq<char>, ClientView>::empty(),
    {
        let r = Connections { clients: Vec::new(), hosts: Vec::new() };
        proof {
            assert(views(r.clients@) =~= Seq::<ClientView>::empty());
            assert(views(r.hosts@) =~= Seq::<ClientView>::empty());
        }
        r
    }

    /// Registers a client in both indexes, replacing any prior entry
    /// for the same id or the same host. Returns the client the new
    /// one evicted from the host index, if any, so that the caller can
    /// close that client's send sink.
    pub fn add(&mut self, client: ConnectedClient) -> (evicted: Option<ConnectedClient>)
        requires
            old(self).wf(),
        ensures
            final(self).wf(),
            final(self).id_map() == old(self).id_map().insert(client@.id, client@),
            final(self).host_map() == old(self).host_map().insert(client@.host, client@),
            evicted is Some <==> old(self).host_map().contains_key(client@.host),
            evicted is Some ==> evicted->0@ == old(self).host_map()[client@.host],
    {
        let _ = upsert_entry(&mut self.clients, client.clone(), true);
        upsert_entry(&mut self.hosts, client, false)
    }

    /// Unregisters a client: drops its id entry, and its host entry
    /// only while that entry still points at this client.
    pub fn remove(&mut self, client: &ConnectedClient)
        requires
            old(self).wf(),
        ensures
            final(self).wf(),
            final(self).id_map() == old(self).id_map().remove(client@.id),
            final(self).host_map() == if old(self).host_map().contains_key(client@.host) && old(
                self,
            ).host_map()[client@.host].id == client@.id {
                old(self).host_map().remove(client@.host)
            } else {
                old(self).host_map()
            },
    {
        let _ = remove_entry(&mut self.clients, client, true);
        let idx = find_entry(&self.hosts, client, false);
        match idx {
            Some(i) => {
                proof {
                    lemma_assoc_get(views(self.hosts@), by_host(), i as int);
                }
                if self.hosts[i].id == client.id {
                    proof {
                        lemma_assoc_remove(views(self.hosts@), by_host(), i as int);
                        lemma_map_values_remove(self.hosts@, |c: ConnectedClient| c@, i as int);
                        lemma_distinct_remove(views(self.hosts@), by_host(), i as int);
                    }
                    let _ = self.hosts.remove(i);
                }
            },
            None => {
                proof {
                    lemma_assoc_contains(views(self.hosts@), by_host(), client@.host);
                }
            },
        }
    }

    /// Rebinds the host index entry for the client's host to this
    /// client. Meant for a client already registered under its id.
    pub fn update_host(&mut self, client: &ConnectedClient)
        requires
            old(self).wf(),
        ensures
            final(self).wf(),
            final(self).id_map() == old(self).id_map(),
            final(self).host_map() == old(self).host_map().insert(client@.host, client@),
    {
        let _ = upsert_entry(&mut self.hosts, client.clone(), false);
    }

    /// The id of the client serving a host, if one does.
    pub fn client_for_host(&self, host: &String) -> (r: Option<ClientId>)
        requires
            self.wf(),
        ensures
            r is Some <==> self.host_map().contains_key(host@),
            r is Some ==> r->0@ == self.host_map()[host@].id,
    {
        match self.find_by_host(host) {
            Some(c) => Some(c.id),
            None => None,
        }
    }

    /// The record registered under a client id, if any.
    pub fn get(&self, client_id: &ClientId) -> (r: Option<ConnectedClient>)
        requires
            self.wf(),
        ensures
            r is Some <==> self.id_map().contains_key(client_id@),
            r is Some ==> r->0@ == self.id_map()[client_id@],
    {
        let mut i: usize = 0;
        while i < self.clients.len()
            invariant
                self.wf(),
                i <= self.clients@.len(),
                forall|j: int| 0 <= j < i ==> (#[trigger] views(self.clients@)[j]).id != client_id@,
            decreases self.clients@.len() - i,
        {
            if self.clients[i].id == *client_id {
                proof {
                    lemma_assoc_get(views(self.clients@), by_id(), i as int);
                }
                return Some(self.clients[i].clone());
            }
            i = i + 1;
        }
        proof {
            lemma_assoc_contains(views(self.clients@), by_id(), client_id@);
        }
        None
    }

    /// The record serving a host, if any.
    pub fn find_by_host(&self, host: &String) -> (r: Option<ConnectedClient>)
        requires
            self.wf(),
        ensures
            r is Some <==> self.host_map().contains_key(host@),
            r is Some ==> r->0@ == self.host_map()[host@],
    {
        let mut i: usize = 0;
        while i < self.hosts.len()
            invariant
                self.wf(),
                i <= self.hosts@.len(),
                forall|j: int| 0 <= j < i ==> (#[trigger] views(self.hosts@)[j]).host != host@,
            decreases self.hosts@.len() - i,
        {
            if eq_str(&self.hosts[i].host, host) {
                proof {
                    lemma_assoc_get(views(self.hosts@), by_host(), i as int);
                }
                return Some(self.hosts[i].clone());
            }
            i = i + 1;
        }
        proof {
            lemma_assoc_contains(views(self.hosts@), by_host(), host@);
        }
        None
    }
}

/// After one client registers a host and a second client registers the
/// same host, the host index addresses the later client — its record,
/// and so its send sink. This composes with `add`, whose contract
/// updates the host index by exactly such an insertion.
pub proof fn lemma_latest_registration_wins(
    m: Map<Seq<char>, ClientView>,
    a: ClientView,
    b: ClientView,
)
    requires
        a.host == b.host,
    ensures
        m.insert(a.host, a).insert(b.host, b).contains_key(b.host),
        m.insert(a.host, a).insert(b.host, b)[b.host] == b,
{
}

/// `add` keeps the registry consistent, provided the client's id is
/// fresh or already bound to this same host. (Registering one id under
/// a second host leaves the first host's entry pointing at a record
/// whose host differs, so consistency cannot survive that input.)
pub proof fn lemma_add_preserves_consistency(pre: Connections, post: Connections, c: ClientView)
    requires
        pre.consistent(),
        pre.id_map().contains_key(c.id) ==> pre.id_map()[c.id].host == c.host,
        post.wf(),
        post.id_map() == pre.id_map().insert(c.id, c),
        post.host_map() == pre.host_map().insert(c.host, c),
    ensures
        post.consistent(),
{
    assert forall|h: Seq<char>| #[trigger] post.host_map().contains_key(h) implies post.host_map()[h].host
        == h && post.id_map().contains_key(post.host_map()[h].id) && post.id_map()[post.host_map()[h].id]
        == post.host_map()[h] by {
        if h == c.host {
        } else {
            assert(pre.host_map().contains_key(h));
            let d = pre.host_map()[h];
            if d.id == c.id {
                assert(pre.id_map()[c.id] == d);
                assert(d.host == h);
            }
        }
    }
}

/// `remove` keeps the registry consistent, provided the removed record
/// is accurate: if its id is still registered, the registered record
/// carries the same host.
pub proof fn lemma_remove_preserves_consistency(pre: Connections, post: Connections, c: ClientView)
    requires
        pre.consistent(),
        pre.id_map().contains_key(c.id) ==> pre.id_map()[c.id].host == c.host,
        post.wf(),
        post.id_map() == pre.id_map().remove(c.id),
        post.host_map() == if pre.host_map().contains_key(c.host) && pre.host_map()[c.host].id
            == c.id {
            pre.host_map().remove(c.host)
        } else {
            pre.host_map()
        },
    ensures
        post.consistent(),
{
    assert forall|h: Seq<char>| #[trigger] post.host_map().contains_key(h) implies post.host_map()[h].host
        == h && post.id_map().contains_key(post.host_map()[h].id) && post.id_map()[post.host_map()[h].id]
        == post.host_map()[h] by {
        assert(pre.host_map().contains_key(h));
        let d = pre.host_map()[h];
        assert(post.host_map()[h] == d);
        if d.id == c.id {
            assert(pre.id_map()[c.id] == d);
            assert(d.host == c.host);
            assert(h == c.host);
            assert(pre.host_map()[c.host].id == c.id);
            assert(!post.host_map().contains_key(h));
        }
    }
}

} // verus!
