use portal::agent::{Agent, AgentId, AgentManager, Client, ClientManager, Tunnel};
use portal::ids::ClientId;
use portal::registry::{ConnectedClient, Connections, SinkHandle};

fn client(id: &str, host: &str, sink: u64) -> ConnectedClient {
    ConnectedClient {
        id: ClientId::from_name(id),
        host: host.to_string(),
        is_anonymous: true,
        sink: SinkHandle(sink),
    }
}

#[test]
fn add_then_lookup_by_host_and_id() {
    let mut reg = Connections::new();
    let evicted = reg.add(client("c1", "foo.tunnelto.dev", 1));
    assert!(evicted.is_none());

    let by_host = reg.find_by_host(&"foo.tunnelto.dev".to_string()).unwrap();
    assert_eq!(by_host.id.0, "c1");
    assert_eq!(by_host.sink, SinkHandle(1));

    let by_id = reg.get(&ClientId::from_name("c1")).unwrap();
    assert_eq!(by_id.host, "foo.tunnelto.dev");

    let cid = reg.client_for_host(&"foo.tunnelto.dev".to_string()).unwrap();
    assert_eq!(cid.0, "c1");
}

#[test]
fn later_registration_wins_the_host() {
    // two successful registrations with one host: routing must address
    // only the later client's send sink, and the evicted record comes
    // back so its sink can be closed
    let mut reg = Connections::new();
    let _ = reg.add(client("c1", "foo.tunnelto.dev", 1));
    let evicted = reg.add(client("c2", "foo.tunnelto.dev", 2));
    assert_eq!(evicted.unwrap().sink, SinkHandle(1));

    let by_host = reg.find_by_host(&"foo.tunnelto.dev".to_string()).unwrap();
    assert_eq!(by_host.id.0, "c2");
    assert_eq!(by_host.sink, SinkHandle(2));
}

#[test]
fn remove_is_tombstone_safe() {
    // after a fresher client claimed the host, removing the old client
    // must not disturb the fresh host entry
    let mut reg = Connections::new();
    let old = client("c1", "foo.tunnelto.dev", 1);
    let _ = reg.add(old.clone());
    let _ = reg.add(client("c2", "foo.tunnelto.dev", 2));

    reg.remove(&old);
    let by_host = reg.find_by_host(&"foo.tunnelto.dev".to_string()).unwrap();
    assert_eq!(by_host.id.0, "c2");
    assert!(reg.get(&ClientId::from_name("c1")).is_none());
}

#[test]
fn remove_drops_both_entries_for_own_host() {
    let mut reg = Connections::new();
    let c = client("c1", "foo.tunnelto.dev", 1);
    let _ = reg.add(c.clone());
    reg.remove(&c);
    assert!(reg.find_by_host(&"foo.tunnelto.dev".to_string()).is_none());
    assert!(reg.get(&ClientId::from_name("c1")).is_none());
}

#[test]
fn update_host_rebinds_the_host_entry() {
    let mut reg = Connections::new();
    let _ = reg.add(client("c1", "foo.tunnelto.dev", 1));
    let upgraded = client("c1", "foo.tunnelto.dev", 9);
    reg.update_host(&upgraded);
    let by_host = reg.find_by_host(&"foo.tunnelto.dev".to_string()).unwrap();
    assert_eq!(by_host.sink, SinkHandle(9));
}

#[test]
fn test_client_manager() {
    let mut client_manager = ClientManager::new();
    assert!(client_manager.is_empty());

    let id: ClientId = ClientId::from_name("test");
    let client = Client {
        id,
        tx: SinkHandle(1),
        rx: SinkHandle(2),
    };

    client_manager.add(client);

    assert_eq!(client_manager.len(), 1);
    assert!(client_manager.contains(&ClientId::from_name("test")));

    let client = client_manager.get(&ClientId::from_name("test")).unwrap();
    assert!(client.id == ClientId::from_name("test"));
}

#[test]
fn test_add_and_remove_client() {
    let mut client_manager = ClientManager::new();
    assert!(client_manager.is_empty());

    let id: ClientId = ClientId::from_name("test");
    let client = Client {
        id: ClientId::from_name("test"),
        tx: SinkHandle(1),
        rx: SinkHandle(2),
    };

    client_manager.add(client);

    assert_eq!(client_manager.len(), 1);
    assert!(client_manager.contains(&id));

    client_manager.remove(&id);

    assert!(client_manager.is_empty());
    assert!(!client_manager.contains(&id));
}

#[test]
fn test_get_client() {
    let mut client_manager = ClientManager::new();
    assert!(client_manager.is_empty());

    let id: ClientId = ClientId::from_name("test");
    let client = Client {
        id: ClientId::from_name("test"),
        tx: SinkHandle(1),
        rx: SinkHandle(2),
    };

    client_manager.add(client);

    let retrieved_client = client_manager.get(&id);

    assert!(retrieved_client.is_some());
    assert!(retrieved_client.unwrap().id == id);
}

#[test]
fn test_get_nonexistent_client() {
    let mut client_manager = ClientManager::new();
    assert!(client_manager.is_empty());

    let client = Client {
        id: ClientId::from_name("test"),
        tx: SinkHandle(1),
        rx: SinkHandle(2),
    };

    client_manager.add(client);

    let nonexistent_id: ClientId = ClientId::from_name("nonexistent");
    let retrieved_client = client_manager.get(&nonexistent_id);

    assert!(retrieved_client.is_none());
}

#[test]
fn test_agent_manager() {
    let mut agent_manager = AgentManager::new();
    assert!(agent_manager.is_empty());

    let id: AgentId = AgentId::from_name("test");
    let agent = Agent {
        id: id.clone(),
        tunnel: Tunnel {
            tx: SinkHandle(1),
            rx: SinkHandle(2),
        },
    };

    agent_manager.add(agent);

    assert_eq!(agent_manager.len(), 1);
    assert!(agent_manager.contains(&AgentId::from_name("test")));

    let agent = agent_manager.get(&AgentId::from_name("test")).unwrap();
    assert!(agent.id == AgentId::from_name("test"));
}

#[test]
fn test_add_and_remove_agent() {
    let mut agent_manager = AgentManager::new();
    assert!(agent_manager.is_empty());

    let id: AgentId = AgentId::from_name("test");
    let agent = Agent {
        id: id.clone(),
        tunnel: Tunnel {
            tx: SinkHandle(1),
            rx: SinkHandle(2),
        },
    };

    agent_manager.add(agent);

    assert_eq!(agent_manager.len(), 1);
    assert!(agent_manager.contains(&id));

    agent_manager.remove(&id);

    assert!(agent_manager.is_empty());
    assert!(!agent_manager.contains(&id));
}

#[test]
fn test_get_agent() {
    let mut agent_manager = AgentManager::new();
    assert!(agent_manager.is_empty());

    let id: AgentId = AgentId::from_name("test");
    let agent = Agent {
        id: id.clone(),
        tunnel: Tunnel {
            tx: SinkHandle(1),
            rx: SinkHandle(2),
        },
    };

    agent_manager.add(agent);

    let retrieved_agent = agent_manager.get(&id);

    assert!(retrieved_agent.is_some());
    assert!(retrieved_agent.unwrap().id == id);
}

#[test]
fn test_get_nonexistent_agent() {
    let mut agent_manager = AgentManager::new();
    assert!(agent_manager.is_empty());

    let agent = Agent {
        id: AgentId::from_name("test"),
        tunnel: Tunnel {
            tx: SinkHandle(1),
            rx: SinkHandle(2),
        },
    };

    agent_manager.add(agent);

    let nonexistent_id: AgentId = AgentId::from_name("nonexistent");
    let retrieved_agent = agent_manager.get(&nonexistent_id);

    assert!(retrieved_agent.is_none());
}
