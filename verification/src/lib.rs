//! A reverse-tunnel service: a public server accepts end-user TCP
//! connections and forwards their bytes, multiplexed over one control
//! channel, to a client behind NAT that relays them to a local service.
//!
//! This crate holds the verified core: the wire codec for control
//! packets, the connection registry, the active-stream tables, the
//! handshake and routing rules of the server, and the packet-dispatch
//! state machine of the client. Transport I/O (sockets, WebSockets,
//! timers) lives outside, in the surrounding application, which drives
//! these functions with the bytes and events it reads.

pub mod agent;
pub mod assoc;
pub mod client;
pub mod codec;
pub mod ids;
pub mod server;
pub mod streams;
pub mod registry;
pub mod remote;

pub use codec::ControlPacket;
pub use codec::PING_INTERVAL;
