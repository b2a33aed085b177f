//! State synchronisation between a simulation and its remote observers.
//!
//! Entities expose their attributes as properties; connections subscribe to
//! properties and every accepted change is queued, encoded, on the session of
//! each subscriber. The crate holds the decisions only: the transport layer
//! drains the queues and reports back what happened on the wire.

pub mod connection;
pub mod encodable;
pub mod http_server;
pub mod identity;
pub mod index;
pub mod laws;
pub mod property;
pub mod redirect;
pub mod session;
pub mod state;
pub mod subscription;
pub mod webrtc_session;
