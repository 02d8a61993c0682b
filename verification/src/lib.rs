//! A minimal multi-client chat relay, as a verified core.
//!
//! Clients register a user name and then exchange line-delimited chat
//! messages that are relayed to every connected client. This crate holds
//! the parts where ordering and protocol validity matter: the wire-frame
//! parser, the per-connection registration state machine, the pool of live
//! connections and the decisions of the event loop, including who receives
//! which line. Sockets and readiness polling are the caller's business: the
//! caller reads and writes bytes, this crate decides what they mean.
pub mod wire;
pub mod connection;
pub mod pool;
pub mod broadcast;
pub mod server;
