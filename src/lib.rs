//! A group-chat relay: the wire codec, the group registry with lazy pruning,
//! the message log with bounded replay, and the state machines that drive a
//! server-side connection and a client session.

pub mod client;
pub mod codec;
pub mod registry;
pub mod server;
pub mod state;
pub mod store;
