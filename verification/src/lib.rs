//! Peer discovery and note synchronisation between instances on one local network.
//!
//! Instances announce themselves on the local network, keep a registry of the
//! peers they have seen, and exchange notes through a propose / accept / reject
//! handshake. This crate holds the rules of that exchange: every function is
//! stated over plain values and proved against its contract. Sockets, files and
//! the user interface live with the caller, which performs the actions that the
//! functions here decide on.

pub mod binding;
pub mod discovery;
pub mod identity;
pub mod inbound;
pub mod listing;
pub mod model;
pub mod outbound;
pub mod registry;
pub mod resolver;
pub mod search;
pub mod store;
pub mod text;
pub mod transport;
