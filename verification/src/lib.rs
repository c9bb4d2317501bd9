//! Orchestration rules for a local, multi-node test network ("swarm").
//!
//! The crate holds the decisions of the swarm lifecycle as verified code:
//! who may start node processes on a shared host, how a swarm is composed
//! from genesis output, how launch supervision proceeds, and how the
//! topology changes afterwards.  Everything that touches processes, sockets
//! or the clock is left to the caller, which performs the actions that the
//! functions here hand out and reports back what happened.

pub mod directory;
pub mod emitter;
pub mod error;
pub mod guard;
pub mod keys;
pub mod launch;
pub mod names;
pub mod network;
pub mod node;
pub mod order;
pub mod peer_map;
pub mod swarm;
pub mod tuning;
pub mod version;
