//! Verified core of the pod-net networking layer: transport policy and
//! configuration parsing, snapshot history bookkeeping, client-side
//! prediction and recovery decisions, subscription management, server
//! session admission and transport accounting.

pub mod recovery;
pub mod text;
pub mod decimal;
pub mod protocol;
pub mod authority;
pub mod history;
pub mod prediction;
pub mod entity;
pub mod digest;
pub mod subscriptions;
pub mod stdb_adapter;
pub mod lifecycle;
pub mod session;
pub mod ops;
pub mod benchmark;
pub mod transport;
pub mod server;
pub mod client;
pub mod delta;
pub mod interest;
pub mod remote_agent;
pub mod rollups;
pub mod inbound;
pub mod shard;
pub mod stdb_poll;

use vstd::prelude::*;

verus! {

/// Library initialisation hook. The library keeps no global state, so
/// there is nothing to set up; hosts call it once at start-up.
pub fn init() {
}

} // verus!
