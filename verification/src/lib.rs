//! Verified core of a DAG-based consensus ingestion and catch-up layer.
//!
//! The crate covers the peer-facing validation logic of an authority's
//! network service (block admission, block and commit serving) and the
//! bookkeeping of the commit catch-up protocol (vote observation, quorum
//! frontier computation, fetch scheduling). All decisions are made by
//! verified functions over plain values; transport, storage and timers
//! live outside the library and hand it the values they read.

use vstd::prelude::*;

pub mod admission;
pub mod committee;
pub mod fetch;
pub mod monitor;
pub mod stake_aggregator;
pub mod subscription;
pub mod syncer;
pub mod types;

verus! {

/// The round number carried by synthetic genesis blocks; genesis blocks
/// are never transmitted between peers.
pub const GENESIS_ROUND: u32 = 0;

} // verus!
