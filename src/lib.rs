//! Coordination core of a two-party safe transaction: the transaction record
//! and its status graph, its wire codec, signature and multi-id checks,
//! EIP-7702 construction, the peer directory cache, and the orchestrator's
//! decisions on each update.
use vstd::prelude::*;

pub mod chain;
pub mod codec;
pub mod crypto;
pub mod directory;
pub mod orchestrator;
pub mod state;
pub mod tx_processing;

verus! {

} // verus!
