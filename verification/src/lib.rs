//! Contract storage and execution subsystem of a decentralized-network node.
//!
//! Contracts are small sandboxed programs identified by the content hash of
//! their compiled code. The crate persists contract code under a strict size
//! bound with least-recently-used eviction (`code_store`), keeps one current
//! state per contract behind a bounded in-memory cache (`state_store`), runs
//! guest entry points inside an isolated linear-memory sandbox with explicit
//! copy-in/copy-out marshaling (`sandbox`), and orchestrates put/update
//! requests end to end (`executor`).

use vstd::prelude::*;

pub mod hashing;
pub mod code_store;
pub mod config;
pub mod executor;
pub mod sandbox;
pub mod state_store;
pub mod kvlist;

verus! {

/// Failure taxonomy of the subsystem. Every operation surfaces a typed
/// failure and never leaves a partially applied mutation visible.
#[derive(Clone, Copy, Debug, PartialEq, Eq, Structural)]
pub enum ContractError {
    /// The referenced contract has no stored code or no stored state.
    NotFound,
    /// The code store cannot admit the module even after eviction.
    CapacityExceeded,
    /// The module bytes are malformed or lack a required entry point.
    InvalidModule,
    /// The guest's validation entry point reported the state invalid.
    ValidationFailed,
    /// The guest's update entry point rejected the delta.
    UpdateRejected,
    /// Guest execution faulted or exceeded its resource budget.
    SandboxTrap,
    /// The durable backing store failed; no partial commit is left visible.
    StoreIoError,
}

} // verus!
