//! Settlement core of a cross-chain bridge.
//!
//! An authorized agent records intents, bridge validators attest to the
//! source-chain transaction an intent refers to, and the engine hands out at
//! most one transfer request per intent once a quorum of active validators
//! stands behind it.  Every operation is stated over a mathematical model of
//! the engine's state and proved against it.
pub mod attestation;
pub mod engine;
pub mod laws;
pub mod lists;
pub mod model;
pub mod registry;
pub mod snapshot;
pub mod store;
pub mod table;
pub mod types;

pub use crate::engine::CrossChainExecutor;
pub use crate::types::{BridgeError, BridgeProof, CrossChainIntent, IntentStatus};
