//! Orchestration core of a Lightning Network payment node.
//!
//! The crate keeps the authoritative bookkeeping of payment channels, a
//! topology graph with route discovery, a liquidity rebalancer, and a payment
//! engine with retry, peer failover and a TTL read cache.  Everything that
//! decides or computes lives here and is verified; clocks, randomness and
//! hashing are reached through a small trusted boundary in `trusted`.

use vstd::prelude::*;

pub mod authentication;
pub mod biometric_auth;
pub mod channel_manager;
pub mod channel_rebalancer;
pub mod config;
pub mod currency_service;
pub mod engine;
pub mod engine_cache;
pub mod hardware_wallet;
pub mod health_check;
pub mod mixing_service;
pub mod network_graph;
pub mod payment_engine;
pub mod payment_processor;
pub mod privacy_engine;
pub mod secure_enclave;
pub mod trusted;

verus! {

/// Error taxonomy of the core: every fallible operation reports one of these.
#[derive(Debug, Clone, Copy, PartialEq, Eq, Structural)]
pub enum CoreError {
    /// An input violates a static constraint.
    Validation,
    /// A referenced channel, edge or payment id does not exist.
    NotFound,
    /// An underlying runtime call failed or timed out.
    TransientRuntime,
    /// A payment permanently failed after the retry budget.
    ExhaustedRetries,
    /// Topology search found no viable path.
    NoRoute,
    /// Failover found no viable peer.
    NoPeerAvailable,
}

} // verus!
