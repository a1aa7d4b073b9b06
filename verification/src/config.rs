//! Configuration surface of the node: plain data loaded by an outer
//! collaborator and consumed by the core.

use vstd::prelude::*;

verus! {

/// How to reach a Bitcoin Core RPC endpoint.
#[derive(Debug)]
pub struct BitcoinRpcConfig {
    pub url: String,
    pub username: String,
    pub password: String,
    pub wallet_name: Option<String>,
}

/// Limits and switches of the Lightning node itself.
#[derive(Debug, Clone, Copy, PartialEq, Eq, Structural)]
pub struct LightningNodeConfig {
    pub channel_confirmation_timeout: u32,
    pub max_channel_size: u64,
    pub min_channel_size: u64,
    pub channel_reserve: u64,
    pub announce_channels: bool,
    pub accept_incoming_channels: bool,
}

/// A channel-size window is sane when its lower bound does not exceed its
/// upper bound.
pub open spec fn channel_window_ok(c: LightningNodeConfig) -> bool {
    c.min_channel_size <= c.max_channel_size
}

impl LightningNodeConfig {
    /// Whether the configured channel-size window is usable.
    pub fn validate(&self) -> (r: bool)
        ensures
            r == channel_window_ok(*self),
    {
        self.min_channel_size <= self.max_channel_size
    }
}

} // verus!
