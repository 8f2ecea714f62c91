//! client_limiter: per-client rate limiting settings.
use vstd::prelude::*;
use crate::config::new_config::ClientLimiter as ClientLimiterConfig;

verus! {

/// The client limiter: it holds its settings.
pub struct ClientLimiter {
    config: ClientLimiterConfig,
}

impl ClientLimiter {
    /// The settings the limiter was made from.
    pub closed spec fn settings(&self) -> (bool, u32, u32) {
        (self.config.enabled, self.config.max_qps, self.config.burst_size)
    }

    /// A limiter with these settings.
    pub fn new(config: ClientLimiterConfig) -> (r: ClientLimiter)
        ensures
            r.settings() == (config.enabled, config.max_qps, config.burst_size),
    {
        ClientLimiter { config }
    }
}

} // verus!
