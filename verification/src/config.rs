//! What one listener of the proxy is configured with.

use crate::net::SocketAddr;
use vstd::prelude::*;

verus! {

/// The seconds that a connection to an upstream may take to be made.
pub const CONNECT_TIMEOUT_SECS: u64 = 5;

/// How many idle connections to one upstream host are kept for reuse.
pub const POOL_MAX_IDLE_PER_HOST: usize = 8;

/// The configuration of one listener. It does not change while the listener
/// runs.
#[derive(Clone, Debug)]
pub struct ProxyConfig {
    /// The address that the listener is bound to.
    pub listen: SocketAddr,
    /// The upstream host of a request that names no workspace.
    pub upstream_host: String,
}

} // verus!
