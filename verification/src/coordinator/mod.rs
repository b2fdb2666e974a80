pub mod dash;
pub mod port_pool;
pub mod registry;
pub mod session;
use vstd::prelude::*;

verus! {

/// One registered agent as listed to callers of the service-discovery command.
#[derive(Debug, Clone)]
pub struct ServiceInfo {
    pub namespace: String,
    pub port: u16,
    pub connected_at: u64,
}

} // verus!
