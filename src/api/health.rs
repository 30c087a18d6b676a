//! Body of `GET /health`.
use vstd::prelude::*;

verus! {

#[derive(Debug, Clone)]
pub struct HealthResponse {
    pub status: String,
    pub postgres_connected: bool,
    pub active_pools: usize,
    pub total_connections: u32,
    pub uptime_seconds: u64,
}

} // verus!
