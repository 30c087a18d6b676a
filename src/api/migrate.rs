//! Body of the first-generation migrate endpoint.
use vstd::prelude::*;

verus! {

#[derive(Debug, Clone)]
pub struct MigrateResponse {
    pub status: String,
    pub databases_updated: Vec<String>,
    pub migrations_applied: usize,
    pub functions_updated: usize,
    pub execution_time_ms: u64,
}

} // verus!
