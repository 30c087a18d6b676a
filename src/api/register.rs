//! Body of the first-generation schema registration endpoint.
use vstd::prelude::*;

verus! {

#[derive(Debug, Clone)]
pub struct RegisterResponse {
    pub status: String,
    pub database: String,
    pub migrations_applied: usize,
    pub functions_deployed: usize,
    pub execution_time_ms: u64,
}

} // verus!
