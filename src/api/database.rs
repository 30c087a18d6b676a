//! Bodies of `POST /database/create`.
use vstd::prelude::*;

verus! {

#[derive(Debug, Clone)]
pub struct CreateDatabaseRequest {
    pub platform: String,
    pub schema_name: String,
    pub database_id: String,
}

/// What the seeders did to one table.
#[derive(Debug, Clone)]
pub struct SeederInfo {
    pub table: String,
    pub inserted: usize,
    pub skipped: usize,
}

#[derive(Debug, Clone)]
pub struct CreateDatabaseResponse {
    pub status: String,
    pub platform: String,
    pub schema_name: String,
    pub database_name: String,
    pub extensions_installed: usize,
    pub types_deployed: usize,
    pub tables_created: usize,
    pub functions_deployed: usize,
    pub seeders: Vec<SeederInfo>,
    pub execution_time_ms: u64,
}

} // verus!
