//! Bodies of the administrative endpoints.
use vstd::prelude::*;

verus! {

#[derive(Debug, Clone)]
pub struct ListDatabasesQuery {
    pub platform: String,
}

#[derive(Debug, Clone)]
pub struct DatabaseInfo {
    pub name: String,
    pub db_type: String,
    pub size_mb: i64,
}

#[derive(Debug, Clone)]
pub struct ListDatabasesResponse {
    pub platform: String,
    pub databases: Vec<DatabaseInfo>,
    pub count: usize,
}

#[derive(Debug, Clone)]
pub struct CreateTenantRequest {
    pub platform: String,
    pub tenant_id: String,
}

#[derive(Debug, Clone)]
pub struct CreateTenantResponse {
    pub status: String,
    pub database: String,
    pub message: String,
}

} // verus!
