//! Bodies of the platform and schema registry endpoints.
use vstd::prelude::*;
use crate::registry::{PlatformRegistry, SchemaStore};

verus! {

/// The registry and the schema store, both under one data directory.
pub struct PlatformState {
    pub registry: PlatformRegistry,
    pub schema_store: SchemaStore,
}

impl PlatformState {
    pub fn new(data_dir: &str) -> (r: Self)
        ensures
            r.registry.data_dir@ == data_dir@,
            r.schema_store.data_dir@ == data_dir@,
    {
        PlatformState { registry: PlatformRegistry::new(data_dir), schema_store: SchemaStore::new(data_dir) }
    }
}

#[derive(Debug, Clone)]
pub struct RegisterPlatformRequest {
    pub platform: String,
    /// PostgreSQL user for the platform's own databases, if it has one.
    pub db_user: Option<String>,
    pub db_password: Option<String>,
}

#[derive(Debug, Clone)]
pub struct RegisterPlatformResponse {
    pub status: String,
    pub platform: String,
    pub message: String,
    pub has_dedicated_credentials: bool,
}

#[derive(Debug, Clone)]
pub struct RegisterSchemaResponse {
    pub status: String,
    pub platform: String,
    pub schema_name: String,
    pub has_tables: bool,
    pub has_functions: bool,
    pub has_migrations: bool,
    pub checksum: String,
}

#[derive(Debug, Clone)]
pub struct SchemaInfo {
    pub name: String,
    pub has_tables: bool,
    pub has_functions: bool,
    pub has_migrations: bool,
    pub has_seeders: bool,
}

#[derive(Debug, Clone)]
pub struct ListSchemasResponse {
    pub platform: String,
    pub schemas: Vec<SchemaInfo>,
    pub count: usize,
}

#[derive(Debug, Clone)]
pub struct ListDatabasesQuery {
    pub schema: Option<String>,
}

#[derive(Debug, Clone)]
pub struct DatabaseInfo {
    pub id: String,
    pub database_name: String,
    pub schema_name: String,
    pub created_at: String,
}

#[derive(Debug, Clone)]
pub struct ListDatabasesResponse {
    pub platform: String,
    pub databases: Vec<DatabaseInfo>,
    pub count: usize,
}

#[derive(Debug, Clone)]
pub struct PlatformSummary {
    pub name: String,
    pub schemas: usize,
    pub databases: usize,
}

#[derive(Debug, Clone)]
pub struct ListPlatformsResponse {
    pub platforms: Vec<PlatformSummary>,
    pub count: usize,
}

} // verus!
