//! The schema-deployment engine of a multi-tenant PostgreSQL gateway: artifact
//! parsing and checksums, the type compatibility matrix, dependency ordering,
//! the schema diff that can block a migration, function signature tracking, seeders, the
//! post-migration verification report and the pool budget, each with its
//! contract. Database and file access stay with the caller.
use vstd::prelude::*;

pub mod text;
pub mod router;
pub mod types;
pub mod graph;
pub mod error;
pub mod checksum;
pub mod tables;
pub mod diff;
pub mod registry;
pub mod api;
pub mod verification;
pub mod extensions;
pub mod seeder;
pub mod functions;
pub mod pool;
pub mod changelog;
pub mod audit;
pub mod security;
pub mod dependency;
pub mod custom_types;
pub mod migration;

verus! {

} // verus!
