//! The request and response bodies of the HTTP surface, as plain data.
pub mod admin;
pub mod database;
pub mod health;
pub mod migrate;
pub mod migrate_v2;
pub mod platform;
pub mod register;
