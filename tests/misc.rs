use stonescriptdb_gateway::audit::AuditLogger;
use stonescriptdb_gateway::changelog::ChangeType;
use stonescriptdb_gateway::checksum::{compute_checksum, compute_raw_checksum, normalize_sql};
use stonescriptdb_gateway::custom_types::{CustomTypeManager, TypeAction, TypeKind};
use stonescriptdb_gateway::extensions::{parse_extension, Extension, ExtensionManager};
use stonescriptdb_gateway::error::GatewayError;
use stonescriptdb_gateway::security::constant_time_compare;
use stonescriptdb_gateway::seeder::{SeederFile, SeederRecord, SeederRunner};
use stonescriptdb_gateway::verification::{
    checks_database, migrate_status, verification_info, verification_outcome, TableMismatch, VerificationResult,
};

#[test]
fn test_change_type_display() {
    assert_eq!(ChangeType::MigrationApplied.to_string(), "migration_applied");
    assert_eq!(ChangeType::FunctionDeployed.to_string(), "function_deployed");
    assert_eq!(ChangeType::ExtensionInstalled.to_string(), "extension_installed");
}

#[test]
fn test_audit_logger_exists() {
    let _ = AuditLogger;
}

#[test]
fn test_constant_time_compare() {
    assert!(constant_time_compare("secret123", "secret123"));
    assert!(!constant_time_compare("secret123", "secret124"));
    assert!(!constant_time_compare("short", "longer"));
    assert!(!constant_time_compare("", "nonempty"));
}

#[test]
fn test_build_create_extension_sql_simple() {
    let manager = ExtensionManager::new();
    let ext = Extension { name: "uuid-ossp".to_string(), version: None, schema: None };
    let sql = manager.build_create_extension_sql(&ext);
    assert_eq!(sql, "CREATE EXTENSION IF NOT EXISTS \"uuid-ossp\"");
}

#[test]
fn test_build_create_extension_sql_with_options() {
    let manager = ExtensionManager::new();
    let ext = Extension {
        name: "pgvector".to_string(),
        version: Some("0.5.0".to_string()),
        schema: Some("extensions".to_string()),
    };
    let sql = manager.build_create_extension_sql(&ext);
    assert_eq!(
        sql,
        "CREATE EXTENSION IF NOT EXISTS \"pgvector\" SCHEMA \"extensions\" VERSION '0.5.0'"
    );
}

#[test]
fn extension_errors_are_told_apart() {
    let manager = ExtensionManager::new();
    let e = manager.install_error("db", "postgis", "could not open extension control file \"x\"");
    assert!(matches!(e, GatewayError::ExtensionNotAvailable { .. }));
    assert_eq!(e.status_code(), 400);
    let e = manager.install_error("db", "postgis", "permission denied");
    assert!(matches!(e, GatewayError::ExtensionInstallFailed { .. }));
    assert_eq!(e.status_code(), 500);
}

#[test]
fn test_parse_value_tuple() {
    let runner = SeederRunner::new();
    let values = runner.parse_value_tuple("1, 'admin', 'Administrator'");
    assert_eq!(values, vec!["1", "'admin'", "'Administrator'"]);
    let values = runner.parse_value_tuple("'USD', 'US Dollar', '$'");
    assert_eq!(values, vec!["'USD'", "'US Dollar'", "'$'"]);
}

#[test]
fn quoted_commas_stay_in_values() {
    let runner = SeederRunner::new();
    assert_eq!(runner.parse_value_tuple("'a, b', \"c,d\", 3"), vec!["'a, b'", "\"c,d\"", "3"]);
}

#[test]
fn test_remove_comments() {
    let runner = SeederRunner::new();
    let sql = "-- This is a comment\nINSERT INTO test VALUES (1);";
    let cleaned = runner.remove_comments(sql);
    assert!(cleaned.contains("INSERT"));
    assert!(!cleaned.contains("comment"));
}

#[test]
fn seeder_skipped_when_table_has_rows() {
    let runner = SeederRunner::new();
    let seeder = SeederFile {
        name: "roles.pssql".to_string(),
        table_name: "roles".to_string(),
        records: vec![
            SeederRecord { columns: vec!["id".into(), "name".into()], values: vec!["1".into(), "'admin'".into()] },
            SeederRecord { columns: vec!["id".into(), "name".into()], values: vec!["2".into(), "'user'".into()] },
        ],
        primary_key_columns: vec!["id".into()],
    };
    let plan = runner.plan_seeder(&seeder, 2);
    assert!(plan.skip);
    assert!(plan.statements.is_empty());
    let result = runner.seeder_result(&seeder, &plan);
    assert_eq!((result.inserted, result.skipped), (0, 2));
    let plan = runner.plan_seeder(&seeder, 0);
    assert_eq!(plan.statements, vec![
        "INSERT INTO roles (id, name) VALUES (1, 'admin')".to_string(),
        "INSERT INTO roles (id, name) VALUES (2, 'user')".to_string(),
    ]);
}

#[test]
fn test_verification_result_error_log() {
    let mut result = VerificationResult::new();
    result.passed = false;
    result.extensions.missing = vec!["pgvector".to_string()];
    result.tables.mismatches.push(TableMismatch {
        table: "users".to_string(),
        issue: "Column 'email' type mismatch: VARCHAR(100) -> VARCHAR(255)".to_string(),
    });
    let log = result.error_log();
    assert!(log.contains("pgvector"));
    assert!(log.contains("users"));
    assert!(log.contains("email"));
    assert!(log.contains("ACTION REQUIRED"));
}

#[test]
fn test_verification_result_empty_is_passed() {
    let result = VerificationResult::new();
    assert!(result.passed);
    assert!(result.extensions.missing.is_empty());
    assert!(result.types.missing.is_empty());
    assert!(result.tables.missing.is_empty());
    assert!(result.seeders.missing.is_empty());
}

#[test]
fn tables_test_checksum_normalization() {
    let sql1 = "CREATE TABLE users (id INT);";
    let sql2 = "CREATE   TABLE   users   (id   INT);";
    let sql3 = "create table users (id int);";
    assert_eq!(compute_checksum(sql1), compute_checksum(sql2));
    assert_eq!(compute_checksum(sql1), compute_checksum(sql3));
}

#[test]
fn custom_types_test_checksum_normalization() {
    let manager = CustomTypeManager::new();
    let sql1 = "CREATE TYPE status AS ENUM ('a', 'b');";
    let sql2 = "CREATE   TYPE   status   AS   ENUM   ('a',   'b');";
    let sql3 = "create type status as enum ('a', 'b');";
    assert_eq!(manager.compute_checksum(sql1), manager.compute_checksum(sql2));
    assert_eq!(manager.compute_checksum(sql1), manager.compute_checksum(sql3));
}

#[test]
fn test_compute_checksum() {
    let c1 = compute_raw_checksum("CREATE TABLE test (id INT);");
    let c2 = compute_raw_checksum("CREATE TABLE test (id INT);");
    let c3 = compute_raw_checksum("CREATE TABLE other (id INT);");
    assert_eq!(c1, c2);
    assert_ne!(c1, c3);
    assert_eq!(c1.len(), 64);
}

#[test]
fn checksum_ignores_comments_and_is_sha256_hex() {
    assert_eq!(normalize_sql("  SELECT 1; -- note\n/* x */  SELECT   2 "), "select 1; select 2");
    // SHA-256 of the empty string
    assert_eq!(
        compute_checksum("  -- only a comment  "),
        "e3b0c44298fc1c149afbf4c8996fb92427ae41e4649b934ca495991b7852b855"
    );
    assert_ne!(compute_checksum("a"), "a");
}

#[test]
fn type_kinds_and_actions() {
    let m = CustomTypeManager::new();
    assert_eq!(m.type_kind("CREATE TYPE s AS ENUM ('a')"), TypeKind::Enum);
    assert_eq!(m.type_kind("create domain email as text"), TypeKind::Domain);
    assert_eq!(m.type_kind("CREATE TYPE address AS (city TEXT)"), TypeKind::Composite);
    assert_eq!(m.type_action(Some("x"), true, "x"), TypeAction::Skip);
    assert_eq!(m.type_action(None, true, "x"), TypeAction::RecordExisting);
    assert_eq!(m.type_action(Some("y"), false, "x"), TypeAction::Create);
}

#[test]
fn test_parse_simple_extension() {
    let ext = parse_extension("uuid-ossp", "-- UUID extension\n");
    assert_eq!(ext.name, "uuid-ossp");
    assert!(ext.version.is_none());
    assert!(ext.schema.is_none());
}

#[test]
fn test_parse_extension_with_options() {
    let content = "\n-- PostgreSQL vector similarity search\n-- version: 0.5.0\n-- schema: extensions\n";
    let ext = parse_extension("pgvector", content);
    assert_eq!(ext.name, "pgvector");
    assert_eq!(ext.version, Some("0.5.0".to_string()));
    assert_eq!(ext.schema, Some("extensions".to_string()));
}

#[test]
fn verification_passes_exactly_when_everything_expected_is_found() {
    let v = stonescriptdb_gateway::verification::SchemaVerifier::new();
    let expected = vec!["uuid-ossp".to_string()];
    let found = vec!["plpgsql".to_string(), "uuid-ossp".to_string()];
    let none: Vec<String> = vec![];
    let ok = v.assemble(
        v.check_extensions(&expected, &found),
        v.check_types(&none, &none),
        v.check_tables(&vec![], &vec![]),
        stonescriptdb_gateway::verification::SeederVerification { missing: vec![] },
    );
    assert!(ok.passed);
    let bad = v.assemble(
        v.check_extensions(&expected, &none),
        v.check_types(&none, &none),
        v.check_tables(&vec![], &vec![]),
        stonescriptdb_gateway::verification::SeederVerification { missing: vec![] },
    );
    assert!(!bad.passed);
    assert_eq!(bad.extensions.missing, vec!["uuid-ossp".to_string()]);
    assert!(bad.error_log().contains("MISSING EXTENSIONS:\n  - uuid-ossp\n"));
}

#[test]
fn types_are_read_from_their_normal_form() {
    let m = CustomTypeManager::new();
    let a = m.parse_type("-- status\nCREATE TYPE Order_Status AS ENUM ('a', 'b');").unwrap();
    let b = m.parse_type("create   type order_status as enum ('a',   'b'); /* note */").unwrap();
    assert_eq!(a.name, "order_status");
    assert_eq!(a.type_kind, TypeKind::Enum);
    assert_eq!((a.name, a.type_kind, a.checksum), (b.name, b.type_kind, b.checksum));
    let d = m.parse_type("CREATE DOMAIN email AS TEXT CHECK (VALUE LIKE '%@%');").unwrap();
    assert_eq!((d.name.as_str(), d.type_kind), ("email", TypeKind::Domain));
    assert!(m.parse_type("SELECT 1;").is_err());
}

#[test]
fn error_replies_carry_database_and_cause() {
    let e = GatewayError::MigrationFailed { database: "db1".into(), migration: "001.sql".into(), cause: "boom".into() };
    let r = e.to_response();
    assert_eq!(r.error, "migration_failed");
    assert_eq!(r.message, "Migration 001.sql failed");
    assert_eq!(r.database, Some("db1".to_string()));
    assert_eq!(r.cause, Some("boom".to_string()));
    let e = GatewayError::DatabaseNotFound { platform: "app".into(), tenant_id: None };
    let r = e.to_response();
    assert_eq!(r.database, Some("app_main".to_string()));
    assert_eq!(r.cause, None);
    assert_eq!(e.status_code(), 404);
}

#[test]
fn migrate_outcome_follows_verification() {
    let ok = VerificationResult::new();
    assert_eq!(verification_outcome("db", &ok, false).unwrap(), false);
    let mut bad = VerificationResult::new();
    bad.passed = false;
    bad.tables.missing = vec!["users".to_string()];
    let err = verification_outcome("db", &bad, false).unwrap_err();
    assert!(matches!(err, GatewayError::MigrationFailed { .. }));
    assert_eq!(verification_outcome("db", &bad, true).unwrap(), true);
    assert_eq!(migrate_status(true), "completed_with_warnings");
    assert_eq!(migrate_status(false), "completed");
    let info = verification_info(&bad);
    assert!(!info.passed && !info.tables_verified && info.extensions_verified);
    assert!(info.error_log.unwrap().contains("MISSING TABLES:\n  - users\n"));
    assert!(checks_database(0) && !checks_database(1));
}
