use stonescriptdb_gateway::diff::{
    gate_migration, ChangeCompatibility, ChangeType, ColumnSchema, SchemaDiffChecker, TableSchema,
};
use stonescriptdb_gateway::api::migrate_v2::diff_to_validation_info;

fn col(name: &str, ty: &str, nullable: bool, default: Option<&str>, len: Option<u32>) -> ColumnSchema {
    ColumnSchema {
        name: name.to_string(),
        data_type: ty.to_string(),
        is_nullable: nullable,
        column_default: default.map(|d| d.to_string()),
        character_maximum_length: len,
        numeric_precision: None,
        numeric_scale: None,
    }
}

#[test]
fn test_column_full_type() {
    let c = ColumnSchema {
        name: "test".to_string(),
        data_type: "varchar".to_string(),
        is_nullable: true,
        column_default: None,
        character_maximum_length: Some(100),
        numeric_precision: None,
        numeric_scale: None,
    };
    assert_eq!(c.full_type(), "VARCHAR(100)");
    let c2 = ColumnSchema {
        name: "amount".to_string(),
        data_type: "numeric".to_string(),
        is_nullable: false,
        column_default: None,
        character_maximum_length: None,
        numeric_precision: Some(10),
        numeric_scale: Some(2),
    };
    assert_eq!(c2.full_type(), "NUMERIC(10,2)");
}

#[test]
fn test_diff_new_table() {
    let checker = SchemaDiffChecker::new();
    let desired = vec![TableSchema { name: "users".to_string(), columns: vec![] }];
    let current = vec![];
    let diff = checker.diff_schemas(&desired, &current);
    assert!(diff.is_safe());
    assert_eq!(diff.safe_changes.len(), 1);
    assert_eq!(diff.safe_changes[0].change_type, ChangeType::CreateTable);
}

#[test]
fn test_diff_drop_table() {
    let checker = SchemaDiffChecker::new();
    let desired = vec![];
    let current = vec![TableSchema { name: "users".to_string(), columns: vec![] }];
    let diff = checker.diff_schemas(&desired, &current);
    assert!(!diff.is_safe());
    assert_eq!(diff.dataloss_changes.len(), 1);
    assert_eq!(diff.dataloss_changes[0].change_type, ChangeType::DropTable);
}

#[test]
fn test_diff_add_column() {
    let checker = SchemaDiffChecker::new();
    let desired = vec![TableSchema {
        name: "users".to_string(),
        columns: vec![
            col("id", "INTEGER", false, Some("nextval"), None),
            col("email", "VARCHAR", true, None, Some(255)),
        ],
    }];
    let current = vec![TableSchema {
        name: "users".to_string(),
        columns: vec![col("id", "INTEGER", false, Some("nextval"), None)],
    }];
    let diff = checker.diff_schemas(&desired, &current);
    assert!(diff.is_safe());
    assert_eq!(diff.safe_changes.len(), 1);
    assert_eq!(diff.safe_changes[0].change_type, ChangeType::AddColumn);
    assert_eq!(diff.safe_changes[0].column, Some("email".to_string()));
}

#[test]
fn blocked_migrate_names_the_column() {
    let checker = SchemaDiffChecker::new();
    let desired = vec![TableSchema {
        name: "users".to_string(),
        columns: vec![col("email", "VARCHAR", true, None, Some(100))],
    }];
    let current = vec![TableSchema {
        name: "users".to_string(),
        columns: vec![col("email", "character varying", true, None, Some(255))],
    }];
    let diff = checker.diff_schemas(&desired, &current);
    assert_eq!(diff.dataloss_changes.len(), 1);
    assert_eq!(diff.dataloss_changes[0].compatibility, ChangeCompatibility::DataLoss);
    let err = gate_migration(&diff, "app_main_prod", false).unwrap_err();
    assert_eq!(err.status_code(), 500);
    assert_eq!(err.error_code(), "migration_failed");
    let msg = err.to_string();
    assert!(msg.contains("users.email"));
    assert!(msg.contains("May truncate: reducing from 255 to 100 characters"));
    assert!(msg.contains("1 issues found"));
    assert!(gate_migration(&diff, "app_main_prod", true).is_ok());
    let info = diff_to_validation_info(&diff);
    assert_eq!(info.dataloss_changes[0].compatibility, "dataloss");
    assert_eq!(info.dataloss_changes[0].change_type, "ModifyColumnType");
}

#[test]
fn converged_schema_has_no_changes() {
    let checker = SchemaDiffChecker::new();
    let t = vec![TableSchema {
        name: "users".to_string(),
        columns: vec![col("id", "integer", false, None, None), col("email", "varchar", true, None, Some(50))],
    }];
    let diff = checker.diff_schemas(&t, &t.clone());
    assert!(!diff.has_changes());
    assert!(gate_migration(&diff, "db", false).is_ok());
}

#[test]
fn nullability_and_new_not_null_column() {
    let checker = SchemaDiffChecker::new();
    let desired = vec![TableSchema {
        name: "t".to_string(),
        columns: vec![col("a", "TEXT", false, None, None), col("b", "TEXT", false, None, None)],
    }];
    let current = vec![TableSchema { name: "t".to_string(), columns: vec![col("a", "TEXT", true, None, None), col("gone", "INT", true, None, None)] }];
    let diff = checker.diff_schemas(&desired, &current);
    let kinds: Vec<ChangeType> = diff.dataloss_changes.iter().map(|c| c.change_type).collect();
    assert_eq!(
        kinds,
        vec![ChangeType::ModifyColumnNullable, ChangeType::AddColumn, ChangeType::DropColumn]
    );
    assert_eq!(diff.dataloss_changes[0].reason, Some("May fail if NULL values exist".to_string()));
}

#[test]
fn diff_report_lists_changes_and_verdict() {
    let checker = SchemaDiffChecker::new();
    let empty = checker.diff_schemas(&vec![], &vec![]);
    let report = SchemaDiffChecker::format_diff(&empty);
    assert!(report.ends_with("No schema changes detected.\n"));
    let current = vec![TableSchema { name: "old".to_string(), columns: vec![] }];
    let desired = vec![TableSchema { name: "new".to_string(), columns: vec![] }];
    let diff = checker.diff_schemas(&desired, &current);
    let report = SchemaDiffChecker::format_diff(&diff);
    assert!(report.contains("SAFE CHANGES (1):"));
    assert!(report.contains("  ✓ CreateTable new\n"));
    assert!(report.contains("  ⚠ DropTable old\n      Reason: Dropping table will delete all data\n"));
    assert!(report.ends_with("Result: BLOCKED - Use force=true to proceed\n"));
}
