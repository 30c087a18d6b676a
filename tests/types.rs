use stonescriptdb_gateway::types::{normalize_type, TypeChecker, TypeCompatibility};

#[test]
fn test_identical_types() {
    let checker = TypeChecker::new();
    assert_eq!(checker.check_compatibility("INTEGER", "INTEGER"), TypeCompatibility::Identical);
    assert_eq!(
        checker.check_compatibility("VARCHAR(100)", "VARCHAR(100)"),
        TypeCompatibility::Identical
    );
}

#[test]
fn test_safe_widenings() {
    let checker = TypeChecker::new();
    assert!(checker.check_compatibility("SMALLINT", "INTEGER").is_safe());
    assert!(checker.check_compatibility("INTEGER", "BIGINT").is_safe());
    assert!(checker.check_compatibility("INT", "BIGINT").is_safe());
    assert!(checker.check_compatibility("VARCHAR", "TEXT").is_safe());
    assert!(checker.check_compatibility("CHAR(10)", "VARCHAR(100)").is_safe());
    assert!(checker.check_compatibility("DATE", "TIMESTAMP").is_safe());
    assert!(checker.check_compatibility("TIMESTAMP", "TIMESTAMPTZ").is_safe());
}

#[test]
fn test_varchar_length_changes() {
    let checker = TypeChecker::new();
    assert!(checker.check_compatibility("VARCHAR(50)", "VARCHAR(100)").is_safe());
    assert!(checker.check_compatibility("VARCHAR(50)", "TEXT").is_safe());
    let result = checker.check_compatibility("VARCHAR(100)", "VARCHAR(50)");
    assert!(matches!(result, TypeCompatibility::DataLoss { .. }));
}

#[test]
fn test_numeric_precision_changes() {
    let checker = TypeChecker::new();
    assert!(checker.check_compatibility("NUMERIC(10,2)", "NUMERIC(15,4)").is_safe());
    let result = checker.check_compatibility("NUMERIC(15,4)", "NUMERIC(10,2)");
    assert!(matches!(result, TypeCompatibility::DataLoss { .. }));
}

#[test]
fn test_dataloss_narrowings() {
    let checker = TypeChecker::new();
    let result = checker.check_compatibility("BIGINT", "INTEGER");
    assert!(matches!(result, TypeCompatibility::DataLoss { .. }));
    let result = checker.check_compatibility("TEXT", "VARCHAR(100)");
    assert!(matches!(result, TypeCompatibility::DataLoss { .. }));
    let result = checker.check_compatibility("TIMESTAMP", "DATE");
    assert!(matches!(result, TypeCompatibility::DataLoss { .. }));
}

#[test]
fn test_type_normalization() {
    let checker = TypeChecker::new();
    assert!(checker.check_compatibility("INT4", "BIGINT").is_safe());
    assert!(checker.check_compatibility("BOOL", "INTEGER").is_safe());
    assert!(checker.check_compatibility("CHARACTER VARYING(50)", "TEXT").is_safe());
}

#[test]
fn test_incompatible_types() {
    let checker = TypeChecker::new();
    let result = checker.check_compatibility("UUID", "INTEGER");
    assert!(matches!(result, TypeCompatibility::Incompatible { .. }));
    let result = checker.check_compatibility("BOOLEAN", "TEXT");
    assert!(matches!(result, TypeCompatibility::Incompatible { .. }));
}

#[test]
fn reasons_name_the_lengths() {
    let checker = TypeChecker::new();
    assert_eq!(
        checker.check_compatibility("VARCHAR(255)", "VARCHAR(100)"),
        TypeCompatibility::DataLoss {
            reason: "May truncate: reducing from 255 to 100 characters".to_string()
        }
    );
    assert_eq!(
        checker.check_compatibility("numeric(15, 4)", "NUMERIC(10,2)"),
        TypeCompatibility::DataLoss {
            reason: "May lose precision: NUMERIC(15,4) to NUMERIC(10,2)".to_string()
        }
    );
    assert_eq!(
        checker.check_compatibility("BIGINT", "SMALLINT"),
        TypeCompatibility::DataLoss {
            reason: "May overflow: BIGINT max 9.2e18, SMALLINT max 32767".to_string()
        }
    );
    assert_eq!(
        checker.check_compatibility("NUMERIC", "SERIAL"),
        TypeCompatibility::DataLoss {
            reason: "Narrowing from NUMERIC to SERIAL may lose data".to_string()
        }
    );
}

#[test]
fn matrix_laws_on_examples() {
    let checker = TypeChecker::new();
    for t in ["TEXT", "int8", " varchar(12) ", "NUMERIC(3,1)", "mystery"] {
        assert_eq!(checker.check_compatibility(t, t), TypeCompatibility::Identical);
    }
    assert_eq!(checker.check_compatibility("INTEGER", "BIGINT"), TypeCompatibility::Safe);
    assert!(matches!(
        checker.check_compatibility("BIGINT", "INTEGER"),
        TypeCompatibility::DataLoss { .. }
    ));
    assert_eq!(checker.check_compatibility("JSON", "JSONB"), TypeCompatibility::Safe);
    assert!(matches!(checker.check_compatibility("JSONB", "JSON"), TypeCompatibility::DataLoss { .. }));
    assert_eq!(checker.check_compatibility("CHAR", "VARCHAR"), TypeCompatibility::Safe);
    assert!(matches!(checker.check_compatibility("VARCHAR", "CHAR"), TypeCompatibility::DataLoss { .. }));
    assert!(matches!(checker.check_compatibility("NUMERIC", "INTEGER"), TypeCompatibility::DataLoss { .. }));
    assert!(matches!(checker.check_compatibility("INTEGER", "SERIAL"), TypeCompatibility::Identical));
    assert!(matches!(checker.check_compatibility("INT", "INTEGER"), TypeCompatibility::Identical));
    assert!(matches!(checker.check_compatibility("integer", "SERIAL"), TypeCompatibility::Identical));
    assert!(matches!(checker.check_compatibility("NUMERIC(10,2)", "DECIMAL(10,2)"), TypeCompatibility::Identical));
}

#[test]
fn normalization_folds_aliases() {
    assert_eq!(normalize_type(" int4 "), "INTEGER");
    assert_eq!(normalize_type("character varying(20)"), "VARCHAR(20)");
    assert_eq!(normalize_type("timestamp with time zone"), "TIMESTAMPTZ");
    assert_eq!(normalize_type("boolean"), "BOOLEAN");
}

#[test]
fn matrix_lists_widenings_and_narrowings() {
    let text = TypeChecker::new().format_matrix();
    assert!(text.contains("  SMALLINT → BIGINT, DOUBLE PRECISION, INTEGER, NUMERIC, REAL\n"));
    assert!(text.contains("  BIGINT → INTEGER\n    Reason: May overflow: BIGINT max 9.2e18, INTEGER max 2.1e9\n"));
    assert!(text.contains("DATALOSS NARROWINGS (may lose data):"));
}
