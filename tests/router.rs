use stonescriptdb_gateway::router::{
    format_database_name, is_valid_function_name, is_valid_identifier, sanitize_identifier,
    DatabaseRouter, DatabaseType,
};

#[test]
fn test_valid_function_name() {
    assert!(is_valid_function_name("get_patient_by_id"));
    assert!(is_valid_function_name("list_appointments"));
    assert!(is_valid_function_name("_internal_fn"));

    assert!(!is_valid_function_name(""));
    assert!(!is_valid_function_name("DROP TABLE users; --"));
    assert!(!is_valid_function_name("Get_Patient"));
    assert!(!is_valid_function_name("123_fn"));
}

#[test]
fn test_valid_identifier() {
    assert!(is_valid_identifier("medstoreapp_main"));
    assert!(is_valid_identifier("medstoreapp_clinic_001"));
    assert!(is_valid_identifier("_test"));

    assert!(!is_valid_identifier(""));
    assert!(!is_valid_identifier("DROP TABLE"));
    assert!(!is_valid_identifier("1_test"));
    assert!(!is_valid_identifier("Test_DB"));
}

#[test]
fn identifier_length_limits() {
    let ok = "a".repeat(63);
    let too_long = "a".repeat(64);
    assert!(is_valid_identifier(&ok));
    assert!(!is_valid_identifier(&too_long));
    assert!(!is_valid_identifier("bad;name"));
    assert!(!is_valid_identifier("quote'name"));
}

#[test]
fn test_database_name_main() {
    let router = DatabaseRouter::new();
    assert_eq!(router.database_name("myapp", None), "myapp_main");
    assert_eq!(router.database_name("institute-app", None), "institute_app_main");
}

#[test]
fn test_database_name_tenant() {
    let router = DatabaseRouter::new();
    assert_eq!(router.database_name("myapp", Some("clinic_001")), "myapp_clinic_001");
    assert_eq!(router.database_name("myapp", Some("clinic-002")), "myapp_clinic_002");
}

#[test]
fn test_belongs_to_platform() {
    let router = DatabaseRouter::new();
    assert!(router.belongs_to_platform("myapp_main", "myapp"));
    assert!(router.belongs_to_platform("myapp_clinic_001", "myapp"));
    assert!(!router.belongs_to_platform("platformb_main", "myapp"));
}

#[test]
fn test_is_main_database() {
    let router = DatabaseRouter::new();
    assert!(router.is_main_database("myapp_main"));
    assert!(!router.is_main_database("myapp_clinic_001"));
}

#[test]
fn test_tenant_id_from_database() {
    let router = DatabaseRouter::new();
    assert_eq!(
        router.tenant_id_from_database("myapp_clinic_001", "myapp"),
        Some("clinic_001".to_string())
    );
    assert_eq!(router.tenant_id_from_database("myapp_main", "myapp"), None);
    assert_eq!(router.tenant_id_from_database("other_main", "myapp"), None);
}

#[test]
fn test_sanitize_identifier() {
    assert_eq!(sanitize_identifier("MedStoreApp"), "medstoreapp");
    assert_eq!(sanitize_identifier("clinic-001"), "clinic_001");
    assert_eq!(sanitize_identifier("test app"), "test_app");
    assert_eq!(sanitize_identifier("__test__"), "test");
    assert_eq!(sanitize_identifier("--"), "");
}

#[test]
fn platform_and_type_from_name() {
    let router = DatabaseRouter::new();
    assert_eq!(router.platform_from_database("myapp_clinic_001"), Some("myapp".to_string()));
    assert_eq!(router.platform_from_database("plain"), None);
    assert_eq!(router.database_type("myapp_main"), DatabaseType::Main);
    assert_eq!(router.database_type("myapp_t1"), DatabaseType::Tenant);
    assert_eq!(format_database_name("app", Some("t1")), "app_t1");
    assert_eq!(format_database_name("app", None), "app_main");
}
