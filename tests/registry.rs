use stonescriptdb_gateway::api::platform::PlatformState;
use stonescriptdb_gateway::registry::{add_schema_name, is_valid_store_name, PlatformRegistry, SchemaStore};

#[test]
fn store_paths() {
    let store = SchemaStore::new("/data");
    assert_eq!(store.schema_dir("app", "main"), "/data/app/main");
    assert_eq!(store.tables_dir("app", "main"), "/data/app/main/tables");
    assert_eq!(store.migrations_dir("app", "main"), "/data/app/main/migrations");
    let reg = PlatformRegistry::new("/data/");
    assert_eq!(reg.platform_dir("app"), "/data/app");
    assert_eq!(reg.platform_json_path("app"), "/data/app/platform.json");
    let state = PlatformState::new("d");
    assert_eq!(state.schema_store.functions_dir("p", "s"), "d/p/s/functions");
}

#[test]
fn names_and_schema_lists() {
    assert!(is_valid_store_name("app_1"));
    assert!(!is_valid_store_name("test-app"));
    assert!(!is_valid_store_name("test app"));
    assert!(!is_valid_store_name(""));
    let mut schemas = vec!["main".to_string()];
    add_schema_name(&mut schemas, "tenant");
    add_schema_name(&mut schemas, "main");
    assert_eq!(schemas, vec!["main".to_string(), "tenant".to_string()]);
}

#[test]
fn stored_schema_reports_its_folders() {
    let store = SchemaStore::new("/data");
    let folders = vec!["tables".to_string(), "functions".to_string()];
    let s = store.get_schema("app", "main", Some(&folders), "abc123").unwrap();
    assert_eq!(s.checksum, "abc123");
    assert_eq!(s.path, "/data/app/main");
    assert!(s.has_tables && s.has_functions);
    assert!(!s.has_migrations && !s.has_seeders && !s.has_types && !s.has_extensions);
    let err = store.get_schema("app", "nope", None, "").unwrap_err();
    assert_eq!(err.to_string(), "Invalid request: Schema 'nope' not found for platform 'app'");
}
