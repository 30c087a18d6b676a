use stonescriptdb_gateway::functions::{FunctionDeployer, FunctionRecord};

fn record(name: &str, types: &str, body: &str, file: &str) -> FunctionRecord {
    FunctionRecord {
        function_name: name.to_string(),
        param_types: types.to_string(),
        body_checksum: body.to_string(),
        source_file: file.to_string(),
    }
}

const V1: &str = "CREATE OR REPLACE FUNCTION get_user(p_id INT) RETURNS TABLE(id INT) AS $$ SELECT 1 $$ LANGUAGE sql;";
const V2: &str = "CREATE OR REPLACE FUNCTION get_user(p_user_id INT) RETURNS TABLE(id INT) AS $$ SELECT 1 $$ LANGUAGE sql;";
const V3: &str = "CREATE OR REPLACE FUNCTION get_user(p_id INT, p_include_deleted BOOLEAN DEFAULT FALSE) RETURNS TABLE(id INT) AS $$ SELECT 1 $$ LANGUAGE sql;";

#[test]
fn signature_of_a_function_file() {
    let d = FunctionDeployer::new();
    let sig = d.parse_function_signature(V3).unwrap();
    assert_eq!(sig.name, "get_user");
    assert_eq!(sig.params.len(), 2);
    assert_eq!(sig.params[1].name, Some("p_include_deleted".to_string()));
    assert!(sig.params[1].has_default);
    assert_eq!(sig.return_type, "TABLE(id INT)");
    assert_eq!(sig.drop_signature(), "get_user(INT, BOOLEAN)");
}

#[test]
fn drop_signature_ignores_names_and_modes() {
    let d = FunctionDeployer::new();
    let a = d.parse_function_signature("CREATE FUNCTION f(IN a INT, b TEXT, OUT c INT) RETURNS INT AS $$ $$").unwrap();
    let b = d.parse_function_signature("create function f(x INT, TEXT) returns int as $$ $$").unwrap();
    assert_eq!(a.drop_signature(), "f(INT, TEXT)");
    assert_eq!(a.drop_signature(), b.drop_signature());
    assert!(d.parse_function_signature("SELECT 1;").is_none());
}

#[test]
fn parameter_rename_redeploys_without_drop() {
    let d = FunctionDeployer::new();
    let old = d.parse_function_signature(V1).unwrap();
    let new = d.parse_function_signature(V2).unwrap();
    assert_ne!(old.body_checksum, new.body_checksum);
    let rows = vec![record("get_user", &old.param_types(), &old.body_checksum, "get_user.pssql")];
    let plan = d.plan_deploy(&new, "get_user.pssql", &rows);
    assert!(!plan.skip);
    assert!(plan.drops.is_empty());
    assert!(plan.execute);
}

#[test]
fn parameter_added_drops_old_overload_once() {
    let d = FunctionDeployer::new();
    let old = d.parse_function_signature(V1).unwrap();
    let new = d.parse_function_signature(V3).unwrap();
    let rows = vec![record("get_user", &old.param_types(), &old.body_checksum, "get_user.pssql")];
    let plan = d.plan_deploy(&new, "get_user.pssql", &rows);
    assert_eq!(plan.drops, vec!["DROP FUNCTION IF EXISTS get_user(INT)".to_string()]);
    assert_eq!(plan.retired, vec![0]);
    assert!(plan.execute);
}

#[test]
fn unchanged_function_is_skipped() {
    let d = FunctionDeployer::new();
    let sig = d.parse_function_signature(V1).unwrap();
    let rows = vec![record("get_user", &sig.param_types(), &sig.body_checksum, "get_user.pssql")];
    let plan = d.plan_deploy(&sig, "get_user.pssql", &rows);
    assert!(plan.skip);
    assert!(!plan.execute);
    assert!(plan.drops.is_empty());
}

#[test]
fn parameters_are_read_with_modes_and_defaults() {
    let d = FunctionDeployer::new();
    let sig = d
        .parse_function_signature("CREATE FUNCTION f(INOUT a NUMERIC(10,2), DOUBLE PRECISION, b INT = 3) RETURNS INT AS $$ $$")
        .unwrap();
    assert_eq!(sig.params.len(), 3);
    assert_eq!(sig.params[0].param_type, "NUMERIC(10,2)");
    assert_eq!(sig.params[0].name, Some("a".to_string()));
    assert_eq!(sig.params[1].param_type, "DOUBLE PRECISION");
    assert_eq!(sig.params[1].name, None);
    assert!(sig.params[2].has_default);
    assert_eq!(sig.drop_signature(), "f(NUMERIC(10,2), DOUBLE PRECISION, INT)");
    assert!(d.parse_function_signature("CREATE FUNCTION f(a INT").is_none());
}
