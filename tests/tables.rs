use stonescriptdb_gateway::tables::{TableAction, TableDefinition, TableDeployer};

fn table(name: &str, path: &str, sql: &str, checksum: &str, deps: &[&str]) -> TableDefinition {
    TableDefinition {
        name: name.to_string(),
        file_path: path.to_string(),
        sql: sql.to_string(),
        checksum: checksum.to_string(),
        depends_on: deps.iter().map(|d| d.to_string()).collect(),
    }
}

#[test]
fn test_order_by_dependencies() {
    let deployer = TableDeployer::new();
    let tables = vec![
        table("posts", "posts.pssql", "CREATE TABLE posts...", "abc", &["users"]),
        table("users", "users.pssql", "CREATE TABLE users...", "def", &[]),
        table("comments", "comments.pssql", "CREATE TABLE comments...", "ghi", &["users", "posts"]),
    ];
    let ordered = deployer.order_by_dependencies(tables).unwrap();
    let user_idx = ordered.iter().position(|t| t.name == "users").unwrap();
    let post_idx = ordered.iter().position(|t| t.name == "posts").unwrap();
    let comment_idx = ordered.iter().position(|t| t.name == "comments").unwrap();
    assert!(user_idx < post_idx);
    assert!(user_idx < comment_idx);
    assert!(post_idx < comment_idx);
}

#[test]
fn test_circular_dependency_detection() {
    let deployer = TableDeployer::new();
    let tables = vec![
        table("a", "a.pssql", "CREATE TABLE a...", "abc", &["b"]),
        table("b", "b.pssql", "CREATE TABLE b...", "def", &["a"]),
    ];
    let result = deployer.order_by_dependencies(tables);
    assert!(result.is_err());
    assert!(result.unwrap_err().to_string().contains("Circular dependency"));
}

#[test]
fn cycle_error_lists_the_tables() {
    let deployer = TableDeployer::new();
    let tables = vec![
        table("a", "a.pssql", "", "", &["b"]),
        table("b", "b.pssql", "", "", &["a"]),
        table("c", "c.pssql", "", "", &[]),
    ];
    let err = deployer.order_by_dependencies(tables).unwrap_err();
    assert_eq!(
        err.to_string(),
        "Schema extraction failed: Circular dependency detected: a, b"
    );
    assert_eq!(err.status_code(), 400);
}

#[test]
fn order_is_lexical_among_ready_tables() {
    let deployer = TableDeployer::new();
    let tables = vec![
        table("zeta", "", "", "", &[]),
        table("alpha", "", "", "", &["zeta"]),
        table("beta", "", "", "", &["external_table"]),
        table("self_ref", "", "", "", &["self_ref"]),
    ];
    let names: Vec<String> = deployer
        .order_by_dependencies(tables)
        .unwrap()
        .into_iter()
        .map(|t| t.name)
        .collect();
    assert_eq!(names, vec!["beta", "self_ref", "zeta", "alpha"]);
}

#[test]
fn table_actions() {
    let d = TableDeployer::new();
    assert_eq!(d.table_action(Some("abc"), true, "abc"), TableAction::Skip);
    assert_eq!(d.table_action(Some("abc"), true, "xyz"), TableAction::AdoptChanged);
    assert_eq!(d.table_action(None, true, "xyz"), TableAction::Adopt);
    assert_eq!(d.table_action(None, false, "xyz"), TableAction::Create);
}
