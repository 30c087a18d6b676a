use stonescriptdb_gateway::dependency::DependencyAnalyzer;
use stonescriptdb_gateway::migration::{MigrationFile, MigrationRunner};

fn file(name: &str) -> MigrationFile {
    MigrationFile { name: name.to_string(), path: format!("migrations/{}", name), checksum: String::new() }
}

#[test]
fn migrations_follow_their_tables() {
    let runner = MigrationRunner::new();
    let files = vec![file("001_posts.pssql"), file("002_users.pssql"), file("003_misc.pssql")];
    let contents = vec![
        "CREATE TABLE posts (id INT, user_id INT REFERENCES users(id));",
        "CREATE TABLE users (id INT PRIMARY KEY);",
        "ALTER TABLE users ADD COLUMN x INT;",
    ];
    let tables: Vec<_> = contents.iter().map(|c| DependencyAnalyzer::analyze_sql(c).unwrap().tables).collect();
    let ordered = runner.order_by_dependencies(files, &tables).unwrap();
    let names: Vec<&str> = ordered.iter().map(|m| m.name.as_str()).collect();
    assert_eq!(names, vec!["002_users.pssql", "001_posts.pssql", "003_misc.pssql"]);
}

#[test]
fn migration_cycle_is_refused() {
    let runner = MigrationRunner::new();
    let files = vec![file("a.sql"), file("b.sql")];
    let contents = vec![
        "CREATE TABLE a (id INT, b INT REFERENCES b(id));",
        "CREATE TABLE b (id INT, a INT REFERENCES a(id));",
    ];
    let tables: Vec<_> = contents.iter().map(|c| DependencyAnalyzer::analyze_sql(c).unwrap().tables).collect();
    let err = runner.order_by_dependencies(files, &tables).unwrap_err();
    assert_eq!(err.to_string(), "Schema extraction failed: Circular dependency detected in migrations: a.sql, b.sql");
}

#[test]
fn converged_database_has_nothing_pending() {
    let runner = MigrationRunner::new();
    let files = vec![file("001.sql"), file("002.sql")];
    let applied = vec!["001.sql".to_string(), "002.sql".to_string()];
    assert!(runner.pending_migrations(&files, &applied).is_empty());
    let applied = vec!["001.sql".to_string()];
    assert_eq!(runner.pending_migrations(&files, &applied), vec![1]);
}

#[test]
fn forward_references_are_reported() {
    let runner = MigrationRunner::new();
    let a = "CREATE TABLE posts (id INT, user_id INT REFERENCES users(id));";
    let b = "CREATE TABLE users (id INT PRIMARY KEY);";
    let names = vec!["001_posts.sql".to_string(), "002_users.sql".to_string()];
    let tables = vec![
        DependencyAnalyzer::analyze_sql(a).unwrap().tables,
        DependencyAnalyzer::analyze_sql(b).unwrap().tables,
    ];
    let v = runner.validate_dependencies(&names, &tables).unwrap();
    assert!(!v.is_valid);
    assert_eq!(v.issues.len(), 1);
    assert_eq!(
        v.issues[0].message,
        "Table 'posts' in '001_posts.sql' references 'users' which is defined later in '002_users.sql'"
    );
    assert_eq!(v.suggested_order, vec!["users".to_string(), "posts".to_string()]);
}

#[test]
fn unrelated_migrations_keep_filename_order() {
    let runner = MigrationRunner::new();
    let files = vec![file("003_c.sql"), file("001_a.sql"), file("002_b.sql")];
    let tables = vec![vec![], vec![], vec![]];
    let ordered = runner.order_by_dependencies(files, &tables).unwrap();
    let names: Vec<&str> = ordered.iter().map(|m| m.name.as_str()).collect();
    assert_eq!(names, vec!["001_a.sql", "002_b.sql", "003_c.sql"]);
}

#[test]
fn valid_migrations_have_no_issues() {
    let runner = MigrationRunner::new();
    let names = vec!["001_users.sql".to_string(), "002_posts.sql".to_string()];
    let tables = vec![
        DependencyAnalyzer::analyze_sql("CREATE TABLE users (id INT);").unwrap().tables,
        DependencyAnalyzer::analyze_sql("CREATE TABLE posts (id INT, u INT REFERENCES users(id));").unwrap().tables,
    ];
    let v = runner.validate_dependencies(&names, &tables).unwrap();
    assert!(v.is_valid);
    assert!(v.issues.is_empty());
}
