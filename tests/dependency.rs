use stonescriptdb_gateway::dependency::DependencyAnalyzer;

#[test]
fn test_parse_simple_table() {
    let sql = r#"
            CREATE TABLE users (
                user_id SERIAL PRIMARY KEY,
                email VARCHAR(255) NOT NULL UNIQUE
            );
        "#;
    let analysis = DependencyAnalyzer::analyze_sql(sql).unwrap();
    assert_eq!(analysis.tables.len(), 1);
    assert_eq!(analysis.tables[0].name, "users");
    assert_eq!(analysis.tables[0].columns.len(), 2);
}

#[test]
fn test_parse_foreign_key() {
    let sql = r#"
            CREATE TABLE users (
                user_id SERIAL PRIMARY KEY
            );

            CREATE TABLE todos (
                todo_id SERIAL PRIMARY KEY,
                user_id INTEGER NOT NULL REFERENCES users(user_id) ON DELETE CASCADE
            );
        "#;
    let analysis = DependencyAnalyzer::analyze_sql(sql).unwrap();
    assert_eq!(analysis.tables.len(), 2);
    let todos = analysis.tables.iter().find(|t| t.name == "todos").unwrap();
    assert_eq!(todos.foreign_keys.len(), 1);
    assert_eq!(todos.foreign_keys[0].to_table, "users");
    assert_eq!(todos.foreign_keys[0].on_delete, Some("CASCADE".to_string()));
}

#[test]
fn test_creation_order() {
    let sql = r#"
            CREATE TABLE users (user_id SERIAL PRIMARY KEY);
            CREATE TABLE todos (
                todo_id SERIAL PRIMARY KEY,
                user_id INTEGER REFERENCES users(user_id)
            );
            CREATE TABLE todo_tags (
                todo_id INTEGER REFERENCES todos(todo_id),
                tag_id INTEGER REFERENCES tags(tag_id)
            );
            CREATE TABLE tags (tag_id SERIAL PRIMARY KEY);
        "#;
    let analysis = DependencyAnalyzer::analyze_sql(sql).unwrap();
    let user_pos = analysis.creation_order.iter().position(|x| x == "users").unwrap();
    let tags_pos = analysis.creation_order.iter().position(|x| x == "tags").unwrap();
    let todos_pos = analysis.creation_order.iter().position(|x| x == "todos").unwrap();
    let todo_tags_pos = analysis.creation_order.iter().position(|x| x == "todo_tags").unwrap();
    assert!(user_pos < todos_pos);
    assert!(tags_pos < todo_tags_pos);
    assert!(todos_pos < todo_tags_pos);
}

#[test]
fn columns_keys_and_comments() {
    let sql = r#"
        -- accounts hold money
        CREATE TABLE IF NOT EXISTS Accounts (
            id BIGSERIAL PRIMARY KEY,
            balance NUMERIC(10,2) NOT NULL DEFAULT 0, /* a comma, inside */
            owner_id INT,
            FOREIGN KEY (owner_id) REFERENCES owners(id) ON UPDATE SET NULL
        );
    "#;
    let analysis = DependencyAnalyzer::analyze_sql(sql).unwrap();
    assert_eq!(analysis.tables.len(), 1);
    let t = &analysis.tables[0];
    assert_eq!(t.name, "accounts");
    assert_eq!(t.columns.len(), 3);
    assert_eq!(t.columns[1].data_type, "NUMERIC(10,2)");
    assert!(!t.columns[1].is_nullable);
    assert!(t.columns[1].has_default);
    assert_eq!(t.primary_key, Some(vec!["id".to_string()]));
    assert_eq!(t.foreign_keys.len(), 1);
    assert_eq!(t.foreign_keys[0].to_table, "owners");
    assert_eq!(t.foreign_keys[0].on_update, Some("SET NULL".to_string()));
    assert_eq!(t.depends_on, vec!["owners".to_string()]);
    // the referenced table is not defined here: it is external and not ordered
    assert_eq!(analysis.creation_order, vec!["accounts".to_string()]);
    let report = DependencyAnalyzer::format_analysis(&analysis);
    assert!(report.contains("1. accounts"));
}

#[test]
fn cycle_is_refused() {
    let sql = "CREATE TABLE a (id INT, b_id INT REFERENCES b(id)); CREATE TABLE b (id INT, a_id INT REFERENCES a(id));";
    let err = DependencyAnalyzer::analyze_sql(sql).unwrap_err();
    assert_eq!(err, "Circular dependency detected - cannot determine creation order");
}

#[test]
fn fresh_deploy_order_users_then_posts() {
    let sql = "CREATE TABLE posts (id INT, user_id INT REFERENCES users(id));\nCREATE TABLE users (id INT PRIMARY KEY);";
    let analysis = DependencyAnalyzer::analyze_sql(sql).unwrap();
    assert_eq!(analysis.creation_order, vec!["users".to_string(), "posts".to_string()]);
    assert_eq!(analysis.reverse_dependencies[1].1, vec!["posts".to_string()]);
}

#[test]
fn text_without_references_always_orders() {
    let a = DependencyAnalyzer::analyze_sql("").unwrap();
    assert!(a.tables.is_empty());
    let a = DependencyAnalyzer::analyze_sql("CREATE TABLE b (id INT); CREATE TABLE a (id INT);").unwrap();
    assert_eq!(a.creation_order, vec!["a".to_string(), "b".to_string()]);
}
