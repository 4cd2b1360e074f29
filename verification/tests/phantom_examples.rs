use lib::alternatives_to_box_dyn::phantom_examples::{
    Database, ExpressionNode, LenientMode, Parser, PersonBuilder, SafeBox, StatementNode,
    StrictMode,
};

#[test]
fn test_safe_box_state_machine() {
    let locked_box = SafeBox::new("secret data".to_string());

    // This would fail to compile: locked_box.get_contents();

    let unlocked_box = locked_box.unlock("secret").unwrap();
    assert_eq!(unlocked_box.get_contents(), "secret data");

    let _locked_again = unlocked_box.lock();
}

#[test]
fn test_parser_strategies() {
    let strict_parser = Parser::<StrictMode>::new();
    let lenient_parser = Parser::<LenientMode>::new();

    assert!(strict_parser.parse("abc").is_err());
    assert_eq!(strict_parser.parse("123").unwrap(), 123);

    assert_eq!(lenient_parser.parse("abc123def456"), 123456);
    assert_eq!(lenient_parser.parse("no digits"), 0);
}

#[test]
fn test_database_connection_states() {
    let db = Database::new("localhost:5432".to_string());

    // This would fail to compile: db.query("SELECT * FROM users");

    let connected_db = db.connect().unwrap();
    let results = connected_db.query("SELECT * FROM users");
    assert_eq!(results.len(), 2);

    let _disconnected_db = connected_db.disconnect();
}

#[test]
fn test_ast_node_types() {
    let expr = ExpressionNode::new("x + y".to_string(), 1, 5);
    let stmt = StatementNode::new("let x = 5".to_string(), 2, 1);

    assert_eq!(expr.evaluate(), 42);
    stmt.execute();
}

#[test]
fn test_builder_pattern() {
    // This would fail to compile because name is missing:
    // let person = PersonBuilder::new().age(25).build();

    let person = PersonBuilder::new()
        .name("Alice".to_string())
        .age(25)
        .build();

    assert_eq!(person.name, "Alice");
    assert_eq!(person.age, 25);
}
