use lib::alternatives_to_box_dyn::ast_enum::{Expression, Identifier, Program, Statement};
use lib::token::Token;

#[test]
fn test_enum_ast_construction() {
    let identifier = Expression::identifier(Token::Ident("x".to_string()), "x".to_string());
    let value = Expression::integer(Token::Int(5), 5);

    let let_stmt = Statement::let_statement(
        Token::Let,
        Identifier {
            token: Token::Ident("x".to_string()),
            name: "x".to_string(),
        },
        value,
    );

    let mut program = Program::new();
    program.statements.push(let_stmt);

    assert_eq!(program.statements.len(), 1);
    assert!(program.statements[0].as_let().is_some());
    let _ = identifier;
}

#[test]
fn test_operator_expression() {
    let left = Expression::integer(Token::Int(5), 5);
    let right = Expression::integer(Token::Int(10), 10);
    let op_expr = Expression::operator(left, Token::Plus, right);

    match op_expr {
        Expression::OperatorExpression(ref expr) => {
            assert_eq!(expr.operator, Token::Plus);
            assert!(expr.left.as_integer().is_some());
            assert!(expr.right.as_integer().is_some());
        }
        _ => panic!("Expected operator expression"),
    }
}
