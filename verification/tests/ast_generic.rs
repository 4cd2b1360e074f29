use lib::alternatives_to_box_dyn::ast_generic::{
    ComplexExpression, ComplexProgram, ComplexStatement, ExpressionBuilder, Identifier,
    IntegerLiteral, LetStatement, Program, StatementBuilder,
};
use lib::token::Token;

#[test]
fn test_simple_generic_ast() {
    let value = IntegerLiteral {
        token: Token::Int(5),
        value: 5,
    };

    let let_stmt = LetStatement {
        token: Token::Let,
        name: Identifier {
            token: Token::Ident("x".to_string()),
            name: "x".to_string(),
        },
        value,
    };

    let mut program = Program::new();
    program.add_statement(let_stmt);

    assert_eq!(program.statements.len(), 1);
    assert_eq!(program.statements[0].name.name, "x");
}

#[test]
fn test_complex_expression_building() {
    let left = ExpressionBuilder::integer(Token::Int(5), 5);
    let right = ExpressionBuilder::integer(Token::Int(10), 10);
    let expr = ExpressionBuilder::infix(left, Token::Plus, right);

    match expr {
        ComplexExpression::Infix(infix) => {
            assert_eq!(infix.operator, Token::Plus);
            assert!(matches!(infix.left, ComplexExpression::Integer(_)));
            assert!(matches!(infix.right, ComplexExpression::Integer(_)));
        }
        _ => panic!("Expected infix expression"),
    }
}

#[test]
fn test_complex_program() {
    let value = ExpressionBuilder::integer(Token::Int(42), 42);
    let let_stmt = StatementBuilder::let_statement(
        Token::Let,
        Identifier {
            token: Token::Ident("answer".to_string()),
            name: "answer".to_string(),
        },
        value,
    );

    let mut program = ComplexProgram::new();
    program.add_statement(let_stmt);

    assert_eq!(program.statements.len(), 1);
    match &program.statements[0] {
        ComplexStatement::Let(stmt) => {
            assert_eq!(stmt.name.name, "answer");
            match &stmt.value {
                ComplexExpression::Integer(lit) => assert_eq!(lit.value, 42),
                _ => panic!("Expected integer literal"),
            }
        }
        _ => panic!("Expected let statement"),
    }
}
