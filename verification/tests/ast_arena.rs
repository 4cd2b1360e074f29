use lib::alternatives_to_box_dyn::ast_arena::{
    Arena, AstBuilder, AstWalker, Expression, Identifier, Program, Statement, Visitor,
};
use lib::token::Token;

#[test]
fn test_arena_ast_construction() {
    let mut arena = Arena::new();
    let mut builder = AstBuilder::new(&mut arena);

    // Build: let x = 5;
    let value_id = builder.integer_literal(Token::Int(5), 5);
    let let_stmt_id = builder.let_statement(
        Token::Let,
        Identifier {
            token: Token::Ident("x".to_string()),
            name: "x".to_string(),
        },
        value_id,
    );

    let mut program = Program::new();
    program.add_statement(let_stmt_id);

    assert_eq!(program.statements.len(), 1);

    let stmt = arena.get_statement(let_stmt_id).unwrap();
    match stmt {
        Statement::Let(let_stmt) => {
            assert_eq!(let_stmt.name.name, "x");
            let value_expr = arena.get_expression(let_stmt.value).unwrap();
            match value_expr {
                Expression::IntegerLiteral(int_lit) => {
                    assert_eq!(int_lit.value, 5);
                }
                _ => panic!("Expected integer literal"),
            }
        }
        _ => panic!("Expected let statement"),
    }
}

#[test]
fn test_infix_expression() {
    let mut arena = Arena::new();
    let mut builder = AstBuilder::new(&mut arena);

    // Build: 5 + 10
    let left_id = builder.integer_literal(Token::Int(5), 5);
    let right_id = builder.integer_literal(Token::Int(10), 10);
    let infix_id = builder.infix_expression(Token::Plus, left_id, "+".to_string(), right_id);

    let expr = arena.get_expression(infix_id).unwrap();
    match expr {
        Expression::InfixExpression(infix) => {
            assert_eq!(infix.operator, "+");

            let left_expr = arena.get_expression(infix.left).unwrap();
            let right_expr = arena.get_expression(infix.right).unwrap();

            match (left_expr, right_expr) {
                (
                    Expression::IntegerLiteral(left_lit),
                    Expression::IntegerLiteral(right_lit),
                ) => {
                    assert_eq!(left_lit.value, 5);
                    assert_eq!(right_lit.value, 10);
                }
                _ => panic!("Expected integer literals"),
            }
        }
        _ => panic!("Expected infix expression"),
    }
}

struct PrintVisitor {
    output: String,
}

impl PrintVisitor {
    fn new() -> Self {
        PrintVisitor {
            output: String::new(),
        }
    }
}

impl Visitor<()> for PrintVisitor {
    fn visit_program(&mut self, program: &Program, arena: &Arena) -> () {
        self.output.push_str("Program:\n");
        for stmt_id in &program.statements {
            if let Some(stmt) = arena.get_statement(*stmt_id) {
                self.visit_statement(stmt, arena);
            }
        }
    }

    fn visit_statement(&mut self, statement: &Statement, arena: &Arena) -> () {
        match statement {
            Statement::Let(let_stmt) => {
                self.output
                    .push_str(&format!("Let {} = ", let_stmt.name.name));
                if let Some(expr) = arena.get_expression(let_stmt.value) {
                    self.visit_expression(expr, arena);
                }
                self.output.push_str(";\n");
            }
            Statement::Return(ret_stmt) => {
                self.output.push_str("Return ");
                if let Some(expr) = arena.get_expression(ret_stmt.value) {
                    self.visit_expression(expr, arena);
                }
                self.output.push_str(";\n");
            }
            _ => {}
        }
    }

    fn visit_expression(&mut self, expression: &Expression, arena: &Arena) -> () {
        match expression {
            Expression::IntegerLiteral(int_lit) => {
                self.output.push_str(&int_lit.value.to_string());
            }
            Expression::Identifier(ident) => {
                self.output.push_str(&ident.name);
            }
            Expression::InfixExpression(infix) => {
                self.output.push('(');
                if let Some(left) = arena.get_expression(infix.left) {
                    self.visit_expression(left, arena);
                }
                self.output.push_str(&format!(" {} ", infix.operator));
                if let Some(right) = arena.get_expression(infix.right) {
                    self.visit_expression(right, arena);
                }
                self.output.push(')');
            }
            _ => {}
        }
    }
}

#[test]
fn test_visitor_pattern() {
    let mut arena = Arena::new();
    let mut builder = AstBuilder::new(&mut arena);

    let value_id = builder.integer_literal(Token::Int(42), 42);
    let let_stmt_id = builder.let_statement(
        Token::Let,
        Identifier {
            token: Token::Ident("answer".to_string()),
            name: "answer".to_string(),
        },
        value_id,
    );

    let mut program = Program::new();
    program.add_statement(let_stmt_id);

    let mut visitor = PrintVisitor::new();
    AstWalker::walk_program(&program, &arena, &mut visitor);

    assert!(visitor.output.contains("Let answer = 42;"));
}
