use lib::alternatives_to_box_dyn::ast_enum::{Expression, Node, Statement};
use lib::alternatives_to_box_dyn::parser_enum::{
    parse_let_statement, parse_return_statement, Parser, ParserError,
};
use lib::token::Token;
use lib::lexer::Lexer;

#[test]
fn parser_enum_test_invalid_parse_let_statement() {
    let input = "let x = ;".to_string();
    let mut lexer = Lexer::new(input);
    let mut parser = Parser::new(&mut lexer);

    let result = parse_let_statement(&mut parser);
    assert!(result.is_err());
}

#[test]
fn enum_parser_reads_let_with_integer() {
    let mut lexer = Lexer::new("let x = 5;".to_string());
    let mut parser = Parser::new(&mut lexer);
    let stmt = parse_let_statement(&mut parser).unwrap();
    assert_eq!(stmt.name.name, "x");
    match stmt.value {
        Expression::IntegerLiteral(i) => assert_eq!(i.value, 5),
        _ => panic!("expected an integer literal"),
    }
}

#[test]
fn enum_parser_reports_grouping_as_unimplemented() {
    let mut lexer = Lexer::new("let x = (5);".to_string());
    let mut parser = Parser::new(&mut lexer);
    match parse_let_statement(&mut parser) {
        Err(ParserError::Unimplemented(message)) => {
            assert_eq!(message, "Parsing prefix expressions not implemented, got '('")
        }
        _ => panic!("expected an unimplemented error"),
    }
}

#[test]
fn enum_parser_skips_statements_in_error() {
    let mut lexer = Lexer::new("let  = 5; let five = ; let ten = 10;".to_string());
    let mut parser = Parser::new(&mut lexer);
    let program = parser.parse_program();
    assert_eq!(program.statements.len(), 1);
    assert_eq!(parser.errors.len(), 2);
    match &program.statements[0] {
        Statement::Let(stmt) => assert_eq!(stmt.name.name, "ten"),
        _ => panic!("expected a let statement"),
    }
}

#[test]
fn parser_enum_test_parse_let_statement() {
    let input = "let x = 5;".to_string();
    let mut lexer = Lexer::new(input);
    let mut parser = Parser::new(&mut lexer);

    let result = parse_let_statement(&mut parser);
    let let_stmt = result.unwrap();

    assert_eq!(let_stmt.token, Token::Let);
    assert_eq!(let_stmt.name.token_literal(), "Identifier(\"x\")");
    assert_eq!(let_stmt.value.token_literal(), "Int(5)");
}

#[test]
fn test_parse_let_with_operator_statement() {
    let input = "let x = 5 + 5;".to_string();
    let mut lexer = Lexer::new(input);
    let mut parser = Parser::new(&mut lexer);

    let result = parse_let_statement(&mut parser);
    let let_stmt = result.unwrap();

    assert_eq!(let_stmt.token, Token::Let);
    assert_eq!(let_stmt.name.token_literal(), "Identifier(\"x\")");
    assert_eq!(let_stmt.value.token_literal(), "Plus");
}

#[test]
fn parser_enum_test_program_let_statements() {
    let input = "let x = 5; let five = 5;let ten = 10;".to_string();
    let mut lexer = Lexer::new(input);
    let mut parser = Parser::new(&mut lexer);

    let program = parser.parse_program();
    assert_eq!(program.statements.len(), 3);
    assert_eq!(parser.errors.len(), 0);
    let statement = &program.statements[0];
    assert_eq!(statement.token_literal(), "Let");
}

#[test]
fn test_program_with_error() {
    let input = "let  = 5; let five = ; let ten = 10;".to_string();
    let mut lexer = Lexer::new(input);
    let mut parser = Parser::new(&mut lexer);

    let program = parser.parse_program();
    assert_eq!(program.statements.len(), 1);
    assert_eq!(parser.errors.len(), 2);

    let statement = &program.statements[0];
    assert_eq!(statement.token_literal(), "Let");
}

#[test]
fn parser_enum_test_program_return_statement() {
    let input = "return 12; ".to_string();
    let mut lexer = Lexer::new(input);
    let mut parser = Parser::new(&mut lexer);

    let result = parse_return_statement(&mut parser);
    let ret_stmt = result.unwrap();

    assert_eq!(ret_stmt.token, Token::Return);
    assert_eq!(ret_stmt.value.token_literal(), "Int(12)");
}

#[test]
fn enum_parser_stops_where_input_ends_inside_a_statement() {
    for input in ["let", "let x", "let x =", "return", "return 5", "let x = 5 +"] {
        let mut lexer = Lexer::new(input.to_string());
        let mut parser = Parser::new(&mut lexer);
        let _program = parser.parse_program();
        assert!(parser.cut_off, "{}", input);
    }
    let mut lexer = Lexer::new("let x = 5; return 1;".to_string());
    let mut parser = Parser::new(&mut lexer);
    let program = parser.parse_program();
    assert!(!parser.cut_off);
    assert_eq!(program.statements.len(), 2);
}

#[test]
fn enum_tree_literals_name_the_token_kind() {
    let mut lexer = Lexer::new("let y = 7 * 3;".to_string());
    let mut parser = Parser::new(&mut lexer);
    let stmt = parse_let_statement(&mut parser).unwrap();
    assert_eq!(stmt.token_literal(), "Let");
    assert_eq!(stmt.value.token_literal(), "Asterisk");
}

#[test]
fn enum_parser_reads_tokens_one_at_a_time() {
    let mut lexer = Lexer::new("return 1; let y = 2;".to_string());
    {
        let mut parser = Parser::new(&mut lexer);
        parse_return_statement(&mut parser).unwrap();
        assert_eq!(parser.curr_token, Some(Token::Semicolon));
        assert_eq!(parser.peek_token, Some(Token::Let));
    }
    assert_eq!(lexer.next_token(), Token::Ident("y".to_string()));
}
