use lib::alternatives_to_box_dyn::ast_arena::{
    Arena, Expression as ArenaExpression, IntegerLiteral as ArenaInteger,
    ReturnStatement as ArenaReturn, Statement as ArenaStatement,
};
use lib::lexer::Lexer;
use lib::ast::{Expression, Identifier};
use lib::parser::{parse_infix_expression, Parser, ParserError};
use lib::token::Token;

struct Finished {
    curr_token: Option<Token>,
    peek_token: Option<Token>,
    cut_off: bool,
}

impl Finished {
    fn cut_off_call(&self) -> bool {
        self.cut_off
    }
}

fn parse(input: &str) -> (String, Vec<ParserError>, Finished) {
    let mut lexer = Lexer::new(input.to_string());
    let mut parser = Parser::new(&mut lexer);
    let program = parser.parse_program();
    let errors = parser.errors.clone();
    let finished = Finished {
        curr_token: parser.curr_token.clone(),
        peek_token: parser.peek_token.clone(),
        cut_off: parser.cut_off_call(),
    };
    (program.to_string(), errors, finished)
}

#[test]
fn stronger_operator_takes_its_operands_first() {
    let (text, _, _) = parse("a + b * c;");
    assert_eq!(text, "(a + (b * c))\n");
    let (text, _, _) = parse("a * b + c;");
    assert_eq!(text, "((a * b) + c)\n");
}

#[test]
fn equal_operators_group_to_the_left() {
    let (text, _, _) = parse("a - b - c;");
    assert_eq!(text, "((a - b) - c)\n");
    let (text, _, _) = parse("a == b != c;");
    assert_eq!(text, "((a == b) != c)\n");
}

#[test]
fn semicolon_after_expression_statement_is_read_as_a_statement() {
    let (text, errors, _) = parse("a + b * c;");
    assert_eq!(text, "(a + (b * c))\n");
    assert_eq!(
        errors,
        vec![ParserError::NoPrefixExpressionFound(
            "Expected a prefix expression token, got ;".to_string()
        )]
    );
}

#[test]
fn printed_expression_reads_back() {
    for input in [
        "((a + b) * (!true))",
        "(-(5 + x))",
        "((1 < 2) == (3 > 4))",
        "(((a * b) / c) - (-d))",
        "false",
        "42",
    ] {
        let (text, errors, _) = parse(input);
        assert!(errors.is_empty());
        assert_eq!(text, format!("{}\n", input));
    }
}

#[test]
fn program_is_read_to_the_end() {
    let (_, errors, parser) = parse("let x = ; let y = 2; return y;");
    assert_eq!(errors.len(), 1);
    assert!(parser.curr_token.is_none());
    assert!(parser.peek_token.is_none());
    assert!(!parser.cut_off_call());
}

#[test]
fn call_cut_off_by_end_of_input_stops_parsing() {
    let (_, _, parser) = parse("add(");
    assert!(parser.cut_off_call());
    let (text, errors, parser) = parse("add()");
    assert!(!parser.cut_off_call());
    assert!(errors.is_empty());
    assert_eq!(text, "add()\n");
}

#[test]
fn open_paren_at_end_outside_a_call_is_an_error() {
    let (_, errors, parser) = parse("a + (");
    assert!(!parser.cut_off_call());
    assert_eq!(
        errors,
        vec![ParserError::UnexpectedToken(
            "Expected prefix expression token, got EOF".to_string()
        )]
    );
}

#[test]
fn arena_add_then_get() {
    let mut arena = Arena::new();
    let first = arena.add_expression(ArenaExpression::IntegerLiteral(ArenaInteger {
        token: Token::Int(1),
        value: 1,
    }));
    let second = arena.add_expression(ArenaExpression::IntegerLiteral(ArenaInteger {
        token: Token::Int(2),
        value: 2,
    }));
    assert_eq!(first, 0);
    assert_eq!(second, 1);
    let stmt = arena.add_statement(ArenaStatement::Return(ArenaReturn {
        token: Token::Return,
        value: second,
    }));
    assert_eq!(stmt, 0);
    match arena.get_expression(first) {
        Some(ArenaExpression::IntegerLiteral(i)) => assert_eq!(i.value, 1),
        _ => panic!("expected the first literal"),
    }
    match arena.get_expression(second) {
        Some(ArenaExpression::IntegerLiteral(i)) => assert_eq!(i.value, 2),
        _ => panic!("expected the second literal"),
    }
    assert!(arena.get_expression(2).is_none());
    match arena.get_statement(stmt) {
        Some(ArenaStatement::Return(r)) => assert_eq!(r.value, second),
        _ => panic!("expected the return statement"),
    }
    if let Some(ArenaExpression::IntegerLiteral(i)) = arena.get_expression_mut(first) {
        i.value = 7;
    }
    match arena.get_expression(first) {
        Some(ArenaExpression::IntegerLiteral(i)) => assert_eq!(i.value, 7),
        _ => panic!("expected the changed literal"),
    }
}

#[test]
fn only_input_ending_in_open_paren_stops_parsing() {
    for input in ["add(1, 2", "add(1,", "a + (", "(", "if (x) { f( }", ""] {
        let (_, _, parser) = parse(input);
        assert!(!parser.cut_off_call(), "{}", input);
        assert!(parser.curr_token.is_none());
    }
    for input in ["f(", "a + b(", "let x = f(", "f(x) + ("] {
        let (_, _, parser) = parse(input);
        assert!(parser.cut_off_call(), "{}", input);
    }
}

#[test]
fn infix_expression_is_none_without_an_operator() {
    let left = || {
        Expression::identifier(Identifier {
            token: Token::Ident("a".to_string()),
            name: "a".to_string(),
        })
    };
    let mut lexer = Lexer::new("a;".to_string());
    let mut parser = Parser::new(&mut lexer);
    assert!(parse_infix_expression(&mut parser, left()).unwrap().is_none());
    assert_eq!(parser.curr_token, Some(Token::Ident("a".to_string())));

    let mut lexer = Lexer::new("a * 2".to_string());
    let mut parser = Parser::new(&mut lexer);
    let e = parse_infix_expression(&mut parser, left()).unwrap().unwrap();
    assert_eq!(e.to_string(), "(a * 2)");
    assert_eq!(parser.curr_token, Some(Token::Int(2)));
}

#[test]
fn new_parser_reads_only_its_first_two_tokens() {
    let mut lexer = Lexer::new("let x = 5;".to_string());
    {
        let parser = Parser::new(&mut lexer);
        assert_eq!(parser.curr_token, Some(Token::Let));
        assert_eq!(parser.peek_token, Some(Token::Ident("x".to_string())));
    }
    assert_eq!(lexer.next_token(), Token::Assign);
    assert_eq!(lexer.next_token(), Token::Int(5));
}
