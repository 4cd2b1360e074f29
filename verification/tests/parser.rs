use lib::lexer::Lexer;
use lib::parser::{
    parse_expression_statement, parse_let_statement, parse_return_statement, Parser, ParserError,
};
use lib::token::Token;

#[test]
fn parser_test_parse_let_statement() {
    let input = "let x = 5;".to_string();
    let mut lexer = Lexer::new(input);
    let mut parser = Parser::new(&mut lexer);

    let result = parse_let_statement(&mut parser);
    let let_stmt = result.unwrap();

    assert_eq!(let_stmt.token_literal(), "let");
    assert_eq!(let_stmt.identifier.token_literal(), "x");
    assert_eq!(let_stmt.value.token_literal(), "5");
}

#[test]
fn test_parse_let_statement_with_infix_expression() {
    let input = "let x = 5 + 5;".to_string();
    let mut lexer = Lexer::new(input);
    let mut parser = Parser::new(&mut lexer);

    let result = parse_let_statement(&mut parser);
    let let_stmt = result.unwrap();

    assert_eq!(let_stmt.token_literal(), "let");
    assert_eq!(let_stmt.identifier.token_literal(), "x");
    assert_eq!(let_stmt.value.token_literal(), "+");
}

#[test]
fn parser_test_invalid_parse_let_statement() {
    let input = "let x = ;".to_string();
    let mut lexer = Lexer::new(input);
    let mut parser = Parser::new(&mut lexer);

    let result = parse_let_statement(&mut parser);
    assert!(result.is_err());
}

#[test]
fn parser_test_program_let_statements() {
    let input = "let x = 5; let five = 5;let ten = 10;".to_string();
    let mut lexer = Lexer::new(input);
    let mut parser = Parser::new(&mut lexer);

    let program = parser.parse_program();
    assert_eq!(program.statements.len(), 3);
    assert_eq!(parser.errors.len(), 0);

    let let_stmt = program.statements[0].as_let().unwrap();

    assert_eq!(let_stmt.token_literal(), "let");
    assert_eq!(let_stmt.identifier.name, "x");
    assert_eq!(let_stmt.value.token_literal(), "5");
}

#[test]
fn test_program_with_errors() {
    let input = "let  = 5; let five = ; let ten = true;".to_string();
    let mut lexer = Lexer::new(input);
    let mut parser = Parser::new(&mut lexer);

    let program = parser.parse_program();
    assert_eq!(program.statements.len(), 1);
    assert_eq!(parser.errors.len(), 2);

    let let_stmt = program.statements[0].as_let().unwrap();
    assert_eq!(let_stmt.token_literal(), "let");
    assert_eq!(let_stmt.identifier.name, "ten");
    assert_eq!(let_stmt.value.token_literal(), "true");

    assert_eq!(
        parser.errors[0],
        ParserError::UnexpectedToken("Expected identifier, got =".to_string())
    );
    assert_eq!(
        parser.errors[1],
        ParserError::NoPrefixExpressionFound(
            "Expected a prefix expression token, got ;".to_string()
        )
    );
}

#[test]
fn parser_test_program_return_statement() {
    let input = "return 12; ".to_string();
    let mut lexer = Lexer::new(input);
    let mut parser = Parser::new(&mut lexer);

    let result = parse_return_statement(&mut parser);
    let ret_stmt = result.unwrap();

    assert_eq!(ret_stmt.token_literal(), "return");
    assert_eq!(ret_stmt.value.token_literal(), "12");
}

#[test]
fn test_infix_expression_statement() {
    let tests = [
        ("5 + 5;", "5", Token::Plus, "5", "(5 + 5)"),
        ("5-5;", "5", Token::Minus, "5", "(5 - 5)"),
        ("5*5;", "5", Token::Asterisk, "5", "(5 * 5)"),
        ("5 / 5;", "5", Token::Slash, "5", "(5 / 5)"),
        ("5 < 5;", "5", Token::LessThan, "5", "(5 < 5)"),
        ("5 > 5;", "5", Token::GreaterThan, "5", "(5 > 5)"),
        ("5 == 5;", "5", Token::Equal, "5", "(5 == 5)"),
        ("5 != 5;", "5", Token::NotEqual, "5", "(5 != 5)"),
        (
            "true == true;",
            "true",
            Token::Equal,
            "true",
            "(true == true)",
        ),
        (
            "false != true;",
            "false",
            Token::NotEqual,
            "true",
            "(false != true)",
        ),
        (
            "false == false;",
            "false",
            Token::Equal,
            "false",
            "(false == false)",
        ),
    ];

    for test in tests {
        let mut lexer = Lexer::new(test.0.to_string());
        let mut parser = Parser::new(&mut lexer);

        let stmt = parse_expression_statement(&mut parser).unwrap();
        let infix_exp = stmt.expression.as_infix().unwrap();

        assert_eq!(infix_exp.left.to_string(), test.1);
        assert_eq!(infix_exp.operator, test.2);
        assert_eq!(infix_exp.right.to_string(), test.3);
        assert_eq!(infix_exp.to_string(), test.4);
    }
}

#[test]
fn test_integer_expression_statement() {
    let input = "12;".to_string();
    let mut lexer = Lexer::new(input);
    let mut parser = Parser::new(&mut lexer);

    let stmt = parse_expression_statement(&mut parser).unwrap();
    let integer = stmt.expression.as_integer().unwrap();

    assert_eq!(integer.value, 12);
}

#[test]
fn test_boolean_expression_statement() {
    let input = "false;".to_string();
    let mut lexer = Lexer::new(input);
    let mut parser = Parser::new(&mut lexer);

    let stmt = parse_expression_statement(&mut parser).unwrap();
    let boolean = stmt.expression.as_boolean().unwrap();

    assert_eq!(boolean.value, false);
}

#[test]
fn test_identifier_expression_statement() {
    let input = "foobar;".to_string();
    let mut lexer = Lexer::new(input);
    let mut parser = Parser::new(&mut lexer);

    let stmt = parse_expression_statement(&mut parser).unwrap();
    let identifier = stmt.expression.as_identifier().unwrap();

    assert_eq!(identifier.name, "foobar");
}

#[test]
fn test_prefix_expressions() {
    let tests = [
        ("!12;", Token::Bang, 12, "(!12)"),
        ("-4;", Token::Minus, 4, "(-4)"),
    ];

    for test in tests {
        let mut lexer = Lexer::new(test.0.to_string());
        let mut parser = Parser::new(&mut lexer);

        let stmt = parse_expression_statement(&mut parser).unwrap();
        let prefix_exp = stmt.expression.as_prefix().unwrap();
        let right = prefix_exp.expression.as_integer().unwrap();

        assert_eq!(prefix_exp.operator, test.1);
        assert_eq!(right.value, test.2);
        assert_eq!(prefix_exp.to_string(), test.3);
    }
}

#[test]
fn test_grouped_expressions() {
    let tests = [
        ("(5 + 5) * 2;", "((5 + 5) * 2)"),
        ("2 * (5 + 5);", "(2 * (5 + 5))"),
        ("-(5 + 5);", "(-(5 + 5))"),
        ("!(true == true);", "(!(true == true))"),
    ];

    for test in tests {
        let mut lexer = Lexer::new(test.0.to_string());
        let mut parser = Parser::new(&mut lexer);

        let program = parser.parse_program();
        assert_eq!(program.to_string(), format!("{}\n", test.1));
    }
}

#[test]
fn test_broken_grouped_expressions() {
    let mut lexer = Lexer::new("(5 + 5 * 2;".to_string());
    let mut parser = Parser::new(&mut lexer);

    let _program = parser.parse_program();
    assert_eq!(parser.errors.len(), 1);

    assert_eq!(
        parser.errors[0],
        ParserError::UnexpectedToken("Expected ')', got ';'".to_string())
    );
}

#[test]
fn test_operator_precedence() {
    let tests = [
        ("-a * b", "((-a) * b)"),
        ("-a * b; a + b", "((-a) * b)\n(a + b)"),
        ("!-a", "(!(-a))"),
        ("a + b + c", "((a + b) + c)"),
        ("a + b - c", "((a + b) - c)"),
        ("a * b * c", "((a * b) * c)"),
        ("a * b / c", "((a * b) / c)"),
        ("a + b / c", "(a + (b / c))"),
        ("a + b * c + d / e - f", "(((a + (b * c)) + (d / e)) - f)"),
        ("-5 * 5;", "((-5) * 5)"),
        ("3 + 4; -5 * 5;", "(3 + 4)\n((-5) * 5)"),
        ("5 > 4 == 3 < 4", "((5 > 4) == (3 < 4))"),
        ("5 < 4 != 3 > 4", "((5 < 4) != (3 > 4))"),
        ("3 + 4 + 5 == 3 * 5", "(((3 + 4) + 5) == (3 * 5))"),
        ("3 + 4 * 5 == 3 + 1", "((3 + (4 * 5)) == (3 + 1))"),
        ("3 + 4 * 5 == 1", "((3 + (4 * 5)) == 1)"),
        ("3 + 4 * 5 == 3 + 1", "((3 + (4 * 5)) == (3 + 1))"),
        (
            "3 + 4 * 5 == 3 * 1 + 4 * 5",
            "((3 + (4 * 5)) == ((3 * 1) + (4 * 5)))",
        ),
        ("3 > 5 == false", "((3 > 5) == false)"),
        ("3 < 5 == true", "((3 < 5) == true)"),
        // Grouped expressions
        ("1 + (2 + 3) + 4", "((1 + (2 + 3)) + 4)"),
        ("(5 + 5) * 2", "((5 + 5) * 2)"),
        ("2 / (5 + 5)", "(2 / (5 + 5))"),
        ("-(5 + 5)", "(-(5 + 5))"),
        ("-(5 + 5)", "(-(5 + 5))"),
        ("!(true == true)", "(!(true == true))"),
    ];
    for test in tests {
        Lexer::new(format!("{};", test.0));
        let mut lexer = Lexer::new(format!("{};", test.0));
        let mut parser = Parser::new(&mut lexer);

        let program = parser.parse_program();
        assert_eq!(program.to_string(), format!("{}\n", test.1));
    }
}

#[test]
fn test_if_statement() {
    let input = "if (x < y) { return x; }";
    Lexer::new(input.to_string());
    let mut lexer = Lexer::new(input.to_string());
    let mut parser = Parser::new(&mut lexer);

    let program = parser.parse_program();
    assert_eq!(parser.errors.len(), 0);

    assert_eq!(
        program.to_string(),
        format!("if (x < y) {{\nreturn x;\n}}\n",)
    );
}

#[test]
fn test_if_else_statement() {
    let input = "if (x < y) { return x; } else { return y; }";
    Lexer::new(input.to_string());
    let mut lexer = Lexer::new(input.to_string());
    let mut parser = Parser::new(&mut lexer);

    let program = parser.parse_program();
    assert_eq!(parser.errors.len(), 0);

    assert_eq!(
        program.to_string(),
        format!("if (x < y) {{\nreturn x;\n}}\nelse {{\nreturn y;\n}}\n",)
    );
}

#[test]
fn test_call_expression() {
    let input = "add(1, 2 * 3, 4 + 5)";
    Lexer::new(input.to_string());
    let mut lexer = Lexer::new(input.to_string());
    let mut parser = Parser::new(&mut lexer);

    let program = parser.parse_program();
    println!("{:?}", parser.errors);
    assert_eq!(parser.errors.len(), 0);

    assert_eq!(program.to_string(), format!("add(1, (2 * 3), (4 + 5))\n",));
}
