use lib::lexer::Lexer;
use lib::token::Token;
use lib::token::Token::{
    Assign, Asterisk, Bang, Comma, Else, Eof, Equal, False, Function, GreaterThan, Ident, If, Int,
    LeftBrace, LeftParen, LessThan, Let, Minus, NotEqual, Plus, Return, RightBrace, RightParen,
    Semicolon, Slash, True,
};

#[test]
fn test_next_token_simple() {
    let input = "=+(){},;";
    let mut lexer = Lexer::new(input.to_string());

    let expected = vec![
        Assign, Plus, LeftParen, RightParen, LeftBrace, RightBrace, Comma, Semicolon, Eof,
    ];

    for token in expected {
        assert_eq!(lexer.next_token(), token);
    }
}

#[test]
fn test_next_token_complex() {
    let input = r#"
let five = 5;
let ten = 10;

let add = fn(x, y) {
  x + y;
};

let result = add(five, ten);
!-/*5;
5 < 10 > 5;

if (5 < 10) {
return true;
} else {
return false;
}

10 == 10;
10 != 9;

"#;
    let mut lexer = Lexer::new(input.to_string());

    let expected = vec![
        Let,
        Ident("five".to_string()),
        Assign,
        Int(5),
        Semicolon,
        Let,
        Ident("ten".to_string()),
        Assign,
        Int(10),
        Semicolon,
        Let,
        Ident("add".to_string()),
        Assign,
        Function,
        LeftParen,
        Ident("x".to_string()),
        Comma,
        Ident("y".to_string()),
        RightParen,
        LeftBrace,
        Ident("x".to_string()),
        Plus,
        Ident("y".to_string()),
        Semicolon,
        RightBrace,
        Semicolon,
        Let,
        Ident("result".to_string()),
        Assign,
        Ident("add".to_string()),
        LeftParen,
        Ident("five".to_string()),
        Comma,
        Ident("ten".to_string()),
        RightParen,
        Semicolon,
        Bang,
        Minus,
        Slash,
        Asterisk,
        Int(5),
        Semicolon,
        Int(5),
        LessThan,
        Int(10),
        GreaterThan,
        Int(5),
        Semicolon,
        If,
        LeftParen,
        Int(5),
        LessThan,
        Int(10),
        RightParen,
        LeftBrace,
        Return,
        True,
        Semicolon,
        RightBrace,
        Else,
        LeftBrace,
        Return,
        False,
        Semicolon,
        RightBrace,
        Int(10),
        Equal,
        Int(10),
        Semicolon,
        Int(10),
        NotEqual,
        Int(9),
        Semicolon,
        Eof,
    ];

    for token in expected {
        let next_token = lexer.next_token();
        println!("{:?}", next_token);
        assert_eq!(next_token, token);
    }
}

#[test]
fn printed_tokens_lex_back() {
    let tokens = vec![
        Token::Assign,
        Token::Equal,
        Token::NotEqual,
        Token::Bang,
        Token::Semicolon,
        Token::Function,
        Token::Let,
        Token::Return,
        Token::Int(0),
        Token::Int(9223372036854775807),
        Token::Ident("xyz".to_string()),
    ];
    for t in tokens {
        let mut lexer = Lexer::new(t.to_string());
        assert_eq!(lexer.next_token(), t);
        assert_eq!(lexer.next_token(), Token::Eof);
        assert_eq!(lexer.next_token(), Token::Eof);
    }
}

#[test]
fn whitespace_of_every_kind_is_skipped() {
    let mut lexer = Lexer::new("\t1\u{a0}\u{2003}2\u{3000}\n".to_string());
    assert_eq!(lexer.next_token(), Token::Int(1));
    assert_eq!(lexer.next_token(), Token::Int(2));
    assert_eq!(lexer.next_token(), Token::Eof);
}
