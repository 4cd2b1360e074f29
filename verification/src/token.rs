//! Tokens of the Monkey language and the binding strength of operators.
use vstd::prelude::*;
use vstd::string::*;
use crate::text::{int_text, int_to_string};

verus! {

/// A token as the lexer hands it out.
#[derive(Debug, PartialEq, Eq, Hash, PartialOrd, Ord)]
pub enum Token {
    Illegal(String),
    Eof,
    // Identifiers + literals
    Ident(String),
    Int(i64),
    // Operators
    Assign,
    Plus,
    Minus,
    Bang,
    Asterisk,
    Slash,
    LessThan,
    GreaterThan,
    Equal,
    NotEqual,
    // Delimiters
    Comma,
    Semicolon,
    LeftParen,
    RightParen,
    LeftBrace,
    RightBrace,
    // Keywords
    Function,
    Let,
    True,
    False,
    If,
    Else,
    Return,
}

/// The mathematical value of a token: its text payloads as character sequences.
pub enum TokenView {
    Illegal(Seq<char>),
    Eof,
    Ident(Seq<char>),
    Int(i64),
    Assign,
    Plus,
    Minus,
    Bang,
    Asterisk,
    Slash,
    LessThan,
    GreaterThan,
    Equal,
    NotEqual,
    Comma,
    Semicolon,
    LeftParen,
    RightParen,
    LeftBrace,
    RightBrace,
    Function,
    Let,
    True,
    False,
    If,
    Else,
    Return,
}

impl View for Token {
    type V = TokenView;

    open spec fn view(&self) -> TokenView {
        match self {
            Token::Illegal(s) => TokenView::Illegal(s@),
            Token::Eof => TokenView::Eof,
            Token::Ident(s) => TokenView::Ident(s@),
            Token::Int(i) => TokenView::Int(*i),
            Token::Assign => TokenView::Assign,
            Token::Plus => TokenView::Plus,
            Token::Minus => TokenView::Minus,
            Token::Bang => TokenView::Bang,
            Token::Asterisk => TokenView::Asterisk,
            Token::Slash => TokenView::Slash,
            Token::LessThan => TokenView::LessThan,
            Token::GreaterThan => TokenView::GreaterThan,
            Token::Equal => TokenView::Equal,
            Token::NotEqual => TokenView::NotEqual,
            Token::Comma => TokenView::Comma,
            Token::Semicolon => TokenView::Semicolon,
            Token::LeftParen => TokenView::LeftParen,
            Token::RightParen => TokenView::RightParen,
            Token::LeftBrace => TokenView::LeftBrace,
            Token::RightBrace => TokenView::RightBrace,
            Token::Function => TokenView::Function,
            Token::Let => TokenView::Let,
            Token::True => TokenView::True,
            Token::False => TokenView::False,
            Token::If => TokenView::If,
            Token::Else => TokenView::Else,
            Token::Return => TokenView::Return,
        }
    }
}

impl Clone for Token {
    fn clone(&self) -> (r: Self)
        ensures
            r == *self,
    {
        match self {
            Token::Illegal(s) => Token::Illegal(s.clone()),
            Token::Eof => Token::Eof,
            Token::Ident(s) => Token::Ident(s.clone()),
            Token::Int(i) => Token::Int(*i),
            Token::Assign => Token::Assign,
            Token::Plus => Token::Plus,
            Token::Minus => Token::Minus,
            Token::Bang => Token::Bang,
            Token::Asterisk => Token::Asterisk,
            Token::Slash => Token::Slash,
            Token::LessThan => Token::LessThan,
            Token::GreaterThan => Token::GreaterThan,
            Token::Equal => Token::Equal,
            Token::NotEqual => Token::NotEqual,
            Token::Comma => Token::Comma,
            Token::Semicolon => Token::Semicolon,
            Token::LeftParen => Token::LeftParen,
            Token::RightParen => Token::RightParen,
            Token::LeftBrace => Token::LeftBrace,
            Token::RightBrace => Token::RightBrace,
            Token::Function => Token::Function,
            Token::Let => Token::Let,
            Token::True => Token::True,
            Token::False => Token::False,
            Token::If => Token::If,
            Token::Else => Token::Else,
            Token::Return => Token::Return,
        }
    }
}

/// The printed form of a token: the source text of operators, delimiters and
/// keywords, the text of identifiers and illegal input, the decimal value of
/// integers, and `EOF` for the end of input.
pub open spec fn token_text(t: TokenView) -> Seq<char> {
    match t {
        TokenView::Illegal(s) => s,
        TokenView::Eof => seq!['E', 'O', 'F'],
        TokenView::Ident(s) => s,
        TokenView::Int(i) => int_text(i as int),
        TokenView::Assign => seq!['='],
        TokenView::Plus => seq!['+'],
        TokenView::Minus => seq!['-'],
        TokenView::Bang => seq!['!'],
        TokenView::Asterisk => seq!['*'],
        TokenView::Slash => seq!['/'],
        TokenView::LessThan => seq!['<'],
        TokenView::GreaterThan => seq!['>'],
        TokenView::Equal => seq!['=', '='],
        TokenView::NotEqual => seq!['!', '='],
        TokenView::Comma => seq![','],
        TokenView::Semicolon => seq![';'],
        TokenView::LeftParen => seq!['('],
        TokenView::RightParen => seq![')'],
        TokenView::LeftBrace => seq!['{'],
        TokenView::RightBrace => seq!['}'],
        TokenView::Function => seq!['f', 'n'],
        TokenView::Let => seq!['l', 'e', 't'],
        TokenView::True => seq!['t', 'r', 'u', 'e'],
        TokenView::False => seq!['f', 'a', 'l', 's', 'e'],
        TokenView::If => seq!['i', 'f'],
        TokenView::Else => seq!['e', 'l', 's', 'e'],
        TokenView::Return => seq!['r', 'e', 't', 'u', 'r', 'n'],
    }
}

/// The precedence an operator token binds with when it stands between two operands.
pub open spec fn precedence_of(t: TokenView) -> Precedence {
    match t {
        TokenView::Equal | TokenView::NotEqual => Precedence::Equals,
        TokenView::LessThan | TokenView::GreaterThan => Precedence::LessGreater,
        TokenView::Plus | TokenView::Minus => Precedence::Sum,
        TokenView::Asterisk | TokenView::Slash => Precedence::Product,
        TokenView::LeftParen => Precedence::Call,
        _ => Precedence::Lowest,
    }
}

impl Token {
    /// The printed form of the token (what `Display` writes for it).
    pub fn to_string(&self) -> (r: String)
        ensures
            r@ == token_text(self@),
    {
        match self {
            Token::Illegal(s) => s.clone(),
            Token::Eof => {
                proof { reveal_strlit("EOF"); }
                String::from_str("EOF")
            },
            Token::Ident(s) => s.clone(),
            Token::Int(i) => int_to_string(*i),
            Token::Assign => {
                proof { reveal_strlit("="); }
                String::from_str("=")
            },
            Token::Plus => {
                proof { reveal_strlit("+"); }
                String::from_str("+")
            },
            Token::Minus => {
                proof { reveal_strlit("-"); }
                String::from_str("-")
            },
            Token::Bang => {
                proof { reveal_strlit("!"); }
                String::from_str("!")
            },
            Token::Asterisk => {
                proof { reveal_strlit("*"); }
                String::from_str("*")
            },
            Token::Slash => {
                proof { reveal_strlit("/"); }
                String::from_str("/")
            },
            Token::LessThan => {
                proof { reveal_strlit("<"); }
                String::from_str("<")
            },
            Token::GreaterThan => {
                proof { reveal_strlit(">"); }
                String::from_str(">")
            },
            Token::Equal => {
                proof { reveal_strlit("=="); }
                String::from_str("==")
            },
            Token::NotEqual => {
                proof { reveal_strlit("!="); }
                String::from_str("!=")
            },
            Token::Comma => {
                proof { reveal_strlit(","); }
                String::from_str(",")
            },
            Token::Semicolon => {
                proof { reveal_strlit(";"); }
                String::from_str(";")
            },
            Token::LeftParen => {
                proof { reveal_strlit("("); }
                String::from_str("(")
            },
            Token::RightParen => {
                proof { reveal_strlit(")"); }
                String::from_str(")")
            },
            Token::LeftBrace => {
                proof { reveal_strlit("{"); }
                String::from_str("{")
            },
            Token::RightBrace => {
                proof { reveal_strlit("}"); }
                String::from_str("}")
            },
            Token::Function => {
                proof { reveal_strlit("fn"); }
                String::from_str("fn")
            },
            Token::Let => {
                proof { reveal_strlit("let"); }
                String::from_str("let")
            },
            Token::True => {
                proof { reveal_strlit("true"); }
                String::from_str("true")
            },
            Token::False => {
                proof { reveal_strlit("false"); }
                String::from_str("false")
            },
            Token::If => {
                proof { reveal_strlit("if"); }
                String::from_str("if")
            },
            Token::Else => {
                proof { reveal_strlit("else"); }
                String::from_str("else")
            },
            Token::Return => {
                proof { reveal_strlit("return"); }
                String::from_str("return")
            },
        }
    }

    /// The precedence the token binds with as an infix operator; `Lowest` for
    /// every token that is not an infix operator or `(`.
    pub fn precedence(&self) -> (p: Precedence)
        ensures
            p == precedence_of(self@),
    {
        match self {
            Token::Equal | Token::NotEqual => Precedence::Equals,
            Token::LessThan | Token::GreaterThan => Precedence::LessGreater,
            Token::Plus | Token::Minus => Precedence::Sum,
            Token::Asterisk | Token::Slash => Precedence::Product,
            Token::LeftParen => Precedence::Call,
            _ => Precedence::Lowest,
        }
    }

    /// Whether the two tokens are the same token: same kind and same payload.
    pub fn same(&self, other: &Token) -> (r: bool)
        ensures
            r == (self@ == other@),
    {
        if self.tag() != other.tag() {
            return false;
        }
        match self {
            Token::Illegal(a) => match other {
                Token::Illegal(b) => *a == *b,
                _ => false,
            },
            Token::Ident(a) => match other {
                Token::Ident(b) => *a == *b,
                _ => false,
            },
            Token::Int(a) => match other {
                Token::Int(b) => *a == *b,
                _ => false,
            },
            _ => {
                proof { lemma_tag_determines(self@, other@); }
                true
            },
        }
    }

    /// A number that tells the kinds of token apart.
    pub fn tag(&self) -> (r: u8)
        ensures
            r == token_tag(self@),
    {
        match self {
            Token::Illegal(_) => 0,
            Token::Eof => 1,
            Token::Ident(_) => 2,
            Token::Int(_) => 3,
            Token::Assign => 4,
            Token::Plus => 5,
            Token::Minus => 6,
            Token::Bang => 7,
            Token::Asterisk => 8,
            Token::Slash => 9,
            Token::LessThan => 10,
            Token::GreaterThan => 11,
            Token::Equal => 12,
            Token::NotEqual => 13,
            Token::Comma => 14,
            Token::Semicolon => 15,
            Token::LeftParen => 16,
            Token::RightParen => 17,
            Token::LeftBrace => 18,
            Token::RightBrace => 19,
            Token::Function => 20,
            Token::Let => 21,
            Token::True => 22,
            Token::False => 23,
            Token::If => 24,
            Token::Else => 25,
            Token::Return => 26,
        }
    }
}

/// The number `Token::tag` gives for each kind of token.
pub open spec fn token_tag(t: TokenView) -> u8 {
    match t {
        TokenView::Illegal(_) => 0,
        TokenView::Eof => 1,
        TokenView::Ident(_) => 2,
        TokenView::Int(_) => 3,
        TokenView::Assign => 4,
        TokenView::Plus => 5,
        TokenView::Minus => 6,
        TokenView::Bang => 7,
        TokenView::Asterisk => 8,
        TokenView::Slash => 9,
        TokenView::LessThan => 10,
        TokenView::GreaterThan => 11,
        TokenView::Equal => 12,
        TokenView::NotEqual => 13,
        TokenView::Comma => 14,
        TokenView::Semicolon => 15,
        TokenView::LeftParen => 16,
        TokenView::RightParen => 17,
        TokenView::LeftBrace => 18,
        TokenView::RightBrace => 19,
        TokenView::Function => 20,
        TokenView::Let => 21,
        TokenView::True => 22,
        TokenView::False => 23,
        TokenView::If => 24,
        TokenView::Else => 25,
        TokenView::Return => 26,
    }
}

/// Two tokens without payload and with the same tag are the same token.
proof fn lemma_tag_determines(a: TokenView, b: TokenView)
    requires
        token_tag(a) == token_tag(b),
    ensures
        a == b || (a is Illegal && b is Illegal) || (a is Ident && b is Ident) || (a is Int
            && b is Int),
{
    match b {
        TokenView::Illegal(_) => {},
        TokenView::Eof => {},
        TokenView::Ident(_) => {},
        TokenView::Int(_) => {},
        TokenView::Assign => {},
        TokenView::Plus => {},
        TokenView::Minus => {},
        TokenView::Bang => {},
        TokenView::Asterisk => {},
        TokenView::Slash => {},
        TokenView::LessThan => {},
        TokenView::GreaterThan => {},
        TokenView::Equal => {},
        TokenView::NotEqual => {},
        TokenView::Comma => {},
        TokenView::Semicolon => {},
        TokenView::LeftParen => {},
        TokenView::RightParen => {},
        TokenView::LeftBrace => {},
        TokenView::RightBrace => {},
        TokenView::Function => {},
        TokenView::Let => {},
        TokenView::True => {},
        TokenView::False => {},
        TokenView::If => {},
        TokenView::Else => {},
        TokenView::Return => {},
    }
}

/// Binding strength of an operator, weakest first.
#[derive(Debug, Clone, Copy, PartialEq, Eq, Structural, PartialOrd, Ord)]
pub enum Precedence {
    Lowest,
    Equals,
    LessGreater,
    Sum,
    Product,
    Prefix,
    Call,
}

impl Precedence {
    /// The place of the level in the order `Lowest` (0) up to `Call` (6).
    pub open spec fn rank(self) -> int {
        match self {
            Precedence::Lowest => 0,
            Precedence::Equals => 1,
            Precedence::LessGreater => 2,
            Precedence::Sum => 3,
            Precedence::Product => 4,
            Precedence::Prefix => 5,
            Precedence::Call => 6,
        }
    }

    /// The place of the level in the order of binding strength, by which
    /// precedences are compared.
    pub fn enum_index(&self) -> (r: u8)
        ensures
            r == self.rank(),
    {
        match self {
            Precedence::Lowest => 0,
            Precedence::Equals => 1,
            Precedence::LessGreater => 2,
            Precedence::Sum => 3,
            Precedence::Product => 4,
            Precedence::Prefix => 5,
            Precedence::Call => 6,
        }
    }

    /// Whether `self` binds strictly weaker than `other` (the order of the derived `<`).
    pub fn lt(&self, other: &Precedence) -> (r: bool)
        ensures
            r == (self.rank() < other.rank()),
    {
        self.enum_index() < other.enum_index()
    }
}

/// Precedence levels are ordered by rank: the order is total, and two levels
/// with the same rank are the same level.
pub proof fn lemma_precedence_total_order(a: Precedence, b: Precedence, c: Precedence)
    ensures
        a.rank() < b.rank() || a == b || b.rank() < a.rank(),
        a.rank() == b.rank() ==> a == b,
        a.rank() < b.rank() && b.rank() < c.rank() ==> a.rank() < c.rank(),
        !(a.rank() < a.rank()),
{
}

/// The operators bind in the order `==`/`!=`, then `<`/`>`, then `+`/`-`, then
/// `*`/`/`, then a call `(`; every other token binds weakest.
pub proof fn lemma_operator_strength(t: TokenView)
    ensures
        precedence_of(TokenView::Equal).rank() < precedence_of(TokenView::LessThan).rank(),
        precedence_of(TokenView::LessThan).rank() < precedence_of(TokenView::Plus).rank(),
        precedence_of(TokenView::Plus).rank() < precedence_of(TokenView::Asterisk).rank(),
        precedence_of(TokenView::Asterisk).rank() < Precedence::Prefix.rank(),
        Precedence::Prefix.rank() < precedence_of(TokenView::LeftParen).rank(),
        precedence_of(t).rank() > 0 <==> (t is Equal || t is NotEqual || t is LessThan
            || t is GreaterThan || t is Plus || t is Minus || t is Asterisk || t is Slash
            || t is LeftParen),
{
}

/// Whether `t` compares two values: `==`, `!=`, `<` or `>`.
pub open spec fn is_comparison_operator(t: TokenView) -> bool {
    t is Equal || t is NotEqual || t is LessThan || t is GreaterThan
}

/// Whether `t` computes a number from two: `+`, `-`, `*` or `/`.
pub open spec fn is_arithmetic_operator(t: TokenView) -> bool {
    t is Plus || t is Minus || t is Asterisk || t is Slash
}

/// The operators come in pairs that bind alike (`==` and `!=`, `<` and `>`,
/// `+` and `-`, `*` and `/`); every comparison binds weaker than every
/// arithmetic operator, equality weaker than ordering, addition and
/// subtraction weaker than multiplication and division, and all of them
/// stronger than a token that is no operator.
pub proof fn lemma_operator_levels(c: TokenView, a: TokenView, t: TokenView)
    ensures
        precedence_of(TokenView::NotEqual) == precedence_of(TokenView::Equal),
        precedence_of(TokenView::GreaterThan) == precedence_of(TokenView::LessThan),
        precedence_of(TokenView::Minus) == precedence_of(TokenView::Plus),
        precedence_of(TokenView::Slash) == precedence_of(TokenView::Asterisk),
        is_comparison_operator(c) && is_arithmetic_operator(a) ==> precedence_of(c).rank()
            < precedence_of(a).rank(),
        (c is Equal || c is NotEqual) && (t is LessThan || t is GreaterThan) ==> precedence_of(
            c,
        ).rank() < precedence_of(t).rank(),
        (a is Plus || a is Minus) && (t is Asterisk || t is Slash) ==> precedence_of(a).rank()
            < precedence_of(t).rank(),
        is_comparison_operator(c) ==> Precedence::Lowest.rank() < precedence_of(c).rank(),
        is_arithmetic_operator(a) ==> precedence_of(a).rank() < Precedence::Prefix.rank(),
{
}

} // verus!
