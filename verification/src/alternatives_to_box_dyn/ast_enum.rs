//! A syntax tree with one enum per kind of node.
use vstd::prelude::*;
use crate::token::{Token, TokenView};
use crate::text::{int_text, int_to_string, push_string};

verus! {

/// A node that knows the literal of the token it was read from.
pub trait Node {
    fn token_literal(&self) -> String;
}

#[derive(Debug)]
pub enum Statement {
    Let(LetStatement),
    Return(ReturnStatement),
    Expression(ExpressionStatement),
}

#[derive(Debug)]
pub enum Expression {
    Identifier(Identifier),
    IntegerLiteral(IntegerLiteral),
    OperatorExpression(OperatorExpression),
    Boolean(BooleanLiteral),
}

#[derive(Debug)]
pub struct Program {
    pub statements: Vec<Statement>,
}

#[derive(Debug)]
pub struct LetStatement {
    pub token: Token,
    pub name: Identifier,
    pub value: Expression,
}

#[derive(Debug)]
pub struct ReturnStatement {
    pub token: Token,
    pub value: Expression,
}

#[derive(Debug)]
pub struct ExpressionStatement {
    pub token: Token,
    pub expression: Expression,
}

#[derive(Debug, Clone)]
pub struct Identifier {
    pub token: Token,
    pub name: String,
}

#[derive(Debug, Clone)]
pub struct IntegerLiteral {
    pub token: Token,
    pub value: i64,
}

#[derive(Debug, Clone)]
pub struct BooleanLiteral {
    pub token: Token,
    pub value: bool,
}

#[derive(Debug)]
pub struct OperatorExpression {
    pub left: Box<Expression>,
    pub operator: Token,
    pub right: Box<Expression>,
}

/// Value of an `Identifier`.
pub struct IdentifierView {
    pub token: TokenView,
    pub name: Seq<char>,
}

/// Value of an `IntegerLiteral`.
pub struct IntegerLiteralView {
    pub token: TokenView,
    pub value: i64,
}

/// Value of a `BooleanLiteral`.
pub struct BooleanLiteralView {
    pub token: TokenView,
    pub value: bool,
}

/// Value of an `Expression`.
pub enum ExpressionView {
    Identifier(IdentifierView),
    IntegerLiteral(IntegerLiteralView),
    OperatorExpression { left: Box<ExpressionView>, operator: TokenView, right: Box<ExpressionView> },
    Boolean(BooleanLiteralView),
}

/// Value of a `LetStatement`.
pub struct LetStatementView {
    pub token: TokenView,
    pub name: IdentifierView,
    pub value: ExpressionView,
}

/// Value of a `ReturnStatement`.
pub struct ReturnStatementView {
    pub token: TokenView,
    pub value: ExpressionView,
}

/// Value of an `ExpressionStatement`.
pub struct ExpressionStatementView {
    pub token: TokenView,
    pub expression: ExpressionView,
}

/// Value of a `Statement`.
pub enum StatementView {
    Let(LetStatementView),
    Return(ReturnStatementView),
    Expression(ExpressionStatementView),
}

impl View for Identifier {
    type V = IdentifierView;

    open spec fn view(&self) -> IdentifierView {
        IdentifierView { token: self.token@, name: self.name@ }
    }
}

impl View for IntegerLiteral {
    type V = IntegerLiteralView;

    open spec fn view(&self) -> IntegerLiteralView {
        IntegerLiteralView { token: self.token@, value: self.value }
    }
}

impl View for BooleanLiteral {
    type V = BooleanLiteralView;

    open spec fn view(&self) -> BooleanLiteralView {
        BooleanLiteralView { token: self.token@, value: self.value }
    }
}

/// The value of an expression.
pub open spec fn expression_view(e: Expression) -> ExpressionView
    decreases e,
{
    match e {
        Expression::Identifier(x) => ExpressionView::Identifier(x@),
        Expression::IntegerLiteral(x) => ExpressionView::IntegerLiteral(x@),
        Expression::OperatorExpression(x) => ExpressionView::OperatorExpression {
            left: Box::new(expression_view(*x.left)),
            operator: x.operator@,
            right: Box::new(expression_view(*x.right)),
        },
        Expression::Boolean(x) => ExpressionView::Boolean(x@),
    }
}

impl View for Expression {
    type V = ExpressionView;

    open spec fn view(&self) -> ExpressionView {
        expression_view(*self)
    }
}

impl View for LetStatement {
    type V = LetStatementView;

    open spec fn view(&self) -> LetStatementView {
        LetStatementView { token: self.token@, name: self.name@, value: self.value@ }
    }
}

impl View for ReturnStatement {
    type V = ReturnStatementView;

    open spec fn view(&self) -> ReturnStatementView {
        ReturnStatementView { token: self.token@, value: self.value@ }
    }
}

impl View for ExpressionStatement {
    type V = ExpressionStatementView;

    open spec fn view(&self) -> ExpressionStatementView {
        ExpressionStatementView { token: self.token@, expression: self.expression@ }
    }
}

impl View for Statement {
    type V = StatementView;

    open spec fn view(&self) -> StatementView {
        match self {
            Statement::Let(x) => StatementView::Let(x@),
            Statement::Return(x) => StatementView::Return(x@),
            Statement::Expression(x) => StatementView::Expression(x@),
        }
    }
}

/// The values of a sequence of statements.
pub open spec fn statements_view(s: Seq<Statement>) -> Seq<StatementView> {
    s.map_values(|x: Statement| x@)
}

/// The literal a node of this tree reports for its token: the name of the
/// token's kind, with the payload after it in brackets (`Let`, `Plus`,
/// `Int(5)`, `Identifier("x")`, `Illegal("@")`).  Text payloads stand
/// between double quotes as they are.
pub open spec fn variant_text(t: TokenView) -> Seq<char> {
    match t {
        TokenView::Illegal(s) => "Illegal(\""@ + s + "\")"@,
        TokenView::Eof => "Eof"@,
        TokenView::Ident(s) => "Identifier(\""@ + s + "\")"@,
        TokenView::Int(i) => "Int("@ + int_text(i as int) + ")"@,
        TokenView::Assign => "Assign"@,
        TokenView::Plus => "Plus"@,
        TokenView::Minus => "Minus"@,
        TokenView::Bang => "Bang"@,
        TokenView::Asterisk => "Asterisk"@,
        TokenView::Slash => "Slash"@,
        TokenView::LessThan => "LessThan"@,
        TokenView::GreaterThan => "GreaterThan"@,
        TokenView::Equal => "Equal"@,
        TokenView::NotEqual => "NotEqual"@,
        TokenView::Comma => "Comma"@,
        TokenView::Semicolon => "Semicolon"@,
        TokenView::LeftParen => "LeftParen"@,
        TokenView::RightParen => "RightParen"@,
        TokenView::LeftBrace => "LeftBrace"@,
        TokenView::RightBrace => "RightBrace"@,
        TokenView::Function => "Function"@,
        TokenView::Let => "Let"@,
        TokenView::True => "True"@,
        TokenView::False => "False"@,
        TokenView::If => "If"@,
        TokenView::Else => "Else"@,
        TokenView::Return => "Return"@,
    }
}

/// The literal `variant_text` of a token.
pub fn variant_string(t: &Token) -> (r: String)
    ensures
        r@ == variant_text(t@),
{
    match t {
        Token::Illegal(s) => {
            let mut r = String::from_str("Illegal(\"");
            push_string(&mut r, s);
            r.append("\")");
            r
        },
        Token::Eof => String::from_str("Eof"),
        Token::Ident(s) => {
            let mut r = String::from_str("Identifier(\"");
            push_string(&mut r, s);
            r.append("\")");
            r
        },
        Token::Int(i) => {
            let mut r = String::from_str("Int(");
            push_string(&mut r, &int_to_string(*i));
            r.append(")");
            r
        },
        Token::Assign => String::from_str("Assign"),
        Token::Plus => String::from_str("Plus"),
        Token::Minus => String::from_str("Minus"),
        Token::Bang => String::from_str("Bang"),
        Token::Asterisk => String::from_str("Asterisk"),
        Token::Slash => String::from_str("Slash"),
        Token::LessThan => String::from_str("LessThan"),
        Token::GreaterThan => String::from_str("GreaterThan"),
        Token::Equal => String::from_str("Equal"),
        Token::NotEqual => String::from_str("NotEqual"),
        Token::Comma => String::from_str("Comma"),
        Token::Semicolon => String::from_str("Semicolon"),
        Token::LeftParen => String::from_str("LeftParen"),
        Token::RightParen => String::from_str("RightParen"),
        Token::LeftBrace => String::from_str("LeftBrace"),
        Token::RightBrace => String::from_str("RightBrace"),
        Token::Function => String::from_str("Function"),
        Token::Let => String::from_str("Let"),
        Token::True => String::from_str("True"),
        Token::False => String::from_str("False"),
        Token::If => String::from_str("If"),
        Token::Else => String::from_str("Else"),
        Token::Return => String::from_str("Return"),
    }
}

/// The token whose literal a statement reports.
pub open spec fn statement_token(s: Statement) -> Token {
    match s {
        Statement::Let(x) => x.token,
        Statement::Return(x) => x.token,
        Statement::Expression(x) => x.token,
    }
}

/// The token whose literal an expression reports: its own token, or the
/// operator of an operator expression.
pub open spec fn expression_token(e: Expression) -> Token {
    match e {
        Expression::Identifier(x) => x.token,
        Expression::IntegerLiteral(x) => x.token,
        Expression::OperatorExpression(x) => x.operator,
        Expression::Boolean(x) => x.token,
    }
}

impl Node for Statement {
    fn token_literal(&self) -> (r: String)
        ensures
            r@ == variant_text(statement_token(*self)@),
    {
        match self {
            Statement::Let(stmt) => stmt.token_literal(),
            Statement::Return(stmt) => stmt.token_literal(),
            Statement::Expression(stmt) => stmt.token_literal(),
        }
    }
}

impl Node for Expression {
    fn token_literal(&self) -> (r: String)
        ensures
            r@ == variant_text(expression_token(*self)@),
    {
        match self {
            Expression::Identifier(expr) => expr.token_literal(),
            Expression::IntegerLiteral(expr) => expr.token_literal(),
            Expression::OperatorExpression(expr) => expr.token_literal(),
            Expression::Boolean(expr) => expr.token_literal(),
        }
    }
}

impl Program {
    pub fn new() -> (p: Program)
        ensures
            p.statements@.len() == 0,
    {
        Program { statements: Vec::new() }
    }
}

impl Node for Program {
    fn token_literal(&self) -> (r: String)
        ensures
            r@ == if self.statements@.len() > 0 {
                variant_text(statement_token(self.statements@[0])@)
            } else {
                Seq::empty()
            },
    {
        if self.statements.len() > 0 {
            self.statements[0].token_literal()
        } else {
            String::new()
        }
    }
}

impl Node for LetStatement {
    fn token_literal(&self) -> (r: String)
        ensures
            r@ == variant_text(self.token@),
    {
        variant_string(&self.token)
    }
}

impl Node for ReturnStatement {
    fn token_literal(&self) -> (r: String)
        ensures
            r@ == variant_text(self.token@),
    {
        variant_string(&self.token)
    }
}

impl Node for ExpressionStatement {
    fn token_literal(&self) -> (r: String)
        ensures
            r@ == variant_text(self.token@),
    {
        variant_string(&self.token)
    }
}

impl Node for Identifier {
    fn token_literal(&self) -> (r: String)
        ensures
            r@ == variant_text(self.token@),
    {
        variant_string(&self.token)
    }
}

impl Node for IntegerLiteral {
    fn token_literal(&self) -> (r: String)
        ensures
            r@ == variant_text(self.token@),
    {
        variant_string(&self.token)
    }
}

impl Node for BooleanLiteral {
    fn token_literal(&self) -> (r: String)
        ensures
            r@ == variant_text(self.token@),
    {
        variant_string(&self.token)
    }
}

impl Node for OperatorExpression {
    fn token_literal(&self) -> (r: String)
        ensures
            r@ == variant_text(self.operator@),
    {
        variant_string(&self.operator)
    }
}

// Helper methods for constructing expressions
impl Expression {
    pub fn identifier(token: Token, name: String) -> (e: Self)
        ensures
            e == Expression::Identifier(Identifier { token, name }),
    {
        Expression::Identifier(Identifier { token, name })
    }

    pub fn integer(token: Token, value: i64) -> (e: Self)
        ensures
            e == Expression::IntegerLiteral(IntegerLiteral { token, value }),
    {
        Expression::IntegerLiteral(IntegerLiteral { token, value })
    }

    pub fn boolean(token: Token, value: bool) -> (e: Self)
        ensures
            e == Expression::Boolean(BooleanLiteral { token, value }),
    {
        Expression::Boolean(BooleanLiteral { token, value })
    }

    pub fn operator(left: Expression, operator: Token, right: Expression) -> (e: Self)
        ensures
            e == Expression::OperatorExpression(
                OperatorExpression { left: Box::new(left), operator, right: Box::new(right) },
            ),
    {
        Expression::OperatorExpression(
            OperatorExpression { left: Box::new(left), operator, right: Box::new(right) },
        )
    }
}

// Helper methods for constructing statements
impl Statement {
    pub fn let_statement(token: Token, name: Identifier, value: Expression) -> (s: Self)
        ensures
            s == Statement::Let(LetStatement { token, name, value }),
    {
        Statement::Let(LetStatement { token, name, value })
    }

    pub fn return_statement(token: Token, value: Expression) -> (s: Self)
        ensures
            s == Statement::Return(ReturnStatement { token, value }),
    {
        Statement::Return(ReturnStatement { token, value })
    }

    pub fn expression_statement(token: Token, expression: Expression) -> (s: Self)
        ensures
            s == Statement::Expression(ExpressionStatement { token, expression }),
    {
        Statement::Expression(ExpressionStatement { token, expression })
    }
}

// Pattern matching helpers
impl Statement {
    pub fn as_let(&self) -> (r: Option<&LetStatement>)
        ensures
            r == (match self {
                Statement::Let(x) => Some(x),
                _ => None::<&LetStatement>,
            }),
    {
        match self {
            Statement::Let(stmt) => Some(stmt),
            _ => None,
        }
    }

    pub fn as_return(&self) -> (r: Option<&ReturnStatement>)
        ensures
            r == (match self {
                Statement::Return(x) => Some(x),
                _ => None::<&ReturnStatement>,
            }),
    {
        match self {
            Statement::Return(stmt) => Some(stmt),
            _ => None,
        }
    }

    pub fn as_expression(&self) -> (r: Option<&ExpressionStatement>)
        ensures
            r == (match self {
                Statement::Expression(x) => Some(x),
                _ => None::<&ExpressionStatement>,
            }),
    {
        match self {
            Statement::Expression(stmt) => Some(stmt),
            _ => None,
        }
    }
}

impl Expression {
    pub fn as_identifier(&self) -> (r: Option<&Identifier>)
        ensures
            r == (match self {
                Expression::Identifier(x) => Some(x),
                _ => None::<&Identifier>,
            }),
    {
        match self {
            Expression::Identifier(expr) => Some(expr),
            _ => None,
        }
    }

    pub fn as_integer(&self) -> (r: Option<&IntegerLiteral>)
        ensures
            r == (match self {
                Expression::IntegerLiteral(x) => Some(x),
                _ => None::<&IntegerLiteral>,
            }),
    {
        match self {
            Expression::IntegerLiteral(expr) => Some(expr),
            _ => None,
        }
    }

    pub fn as_operator(&self) -> (r: Option<&OperatorExpression>)
        ensures
            r == (match self {
                Expression::OperatorExpression(x) => Some(x),
                _ => None::<&OperatorExpression>,
            }),
    {
        match self {
            Expression::OperatorExpression(expr) => Some(expr),
            _ => None,
        }
    }

    pub fn as_boolean(&self) -> (r: Option<&BooleanLiteral>)
        ensures
            r == (match self {
                Expression::Boolean(x) => Some(x),
                _ => None::<&BooleanLiteral>,
            }),
    {
        match self {
            Expression::Boolean(expr) => Some(expr),
            _ => None,
        }
    }
}

} // verus!
