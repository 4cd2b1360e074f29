//! A syntax tree whose node types are generic over the kinds of their children.
use vstd::prelude::*;
use std::marker::PhantomData;
use crate::token::{token_text, Token};

verus! {

/// A node that knows the literal of the token it was read from.
pub trait Node {
    /// The literal of the token the node was read from.
    spec fn literal(&self) -> Seq<char>;

    fn token_literal(&self) -> (r: String)
        ensures
            r@ == self.literal(),
    ;
}

/// A program over statements of type `S`.
#[derive(Debug)]
pub struct Program<S> {
    pub statements: Vec<S>,
    _phantom: PhantomData<S>,
}

impl<S> Program<S> {
    /// The statements, in order.
    pub closed spec fn items(&self) -> Seq<S> {
        self.statements@
    }

    pub fn new() -> (p: Self)
        ensures
            p.items().len() == 0,
    {
        Program { statements: Vec::new(), _phantom: PhantomData }
    }

    pub fn add_statement(&mut self, statement: S)
        ensures
            final(self).items() == old(self).items().push(statement),
    {
        self.statements.push(statement);
    }
}

impl<S: Node> Node for Program<S> {
    /// The literal of the first statement; empty for a program without one.
    closed spec fn literal(&self) -> Seq<char> {
        if self.statements@.len() == 0 {
            Seq::empty()
        } else {
            self.statements@[0].literal()
        }
    }

    fn token_literal(&self) -> (r: String)
        ensures
            r@ == (if self.items().len() == 0 {
                Seq::empty()
            } else {
                self.items()[0].literal()
            }),
    {
        if !self.statements.is_empty() {
            self.statements[0].token_literal()
        } else {
            String::new()
        }
    }
}

/// `let name = value;` over a value of type `E`.
#[derive(Debug, Clone)]
pub struct LetStatement<E> {
    pub token: Token,
    pub name: Identifier,
    pub value: E,
}

impl<E: Node> Node for LetStatement<E> {
    open spec fn literal(&self) -> Seq<char> {
        token_text(self.token@)
    }

    fn token_literal(&self) -> (r: String) {
        self.token.to_string()
    }
}

/// `return value;` over a value of type `E`.
#[derive(Debug, Clone)]
pub struct ReturnStatement<E> {
    pub token: Token,
    pub value: E,
}

impl<E: Node> Node for ReturnStatement<E> {
    open spec fn literal(&self) -> Seq<char> {
        token_text(self.token@)
    }

    fn token_literal(&self) -> (r: String) {
        self.token.to_string()
    }
}

/// An expression of type `E` standing as a statement.
#[derive(Debug, Clone)]
pub struct ExpressionStatement<E> {
    pub token: Token,
    pub expression: E,
}

impl<E: Node> Node for ExpressionStatement<E> {
    open spec fn literal(&self) -> Seq<char> {
        token_text(self.token@)
    }

    fn token_literal(&self) -> (r: String) {
        self.token.to_string()
    }
}

#[derive(Debug, Clone)]
pub struct Identifier {
    pub token: Token,
    pub name: String,
}

impl Node for Identifier {
    open spec fn literal(&self) -> Seq<char> {
        token_text(self.token@)
    }

    fn token_literal(&self) -> (r: String) {
        self.token.to_string()
    }
}

#[derive(Debug, Clone)]
pub struct IntegerLiteral {
    pub token: Token,
    pub value: i64,
}

impl Node for IntegerLiteral {
    open spec fn literal(&self) -> Seq<char> {
        token_text(self.token@)
    }

    fn token_literal(&self) -> (r: String) {
        self.token.to_string()
    }
}

#[derive(Debug, Clone)]
pub struct BooleanLiteral {
    pub token: Token,
    pub value: bool,
}

impl Node for BooleanLiteral {
    open spec fn literal(&self) -> Seq<char> {
        token_text(self.token@)
    }

    fn token_literal(&self) -> (r: String) {
        self.token.to_string()
    }
}

/// `left operator right` over operands of types `L` and `R`.
#[derive(Debug)]
pub struct InfixExpression<L, R> {
    pub left: L,
    pub operator: Token,
    pub right: R,
}

impl<L: Node, R: Node> Node for InfixExpression<L, R> {
    open spec fn literal(&self) -> Seq<char> {
        token_text(self.operator@)
    }

    fn token_literal(&self) -> (r: String) {
        self.operator.to_string()
    }
}

/// `operator right` over an operand of type `E`.
#[derive(Debug)]
pub struct PrefixExpression<E> {
    pub operator: Token,
    pub right: E,
}

impl<E: Node> Node for PrefixExpression<E> {
    open spec fn literal(&self) -> Seq<char> {
        token_text(self.operator@)
    }

    fn token_literal(&self) -> (r: String) {
        self.operator.to_string()
    }
}

// Type aliases for common patterns
pub type SimpleExpression = IntegerLiteral;

pub type SimpleBinaryExpression = InfixExpression<IntegerLiteral, IntegerLiteral>;

pub type SimpleLetStatement = LetStatement<SimpleExpression>;

pub type SimpleReturnStatement = ReturnStatement<SimpleExpression>;

/// Expressions that nest.
#[derive(Debug)]
pub enum ComplexExpression {
    Identifier(Identifier),
    Integer(IntegerLiteral),
    Boolean(BooleanLiteral),
    Infix(Box<InfixExpression<ComplexExpression, ComplexExpression>>),
    Prefix(Box<PrefixExpression<ComplexExpression>>),
}

/// The token whose literal a nested expression reports.
pub open spec fn complex_expression_token(e: ComplexExpression) -> Token {
    match e {
        ComplexExpression::Identifier(x) => x.token,
        ComplexExpression::Integer(x) => x.token,
        ComplexExpression::Boolean(x) => x.token,
        ComplexExpression::Infix(x) => x.operator,
        ComplexExpression::Prefix(x) => x.operator,
    }
}

impl Node for ComplexExpression {
    open spec fn literal(&self) -> Seq<char> {
        token_text(complex_expression_token(*self)@)
    }

    fn token_literal(&self) -> (r: String) {
        match self {
            ComplexExpression::Identifier(expr) => expr.token_literal(),
            ComplexExpression::Integer(expr) => expr.token_literal(),
            ComplexExpression::Boolean(expr) => expr.token_literal(),
            ComplexExpression::Infix(expr) => expr.operator.to_string(),
            ComplexExpression::Prefix(expr) => expr.operator.to_string(),
        }
    }
}

// Type aliases for complex statements
pub type ComplexLetStatement = LetStatement<ComplexExpression>;

pub type ComplexReturnStatement = ReturnStatement<ComplexExpression>;

/// Statements over nested expressions.
#[derive(Debug)]
pub enum ComplexStatement {
    Let(ComplexLetStatement),
    Return(ComplexReturnStatement),
    Expression(ExpressionStatement<ComplexExpression>),
}

/// The token whose literal a statement reports.
pub open spec fn complex_statement_token(s: ComplexStatement) -> Token {
    match s {
        ComplexStatement::Let(x) => x.token,
        ComplexStatement::Return(x) => x.token,
        ComplexStatement::Expression(x) => x.token,
    }
}

impl Node for ComplexStatement {
    open spec fn literal(&self) -> Seq<char> {
        token_text(complex_statement_token(*self)@)
    }

    fn token_literal(&self) -> (r: String) {
        match self {
            ComplexStatement::Let(stmt) => stmt.token.to_string(),
            ComplexStatement::Return(stmt) => stmt.token.to_string(),
            ComplexStatement::Expression(stmt) => stmt.token.to_string(),
        }
    }
}

pub type ComplexProgram = Program<ComplexStatement>;

/// Builds nested expressions.
pub struct ExpressionBuilder;

impl ExpressionBuilder {
    pub fn identifier(token: Token, name: String) -> (e: ComplexExpression)
        ensures
            e == ComplexExpression::Identifier(Identifier { token, name }),
    {
        ComplexExpression::Identifier(Identifier { token, name })
    }

    pub fn integer(token: Token, value: i64) -> (e: ComplexExpression)
        ensures
            e == ComplexExpression::Integer(IntegerLiteral { token, value }),
    {
        ComplexExpression::Integer(IntegerLiteral { token, value })
    }

    pub fn boolean(token: Token, value: bool) -> (e: ComplexExpression)
        ensures
            e == ComplexExpression::Boolean(BooleanLiteral { token, value }),
    {
        ComplexExpression::Boolean(BooleanLiteral { token, value })
    }

    pub fn infix(left: ComplexExpression, operator: Token, right: ComplexExpression) -> (e:
        ComplexExpression)
        ensures
            e == ComplexExpression::Infix(Box::new(InfixExpression { left, operator, right })),
    {
        ComplexExpression::Infix(Box::new(InfixExpression { left, operator, right }))
    }

    pub fn prefix(operator: Token, right: ComplexExpression) -> (e: ComplexExpression)
        ensures
            e == ComplexExpression::Prefix(Box::new(PrefixExpression { operator, right })),
    {
        ComplexExpression::Prefix(Box::new(PrefixExpression { operator, right }))
    }
}

/// Builds statements over nested expressions.
pub struct StatementBuilder;

impl StatementBuilder {
    pub fn let_statement(token: Token, name: Identifier, value: ComplexExpression) -> (s:
        ComplexStatement)
        ensures
            s == ComplexStatement::Let(LetStatement { token, name, value }),
    {
        ComplexStatement::Let(LetStatement { token, name, value })
    }

    pub fn return_statement(token: Token, value: ComplexExpression) -> (s: ComplexStatement)
        ensures
            s == ComplexStatement::Return(ReturnStatement { token, value }),
    {
        ComplexStatement::Return(ReturnStatement { token, value })
    }

    pub fn expression_statement(token: Token, expression: ComplexExpression) -> (s:
        ComplexStatement)
        ensures
            s == ComplexStatement::Expression(ExpressionStatement { token, expression }),
    {
        ComplexStatement::Expression(ExpressionStatement { token, expression })
    }
}

} // verus!
