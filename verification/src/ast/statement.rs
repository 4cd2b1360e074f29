use vstd::prelude::*;
use crate::token::Token;
use super::Identifier;
use super::expression::Expression;

verus! {

/// A statement of the Monkey language.
#[derive(Debug)]
pub enum Statement {
    Let(LetStatement),
    Return(ReturnStatement),
    Expression(ExpressionStatement),
}

/// `let identifier = value;`
#[derive(Debug)]
pub struct LetStatement {
    pub token: Token,
    pub identifier: Identifier,
    pub value: Expression,
}

/// `return value;`
#[derive(Debug)]
pub struct ReturnStatement {
    pub token: Token,
    pub value: Expression,
}

/// An expression standing as a statement.
#[derive(Debug)]
pub struct ExpressionStatement {
    pub token: Token,
    pub expression: Expression,
}

/// `{ statements }`
#[derive(Debug)]
pub struct BlockStatement {
    pub token: Token,
    pub statements: Vec<Statement>,
}

// Helper methods for constructing statements
impl Statement {
    pub fn let_statement(token: Token, name: Identifier, value: Expression) -> (s: Self)
        ensures
            s == Statement::Let(LetStatement { token, identifier: name, value }),
    {
        Statement::Let(LetStatement { token, identifier: name, value })
    }

    pub fn return_statement(value: Expression) -> (s: Self)
        ensures
            s == Statement::Return(ReturnStatement { token: Token::Return, value }),
    {
        Statement::Return(ReturnStatement { token: Token::Return, value })
    }

    pub fn expression_statement(token: Token, value: Expression) -> (s: Self)
        ensures
            s == Statement::Expression(ExpressionStatement { token, expression: value }),
    {
        Statement::Expression(ExpressionStatement { token, expression: value })
    }
}

// Pattern matching helpers
impl Statement {
    pub fn as_let(&self) -> (r: Option<&LetStatement>)
        ensures
            r == (match self {
                Statement::Let(x) => Some(x),
                _ => None::<&LetStatement>,
            }),
    {
        match self {
            Statement::Let(stmt) => Some(stmt),
            _ => None,
        }
    }

    pub fn as_return(&self) -> (r: Option<&ReturnStatement>)
        ensures
            r == (match self {
                Statement::Return(x) => Some(x),
                _ => None::<&ReturnStatement>,
            }),
    {
        match self {
            Statement::Return(stmt) => Some(stmt),
            _ => None,
        }
    }

    pub fn as_expression(&self) -> (r: Option<&ExpressionStatement>)
        ensures
            r == (match self {
                Statement::Expression(x) => Some(x),
                _ => None::<&ExpressionStatement>,
            }),
    {
        match self {
            Statement::Expression(stmt) => Some(stmt),
            _ => None,
        }
    }
}

} // verus!
