use vstd::prelude::*;
use crate::token::Token;
use super::{BooleanLiteral, FunctionLiteral, Identifier, IntegerLiteral};
use super::statement::BlockStatement;

verus! {

/// An expression of the Monkey language.
#[derive(Debug)]
pub enum Expression {
    Identifier(Identifier),
    Integer(IntegerLiteral),
    Boolean(BooleanLiteral),
    Prefix(PrefixExpression),
    Infix(InfixExpression),
    If(IfExpression),
    Call(CallExpression),
    Function(FunctionLiteral),
}

/// `operator expression`, such as `-x` or `!ok`.
#[derive(Debug)]
pub struct PrefixExpression {
    pub operator: Token,
    pub expression: Box<Expression>,
}

/// `left operator right`, such as `a + b`.
#[derive(Debug)]
pub struct InfixExpression {
    pub left: Box<Expression>,
    pub operator: Token,
    pub right: Box<Expression>,
}

/// `if condition { consequence } else { alternative }`; the `else` part is optional.
#[derive(Debug)]
pub struct IfExpression {
    pub condition: Box<Expression>,
    pub consequence: BlockStatement,
    pub alternative: Option<BlockStatement>,
}

/// `function(arguments)`.
#[derive(Debug)]
pub struct CallExpression {
    pub function: Box<Expression>,
    pub arguments: Vec<Expression>,
}

// Helper methods for constructing expressions
impl Expression {
    pub fn identifier(identifier: Identifier) -> (e: Self)
        ensures
            e == Expression::Identifier(identifier),
    {
        Expression::Identifier(identifier)
    }

    pub fn integer(integer: IntegerLiteral) -> (e: Self)
        ensures
            e == Expression::Integer(integer),
    {
        Expression::Integer(integer)
    }

    pub fn boolean(boolean: BooleanLiteral) -> (e: Self)
        ensures
            e == Expression::Boolean(boolean),
    {
        Expression::Boolean(boolean)
    }

    pub fn prefix(operator: Token, expression: Expression) -> (e: Self)
        ensures
            e == Expression::Prefix(PrefixExpression { operator, expression: Box::new(expression) }),
    {
        Expression::Prefix(PrefixExpression { operator, expression: Box::new(expression) })
    }

    pub fn infix(left: Expression, operator: Token, right: Expression) -> (e: Self)
        ensures
            e == Expression::Infix(
                InfixExpression { left: Box::new(left), operator, right: Box::new(right) },
            ),
    {
        Expression::Infix(
            InfixExpression { left: Box::new(left), operator, right: Box::new(right) },
        )
    }

    pub fn if_expression(
        condition: Expression,
        consequence: BlockStatement,
        alternative: Option<BlockStatement>,
    ) -> (e: Self)
        ensures
            e == Expression::If(
                IfExpression { condition: Box::new(condition), consequence, alternative },
            ),
    {
        Expression::If(IfExpression { condition: Box::new(condition), consequence, alternative })
    }

    pub fn function(name: Identifier, parameters: Vec<Identifier>, body: BlockStatement) -> (e:
        Self)
        ensures
            e == Expression::Function(
                FunctionLiteral { token: Token::Function, name, parameters, body },
            ),
    {
        Expression::Function(FunctionLiteral { token: Token::Function, name, parameters, body })
    }

    pub fn call(function: Expression, arguments: Vec<Expression>) -> (e: Self)
        ensures
            e == Expression::Call(CallExpression { function: Box::new(function), arguments }),
    {
        Expression::Call(CallExpression { function: Box::new(function), arguments })
    }
}

// Pattern matching helpers
impl Expression {
    pub fn as_identifier(&self) -> (r: Option<&Identifier>)
        ensures
            r == (match self {
                Expression::Identifier(x) => Some(x),
                _ => None::<&Identifier>,
            }),
    {
        match self {
            Expression::Identifier(expr) => Some(expr),
            _ => None,
        }
    }

    pub fn as_integer(&self) -> (r: Option<&IntegerLiteral>)
        ensures
            r == (match self {
                Expression::Integer(x) => Some(x),
                _ => None::<&IntegerLiteral>,
            }),
    {
        match self {
            Expression::Integer(expr) => Some(expr),
            _ => None,
        }
    }

    pub fn as_boolean(&self) -> (r: Option<&BooleanLiteral>)
        ensures
            r == (match self {
                Expression::Boolean(x) => Some(x),
                _ => None::<&BooleanLiteral>,
            }),
    {
        match self {
            Expression::Boolean(expr) => Some(expr),
            _ => None,
        }
    }

    pub fn as_prefix(&self) -> (r: Option<&PrefixExpression>)
        ensures
            r == (match self {
                Expression::Prefix(x) => Some(x),
                _ => None::<&PrefixExpression>,
            }),
    {
        match self {
            Expression::Prefix(expr) => Some(expr),
            _ => None,
        }
    }

    pub fn as_infix(&self) -> (r: Option<&InfixExpression>)
        ensures
            r == (match self {
                Expression::Infix(x) => Some(x),
                _ => None::<&InfixExpression>,
            }),
    {
        match self {
            Expression::Infix(expr) => Some(expr),
            _ => None,
        }
    }

    pub fn as_if(&self) -> (r: Option<&IfExpression>)
        ensures
            r == (match self {
                Expression::If(x) => Some(x),
                _ => None::<&IfExpression>,
            }),
    {
        match self {
            Expression::If(expr) => Some(expr),
            _ => None,
        }
    }

    pub fn as_call(&self) -> (r: Option<&CallExpression>)
        ensures
            r == (match self {
                Expression::Call(x) => Some(x),
                _ => None::<&CallExpression>,
            }),
    {
        match self {
            Expression::Call(expr) => Some(expr),
            _ => None,
        }
    }
}

} // verus!
