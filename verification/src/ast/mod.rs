//! The syntax tree of Monkey programs.
use vstd::prelude::*;
use crate::token::Token;

mod expression;
pub mod prelude;
pub mod print;
mod program;
mod statement;
pub mod view;

pub use expression::{CallExpression, Expression, IfExpression, InfixExpression, PrefixExpression};
pub use statement::{
    BlockStatement, ExpressionStatement, LetStatement, ReturnStatement, Statement,
};
pub use program::Program;

verus! {

/// Any node of the tree.
pub enum Node {
    Ident(Identifier),
    Func(FunctionLiteral),
    Int(IntegerLiteral),
    Bool(BooleanLiteral),
    Stmt(Statement),
    Expr(Expression),
}

/// A name, with the token it was read from.
#[derive(Debug, Clone)]
pub struct Identifier {
    pub token: Token,
    pub name: String,
}

/// An integer literal, with the token it was read from.
#[derive(Debug, Clone)]
pub struct IntegerLiteral {
    pub token: Token,
    pub value: i64,
}

/// `true` or `false`, with the token it was read from.
#[derive(Debug, Clone)]
pub struct BooleanLiteral {
    pub token: Token,
    pub value: bool,
}

/// A function literal `fn name(parameters) { body }`.
#[derive(Debug)]
pub struct FunctionLiteral {
    pub token: Token,
    pub name: Identifier,
    pub parameters: Vec<Identifier>,
    pub body: BlockStatement,
}

} // verus!
