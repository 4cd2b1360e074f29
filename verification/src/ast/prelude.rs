//! AST prelude module for commonly used types.
//!
//! This module re-exports the most commonly used types from the AST module,
//! so that one `use` item brings them all.

// The main AST node types
pub use super::{Expression, Node, Program, Statement};

// Concrete expression types
pub use super::{BooleanLiteral, FunctionLiteral, Identifier, IntegerLiteral};
pub use super::{CallExpression, IfExpression, InfixExpression, PrefixExpression};

// Concrete statement types
pub use super::{BlockStatement, ExpressionStatement, LetStatement, ReturnStatement};
