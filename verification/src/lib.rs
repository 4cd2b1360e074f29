//! The Monkey language front end: tokens, lexer, syntax tree and parser.
use vstd::prelude::*;

pub mod text;
pub mod token;
pub mod lexer;
pub mod ast;
pub mod parser;
pub mod object;
pub mod repl;
pub mod alternatives_to_box_dyn;

verus! {
}
