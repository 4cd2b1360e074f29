use vstd::prelude::*;
use super::statement::Statement;

verus! {

/// A parsed program: its statements in source order.
#[derive(Debug)]
pub struct Program {
    pub statements: Vec<Statement>,
}

impl Program {
    /// A program without statements.
    pub fn new() -> (p: Program)
        ensures
            p.statements@.len() == 0,
    {
        Program { statements: Vec::new() }
    }
}

} // verus!
