//! Ways to hold a tree of statements and expressions without trait objects:
//! one enum per node kind, generic node types, and an arena of nodes
//! addressed by index; together with the small type-state examples that
//! go with them.
pub mod ast_enum;
pub mod ast_arena;
pub mod ast_generic;
pub mod phantom_examples;
pub mod comparison_example;
pub mod parser_enum;
