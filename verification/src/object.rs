//! The values Monkey programs compute.
use vstd::prelude::*;
use crate::ast::view::bool_text;
use crate::text::{int_text, int_to_string};

verus! {

/// A runtime value.
pub enum Object {
    Null,
    Integer(i64),
    Boolean(bool),
}

/// The printed form of a value.
pub open spec fn object_text(o: Object) -> Seq<char> {
    match o {
        Object::Null => "null"@,
        Object::Integer(i) => int_text(i as int),
        Object::Boolean(b) => bool_text(b),
    }
}

impl Object {
    /// The printed form of the value: `null`, the decimal integer, or `true`/`false`.
    pub fn _inspect(&self) -> (r: String)
        ensures
            r@ == object_text(*self),
    {
        match self {
            Object::Null => String::from_str("null"),
            Object::Integer(i) => int_to_string(*i),
            Object::Boolean(b) => {
                if *b {
                    proof { reveal_strlit("true"); }
                    String::from_str("true")
                } else {
                    proof { reveal_strlit("false"); }
                    String::from_str("false")
                }
            },
        }
    }
}

} // verus!
