//! Types whose parameters record a state, so that only the operations that
//! state allows can be called.
use vstd::prelude::*;
use std::marker::PhantomData;
use crate::lexer::digit;
use crate::text::{
    all_digits, digits_value, int_error_message, is_ascii_digit, is_digit_char, parse_i32,
    push_char, str_eq,
};

verus! {

// A box that can only be read while unlocked.
#[derive(Debug)]
pub struct Locked;

#[derive(Debug)]
pub struct Unlocked;

/// A box of text; `State` is `Locked` or `Unlocked`.
#[derive(Debug)]
pub struct SafeBox<State> {
    contents: String,
    _state: PhantomData<State>,
}

impl<State> SafeBox<State> {
    /// The text in the box.
    pub closed spec fn contents_text(&self) -> Seq<char> {
        self.contents@
    }
}

impl SafeBox<Locked> {
    /// A locked box holding `contents`.
    pub fn new(contents: String) -> (b: Self)
        ensures
            b.contents_text() == contents@,
    {
        SafeBox { contents, _state: PhantomData }
    }

    /// Opens the box with the key `secret`; any other key gives the box back
    /// still locked.
    pub fn unlock(self, key: &str) -> (r: Result<SafeBox<Unlocked>, Self>)
        ensures
            r is Ok <==> key@ == "secret"@,
            match r {
                Ok(b) => b.contents_text() == self.contents_text(),
                Err(b) => b == self,
            },
    {
        if str_eq(key, "secret") {
            Ok(SafeBox { contents: self.contents, _state: PhantomData })
        } else {
            Err(self)
        }
    }
}

impl SafeBox<Unlocked> {
    /// The text in the box.
    pub fn get_contents(&self) -> (r: &str)
        ensures
            r@ == self.contents_text(),
    {
        self.contents.as_str()
    }

    /// Replaces the text in the box.
    pub fn set_contents(&mut self, contents: String)
        ensures
            final(self).contents_text() == contents@,
    {
        self.contents = contents;
    }

    /// Locks the box; the text stays.
    pub fn lock(self) -> (b: SafeBox<Locked>)
        ensures
            b.contents_text() == self.contents_text(),
    {
        SafeBox { contents: self.contents, _state: PhantomData }
    }
}

/// A way of reading a number from text.
pub trait ParseStrategy {
    type Output;

    fn parse(input: &str) -> Self::Output;
}

/// Reads an `i32` as `str::parse` does; an error message otherwise.
#[derive(Debug)]
pub struct StrictMode;

/// Reads the digits of the text, ignoring everything else; 0 when they do
/// not make an `i32`.
#[derive(Debug)]
pub struct LenientMode;

/// The digits of `s`, in order.
pub open spec fn digits_of(s: Seq<char>) -> Seq<char> {
    s.filter(digit())
}

/// What the lenient reading gives: the number the digits of `s` spell, or 0
/// when there are none or they do not fit in an `i32`.
pub open spec fn lenient_value(s: Seq<char>) -> i32 {
    let d = digits_of(s);
    if d.len() > 0 && digits_value(d) <= i32::MAX {
        digits_value(d) as i32
    } else {
        0
    }
}

impl ParseStrategy for StrictMode {
    type Output = Result<i32, String>;

    fn parse(input: &str) -> (r: Result<i32, String>)
        ensures
            r is Ok <==> (crate::text::signed_decimal_value(input@) matches Some(v) && i32::MIN
                <= v <= i32::MAX),
            r matches Ok(v) ==> crate::text::signed_decimal_value(input@) == Some(v as int),
    {
        match parse_i32(input) {
            Ok(v) => Ok(v),
            Err(e) => Err(int_error_message(&e)),
        }
    }
}

impl ParseStrategy for LenientMode {
    type Output = i32;

    fn parse(input: &str) -> (r: i32)
        ensures
            r == lenient_value(input@),
    {
        let chars = crate::text::str_chars(input);
        let n = chars.len();
        let mut digits = String::new();
        for i in 0..n
            invariant
                n == input@.len(),
                chars@ == input@,
                digits@ == digits_of(input@.subrange(0, i as int)),
        {
            let c = chars[i];
            proof {
                assert(input@.subrange(0, i + 1).drop_last() == input@.subrange(0, i as int));
                reveal_with_fuel(Seq::filter, 1);
            }
            if is_ascii_digit(c) {
                push_char(&mut digits, c);
            }
        }
        proof {
            assert(input@.subrange(0, n as int) == input@);
            assert(all_digits(digits@)) by {
                assert forall|k: int| 0 <= k < digits@.len() implies is_digit_char(
                    #[trigger] digits@[k],
                ) by {
                    input@.lemma_filter_pred(digit(), k);
                }
            }
            if digits@.len() > 0 {
                assert(digits@.drop_first() == digits@.subrange(1, digits@.len() as int));
            }
        }
        match parse_i32(digits.as_str()) {
            Ok(v) => v,
            Err(_) => 0,
        }
    }
}

/// Reads numbers with the strategy `Strategy`.
#[derive(Debug)]
pub struct Parser<Strategy> {
    _strategy: PhantomData<Strategy>,
}

impl<Strategy: ParseStrategy> Parser<Strategy> {
    pub fn new() -> Self {
        Parser { _strategy: PhantomData }
    }

    /// What the strategy reads from `input`.
    pub fn parse(&self, input: &str) -> (r: Strategy::Output)
        ensures
            call_ensures(Strategy::parse, (input,), r),
    {
        Strategy::parse(input)
    }
}

// Units of length.
#[derive(Debug, Clone, Copy)]
pub struct Meters;

#[derive(Debug, Clone, Copy)]
pub struct Feet;

// Connection states of a database handle.
#[derive(Debug)]
pub struct Connected;

#[derive(Debug)]
pub struct Disconnected;

/// A database handle; `State` is `Connected` or `Disconnected`.
#[derive(Debug)]
pub struct Database<State> {
    connection_string: String,
    _state: PhantomData<State>,
}

impl<State> Database<State> {
    /// Where the handle connects to.
    pub closed spec fn target(&self) -> Seq<char> {
        self.connection_string@
    }

    /// Where the handle connects to.
    pub fn connection_string(&self) -> (r: &str)
        ensures
            r@ == self.target(),
    {
        self.connection_string.as_str()
    }
}

impl Database<Disconnected> {
    pub fn new(connection_string: String) -> (db: Self)
        ensures
            db.target() == connection_string@,
    {
        Database { connection_string, _state: PhantomData }
    }

    /// The connected handle to the same place; connecting does not fail.
    pub fn connect(self) -> (r: Result<Database<Connected>, String>)
        ensures
            r matches Ok(db) && db.target() == self.target(),
    {
        Ok(Database { connection_string: self.connection_string, _state: PhantomData })
    }
}

impl Database<Connected> {
    /// The rows a query gives: `result1` and `result2`, whatever the query.
    pub fn query(&self, sql: &str) -> (rows: Vec<String>)
        ensures
            rows@.len() == 2,
            rows@[0]@ == "result1"@,
            rows@[1]@ == "result2"@,
    {
        let mut rows = Vec::new();
        rows.push(String::from_str("result1"));
        rows.push(String::from_str("result2"));
        rows
    }

    /// The disconnected handle to the same place.
    pub fn disconnect(self) -> (db: Database<Disconnected>)
        ensures
            db.target() == self.target(),
    {
        Database { connection_string: self.connection_string, _state: PhantomData }
    }
}

/// The kind of node an `ASTNode` is.
pub trait NodeType {

}

#[derive(Debug)]
pub struct Expression;

#[derive(Debug)]
pub struct Statement;

impl NodeType for Expression {

}

impl NodeType for Statement {

}

/// A node with its text and place in the source; `T` is its kind.
#[derive(Debug)]
pub struct ASTNode<T: NodeType> {
    pub value: String,
    pub line: usize,
    pub column: usize,
    _node_type: PhantomData<T>,
}

impl<T: NodeType> ASTNode<T> {
    /// The text, line and column of the node.
    pub closed spec fn parts(&self) -> (String, usize, usize) {
        (self.value, self.line, self.column)
    }

    pub fn new(value: String, line: usize, column: usize) -> (n: Self)
        ensures
            n.parts() == (value, line, column),
    {
        ASTNode { value, line, column, _node_type: PhantomData }
    }
}

pub type ExpressionNode = ASTNode<Expression>;

pub type StatementNode = ASTNode<Statement>;

impl ASTNode<Expression> {
    /// The value of an expression node: always 42.
    pub fn evaluate(&self) -> (r: i32)
        ensures
            r == 42,
    {
        42
    }
}

impl ASTNode<Statement> {
    /// The line that executing a statement node reports.
    pub fn execute(&self) -> (r: String)
        ensures
            r@ == "Executing statement: "@ + self.parts().0@,
    {
        let mut s = String::from_str("Executing statement: ");
        crate::text::push_string(&mut s, &self.value);
        s
    }
}

// Whether a builder has been given a name and an age.
#[derive(Debug)]
pub struct NoName;

#[derive(Debug)]
pub struct HasName;

#[derive(Debug)]
pub struct NoAge;

#[derive(Debug)]
pub struct HasAge;

/// Builds a `Person`; it can build once it has both a name and an age.
#[derive(Debug)]
pub struct PersonBuilder<NameState, AgeState> {
    name: Option<String>,
    age: Option<u32>,
    _name_state: PhantomData<NameState>,
    _age_state: PhantomData<AgeState>,
}

impl<NameState, AgeState> PersonBuilder<NameState, AgeState> {
    /// The name given so far.
    pub closed spec fn given_name(&self) -> Option<String> {
        self.name
    }

    /// The age given so far.
    pub closed spec fn given_age(&self) -> Option<u32> {
        self.age
    }
}

impl PersonBuilder<NoName, NoAge> {
    pub fn new() -> (b: Self)
        ensures
            b.given_name() is None,
            b.given_age() is None,
    {
        PersonBuilder { name: None, age: None, _name_state: PhantomData, _age_state: PhantomData }
    }
}

impl<AgeState> PersonBuilder<NoName, AgeState> {
    /// Gives the name; the age stays as it was.
    pub fn name(self, name: String) -> (b: PersonBuilder<HasName, AgeState>)
        ensures
            b.given_name() == Some(name),
            b.given_age() == self.given_age(),
    {
        PersonBuilder {
            name: Some(name),
            age: self.age,
            _name_state: PhantomData,
            _age_state: PhantomData,
        }
    }
}

impl<NameState> PersonBuilder<NameState, NoAge> {
    /// Gives the age; the name stays as it was.
    pub fn age(self, age: u32) -> (b: PersonBuilder<NameState, HasAge>)
        ensures
            b.given_age() == Some(age),
            b.given_name() == self.given_name(),
    {
        PersonBuilder {
            name: self.name,
            age: Some(age),
            _name_state: PhantomData,
            _age_state: PhantomData,
        }
    }
}

#[derive(Debug)]
pub struct Person {
    pub name: String,
    pub age: u32,
}

impl PersonBuilder<HasName, HasAge> {
    /// The person with the name and age given.
    pub fn build(self) -> (p: Person)
        requires
            self.given_name() is Some,
            self.given_age() is Some,
        ensures
            p.name == self.given_name()->0,
            p.age == self.given_age()->0,
    {
        Person { name: self.name.unwrap(), age: self.age.unwrap() }
    }
}

} // verus!
