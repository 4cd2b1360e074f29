//! What the parser computes, stated over token sequences: a state of the
//! parser is its current token, its peek token and the tokens still to come,
//! and each parsing function maps a state to what it builds and the state it
//! leaves behind.
use vstd::prelude::*;
use crate::token::{precedence_of, token_text, Precedence, TokenView};
use crate::ast::view::{
    BlockView, BooleanLiteralView, ExpressionView, IdentifierView, IntegerLiteralView,
    StatementView,
};

verus! {

/// What the parser looks at: the current token, the next one, and the tokens after them.
pub struct ParseState {
    pub curr: Option<TokenView>,
    pub peek: Option<TokenView>,
    pub rest: Seq<TokenView>,
}

/// The value of a `ParserError`: its kind and its message.
pub enum ParserErrorView {
    UnexpectedToken(Seq<char>),
    NoPrefixExpressionFound(Seq<char>),
    Unimplemented(Seq<char>),
}

/// The outcome of a parsing function: what it built and the state after it,
/// or the error and the state at which it stopped, or `Abort` where the
/// parser would panic.
pub enum Parsed<T> {
    Done(T, ParseState),
    Failed(ParserErrorView, ParseState),
    Abort,
}

/// Moves one token on: the peek token becomes the current one.
pub open spec fn advance(st: ParseState) -> ParseState {
    ParseState {
        curr: st.peek,
        peek: if st.rest.len() > 0 {
            Some(st.rest[0])
        } else {
            None
        },
        rest: if st.rest.len() > 0 {
            st.rest.drop_first()
        } else {
            st.rest
        },
    }
}

/// The state of a fresh parser over `tokens`: it has moved on twice.
pub open spec fn initial_state(tokens: Seq<TokenView>) -> ParseState {
    advance(advance(ParseState { curr: None, peek: None, rest: tokens }))
}

/// How much input a state still holds.
pub open spec fn measure(st: ParseState) -> nat {
    3 * st.rest.len() + (if st.peek is Some {
        2nat
    } else {
        0nat
    }) + (if st.curr is Some {
        1nat
    } else {
        0nat
    })
}

/// `after` is `before`, or holds less input.
pub open spec fn shrinks(before: ParseState, after: ParseState) -> bool {
    after == before || measure(after) < measure(before)
}

/// Moving on never adds input, and takes some away whenever there is any.
pub proof fn lemma_advance(st: ParseState)
    ensures
        measure(advance(st)) <= measure(st),
        (st.curr is Some || st.peek is Some || st.rest.len() > 0) ==> measure(advance(st))
            < measure(st),
        !(st.curr is Some || st.peek is Some || st.rest.len() > 0) ==> advance(st) == st,
        shrinks(st, advance(st)),
{
}

/// The text a token prints as, with a missing token printing as `EOF`.
pub open spec fn shown(t: Option<TokenView>) -> Seq<char> {
    match t {
        Some(t) => token_text(t),
        None => token_text(TokenView::Eof),
    }
}

/// `Expected '<expected>', got '<got>'`.
pub open spec fn expected_message(expected: TokenView, got: Option<TokenView>) -> Seq<char> {
    "Expected '"@ + token_text(expected) + "', got '"@ + shown(got) + "'"@
}

/// Consumes the current token when it is `t`.
pub open spec fn expect_curr(st: ParseState, t: TokenView) -> Parsed<()> {
    if st.curr == Some(t) {
        Parsed::Done((), advance(st))
    } else {
        Parsed::Failed(ParserErrorView::UnexpectedToken(expected_message(t, st.curr)), st)
    }
}

/// Moves on to the peek token when it is `t`.
pub open spec fn expect_peek(st: ParseState, t: TokenView) -> Parsed<()> {
    if st.peek == Some(t) {
        Parsed::Done((), advance(st))
    } else {
        Parsed::Failed(ParserErrorView::UnexpectedToken(expected_message(t, st.peek)), st)
    }
}

/// The identifier at the current token.
pub open spec fn identifier_s(st: ParseState) -> Parsed<IdentifierView> {
    match st.curr {
        Some(TokenView::Ident(name)) => Parsed::Done(
            IdentifierView { token: TokenView::Ident(name), name },
            st,
        ),
        _ => Parsed::Failed(
            ParserErrorView::UnexpectedToken("Expected identifier, got "@ + shown(st.curr)),
            st,
        ),
    }
}

/// The integer literal at the current token.
pub open spec fn integer_s(st: ParseState) -> Parsed<IntegerLiteralView> {
    match st.curr {
        Some(TokenView::Int(v)) => Parsed::Done(
            IntegerLiteralView { token: TokenView::Int(v), value: v },
            st,
        ),
        _ => Parsed::Failed(
            ParserErrorView::UnexpectedToken("Expected integer literal, got "@ + shown(st.curr)),
            st,
        ),
    }
}

/// The boolean literal at the current token.
pub open spec fn boolean_s(st: ParseState) -> Parsed<BooleanLiteralView> {
    match st.curr {
        Some(TokenView::True) => Parsed::Done(
            BooleanLiteralView { token: TokenView::True, value: true },
            st,
        ),
        Some(TokenView::False) => Parsed::Done(
            BooleanLiteralView { token: TokenView::False, value: false },
            st,
        ),
        _ => Parsed::Failed(
            ParserErrorView::UnexpectedToken("Expected boolean literal, got "@ + shown(st.curr)),
            st,
        ),
    }
}

/// Whether `t` is one of the eight binary operators.
pub open spec fn is_infix_operator(t: TokenView) -> bool {
    t is Plus || t is Minus || t is Asterisk || t is Slash || t is LessThan || t is GreaterThan
        || t is Equal || t is NotEqual
}

/// Whether the expression loop at precedence `prec` goes on: the peek token is
/// there, is not `;`, and binds stronger than `prec`.
pub open spec fn continues(st: ParseState, prec: Precedence) -> bool {
    match st.peek {
        Some(t) => !(t is Semicolon) && prec.rank() < precedence_of(t).rank(),
        None => false,
    }
}

/// A block `{ statements }` starting at the current token; the state after it
/// is past the closing brace.
pub open spec fn block_s(st: ParseState) -> Parsed<BlockView>
    decreases measure(st), 7nat,
{
    match expect_curr(st, TokenView::LeftBrace) {
        Parsed::Done(_, st1) => {
            proof {
                lemma_advance(st);
            }
            block_loop_s(seq![], st1)
        },
        Parsed::Failed(e, s) => Parsed::Failed(e, s),
        Parsed::Abort => Parsed::Abort,
    }
}

/// The statements of a block from the current token on, after `acc`.
pub open spec fn block_loop_s(acc: Seq<StatementView>, st: ParseState) -> Parsed<BlockView>
    decreases measure(st), 6nat,
{
    if st.curr == Some(TokenView::RightBrace) || st.curr is None {
        match expect_curr(st, TokenView::RightBrace) {
            Parsed::Done(_, st1) => Parsed::Done(
                BlockView { token: TokenView::LeftBrace, statements: acc },
                st1,
            ),
            Parsed::Failed(e, s) => Parsed::Failed(e, s),
            Parsed::Abort => Parsed::Abort,
        }
    } else {
        match statement_s(st) {
            Parsed::Done(s, st1) => {
                let st2 = advance(st1);
                if measure(st2) < measure(st) {
                    block_loop_s(acc.push(s), st2)
                } else {
                    Parsed::Abort
                }
            },
            Parsed::Failed(e, s) => Parsed::Failed(e, s),
            Parsed::Abort => Parsed::Abort,
        }
    }
}

/// The statement at the current token: a `let`, a `return`, or an expression.
pub open spec fn statement_s(st: ParseState) -> Parsed<StatementView>
    decreases measure(st), 5nat,
{
    match st.curr {
        Some(TokenView::Let) => let_s(st),
        Some(TokenView::Return) => return_s(st),
        Some(_) => expression_statement_s(st),
        None => Parsed::Failed(ParserErrorView::UnexpectedToken("Unexpected end of input"@), st),
    }
}

/// An expression standing as a statement; it ends at the expression's last token.
pub open spec fn expression_statement_s(st: ParseState) -> Parsed<StatementView>
    decreases measure(st), 4nat,
{
    match expression_s(st, Precedence::Lowest) {
        Parsed::Done(e, st1) => Parsed::Done(
            StatementView::Expression { token: TokenView::LeftParen, expression: e },
            st1,
        ),
        Parsed::Failed(e, s) => Parsed::Failed(e, s),
        Parsed::Abort => Parsed::Abort,
    }
}

/// `let name = value;`, ending at the `;`.
pub open spec fn let_s(st: ParseState) -> Parsed<StatementView>
    decreases measure(st), 4nat,
{
    match expect_curr(st, TokenView::Let) {
        Parsed::Done(_, st1) => match identifier_s(st1) {
            Parsed::Done(identifier, _) => {
                let st2 = advance(st1);
                match expect_curr(st2, TokenView::Assign) {
                    Parsed::Done(_, st3) => {
                        proof {
                            lemma_advance(st);
                            lemma_advance(st1);
                            lemma_advance(st2);
                        }
                        match expression_s(st3, Precedence::Lowest) {
                            Parsed::Done(value, st4) => match expect_peek(st4, TokenView::Semicolon) {
                                Parsed::Done(_, st5) => Parsed::Done(
                                    StatementView::Let { token: TokenView::Let, identifier, value },
                                    st5,
                                ),
                                Parsed::Failed(e, s) => Parsed::Failed(e, s),
                                Parsed::Abort => Parsed::Abort,
                            },
                            Parsed::Failed(e, s) => Parsed::Failed(e, s),
                            Parsed::Abort => Parsed::Abort,
                        }
                    },
                    Parsed::Failed(e, s) => Parsed::Failed(e, s),
                    Parsed::Abort => Parsed::Abort,
                }
            },
            Parsed::Failed(e, s) => Parsed::Failed(e, s),
            Parsed::Abort => Parsed::Abort,
        },
        Parsed::Failed(e, s) => Parsed::Failed(e, s),
        Parsed::Abort => Parsed::Abort,
    }
}

/// `return value;`, ending at the `;`.
pub open spec fn return_s(st: ParseState) -> Parsed<StatementView>
    decreases measure(st), 4nat,
{
    match expect_curr(st, TokenView::Return) {
        Parsed::Done(_, st1) => {
            proof {
                lemma_advance(st);
            }
            match expression_s(st1, Precedence::Lowest) {
                Parsed::Done(value, st2) => match expect_peek(st2, TokenView::Semicolon) {
                    Parsed::Done(_, st3) => Parsed::Done(
                        StatementView::Return { token: TokenView::Return, value },
                        st3,
                    ),
                    Parsed::Failed(e, s) => Parsed::Failed(e, s),
                    Parsed::Abort => Parsed::Abort,
                },
                Parsed::Failed(e, s) => Parsed::Failed(e, s),
                Parsed::Abort => Parsed::Abort,
            }
        },
        Parsed::Failed(e, s) => Parsed::Failed(e, s),
        Parsed::Abort => Parsed::Abort,
    }
}

/// An expression at the current token whose operators bind stronger than
/// `prec`; the state after it is at its last token.
pub open spec fn expression_s(st: ParseState, prec: Precedence) -> Parsed<ExpressionView>
    decreases measure(st), 3nat,
{
    match prefix_s(st) {
        Parsed::Done(None, st1) => Parsed::Failed(
            ParserErrorView::NoPrefixExpressionFound(
                "Expected a prefix expression token, got "@ + shown(st1.curr),
            ),
            st1,
        ),
        Parsed::Done(Some(left), st1) => if measure(st1) <= measure(st) {
            expression_loop_s(left, st1, prec)
        } else {
            Parsed::Abort
        },
        Parsed::Failed(e, s) => Parsed::Failed(e, s),
        Parsed::Abort => Parsed::Abort,
    }
}

/// Extends `left` with infix operators and calls while they bind stronger than `prec`.
pub open spec fn expression_loop_s(left: ExpressionView, st: ParseState, prec: Precedence) -> Parsed<
    ExpressionView,
>
    decreases measure(st), 1nat,
{
    if continues(st, prec) {
        match infix_s(left, st) {
            Parsed::Done(Some(e), st1) => if measure(st1) < measure(st) {
                expression_loop_s(e, st1, prec)
            } else {
                Parsed::Abort
            },
            Parsed::Done(None, st1) => Parsed::Done(left, st1),
            Parsed::Failed(e, s) => Parsed::Failed(e, s),
            Parsed::Abort => Parsed::Abort,
        }
    } else {
        Parsed::Done(left, st)
    }
}

/// The expression that starts at the current token: a literal, a name, a
/// prefix operator with its operand, a parenthesized expression, or an `if`;
/// `None` for any other token.
pub open spec fn prefix_s(st: ParseState) -> Parsed<Option<ExpressionView>>
    decreases measure(st), 2nat,
{
    proof {
        lemma_advance(st);
    }
    match st.curr {
        Some(TokenView::Ident(_)) => match identifier_s(st) {
            Parsed::Done(i, s) => Parsed::Done(Some(ExpressionView::Identifier(i)), s),
            Parsed::Failed(e, s) => Parsed::Failed(e, s),
            Parsed::Abort => Parsed::Abort,
        },
        Some(TokenView::Int(_)) => match integer_s(st) {
            Parsed::Done(i, s) => Parsed::Done(Some(ExpressionView::Integer(i)), s),
            Parsed::Failed(e, s) => Parsed::Failed(e, s),
            Parsed::Abort => Parsed::Abort,
        },
        Some(TokenView::Bang) | Some(TokenView::Minus) => {
            let operator = st.curr->0;
            match expression_s(advance(st), Precedence::Prefix) {
                Parsed::Done(e, s) => Parsed::Done(
                    Some(ExpressionView::Prefix { operator, expression: Box::new(e) }),
                    s,
                ),
                Parsed::Failed(e, s) => Parsed::Failed(e, s),
                Parsed::Abort => Parsed::Abort,
            }
        },
        Some(TokenView::True) | Some(TokenView::False) => match boolean_s(st) {
            Parsed::Done(b, s) => Parsed::Done(Some(ExpressionView::Boolean(b)), s),
            Parsed::Failed(e, s) => Parsed::Failed(e, s),
            Parsed::Abort => Parsed::Abort,
        },
        Some(TokenView::LeftParen) => match expression_s(advance(st), Precedence::Lowest) {
            Parsed::Done(e, st1) => match expect_peek(st1, TokenView::RightParen) {
                Parsed::Done(_, st2) => Parsed::Done(Some(e), st2),
                Parsed::Failed(e, s) => Parsed::Failed(e, s),
                Parsed::Abort => Parsed::Abort,
            },
            Parsed::Failed(e, s) => Parsed::Failed(e, s),
            Parsed::Abort => Parsed::Abort,
        },
        Some(TokenView::If) => match if_s(st) {
            Parsed::Done(e, s) => Parsed::Done(Some(e), s),
            Parsed::Failed(e, s) => Parsed::Failed(e, s),
            Parsed::Abort => Parsed::Abort,
        },
        Some(_) => Parsed::Done(None, st),
        None => Parsed::Failed(
            ParserErrorView::UnexpectedToken(
                "Expected prefix expression token, got "@ + shown(st.curr),
            ),
            st,
        ),
    }
}

/// `if (condition) { consequence }`, with an optional `else { alternative }`;
/// the state after it is past the last `}`.
pub open spec fn if_s(st: ParseState) -> Parsed<ExpressionView>
    decreases measure(st), 1nat,
{
    proof {
        lemma_advance(st);
    }
    match expect_peek(st, TokenView::LeftParen) {
        Parsed::Done(_, st1) => match expression_s(st1, Precedence::Lowest) {
            Parsed::Done(condition, st2) => if measure(st2) <= measure(st1) {
                match expect_curr(st2, TokenView::RightParen) {
                    Parsed::Done(_, st3) => {
                        proof {
                            lemma_advance(st2);
                        }
                        match block_s(st3) {
                            Parsed::Done(consequence, st4) => if measure(st4) <= measure(st3) {
                                if st4.curr == Some(TokenView::Else) {
                                    proof {
                                        lemma_advance(st4);
                                    }
                                    match block_s(advance(st4)) {
                                        Parsed::Done(alternative, st5) => Parsed::Done(
                                            ExpressionView::If {
                                                    condition: Box::new(condition),
                                                    consequence,
                                                    alternative: Some(alternative),
                                                },
                                            st5,
                                        ),
                                        Parsed::Failed(e, s) => Parsed::Failed(e, s),
                                        Parsed::Abort => Parsed::Abort,
                                    }
                                } else {
                                    Parsed::Done(
                                        ExpressionView::If {
                                                condition: Box::new(condition),
                                                consequence,
                                                alternative: None,
                                            },
                                        st4,
                                    )
                                }
                            } else {
                                Parsed::Abort
                            },
                            Parsed::Failed(e, s) => Parsed::Failed(e, s),
                            Parsed::Abort => Parsed::Abort,
                        }
                    },
                    Parsed::Failed(e, s) => Parsed::Failed(e, s),
                    Parsed::Abort => Parsed::Abort,
                }
            } else {
                Parsed::Abort
            },
            Parsed::Failed(e, s) => Parsed::Failed(e, s),
            Parsed::Abort => Parsed::Abort,
        },
        Parsed::Failed(e, s) => Parsed::Failed(e, s),
        Parsed::Abort => Parsed::Abort,
    }
}

/// The infix expression or call whose operator is the peek token, with
/// `left` as its left operand; `None` when the peek token is neither.
pub open spec fn infix_s(left: ExpressionView, st: ParseState) -> Parsed<Option<ExpressionView>>
    decreases measure(st), 0nat,
{
    proof {
        lemma_advance(st);
        lemma_advance(advance(st));
    }
    match st.peek {
        Some(t) => if is_infix_operator(t) {
            let st1 = advance(st);
            let operator = t;
            match expression_s(advance(st1), precedence_of(operator)) {
                Parsed::Done(right, st2) => Parsed::Done(
                    Some(
                        ExpressionView::Infix {
                            left: Box::new(left),
                            operator,
                            right: Box::new(right),
                        },
                    ),
                    st2,
                ),
                Parsed::Failed(e, s) => Parsed::Failed(e, s),
                Parsed::Abort => Parsed::Abort,
            }
        } else if t is LeftParen {
            match call_arguments_s(advance(st)) {
                Parsed::Done(arguments, st1) => Parsed::Done(
                    Some(ExpressionView::Call { function: Box::new(left), arguments }),
                    st1,
                ),
                Parsed::Failed(e, s) => Parsed::Failed(e, s),
                Parsed::Abort => Parsed::Abort,
            }
        } else {
            Parsed::Done(None, st)
        },
        None => Parsed::Done(None, st),
    }
}

/// The arguments of a call, from its `(` to past its `)`.  When nothing
/// follows the `(`, no argument list can be read and parsing stops (`Abort`).
pub open spec fn call_arguments_s(st: ParseState) -> Parsed<Seq<ExpressionView>>
    decreases measure(st), 2nat,
{
    match expect_curr(st, TokenView::LeftParen) {
        Parsed::Done(_, st1) => {
            proof {
                lemma_advance(st);
                lemma_advance(st1);
            }
            if st1.curr is None {
                Parsed::Abort
            } else if st1.curr == Some(TokenView::RightParen) {
                Parsed::Done(seq![], advance(st1))
            } else {
                match expression_s(st1, Precedence::Lowest) {
                    Parsed::Done(first, st2) => if measure(st2) <= measure(st1) {
                        proof {
                            lemma_advance(st2);
                        }
                        arguments_loop_s(seq![first], advance(st2))
                    } else {
                        Parsed::Abort
                    },
                    Parsed::Failed(e, s) => Parsed::Failed(e, s),
                    Parsed::Abort => Parsed::Abort,
                }
            }
        },
        Parsed::Failed(e, s) => Parsed::Failed(e, s),
        Parsed::Abort => Parsed::Abort,
    }
}

/// Further arguments after `acc`, each after a `,`, then the closing `)`.
pub open spec fn arguments_loop_s(acc: Seq<ExpressionView>, st: ParseState) -> Parsed<
    Seq<ExpressionView>,
>
    decreases measure(st), 1nat,
{
    if st.curr == Some(TokenView::Comma) {
        proof {
            lemma_advance(st);
        }
        let st1 = advance(st);
        match expression_s(st1, Precedence::Lowest) {
            Parsed::Done(e, st2) => if measure(st2) <= measure(st1) {
                proof {
                    lemma_advance(st2);
                }
                arguments_loop_s(acc.push(e), advance(st2))
            } else {
                Parsed::Abort
            },
            Parsed::Failed(e, s) => Parsed::Failed(e, s),
            Parsed::Abort => Parsed::Abort,
        }
    } else {
        match expect_curr(st, TokenView::RightParen) {
            Parsed::Done(_, st1) => Parsed::Done(acc, st1),
            Parsed::Failed(e, s) => Parsed::Failed(e, s),
            Parsed::Abort => Parsed::Abort,
        }
    }
}

/// What `parse_program` gathers: the statements, the errors, and the final state.
pub struct ProgramOutcome {
    pub statements: Seq<StatementView>,
    pub errors: Seq<ParserErrorView>,
    pub state: ParseState,
}

/// The outcome `r` of a parsing function, with `after` the state it left, is
/// the outcome `p` of the grammar: the same value (seen through `f`) or the
/// same error, and the same state.
pub open spec fn outcome<T, V>(
    r: Result<T, crate::parser::ParserError>,
    after: ParseState,
    p: Parsed<V>,
    f: spec_fn(T) -> V,
) -> bool {
    match p {
        Parsed::Done(v, st) => r matches Ok(x) && f(x) == v && after == st,
        Parsed::Failed(e, st) => r matches Err(x) && x@ == e && after == st,
        Parsed::Abort => false,
    }
}

/// Moving on to a `;` never adds input.
pub proof fn lemma_skip(st: ParseState)
    ensures
        shrinks(st, skip_to_semicolon(st)),
        measure(skip_to_semicolon(st)) <= measure(st),
    decreases measure(st),
{
    if st.curr is Some && st.curr != Some(TokenView::Semicolon) {
        lemma_advance(st);
        lemma_skip(advance(st));
    }
}

/// Moves on until the current token is `;` or the input ends.
pub open spec fn skip_to_semicolon(st: ParseState) -> ParseState
    decreases measure(st),
{
    if st.curr is Some && st.curr != Some(TokenView::Semicolon) {
        proof {
            lemma_advance(st);
        }
        skip_to_semicolon(advance(st))
    } else {
        st
    }
}

/// The statements and errors of the program from the current token on, after
/// those already gathered.  A statement in error is skipped up to the next
/// `;`; after each statement the parser moves one token on.
#[verifier::opaque]
pub open spec fn program_s(statements: Seq<StatementView>, errors: Seq<ParserErrorView>, st: ParseState) -> Option<
    ProgramOutcome,
>
    decreases measure(st),
{
    if st.curr is None {
        Some(ProgramOutcome { statements, errors, state: st })
    } else {
        let (statements2, errors2, st2) = match statement_s(st) {
            Parsed::Done(s, st1) => (statements.push(s), errors, advance(st1)),
            Parsed::Failed(e, st1) => (statements, errors.push(e), advance(skip_to_semicolon(st1))),
            Parsed::Abort => (statements, errors, st),
        };
        if statement_s(st) is Abort {
            None
        } else if measure(st2) < measure(st) {
            program_s(statements2, errors2, st2)
        } else {
            None
        }
    }
}

} // verus!

verus! {

/// One step of the program loop: when the current token is there, the
/// program is the statement there (or its error) followed by the program from
/// the token after it (after the next `;` for an error); where the statement
/// cannot be read to its end, there is no program.
pub proof fn lemma_program_step(
    statements: Seq<StatementView>,
    errors: Seq<ParserErrorView>,
    st: ParseState,
)
    requires
        st.curr is Some,
    ensures
        match statement_s(st) {
            Parsed::Done(s, st1) => shrinks(st, st1) ==> program_s(statements, errors, st)
                == program_s(statements.push(s), errors, advance(st1)),
            Parsed::Failed(e, st1) => shrinks(st, st1) ==> program_s(statements, errors, st)
                == program_s(statements, errors.push(e), advance(skip_to_semicolon(st1))),
            Parsed::Abort => program_s(statements, errors, st) is None,
        },
{
    reveal(program_s);
    match statement_s(st) {
        Parsed::Done(s, st1) => {
            lemma_advance(st);
            lemma_advance(st1);
        },
        Parsed::Failed(e, st1) => {
            lemma_advance(st);
            lemma_skip(st1);
            lemma_advance(skip_to_semicolon(st1));
        },
        Parsed::Abort => {},
    }
}

} // verus!

verus! {

/// Where no token is left, the program is what was gathered.
pub proof fn lemma_program_end(
    statements: Seq<StatementView>,
    errors: Seq<ParserErrorView>,
    st: ParseState,
)
    requires
        st.curr is None,
    ensures
        program_s(statements, errors, st) == Some(ProgramOutcome { statements, errors, state: st }),
{
    reveal(program_s);
}

} // verus!
