//! How far the parser reads: every parsing function leaves the parser at a
//! later position of the same input, and the only place where parsing stops
//! early is a call whose `(` is the last token.
use vstd::prelude::*;
use crate::token::TokenView;
use super::grammar::{
    advance, arguments_loop_s, block_loop_s, block_s, call_arguments_s, continues, expect_curr,
    expect_peek, expression_loop_s, expression_s, expression_statement_s, identifier_s,
    if_s, infix_s, initial_state, let_s, measure, prefix_s, program_s, return_s,
    skip_to_semicolon, statement_s, ParseState, Parsed, ParserErrorView,
};
use super::laws::{lemma_advance_at, lemma_measure_at, state_at};
use crate::ast::view::{ExpressionView, StatementView};
use crate::token::Precedence;

verus! {

/// How many tokens a state still holds.
pub open spec fn remaining(st: ParseState) -> nat {
    (if st.curr is Some {
        1nat
    } else {
        0nat
    }) + (if st.peek is Some {
        1nat
    } else {
        0nat
    }) + st.rest.len()
}

/// `st` is the parser at some position of `tokens`: the tokens it still holds
/// are the last ones of `tokens`.
pub open spec fn within(tokens: Seq<TokenView>, st: ParseState) -> bool {
    remaining(st) <= tokens.len() && st == state_at(tokens, tokens.len() - remaining(st))
}

/// The input ends with `(`.
pub open spec fn ends_open(tokens: Seq<TokenView>) -> bool {
    tokens.len() > 0 && tokens.last() == TokenView::LeftParen
}

/// What a parsing function does with the input: it leaves the parser at the
/// same or a later position, or stops early only on input that ends with `(`.
pub open spec fn keeps<V>(tokens: Seq<TokenView>, st: ParseState, p: Parsed<V>) -> bool {
    match p {
        Parsed::Done(_, s) => within(tokens, s) && remaining(s) <= remaining(st),
        Parsed::Failed(_, s) => within(tokens, s) && remaining(s) <= remaining(st),
        Parsed::Abort => ends_open(tokens),
    }
}

/// The position of a state determines it, and `state_at` gives it back.
proof fn lemma_within_at(tokens: Seq<TokenView>, i: int)
    requires
        0 <= i <= tokens.len(),
    ensures
        remaining(state_at(tokens, i)) == tokens.len() - i,
        within(tokens, state_at(tokens, i)),
{
    if i + 2 <= tokens.len() {
        assert(tokens.skip(i + 2).len() == tokens.len() - i - 2);
    }
}

/// Moving on from a position reaches the next one; at the end it stays there.
proof fn lemma_within_advance(tokens: Seq<TokenView>, st: ParseState)
    requires
        within(tokens, st),
    ensures
        within(tokens, advance(st)),
        remaining(advance(st)) == if remaining(st) > 0 {
            remaining(st) - 1
        } else {
            0
        },
{
    let i = tokens.len() - remaining(st);
    lemma_within_at(tokens, i);
    lemma_advance_at(tokens, i);
    if i < tokens.len() {
        lemma_within_at(tokens, i + 1);
    } else {
        assert(state_at(tokens, i + 1) == state_at(tokens, i)) by {
            assert(state_at(tokens, i + 1).rest =~= state_at(tokens, i).rest);
        }
    }
}

/// Fewer tokens left is less input.
proof fn lemma_within_measure(tokens: Seq<TokenView>, s1: ParseState, s2: ParseState)
    requires
        within(tokens, s1),
        within(tokens, s2),
    ensures
        remaining(s1) <= remaining(s2) ==> measure(s1) <= measure(s2),
        remaining(s1) < remaining(s2) ==> measure(s1) < measure(s2),
{
    let i1 = tokens.len() - remaining(s1);
    let i2 = tokens.len() - remaining(s2);
    if i2 <= i1 {
        lemma_measure_at(tokens, i2, i1);
    }
}

/// An expected token leaves the parser at the same or the next position.
proof fn lemma_expect(tokens: Seq<TokenView>, st: ParseState, t: TokenView)
    requires
        within(tokens, st),
    ensures
        keeps(tokens, st, expect_curr(st, t)),
        keeps(tokens, st, expect_peek(st, t)),
        expect_curr(st, t) matches Parsed::Done(_, s) ==> s == advance(st),
        expect_peek(st, t) matches Parsed::Done(_, s) ==> s == advance(st),
{
    lemma_within_advance(tokens, st);
}

/// The statements of a block, read from a position of the input.
proof fn lemma_block_loop(tokens: Seq<TokenView>, acc: Seq<StatementView>, st: ParseState)
    requires
        within(tokens, st),
    ensures
        keeps(tokens, st, block_loop_s(acc, st)),
    decreases measure(st), 6nat,
{
    if st.curr == Some(TokenView::RightBrace) || st.curr is None {
        lemma_expect(tokens, st, TokenView::RightBrace);
    } else {
        lemma_statement(tokens, st);
        match statement_s(st) {
            Parsed::Done(s, st1) => {
                lemma_within_advance(tokens, st1);
                let st2 = advance(st1);
                lemma_within_measure(tokens, st2, st);
                if measure(st2) < measure(st) {
                    lemma_block_loop(tokens, acc.push(s), st2);
                }
            },
            _ => {},
        }
    }
}

/// A block, read from a position of the input.
proof fn lemma_block(tokens: Seq<TokenView>, st: ParseState)
    requires
        within(tokens, st),
    ensures
        keeps(tokens, st, block_s(st)),
    decreases measure(st), 7nat,
{
    lemma_expect(tokens, st, TokenView::LeftBrace);
    match expect_curr(st, TokenView::LeftBrace) {
        Parsed::Done(_, st1) => {
            lemma_within_measure(tokens, st1, st);
            lemma_block_loop(tokens, Seq::empty(), st1);
        },
        _ => {},
    }
}

/// A statement, read from a position of the input.
proof fn lemma_statement(tokens: Seq<TokenView>, st: ParseState)
    requires
        within(tokens, st),
    ensures
        keeps(tokens, st, statement_s(st)),
    decreases measure(st), 5nat,
{
    match st.curr {
        Some(TokenView::Let) => lemma_let(tokens, st),
        Some(TokenView::Return) => lemma_return(tokens, st),
        Some(_) => {
            lemma_expression(tokens, st, Precedence::Lowest);
        },
        None => {},
    }
}

/// A `let` statement, read from a position of the input.
proof fn lemma_let(tokens: Seq<TokenView>, st: ParseState)
    requires
        within(tokens, st),
    ensures
        keeps(tokens, st, let_s(st)),
    decreases measure(st), 4nat,
{
    lemma_expect(tokens, st, TokenView::Let);
    match expect_curr(st, TokenView::Let) {
        Parsed::Done(_, st1) => match identifier_s(st1) {
            Parsed::Done(_, _) => {
                lemma_within_advance(tokens, st1);
                let st2 = advance(st1);
                lemma_expect(tokens, st2, TokenView::Assign);
                match expect_curr(st2, TokenView::Assign) {
                    Parsed::Done(_, st3) => {
                        lemma_within_measure(tokens, st3, st);
                        lemma_expression(tokens, st3, Precedence::Lowest);
                        match expression_s(st3, Precedence::Lowest) {
                            Parsed::Done(_, st4) => {
                                lemma_expect(tokens, st4, TokenView::Semicolon);
                            },
                            _ => {},
                        }
                    },
                    _ => {},
                }
            },
            _ => {},
        },
        _ => {},
    }
}

/// A `return` statement, read from a position of the input.
proof fn lemma_return(tokens: Seq<TokenView>, st: ParseState)
    requires
        within(tokens, st),
    ensures
        keeps(tokens, st, return_s(st)),
    decreases measure(st), 4nat,
{
    lemma_expect(tokens, st, TokenView::Return);
    match expect_curr(st, TokenView::Return) {
        Parsed::Done(_, st1) => {
            lemma_within_measure(tokens, st1, st);
            lemma_expression(tokens, st1, Precedence::Lowest);
            match expression_s(st1, Precedence::Lowest) {
                Parsed::Done(_, st2) => {
                    lemma_expect(tokens, st2, TokenView::Semicolon);
                },
                _ => {},
            }
        },
        _ => {},
    }
}

/// An expression, read from a position of the input.
proof fn lemma_expression(tokens: Seq<TokenView>, st: ParseState, prec: Precedence)
    requires
        within(tokens, st),
    ensures
        keeps(tokens, st, expression_s(st, prec)),
        keeps(tokens, st, expression_statement_s(st)),
    decreases measure(st), 3nat,
{
    lemma_prefix(tokens, st);
    match prefix_s(st) {
        Parsed::Done(Some(left), st1) => {
            lemma_within_measure(tokens, st1, st);
            lemma_expression_loop(tokens, left, st1, prec);
            lemma_expression_loop(tokens, left, st1, Precedence::Lowest);
        },
        _ => {},
    }
}

/// Operators after an expression, read from a position of the input.
proof fn lemma_expression_loop(
    tokens: Seq<TokenView>,
    left: ExpressionView,
    st: ParseState,
    prec: Precedence,
)
    requires
        within(tokens, st),
    ensures
        keeps(tokens, st, expression_loop_s(left, st, prec)),
    decreases measure(st), 1nat,
{
    if continues(st, prec) {
        lemma_infix(tokens, left, st);
        match infix_s(left, st) {
            Parsed::Done(Some(e), st1) => {
                lemma_within_measure(tokens, st1, st);
                lemma_expression_loop(tokens, e, st1, prec);
            },
            _ => {},
        }
    }
}

/// The expression that starts at a position of the input.
proof fn lemma_prefix(tokens: Seq<TokenView>, st: ParseState)
    requires
        within(tokens, st),
    ensures
        keeps(tokens, st, prefix_s(st)),
    decreases measure(st), 2nat,
{
    lemma_within_advance(tokens, st);
    lemma_within_measure(tokens, advance(st), st);
    match st.curr {
        Some(TokenView::Bang) | Some(TokenView::Minus) => {
            lemma_expression(tokens, advance(st), Precedence::Prefix);
        },
        Some(TokenView::LeftParen) => {
            lemma_expression(tokens, advance(st), Precedence::Lowest);
            match expression_s(advance(st), Precedence::Lowest) {
                Parsed::Done(_, st1) => {
                    lemma_expect(tokens, st1, TokenView::RightParen);
                },
                _ => {},
            }
        },
        Some(TokenView::If) => {
            lemma_if(tokens, st);
        },
        _ => {},
    }
}

/// An `if` expression, read from a position of the input.
proof fn lemma_if(tokens: Seq<TokenView>, st: ParseState)
    requires
        within(tokens, st),
    ensures
        keeps(tokens, st, if_s(st)),
    decreases measure(st), 1nat,
{
    lemma_expect(tokens, st, TokenView::LeftParen);
    match expect_peek(st, TokenView::LeftParen) {
        Parsed::Done(_, st1) => {
            lemma_within_measure(tokens, st1, st);
            lemma_expression(tokens, st1, Precedence::Lowest);
            match expression_s(st1, Precedence::Lowest) {
                Parsed::Done(_, st2) => {
                    lemma_within_measure(tokens, st2, st1);
                    lemma_expect(tokens, st2, TokenView::RightParen);
                    match expect_curr(st2, TokenView::RightParen) {
                        Parsed::Done(_, st3) => {
                            lemma_within_measure(tokens, st3, st);
                            lemma_block(tokens, st3);
                            match block_s(st3) {
                                Parsed::Done(_, st4) => {
                                    lemma_within_measure(tokens, st4, st3);
                                    lemma_within_advance(tokens, st4);
                                    lemma_within_measure(tokens, advance(st4), st);
                                    if st4.curr == Some(TokenView::Else) {
                                        lemma_block(tokens, advance(st4));
                                    }
                                },
                                _ => {},
                            }
                        },
                        _ => {},
                    }
                },
                _ => {},
            }
        },
        _ => {},
    }
}

/// An operator or a call after `left`, read from a position of the input;
/// when there is one, the parser is left strictly further on.
proof fn lemma_infix(tokens: Seq<TokenView>, left: ExpressionView, st: ParseState)
    requires
        within(tokens, st),
    ensures
        keeps(tokens, st, infix_s(left, st)),
        infix_s(left, st) matches Parsed::Done(Some(_), s) ==> remaining(s) < remaining(st),
    decreases measure(st), 0nat,
{
    lemma_within_advance(tokens, st);
    lemma_within_advance(tokens, advance(st));
    lemma_within_measure(tokens, advance(st), st);
    lemma_within_measure(tokens, advance(advance(st)), st);
    match st.peek {
        Some(t) => {
            if super::grammar::is_infix_operator(t) {
                lemma_expression(tokens, advance(advance(st)), crate::token::precedence_of(t));
            } else if t is LeftParen {
                lemma_call_arguments(tokens, advance(st));
            }
        },
        None => {},
    }
}

/// The arguments of a call, read from a position of the input.  Parsing
/// stops early here, and only here, when the `(` is the last token.
proof fn lemma_call_arguments(tokens: Seq<TokenView>, st: ParseState)
    requires
        within(tokens, st),
    ensures
        keeps(tokens, st, call_arguments_s(st)),
    decreases measure(st), 2nat,
{
    lemma_expect(tokens, st, TokenView::LeftParen);
    match expect_curr(st, TokenView::LeftParen) {
        Parsed::Done(_, st1) => {
            lemma_within_advance(tokens, st1);
            lemma_within_measure(tokens, st1, st);
            if st1.curr is None {
                // The `(` was the current token and nothing came after it.
                assert(remaining(st) == 1);
                let i = tokens.len() - 1;
                assert(st == state_at(tokens, i));
                assert(tokens.last() == tokens[i]);
            } else if st1.curr == Some(TokenView::RightParen) {
            } else {
                lemma_expression(tokens, st1, Precedence::Lowest);
                match expression_s(st1, Precedence::Lowest) {
                    Parsed::Done(first, st2) => {
                        lemma_within_measure(tokens, st2, st1);
                        lemma_within_advance(tokens, st2);
                        lemma_within_measure(tokens, advance(st2), st);
                        lemma_arguments_loop(tokens, seq![first], advance(st2));
                    },
                    _ => {},
                }
            }
        },
        _ => {},
    }
}

/// Further arguments of a call, read from a position of the input.
proof fn lemma_arguments_loop(tokens: Seq<TokenView>, acc: Seq<ExpressionView>, st: ParseState)
    requires
        within(tokens, st),
    ensures
        keeps(tokens, st, arguments_loop_s(acc, st)),
    decreases measure(st), 1nat,
{
    if st.curr == Some(TokenView::Comma) {
        lemma_within_advance(tokens, st);
        let st1 = advance(st);
        lemma_within_measure(tokens, st1, st);
        lemma_expression(tokens, st1, Precedence::Lowest);
        match expression_s(st1, Precedence::Lowest) {
            Parsed::Done(e, st2) => {
                lemma_within_measure(tokens, st2, st1);
                lemma_within_advance(tokens, st2);
                lemma_within_measure(tokens, advance(st2), st);
                lemma_arguments_loop(tokens, acc.push(e), advance(st2));
            },
            _ => {},
        }
    } else {
        lemma_expect(tokens, st, TokenView::RightParen);
    }
}

/// Moving on to a `;` stays within the input.
proof fn lemma_skip_within(tokens: Seq<TokenView>, st: ParseState)
    requires
        within(tokens, st),
    ensures
        within(tokens, skip_to_semicolon(st)),
        remaining(skip_to_semicolon(st)) <= remaining(st),
    decreases measure(st),
{
    if st.curr is Some && st.curr != Some(TokenView::Semicolon) {
        lemma_within_advance(tokens, st);
        lemma_within_measure(tokens, advance(st), st);
        lemma_skip_within(tokens, advance(st));
    }
}

/// From any position of the input, the program is read to the end unless
/// the input ends with `(`.
proof fn lemma_program_within(
    tokens: Seq<TokenView>,
    statements: Seq<StatementView>,
    errors: Seq<ParserErrorView>,
    st: ParseState,
)
    requires
        within(tokens, st),
        !ends_open(tokens),
    ensures
        program_s(statements, errors, st) is Some,
    decreases measure(st),
{
    reveal(program_s);
    if st.curr is Some {
        lemma_statement(tokens, st);
        match statement_s(st) {
            Parsed::Done(s, st1) => {
                lemma_within_advance(tokens, st1);
                lemma_within_measure(tokens, advance(st1), st);
                lemma_program_within(tokens, statements.push(s), errors, advance(st1));
            },
            Parsed::Failed(e, st1) => {
                lemma_skip_within(tokens, st1);
                let st2 = skip_to_semicolon(st1);
                lemma_within_advance(tokens, st2);
                lemma_within_measure(tokens, advance(st2), st);
                lemma_program_within(tokens, statements, errors.push(e), advance(st2));
            },
            Parsed::Abort => {},
        }
    }
}

/// Parsing a program stops early only on input that ends with `(` (a call
/// with nothing after its `(`); on any other input the whole program is read,
/// with its statements and its errors.
pub proof fn lemma_parse_stops_only_at_open_paren(
    tokens: Seq<TokenView>,
    statements: Seq<StatementView>,
    errors: Seq<ParserErrorView>,
)
    ensures
        program_s(statements, errors, initial_state(tokens)) is None ==> ends_open(tokens),
{
    lemma_within_at(tokens, 0);
    lemma_advance_at(tokens, -2);
    lemma_advance_at(tokens, -1);
    assert(state_at(tokens, -2) == ParseState { curr: None, peek: None, rest: tokens }) by {
        assert(tokens.skip(0) =~= tokens);
    }
    assert(initial_state(tokens) == state_at(tokens, 0));
    if !ends_open(tokens) {
        lemma_program_within(tokens, statements, errors, initial_state(tokens));
    }
}

} // verus!
