//! Laws on what the parser builds of statements, blocks and calls: a value,
//! a call argument, or a block keeps everything that was read for it.
use vstd::prelude::*;
use crate::token::{
    is_arithmetic_operator, is_comparison_operator, lemma_operator_levels,
    lemma_operator_strength, precedence_of, Precedence, TokenView,
};
use crate::ast::view::{BlockView, ExpressionView, IdentifierView, StatementView};
use super::grammar::{
    advance, block_loop_s, block_s, call_arguments_s, continues, expression_loop_s, expression_s,
    infix_s, is_infix_operator, let_s, measure, prefix_s, return_s, statement_s, ParseState,
    Parsed,
};
use super::laws::{
    infix, is_operand, lemma_operators_group_by_precedence, operand,
};

verus! {

/// Whether `t` ends an expression at any precedence: `;`, `)` or `,`.
pub open spec fn is_closer(t: TokenView) -> bool {
    t is Semicolon || t is RightParen || t is Comma
}

/// An operand followed by a closer is a whole expression at any precedence.
proof fn lemma_operand_before(st: ParseState, prec: Precedence)
    requires
        st.curr matches Some(t) && is_operand(t),
        st.peek matches Some(t) && is_closer(t),
    ensures
        expression_s(st, prec) == Parsed::Done(operand(st.curr->0), st),
{
    assert(prefix_s(st) == Parsed::Done(Some(operand(st.curr->0)), st));
    assert(!continues(st, prec));
    assert(expression_loop_s(operand(st.curr->0), st, prec) == Parsed::<ExpressionView>::Done(
        operand(st.curr->0),
        st,
    ));
}

/// One binary operator between two operands, before a closer, is read whole
/// at the lowest precedence; the parser ends on the second operand.
proof fn lemma_one_operator(
    a: TokenView,
    op: TokenView,
    b: TokenView,
    end: TokenView,
    tail: Seq<TokenView>,
)
    requires
        is_operand(a),
        is_operand(b),
        is_infix_operator(op),
        is_closer(end),
    ensures
        expression_s(
            ParseState { curr: Some(a), peek: Some(op), rest: seq![b, end] + tail },
            Precedence::Lowest,
        ) == Parsed::Done(
            infix(operand(a), op, operand(b)),
            ParseState { curr: Some(b), peek: Some(end), rest: tail },
        ),
{
    let s0 = ParseState { curr: Some(a), peek: Some(op), rest: seq![b, end] + tail };
    let s2 = ParseState { curr: Some(b), peek: Some(end), rest: tail };
    assert(advance(advance(s0)) == s2) by {
        assert(advance(advance(s0)).rest =~= s2.rest);
    }
    lemma_operator_strength(op);
    assert(prefix_s(s0) == Parsed::Done(Some(operand(a)), s0));
    lemma_operand_before(s2, precedence_of(op));
    assert(continues(s0, Precedence::Lowest));
    assert(infix_s(operand(a), s0) == Parsed::Done(Some(infix(operand(a), op, operand(b))), s2));
    assert(measure(s2) < measure(s0));
    assert(!continues(s2, Precedence::Lowest));
    assert(expression_loop_s(infix(operand(a), op, operand(b)), s2, Precedence::Lowest)
        == Parsed::Done(infix(operand(a), op, operand(b)), s2));
    assert(expression_loop_s(operand(a), s0, Precedence::Lowest) == Parsed::Done(
        infix(operand(a), op, operand(b)),
        s2,
    ));
}

/// A comparison binds weaker than arithmetic on either side of it:
/// `a < b + c` is `a < (b + c)` and `a + b < c` is `(a + b) < c`.
pub proof fn lemma_comparison_binds_weaker(
    a: TokenView,
    o1: TokenView,
    b: TokenView,
    o2: TokenView,
    c: TokenView,
    tail: Seq<TokenView>,
)
    requires
        is_operand(a),
        is_operand(b),
        is_operand(c),
        (is_comparison_operator(o1) && is_arithmetic_operator(o2)) || (is_arithmetic_operator(o1)
            && is_comparison_operator(o2)),
    ensures
        expression_s(
            ParseState {
                curr: Some(a),
                peek: Some(o1),
                rest: seq![b, o2, c, TokenView::Semicolon] + tail,
            },
            Precedence::Lowest,
        ) == Parsed::Done(
            if is_comparison_operator(o1) {
                infix(operand(a), o1, infix(operand(b), o2, operand(c)))
            } else {
                infix(infix(operand(a), o1, operand(b)), o2, operand(c))
            },
            ParseState { curr: Some(c), peek: Some(TokenView::Semicolon), rest: tail },
        ),
{
    lemma_operator_levels(o1, o2, o1);
    lemma_operator_levels(o2, o1, o2);
    lemma_operators_group_by_precedence(a, o1, b, o2, c, tail);
}

/// `let <name> = <a> <op> <b>;` is one `let` statement whose value is the
/// whole expression `a op b`, for every binary operator; the parser ends on
/// the `;`.
pub proof fn lemma_let_reads_whole_value(
    name: Seq<char>,
    a: TokenView,
    op: TokenView,
    b: TokenView,
    tail: Seq<TokenView>,
)
    requires
        is_operand(a),
        is_operand(b),
        is_infix_operator(op),
    ensures
        let_s(
            ParseState {
                curr: Some(TokenView::Let),
                peek: Some(TokenView::Ident(name)),
                rest: seq![TokenView::Assign, a, op, b, TokenView::Semicolon] + tail,
            },
        ) == Parsed::Done(
            StatementView::Let {
                token: TokenView::Let,
                identifier: IdentifierView { token: TokenView::Ident(name), name },
                value: infix(operand(a), op, operand(b)),
            },
            advance(ParseState { curr: Some(b), peek: Some(TokenView::Semicolon), rest: tail }),
        ),
{
    let s0 = ParseState {
        curr: Some(TokenView::Let),
        peek: Some(TokenView::Ident(name)),
        rest: seq![TokenView::Assign, a, op, b, TokenView::Semicolon] + tail,
    };
    let s1 = advance(s0);
    let s2 = advance(s1);
    let s3 = advance(s2);
    assert(s3 == ParseState {
        curr: Some(a),
        peek: Some(op),
        rest: seq![b, TokenView::Semicolon] + tail,
    }) by {
        assert(s3.rest =~= seq![b, TokenView::Semicolon] + tail);
    }
    lemma_one_operator(a, op, b, TokenView::Semicolon, tail);
}

/// `return <a> <op> <b>;` is one `return` statement whose value is the whole
/// expression `a op b`, for every binary operator; the parser ends on the `;`.
pub proof fn lemma_return_reads_whole_value(
    a: TokenView,
    op: TokenView,
    b: TokenView,
    tail: Seq<TokenView>,
)
    requires
        is_operand(a),
        is_operand(b),
        is_infix_operator(op),
    ensures
        return_s(
            ParseState {
                curr: Some(TokenView::Return),
                peek: Some(a),
                rest: seq![op, b, TokenView::Semicolon] + tail,
            },
        ) == Parsed::Done(
            StatementView::Return {
                token: TokenView::Return,
                value: infix(operand(a), op, operand(b)),
            },
            advance(ParseState { curr: Some(b), peek: Some(TokenView::Semicolon), rest: tail }),
        ),
{
    let s0 = ParseState {
        curr: Some(TokenView::Return),
        peek: Some(a),
        rest: seq![op, b, TokenView::Semicolon] + tail,
    };
    assert(advance(s0) == ParseState {
        curr: Some(a),
        peek: Some(op),
        rest: seq![b, TokenView::Semicolon] + tail,
    }) by {
        assert(advance(s0).rest =~= seq![b, TokenView::Semicolon] + tail);
    }
    lemma_one_operator(a, op, b, TokenView::Semicolon, tail);
}

/// A block keeps every statement read in it, in order: whatever the block
/// reads after the statements `acc` starts with `acc`.
pub proof fn lemma_block_keeps_statements(acc: Seq<StatementView>, st: ParseState)
    ensures
        block_loop_s(acc, st) matches Parsed::Done(b, _) ==> acc.len() <= b.statements.len()
            && b.statements.subrange(0, acc.len() as int) == acc,
    decreases measure(st),
{
    if !(st.curr == Some(TokenView::RightBrace) || st.curr is None) {
        match statement_s(st) {
            Parsed::Done(s, st1) => {
                let st2 = advance(st1);
                if measure(st2) < measure(st) {
                    lemma_block_keeps_statements(acc.push(s), st2);
                    match block_loop_s(acc.push(s), st2) {
                        Parsed::Done(b, _) => {
                            assert(b.statements.subrange(0, acc.len() as int) =~= b.statements.subrange(
                                0,
                                acc.len() + 1int,
                            ).subrange(0, acc.len() as int));
                        },
                        _ => {},
                    }
                }
            },
            _ => {},
        }
    } else {
        assert(acc.subrange(0, acc.len() as int) =~= acc);
    }
}

/// `{ let <name> = <a>; return <b>; }` is a block of both statements, in
/// order; the parser ends past the `}`.
#[verifier::rlimit(40)]
pub proof fn lemma_block_of_two_statements(
    name: Seq<char>,
    a: TokenView,
    b: TokenView,
    tail: Seq<TokenView>,
)
    requires
        is_operand(a),
        is_operand(b),
    ensures
        block_s(
            ParseState {
                curr: Some(TokenView::LeftBrace),
                peek: Some(TokenView::Let),
                rest: seq![
                    TokenView::Ident(name),
                    TokenView::Assign,
                    a,
                    TokenView::Semicolon,
                    TokenView::Return,
                    b,
                    TokenView::Semicolon,
                    TokenView::RightBrace,
                ] + tail,
            },
        ) == Parsed::Done(
            BlockView {
                token: TokenView::LeftBrace,
                statements: seq![
                    StatementView::Let {
                        token: TokenView::Let,
                        identifier: IdentifierView { token: TokenView::Ident(name), name },
                        value: operand(a),
                    },
                    StatementView::Return { token: TokenView::Return, value: operand(b) },
                ],
            },
            advance(
                ParseState {
                    curr: Some(TokenView::RightBrace),
                    peek: if tail.len() > 0 {
                        Some(tail[0])
                    } else {
                        None
                    },
                    rest: if tail.len() > 0 {
                        tail.drop_first()
                    } else {
                        tail
                    },
                },
            ),
        ),
{
    let rest = seq![
        TokenView::Ident(name),
        TokenView::Assign,
        a,
        TokenView::Semicolon,
        TokenView::Return,
        b,
        TokenView::Semicolon,
        TokenView::RightBrace,
    ] + tail;
    let s0 = ParseState { curr: Some(TokenView::LeftBrace), peek: Some(TokenView::Let), rest };
    let s1 = advance(s0);
    let rest2 = seq![TokenView::Return, b, TokenView::Semicolon, TokenView::RightBrace] + tail;
    assert(s1 == ParseState {
        curr: Some(TokenView::Let),
        peek: Some(TokenView::Ident(name)),
        rest: seq![TokenView::Assign, a, TokenView::Semicolon] + rest2,
    }) by {
        assert(s1.rest =~= seq![TokenView::Assign, a, TokenView::Semicolon] + rest2);
    }
    let l = lemma_let_of_operand(name, a, rest2);
    let sa = ParseState { curr: Some(TokenView::Semicolon), peek: Some(rest2[0]), rest: rest2.drop_first() };
    let s6 = advance(sa);
    let rest3 = seq![TokenView::RightBrace] + tail;
    assert(s6 == ParseState {
        curr: Some(TokenView::Return),
        peek: Some(b),
        rest: seq![TokenView::Semicolon] + rest3,
    }) by {
        assert(s6.rest =~= seq![TokenView::Semicolon] + rest3);
    }
    let r = lemma_return_of_operand(b, rest3);
    let sb = ParseState { curr: Some(TokenView::Semicolon), peek: Some(rest3[0]), rest: rest3.drop_first() };
    let s9 = advance(sb);
    assert(rest3.drop_first() =~= tail);
    assert(measure(s6) < measure(s1));
    assert(measure(s9) < measure(s6));
    lemma_block_steps(l, r, s1, sa, s6, sb, s9);
    assert(block_s(s0) == block_loop_s(Seq::empty(), s1));
}

/// `let <name> = <a>;` with a single operand; the parser ends on the `;`.
proof fn lemma_let_of_operand(name: Seq<char>, a: TokenView, rest: Seq<TokenView>) -> (l: StatementView)
    requires
        is_operand(a),
        rest.len() > 0,
    ensures
        l == (StatementView::Let {
            token: TokenView::Let,
            identifier: IdentifierView { token: TokenView::Ident(name), name },
            value: operand(a),
        }),
        statement_s(
            ParseState {
                curr: Some(TokenView::Let),
                peek: Some(TokenView::Ident(name)),
                rest: seq![TokenView::Assign, a, TokenView::Semicolon] + rest,
            },
        ) == Parsed::Done(
            l,
            ParseState { curr: Some(TokenView::Semicolon), peek: Some(rest[0]), rest: rest.drop_first() },
        ),
{
    let s0 = ParseState {
        curr: Some(TokenView::Let),
        peek: Some(TokenView::Ident(name)),
        rest: seq![TokenView::Assign, a, TokenView::Semicolon] + rest,
    };
    let s3 = advance(advance(advance(s0)));
    assert(s3 == ParseState { curr: Some(a), peek: Some(TokenView::Semicolon), rest }) by {
        assert(s3.rest =~= rest);
    }
    lemma_operand_before(s3, Precedence::Lowest);
    StatementView::Let {
        token: TokenView::Let,
        identifier: IdentifierView { token: TokenView::Ident(name), name },
        value: operand(a),
    }
}

/// `return <b>;` with a single operand; the parser ends on the `;`.
proof fn lemma_return_of_operand(b: TokenView, rest: Seq<TokenView>) -> (r: StatementView)
    requires
        is_operand(b),
        rest.len() > 0,
    ensures
        r == (StatementView::Return { token: TokenView::Return, value: operand(b) }),
        statement_s(
            ParseState {
                curr: Some(TokenView::Return),
                peek: Some(b),
                rest: seq![TokenView::Semicolon] + rest,
            },
        ) == Parsed::Done(
            r,
            ParseState { curr: Some(TokenView::Semicolon), peek: Some(rest[0]), rest: rest.drop_first() },
        ),
{
    let s0 = ParseState {
        curr: Some(TokenView::Return),
        peek: Some(b),
        rest: seq![TokenView::Semicolon] + rest,
    };
    let s1 = advance(s0);
    assert(s1 == ParseState { curr: Some(b), peek: Some(TokenView::Semicolon), rest }) by {
        assert(s1.rest =~= rest);
    }
    lemma_operand_before(s1, Precedence::Lowest);
    StatementView::Return { token: TokenView::Return, value: operand(b) }
}

/// The block loop over two statements and the closing `}`.
proof fn lemma_block_steps(
    l: StatementView,
    r: StatementView,
    s1: ParseState,
    sa: ParseState,
    s6: ParseState,
    sb: ParseState,
    s9: ParseState,
)
    requires
        s1.curr == Some(TokenView::Let),
        statement_s(s1) == Parsed::Done(l, sa),
        s6 == advance(sa),
        s6.curr == Some(TokenView::Return),
        statement_s(s6) == Parsed::Done(r, sb),
        s9 == advance(sb),
        s9.curr == Some(TokenView::RightBrace),
        measure(s6) < measure(s1),
        measure(s9) < measure(s6),
    ensures
        block_loop_s(Seq::empty(), s1) == Parsed::Done(
            BlockView { token: TokenView::LeftBrace, statements: seq![l, r] },
            advance(s9),
        ),
{
    assert(block_loop_s(seq![l, r], s9) == Parsed::Done(
        BlockView { token: TokenView::LeftBrace, statements: seq![l, r] },
        advance(s9),
    ));
    assert(seq![l].push(r) =~= seq![l, r]);
    assert(block_loop_s(seq![l], s6) == block_loop_s(seq![l, r], s9));
    assert(Seq::<StatementView>::empty().push(l) =~= seq![l]);
    assert(block_loop_s(Seq::empty(), s1) == block_loop_s(seq![l], s6));
}

/// A call with one argument `<a> <op> <b>` has that whole expression as its
/// argument, for every binary operator; the parser ends past the `)`.
pub proof fn lemma_call_reads_whole_argument(
    f: TokenView,
    a: TokenView,
    op: TokenView,
    b: TokenView,
    tail: Seq<TokenView>,
)
    requires
        is_operand(f),
        is_operand(a),
        is_operand(b),
        is_infix_operator(op),
    ensures
        infix_s(
            operand(f),
            ParseState {
                curr: Some(f),
                peek: Some(TokenView::LeftParen),
                rest: seq![a, op, b, TokenView::RightParen] + tail,
            },
        ) == Parsed::Done(
            Some(
                ExpressionView::Call {
                    function: Box::new(operand(f)),
                    arguments: seq![infix(operand(a), op, operand(b))],
                },
            ),
            advance(
                advance(ParseState { curr: Some(b), peek: Some(TokenView::RightParen), rest: tail }),
            ),
        ),
{
    let s0 = ParseState {
        curr: Some(f),
        peek: Some(TokenView::LeftParen),
        rest: seq![a, op, b, TokenView::RightParen] + tail,
    };
    let sp = advance(s0);
    let s1 = advance(sp);
    assert(s1 == ParseState {
        curr: Some(a),
        peek: Some(op),
        rest: seq![b, TokenView::RightParen] + tail,
    }) by {
        assert(s1.rest =~= seq![b, TokenView::RightParen] + tail);
    }
    lemma_one_operator(a, op, b, TokenView::RightParen, tail);
    let s2 = ParseState { curr: Some(b), peek: Some(TokenView::RightParen), rest: tail };
    let e = infix(operand(a), op, operand(b));
    lemma_operator_strength(TokenView::LeftParen);
    assert(super::grammar::arguments_loop_s(seq![e], advance(s2)) == Parsed::Done(
        seq![e],
        advance(advance(s2)),
    ));
    assert(measure(s2) <= measure(s1));
    assert(call_arguments_s(sp) == Parsed::Done(seq![e], advance(advance(s2))));
}

/// In a call of two arguments `<a>, <b> <op> <c>`, the first argument is `a`
/// and the second the whole expression `b op c`, for every binary operator;
/// the parser ends past the `)`.
pub proof fn lemma_call_reads_each_argument(
    f: TokenView,
    a: TokenView,
    b: TokenView,
    op: TokenView,
    c: TokenView,
    tail: Seq<TokenView>,
)
    requires
        is_operand(f),
        is_operand(a),
        is_operand(b),
        is_operand(c),
        is_infix_operator(op),
    ensures
        infix_s(
            operand(f),
            ParseState {
                curr: Some(f),
                peek: Some(TokenView::LeftParen),
                rest: seq![a, TokenView::Comma, b, op, c, TokenView::RightParen] + tail,
            },
        ) == Parsed::Done(
            Some(
                ExpressionView::Call {
                    function: Box::new(operand(f)),
                    arguments: seq![operand(a), infix(operand(b), op, operand(c))],
                },
            ),
            advance(
                advance(ParseState { curr: Some(c), peek: Some(TokenView::RightParen), rest: tail }),
            ),
        ),
{
    let s0 = ParseState {
        curr: Some(f),
        peek: Some(TokenView::LeftParen),
        rest: seq![a, TokenView::Comma, b, op, c, TokenView::RightParen] + tail,
    };
    let sp = advance(s0);
    let s1 = advance(sp);
    assert(s1 == ParseState {
        curr: Some(a),
        peek: Some(TokenView::Comma),
        rest: seq![b, op, c, TokenView::RightParen] + tail,
    }) by {
        assert(s1.rest =~= seq![b, op, c, TokenView::RightParen] + tail);
    }
    lemma_operand_before(s1, Precedence::Lowest);
    let sc = advance(s1);
    let sb = advance(sc);
    assert(sb == ParseState {
        curr: Some(b),
        peek: Some(op),
        rest: seq![c, TokenView::RightParen] + tail,
    }) by {
        assert(sb.rest =~= seq![c, TokenView::RightParen] + tail);
    }
    lemma_one_operator(b, op, c, TokenView::RightParen, tail);
    let s2 = ParseState { curr: Some(c), peek: Some(TokenView::RightParen), rest: tail };
    let e = infix(operand(b), op, operand(c));
    assert(seq![operand(a)].push(e) =~= seq![operand(a), e]);
    assert(super::grammar::arguments_loop_s(seq![operand(a), e], advance(s2)) == Parsed::Done(
        seq![operand(a), e],
        advance(advance(s2)),
    ));
    assert(measure(s2) <= measure(sb));
    assert(super::grammar::arguments_loop_s(seq![operand(a)], sc) == Parsed::Done(
        seq![operand(a), e],
        advance(advance(s2)),
    ));
    assert(call_arguments_s(sp) == Parsed::Done(seq![operand(a), e], advance(advance(s2))));
}

} // verus!
