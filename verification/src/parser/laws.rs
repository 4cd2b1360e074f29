//! Laws of the grammar: how operators group, what the parser reads back of
//! the form in which an expression prints, and that a program is read to the
//! end of its input.
use vstd::prelude::*;
use crate::token::{lemma_operator_strength, precedence_of, Precedence, TokenView};
use crate::ast::view::{ExpressionView, IdentifierView, IntegerLiteralView};
use super::grammar::{
    advance, continues, expression_loop_s, expression_s, infix_s, is_infix_operator, measure,
    expect_peek, expression_statement_s, initial_state, prefix_s, program_s, statement_s,
    skip_to_semicolon, ParseState, Parsed, ParserErrorView, ProgramOutcome,
};
use crate::ast::view::StatementView;

verus! {

/// Whether `t` is a name or a number: a token that is an operand on its own.
pub open spec fn is_operand(t: TokenView) -> bool {
    t is Ident || t is Int
}

/// The expression that an operand token parses to.
pub open spec fn operand(t: TokenView) -> ExpressionView {
    match t {
        TokenView::Int(v) => ExpressionView::Integer(IntegerLiteralView { token: t, value: v }),
        TokenView::Ident(name) => ExpressionView::Identifier(IdentifierView { token: t, name }),
        _ => ExpressionView::Identifier(IdentifierView { token: t, name: Seq::empty() }),
    }
}

/// `left operator right`.
pub open spec fn infix(left: ExpressionView, operator: TokenView, right: ExpressionView) -> ExpressionView {
    ExpressionView::Infix { left: Box::new(left), operator, right: Box::new(right) }
}

/// An operand at the current token parses to itself, and the parser stays on it.
proof fn lemma_operand_prefix(st: ParseState)
    requires
        st.curr matches Some(t) && is_operand(t),
    ensures
        prefix_s(st) == Parsed::Done(Some(operand(st.curr->0)), st),
{
}

/// An operand followed by `;` is a whole expression at any precedence.
proof fn lemma_operand_before_semicolon(st: ParseState, prec: Precedence)
    requires
        st.curr matches Some(t) && is_operand(t),
        st.peek == Some(TokenView::Semicolon),
    ensures
        expression_s(st, prec) == Parsed::Done(operand(st.curr->0), st),
{
    lemma_operand_prefix(st);
    assert(!continues(st, prec));
    assert(expression_loop_s(operand(st.curr->0), st, prec) == Parsed::<ExpressionView>::Done(
        operand(st.curr->0),
        st,
    ));
}

/// Two binary operators between three operands, before a `;`, group by
/// precedence: the one that binds stronger takes its operands first, and of
/// two that bind equally the left one does (`a + b * c` is `a + (b * c)`,
/// `a * b + c` is `(a * b) + c`, `a - b - c` is `(a - b) - c`).  The parser
/// ends on the last operand.
pub proof fn lemma_operators_group_by_precedence(
    a: TokenView,
    o1: TokenView,
    b: TokenView,
    o2: TokenView,
    c: TokenView,
    tail: Seq<TokenView>,
)
    requires
        is_operand(a),
        is_operand(b),
        is_operand(c),
        is_infix_operator(o1),
        is_infix_operator(o2),
    ensures
        expression_s(
            ParseState {
                curr: Some(a),
                peek: Some(o1),
                rest: seq![b, o2, c, TokenView::Semicolon] + tail,
            },
            Precedence::Lowest,
        ) == Parsed::Done(
            if precedence_of(o2).rank() <= precedence_of(o1).rank() {
                infix(infix(operand(a), o1, operand(b)), o2, operand(c))
            } else {
                infix(operand(a), o1, infix(operand(b), o2, operand(c)))
            },
            ParseState { curr: Some(c), peek: Some(TokenView::Semicolon), rest: tail },
        ),
{
    let s0 = ParseState {
        curr: Some(a),
        peek: Some(o1),
        rest: seq![b, o2, c, TokenView::Semicolon] + tail,
    };
    let s2 = ParseState { curr: Some(b), peek: Some(o2), rest: seq![c, TokenView::Semicolon] + tail };
    let s4 = ParseState { curr: Some(c), peek: Some(TokenView::Semicolon), rest: tail };
    assert(advance(advance(s0)) == s2) by {
        assert(advance(advance(s0)).rest =~= s2.rest);
    }
    assert(advance(advance(s2)) == s4) by {
        assert(advance(advance(s2)).rest =~= s4.rest);
    }
    lemma_operator_strength(o1);
    lemma_operator_strength(o2);
    let (ea, eb, ec) = (operand(a), operand(b), operand(c));
    let (p1, p2) = (precedence_of(o1), precedence_of(o2));

    // The right operand of the second operator is `c` alone.
    lemma_operand_before_semicolon(s4, p2);
    assert(infix_s(eb, s2) == Parsed::Done(Some(infix(eb, o2, ec)), s4));

    lemma_operand_prefix(s0);
    lemma_operand_prefix(s2);
    assert(continues(s0, Precedence::Lowest));
    assert(!continues(s4, Precedence::Lowest));
    assert(!continues(s4, p1));
    assert(measure(s4) < measure(s2) && measure(s2) < measure(s0));
    if p2.rank() <= p1.rank() {
        // `b` ends the right operand of the first operator.
        assert(!continues(s2, p1));
        assert(expression_loop_s(eb, s2, p1) == Parsed::Done(eb, s2));
        assert(expression_s(s2, p1) == Parsed::Done(eb, s2));
        assert(infix_s(ea, s0) == Parsed::Done(Some(infix(ea, o1, eb)), s2));
        // The second operator then takes the whole left part.
        assert(continues(s2, Precedence::Lowest));
        assert(infix_s(infix(ea, o1, eb), s2) == Parsed::Done(
            Some(infix(infix(ea, o1, eb), o2, ec)),
            s4,
        ));
        assert(expression_loop_s(infix(infix(ea, o1, eb), o2, ec), s4, Precedence::Lowest)
            == Parsed::Done(infix(infix(ea, o1, eb), o2, ec), s4));
        assert(expression_loop_s(infix(ea, o1, eb), s2, Precedence::Lowest) == Parsed::Done(
            infix(infix(ea, o1, eb), o2, ec),
            s4,
        ));
        assert(expression_loop_s(ea, s0, Precedence::Lowest) == Parsed::Done(
            infix(infix(ea, o1, eb), o2, ec),
            s4,
        ));
    } else {
        // The second operator binds stronger and takes `b` with it.
        assert(continues(s2, p1));
        assert(expression_loop_s(infix(eb, o2, ec), s4, p1) == Parsed::Done(infix(eb, o2, ec), s4));
        assert(expression_loop_s(eb, s2, p1) == Parsed::Done(infix(eb, o2, ec), s4));
        assert(expression_s(s2, p1) == Parsed::Done(infix(eb, o2, ec), s4));
        assert(infix_s(ea, s0) == Parsed::Done(Some(infix(ea, o1, infix(eb, o2, ec))), s4));
        assert(expression_loop_s(infix(ea, o1, infix(eb, o2, ec)), s4, Precedence::Lowest)
            == Parsed::Done(infix(ea, o1, infix(eb, o2, ec)), s4));
        assert(expression_loop_s(ea, s0, Precedence::Lowest) == Parsed::Done(
            infix(ea, o1, infix(eb, o2, ec)),
            s4,
        ));
    }
}

/// A program is read to the end of its input: the parse of a program stops
/// only where no token is left, and the statements and errors gathered before
/// stay first, in their order.
pub proof fn lemma_program_reads_to_end(
    statements: Seq<StatementView>,
    errors: Seq<ParserErrorView>,
    st: ParseState,
)
    requires
        program_s(statements, errors, st) is Some,
    ensures
        ({
            let o = program_s(statements, errors, st)->0;
            &&& o.state.curr is None
            &&& statements.len() <= o.statements.len()
            &&& o.statements.subrange(0, statements.len() as int) == statements
            &&& errors.len() <= o.errors.len()
            &&& o.errors.subrange(0, errors.len() as int) == errors
        }),
    decreases measure(st),
{
    reveal(program_s);
    if st.curr is Some {
        let o = program_s(statements, errors, st)->0;
        match statement_s(st) {
            Parsed::Done(s, st1) => {
                let st2 = advance(st1);
                lemma_program_reads_to_end(statements.push(s), errors, st2);
                assert(o.statements.subrange(0, statements.len() as int) =~= o.statements.subrange(
                    0,
                    statements.len() + 1int,
                ).subrange(0, statements.len() as int));
            },
            Parsed::Failed(e, st1) => {
                let st2 = advance(skip_to_semicolon(st1));
                lemma_program_reads_to_end(statements, errors.push(e), st2);
                assert(o.errors.subrange(0, errors.len() as int) =~= o.errors.subrange(
                    0,
                    errors.len() + 1int,
                ).subrange(0, errors.len() as int));
            },
            Parsed::Abort => {},
        }
    }
}

/// The state of the parser at position `i` of `tokens`: the token there is
/// current, the one after it is the peek token, and the rest follow.
pub open spec fn state_at(tokens: Seq<TokenView>, i: int) -> ParseState {
    ParseState {
        curr: if 0 <= i < tokens.len() {
            Some(tokens[i])
        } else {
            None
        },
        peek: if 0 <= i + 1 < tokens.len() {
            Some(tokens[i + 1])
        } else {
            None
        },
        rest: if 0 <= i + 2 <= tokens.len() {
            tokens.skip(i + 2)
        } else {
            Seq::empty()
        },
    }
}

/// Moving on from position `i` reaches position `i + 1`.
pub(crate) proof fn lemma_advance_at(tokens: Seq<TokenView>, i: int)
    requires
        -2 <= i,
    ensures
        advance(state_at(tokens, i)) == state_at(tokens, i + 1),
{
    assert(advance(state_at(tokens, i)).rest =~= state_at(tokens, i + 1).rest);
}

/// Further positions hold no more input, and strictly less while a token is left.
pub(crate) proof fn lemma_measure_at(tokens: Seq<TokenView>, i: int, j: int)
    requires
        0 <= i <= j,
    ensures
        measure(state_at(tokens, j)) <= measure(state_at(tokens, i)),
        i < j && i < tokens.len() ==> measure(state_at(tokens, j)) < measure(state_at(tokens, i)),
{
    if i + 2 <= tokens.len() {
        assert(tokens.skip(i + 2).len() == tokens.len() - i - 2);
    }
    if j + 2 <= tokens.len() {
        assert(tokens.skip(j + 2).len() == tokens.len() - j - 2);
    }
}

/// Whether an expression is made of names, numbers and booleans under prefix
/// and infix operators, each with the token it is read from.
pub open spec fn is_simple(e: ExpressionView) -> bool
    decreases e,
{
    match e {
        ExpressionView::Identifier(i) => i.token == TokenView::Ident(i.name),
        ExpressionView::Integer(i) => i.token == TokenView::Int(i.value),
        ExpressionView::Boolean(b) => b.token == (if b.value {
            TokenView::True
        } else {
            TokenView::False
        }),
        ExpressionView::Prefix { operator, expression } => (operator is Bang || operator is Minus)
            && is_simple(*expression),
        ExpressionView::Infix { left, operator, right } => is_infix_operator(operator) && is_simple(
            *left,
        ) && is_simple(*right),
        _ => false,
    }
}

/// The tokens in which an expression prints: a name, number or boolean as
/// its token, and each operator with its operands between parentheses.
pub open spec fn printed_tokens(e: ExpressionView) -> Seq<TokenView>
    decreases e,
{
    match e {
        ExpressionView::Identifier(i) => seq![i.token],
        ExpressionView::Integer(i) => seq![i.token],
        ExpressionView::Boolean(b) => seq![b.token],
        ExpressionView::Prefix { operator, expression } => seq![TokenView::LeftParen, operator]
            + printed_tokens(*expression) + seq![TokenView::RightParen],
        ExpressionView::Infix { left, operator, right } => seq![TokenView::LeftParen]
            + printed_tokens(*left) + seq![operator] + printed_tokens(*right) + seq![
            TokenView::RightParen,
        ],
        _ => Seq::empty(),
    }
}

/// The printed form of a simple expression starts with `(` or with the
/// expression's own token.
proof fn lemma_printed_start(e: ExpressionView)
    requires
        is_simple(e),
    ensures
        printed_tokens(e).len() >= 1,
        printed_tokens(e)[0] is LeftParen || printed_tokens(e)[0] is Ident || printed_tokens(
            e,
        )[0] is Int || printed_tokens(e)[0] is True || printed_tokens(e)[0] is False,
    decreases e,
{
    match e {
        ExpressionView::Prefix { operator, expression } => lemma_printed_start(*expression),
        ExpressionView::Infix { left, operator, right } => {
            lemma_printed_start(*left);
            lemma_printed_start(*right);
        },
        _ => {},
    }
}

/// `( operator x )` at position `i`, where `x` is read from `i + 2` to its last
/// token at `i + 1 + nx`, is read as the prefix expression.
proof fn lemma_read_prefix(tokens: Seq<TokenView>, i: int, operator: TokenView, x: ExpressionView, nx: int)
    requires
        0 <= i,
        1 <= nx,
        i + 3 + nx <= tokens.len(),
        tokens[i] == TokenView::LeftParen,
        tokens[i + 1] == operator,
        operator is Bang || operator is Minus,
        tokens[i + 2 + nx] == TokenView::RightParen,
        prefix_s(state_at(tokens, i + 2)) == Parsed::Done(Some(x), state_at(tokens, i + 1 + nx)),
    ensures
        prefix_s(state_at(tokens, i)) == Parsed::Done(
            Some(ExpressionView::Prefix { operator, expression: Box::new(x) }),
            state_at(tokens, i + 2 + nx),
        ),
{
    let e = ExpressionView::Prefix { operator, expression: Box::new(x) };
    let s1 = state_at(tokens, i + 1);
    let sx = state_at(tokens, i + 1 + nx);
    lemma_advance_at(tokens, i);
    lemma_advance_at(tokens, i + 1);
    lemma_advance_at(tokens, i + 1 + nx);
    lemma_measure_at(tokens, i + 1, i + 1 + nx);
    lemma_measure_at(tokens, i + 2, i + 1 + nx);
    assert(!continues(sx, Precedence::Prefix));
    assert(!continues(sx, Precedence::Lowest));
    assert(expression_loop_s(x, sx, Precedence::Prefix) == Parsed::Done(x, sx));
    assert(expression_s(state_at(tokens, i + 2), Precedence::Prefix) == Parsed::Done(x, sx));
    assert(prefix_s(s1) == Parsed::Done(Some(e), sx));
    assert(expression_loop_s(e, sx, Precedence::Lowest) == Parsed::Done(e, sx));
    assert(expression_s(s1, Precedence::Lowest) == Parsed::Done(e, sx));
    assert(expect_peek(sx, TokenView::RightParen) == Parsed::Done((), state_at(tokens, i + 2 + nx)));
}

/// `( l operator r )` at position `i`, where `l` is read from `i + 1` to
/// `i + nl` and `r` from `i + 2 + nl` to `i + 1 + nl + nr`, is read as the
/// infix expression.
#[verifier::rlimit(30)]
proof fn lemma_read_infix(
    tokens: Seq<TokenView>,
    i: int,
    l: ExpressionView,
    operator: TokenView,
    r: ExpressionView,
    nl: int,
    nr: int,
)
    requires
        0 <= i,
        1 <= nl,
        1 <= nr,
        i + 3 + nl + nr <= tokens.len(),
        tokens[i] == TokenView::LeftParen,
        tokens[i + 1 + nl] == operator,
        is_infix_operator(operator),
        tokens[i + 2 + nl + nr] == TokenView::RightParen,
        prefix_s(state_at(tokens, i + 1)) == Parsed::Done(Some(l), state_at(tokens, i + nl)),
        prefix_s(state_at(tokens, i + 2 + nl)) == Parsed::Done(
            Some(r),
            state_at(tokens, i + 1 + nl + nr),
        ),
    ensures
        prefix_s(state_at(tokens, i)) == Parsed::Done(
            Some(infix(l, operator, r)),
            state_at(tokens, i + 2 + nl + nr),
        ),
{
    let e = infix(l, operator, r);
    let s1 = state_at(tokens, i + 1);
    let sl = state_at(tokens, i + nl);
    let s2 = state_at(tokens, i + 2 + nl);
    let sr = state_at(tokens, i + 1 + nl + nr);
    lemma_advance_at(tokens, i);
    lemma_advance_at(tokens, i + nl);
    lemma_advance_at(tokens, i + nl + 1);
    lemma_advance_at(tokens, i + 1 + nl + nr);
    lemma_measure_at(tokens, i + 1, i + nl);
    lemma_measure_at(tokens, i + nl, i + 1 + nl + nr);
    lemma_measure_at(tokens, i + 2 + nl, i + 1 + nl + nr);
    lemma_operator_strength(operator);
    let prec = precedence_of(operator);
    assert(continues(sl, Precedence::Lowest));
    assert(!continues(sr, prec));
    assert(!continues(sr, Precedence::Lowest));
    assert(expression_loop_s(r, sr, prec) == Parsed::Done(r, sr));
    assert(expression_s(s2, prec) == Parsed::Done(r, sr));
    assert(advance(advance(sl)) == s2);
    assert(infix_s(l, sl) == Parsed::Done(Some(e), sr));
    assert(expression_loop_s(e, sr, Precedence::Lowest) == Parsed::Done(e, sr));
    assert(expression_loop_s(l, sl, Precedence::Lowest) == Parsed::Done(e, sr));
    assert(expression_s(s1, Precedence::Lowest) == Parsed::Done(e, sr));
    assert(expect_peek(sr, TokenView::RightParen) == Parsed::Done((), state_at(tokens, i + 2 + nl + nr)));
}

/// `part` stands in `tokens` from position `i` on.
pub open spec fn stands_at(tokens: Seq<TokenView>, i: int, part: Seq<TokenView>) -> bool {
    &&& 0 <= i
    &&& i + part.len() <= tokens.len()
    &&& forall|k: int| 0 <= k < part.len() ==> tokens[i + k] == #[trigger] part[k]
}

/// Where the printed form of a simple expression stands in the input, the
/// parser reads that expression back from its first token and stops on its
/// last.
proof fn lemma_prefix_reads_printed(tokens: Seq<TokenView>, i: int, e: ExpressionView)
    requires
        is_simple(e),
        stands_at(tokens, i, printed_tokens(e)),
    ensures
        prefix_s(state_at(tokens, i)) == Parsed::Done(
            Some(e),
            state_at(tokens, i + printed_tokens(e).len() - 1),
        ),
    decreases e,
{
    let p = printed_tokens(e);
    let n = p.len() as int;
    assert(p[0] == tokens[i]);
    match e {
        ExpressionView::Prefix { operator, expression } => {
            let x = *expression;
            let px = printed_tokens(x);
            let nx = px.len() as int;
            lemma_printed_start(x);
            assert(stands_at(tokens, i + 2, px)) by {
                assert forall|k: int| 0 <= k < nx implies tokens[i + 2 + k] == #[trigger] px[k] by {
                    assert(p[2 + k] == px[k]);
                }
            }
            lemma_prefix_reads_printed(tokens, i + 2, x);
            assert(tokens[i + 1] == p[1]);
            assert(tokens[i + 2 + nx] == p[n - 1]);
            lemma_read_prefix(tokens, i, operator, x, nx);
        },
        ExpressionView::Infix { left, operator, right } => {
            let l = *left;
            let r = *right;
            let pl = printed_tokens(l);
            let pr = printed_tokens(r);
            let nl = pl.len() as int;
            let nr = pr.len() as int;
            lemma_printed_start(l);
            lemma_printed_start(r);
            assert(stands_at(tokens, i + 1, pl)) by {
                assert forall|k: int| 0 <= k < nl implies tokens[i + 1 + k] == #[trigger] pl[k] by {
                    assert(p[1 + k] == pl[k]);
                }
            }
            assert(stands_at(tokens, i + 2 + nl, pr)) by {
                assert forall|k: int| 0 <= k < nr implies tokens[i + 2 + nl + k] == #[trigger] pr[k] by {
                    assert(p[2 + nl + k] == pr[k]);
                }
            }
            assert(tokens[i + 1 + nl] == p[1 + nl]);
            assert(tokens[i + 2 + nl + nr] == p[n - 1]);
            lemma_prefix_reads_printed(tokens, i + 1, l);
            lemma_prefix_reads_printed(tokens, i + 2 + nl, r);
            lemma_read_infix(tokens, i, l, operator, r, nl, nr);
        },
        _ => {},
    }
}

/// Parsing the tokens in which a simple expression prints gives that
/// expression back, as the one statement of the program, with no error, and
/// reads all of the tokens.
pub proof fn lemma_printed_expression_reads_back(e: ExpressionView)
    requires
        is_simple(e),
    ensures
        program_s(Seq::empty(), Seq::empty(), initial_state(printed_tokens(e))) == Some(
            ProgramOutcome {
                statements: seq![StatementView::Expression { token: TokenView::LeftParen, expression: e }],
                errors: Seq::empty(),
                state: state_at(printed_tokens(e), printed_tokens(e).len() as int),
            },
        ),
{
    reveal(program_s);
    let t = printed_tokens(e);
    let n = t.len() as int;
    lemma_printed_start(e);
    assert(state_at(t, -2) == ParseState { curr: None, peek: None, rest: t }) by {
        assert(t.skip(0) =~= t);
    }
    lemma_advance_at(t, -2);
    lemma_advance_at(t, -1);
    let s0 = state_at(t, 0);
    assert(initial_state(t) == s0);
    assert(stands_at(t, 0, t));
    lemma_prefix_reads_printed(t, 0, e);
    let se = state_at(t, n - 1);
    lemma_measure_at(t, 0, n - 1);
    lemma_measure_at(t, 0, n);
    lemma_advance_at(t, n - 1);
    assert(!continues(se, Precedence::Lowest));
    assert(expression_loop_s(e, se, Precedence::Lowest) == Parsed::Done(e, se));
    assert(expression_s(s0, Precedence::Lowest) == Parsed::Done(e, se));
    let stmt = StatementView::Expression { token: TokenView::LeftParen, expression: e };
    assert(expression_statement_s(s0) == Parsed::Done(stmt, se));
    assert(statement_s(s0) == Parsed::Done(stmt, se));
    assert(seq![].push(stmt) =~= seq![stmt]);
    assert(program_s(seq![stmt], Seq::empty(), state_at(t, n)) == Some(
        ProgramOutcome { statements: seq![stmt], errors: Seq::empty(), state: state_at(t, n) },
    ));
}

} // verus!
