//! Reading printed text back: the text an expression prints as lexes into the
//! tokens it prints as, and so parses back into the expression.
use vstd::prelude::*;
use crate::ast::view::{bool_text, expression_text, ExpressionView, StatementView};
use crate::lexer::{
    alphabetic, digit, lemma_lex_token_progress, lemma_nat_text_digits, lex_token, lexes_back,
    run_end, tokens_from, whitespace,
};
use crate::text::{int_text, is_alphabetic_char, is_digit_char, is_whitespace_char};
use crate::token::{token_text, TokenView};
use super::grammar::{initial_state, is_infix_operator, program_s, ProgramOutcome};
use super::laws::{is_simple, lemma_printed_expression_reads_back, printed_tokens, state_at};

verus! {

/// `t` stands in `s` from position `p` on.
pub open spec fn text_at(s: Seq<char>, p: int, t: Seq<char>) -> bool {
    &&& 0 <= p
    &&& p + t.len() <= s.len()
    &&& forall|k: int| 0 <= k < t.len() ==> s[p + k] == #[trigger] t[k]
}

/// Position `q` of `s` ends a name, a number, and an `=` or `!` before it:
/// the text ends there, or the character there is no letter, no digit and
/// no `=`.
pub open spec fn ends_token(s: Seq<char>, q: int) -> bool {
    q >= s.len() || (!is_alphabetic_char(s[q]) && !is_digit_char(s[q]) && s[q] != '=')
}

/// Lexing `s` from `p` on gives the tokens `ts`, none of them `Eof`, and
/// reaches `q` after the last.
pub open spec fn lexes(s: Seq<char>, p: int, ts: Seq<TokenView>, q: int) -> bool
    decreases ts.len(),
{
    if ts.len() == 0 {
        p == q
    } else {
        &&& !(lex_token(s, p).0 is Eof)
        &&& lex_token(s, p).0 == ts[0]
        &&& lexes(s, lex_token(s, p).1, ts.drop_first(), q)
    }
}

/// Whether an expression can be printed and read back: names, numbers and
/// booleans under prefix and infix operators, where each name is a word of
/// letters that lexes back to itself and each number is not negative.
pub open spec fn is_readable(e: ExpressionView) -> bool
    decreases e,
{
    match e {
        ExpressionView::Identifier(i) => i.token == TokenView::Ident(i.name) && lexes_back(
            TokenView::Ident(i.name),
        ),
        ExpressionView::Integer(i) => i.token == TokenView::Int(i.value) && i.value >= 0,
        ExpressionView::Boolean(b) => b.token == (if b.value {
            TokenView::True
        } else {
            TokenView::False
        }),
        ExpressionView::Prefix { operator, expression } => (operator is Bang || operator is Minus)
            && is_readable(*expression),
        ExpressionView::Infix { left, operator, right } => is_infix_operator(operator)
            && is_readable(*left) && is_readable(*right),
        _ => false,
    }
}

/// A readable expression is simple.
proof fn lemma_readable_simple(e: ExpressionView)
    requires
        is_readable(e),
    ensures
        is_simple(e),
    decreases e,
{
    match e {
        ExpressionView::Prefix { operator, expression } => lemma_readable_simple(*expression),
        ExpressionView::Infix { left, operator, right } => {
            lemma_readable_simple(*left);
            lemma_readable_simple(*right);
        },
        _ => {},
    }
}

/// The text of a readable expression starts with a character that is neither
/// whitespace nor `=`.
proof fn lemma_text_start(e: ExpressionView)
    requires
        is_readable(e),
    ensures
        expression_text(e).len() > 0,
        !is_whitespace_char(expression_text(e)[0]),
        expression_text(e)[0] != '=',
{
    match e {
        ExpressionView::Integer(i) => {
            lemma_nat_text_digits(i.value as nat);
            assert(is_digit_char(expression_text(e)[0]));
        },
        ExpressionView::Identifier(i) => {
            assert(is_alphabetic_char(i.name[0]));
        },
        _ => {},
    }
}

/// Lexing one token after another joins the token sequences.
proof fn lemma_lexes_concat(
    s: Seq<char>,
    p: int,
    a: Seq<TokenView>,
    q: int,
    b: Seq<TokenView>,
    r: int,
)
    requires
        lexes(s, p, a, q),
        lexes(s, q, b, r),
    ensures
        lexes(s, p, a + b, r),
    decreases a.len(),
{
    if a.len() == 0 {
        assert(a + b =~= b);
    } else {
        lemma_lexes_concat(s, lex_token(s, p).1, a.drop_first(), q, b, r);
        assert((a + b).drop_first() =~= a.drop_first() + b);
    }
}

/// One token.
proof fn lemma_lexes_one(s: Seq<char>, p: int, t: TokenView, q: int)
    requires
        lex_token(s, p) == (t, q),
        !(t is Eof),
    ensures
        lexes(s, p, seq![t], q),
{
    assert(seq![t].drop_first() =~= Seq::<TokenView>::empty());
    assert(lexes(s, q, Seq::<TokenView>::empty(), q));
    assert(seq![t][0] == t);
}

/// Two positions that lex the same first token lex the same tokens.
proof fn lemma_lexes_same_start(s: Seq<char>, x: int, y: int, ts: Seq<TokenView>, q: int)
    requires
        lex_token(s, x) == lex_token(s, y),
        ts.len() > 0,
        lexes(s, y, ts, q),
    ensures
        lexes(s, x, ts, q),
{
}

/// A whitespace character before a character that is not whitespace is
/// skipped.
proof fn lemma_skip_space(s: Seq<char>, q: int)
    requires
        0 <= q,
        q + 1 < s.len(),
        is_whitespace_char(s[q]),
        !is_whitespace_char(s[q + 1]),
    ensures
        lex_token(s, q) == lex_token(s, q + 1),
{
    assert(run_end(s, q + 1, whitespace()) == q + 1);
}

/// An infix operator standing at `p`, followed by a space, lexes as itself;
/// its first character is not whitespace.
proof fn lemma_operator_at(s: Seq<char>, p: int, op: TokenView)
    requires
        is_infix_operator(op),
        text_at(s, p, token_text(op)),
        p + token_text(op).len() < s.len(),
        s[p + token_text(op).len()] == ' ',
    ensures
        !is_whitespace_char(s[p]),
        lex_token(s, p) == (op, p + token_text(op).len()),
{
    let t = token_text(op);
    assert(s[p] == t[0]);
    match op {
        TokenView::Equal => {
            assert(s[p + 1] == t[1]);
        },
        TokenView::NotEqual => {
            assert(s[p + 1] == t[1]);
        },
        _ => {},
    }
}

/// A run of a class from `i` that stops at `j`.
proof fn lemma_run_stops(s: Seq<char>, i: int, j: int, p: spec_fn(char) -> bool)
    requires
        0 <= i <= j <= s.len(),
        forall|k: int| i <= k < j ==> p(#[trigger] s[k]),
        j == s.len() || !p(s[j]),
    ensures
        run_end(s, i, p) == j,
    decreases j - i,
{
    if i < j {
        lemma_run_stops(s, i + 1, j, p);
    }
}

/// A word of letters standing at `p`, ended there, lexes as its word token.
proof fn lemma_word_at(s: Seq<char>, p: int, w: Seq<char>)
    requires
        text_at(s, p, w),
        w.len() > 0,
        forall|k: int| 0 <= k < w.len() ==> is_alphabetic_char(#[trigger] w[k]),
        ends_token(s, p + w.len()),
    ensures
        lex_token(s, p) == (crate::lexer::word_token(w), p + w.len()),
{
    let n = w.len() as int;
    assert(s[p] == w[0]);
    assert forall|k: int| p + 1 <= k < p + n implies #[trigger] is_alphabetic_char(s[k]) by {
        assert(s[p + (k - p)] == w[k - p]);
    }
    lemma_run_stops(s, p + 1, p + n, alphabetic());
    assert(s.subrange(p, p + n) =~= w);
}

/// The text of a readable expression, standing at `p` and ended there,
/// lexes as the tokens the expression prints as.
proof fn lemma_text_lexes(s: Seq<char>, p: int, e: ExpressionView)
    requires
        is_readable(e),
        text_at(s, p, expression_text(e)),
        ends_token(s, p + expression_text(e).len()),
    ensures
        lexes(s, p, printed_tokens(e), p + expression_text(e).len()),
    decreases e,
{
    let t = expression_text(e);
    let n = t.len() as int;
    match e {
        ExpressionView::Identifier(i) => {
            lemma_word_at(s, p, i.name);
            lemma_lexes_one(s, p, i.token, p + n);
        },
        ExpressionView::Boolean(b) => {
            lemma_word_at(s, p, bool_text(b.value));
            lemma_lexes_one(s, p, b.token, p + n);
        },
        ExpressionView::Integer(i) => {
            lemma_nat_text_digits(i.value as nat);
            assert(s[p] == t[0]);
            assert forall|k: int| p + 1 <= k < p + n implies #[trigger] is_digit_char(s[k]) by {
                assert(s[p + (k - p)] == t[k - p]);
            }
            lemma_run_stops(s, p + 1, p + n, digit());
            assert(s.subrange(p, p + n) =~= t);
            lemma_lexes_one(s, p, i.token, p + n);
        },
        ExpressionView::Prefix { operator, expression } => {
            let x = *expression;
            let tx = expression_text(x);
            let nx = tx.len() as int;
            lemma_text_start(x);
            assert(s[p] == t[0]);
            assert(s[p + 1] == t[1]);
            assert(s[p + 2] == t[2]);
            assert(s[p + 2 + nx] == t[n - 1]);
            assert(text_at(s, p + 2, tx)) by {
                assert forall|k: int| 0 <= k < nx implies s[p + 2 + k] == #[trigger] tx[k] by {
                    assert(t[2 + k] == tx[k]);
                }
            }
            lemma_text_lexes(s, p + 2, x);
            lemma_lexes_one(s, p, TokenView::LeftParen, p + 1);
            lemma_lexes_one(s, p + 1, operator, p + 2);
            lemma_lexes_one(s, p + 2 + nx, TokenView::RightParen, p + n);
            lemma_lexes_concat(s, p, seq![TokenView::LeftParen], p + 1, seq![operator], p + 2);
            assert(seq![TokenView::LeftParen] + seq![operator] =~= seq![TokenView::LeftParen, operator]);
            let px = printed_tokens(x);
            lemma_lexes_concat(s, p, seq![TokenView::LeftParen, operator], p + 2, px, p + 2 + nx);
            lemma_lexes_concat(
                s,
                p,
                seq![TokenView::LeftParen, operator] + px,
                p + 2 + nx,
                seq![TokenView::RightParen],
                p + n,
            );
        },
        ExpressionView::Infix { left, operator, right } => {
            let l = *left;
            let r = *right;
            let tl = expression_text(l);
            let tr = expression_text(r);
            let top = token_text(operator);
            let nl = tl.len() as int;
            let nr = tr.len() as int;
            let no = top.len() as int;
            lemma_text_start(l);
            lemma_text_start(r);
            let a = p + 1 + nl;
            let b = a + 1 + no;
            assert(s[p] == t[0]);
            assert(text_at(s, p + 1, tl)) by {
                assert forall|k: int| 0 <= k < nl implies s[p + 1 + k] == #[trigger] tl[k] by {
                    assert(t[1 + k] == tl[k]);
                }
            }
            assert(s[a] == t[1 + nl]);
            assert(text_at(s, a + 1, top)) by {
                assert forall|k: int| 0 <= k < no implies s[a + 1 + k] == #[trigger] top[k] by {
                    assert(t[2 + nl + k] == top[k]);
                }
            }
            assert(s[b] == t[2 + nl + no]);
            assert(text_at(s, b + 1, tr)) by {
                assert forall|k: int| 0 <= k < nr implies s[b + 1 + k] == #[trigger] tr[k] by {
                    assert(t[3 + nl + no + k] == tr[k]);
                }
            }
            assert(s[b + 1 + nr] == t[n - 1]);
            assert(s[b + 1] == tr[0]);
            // `(`, then the left operand.
            lemma_lexes_one(s, p, TokenView::LeftParen, p + 1);
            lemma_text_lexes(s, p + 1, l);
            let pl = printed_tokens(l);
            lemma_lexes_concat(s, p, seq![TokenView::LeftParen], p + 1, pl, a);
            // The space and the operator.
            lemma_operator_at(s, a + 1, operator);
            lemma_skip_space(s, a);
            lemma_lexes_one(s, a, operator, b);
            lemma_lexes_concat(s, p, seq![TokenView::LeftParen] + pl, a, seq![operator], b);
            // The space and the right operand.
            lemma_text_lexes(s, b + 1, r);
            let pr = printed_tokens(r);
            lemma_skip_space(s, b);
            lemma_lexes_same_start(s, b, b + 1, pr, b + 1 + nr);
            lemma_lexes_concat(
                s,
                p,
                seq![TokenView::LeftParen] + pl + seq![operator],
                b,
                pr,
                b + 1 + nr,
            );
            // The closing `)`.
            lemma_lexes_one(s, b + 1 + nr, TokenView::RightParen, p + n);
            lemma_lexes_concat(
                s,
                p,
                seq![TokenView::LeftParen] + pl + seq![operator] + pr,
                b + 1 + nr,
                seq![TokenView::RightParen],
                p + n,
            );
        },
        _ => {},
    }
}

/// Lexing that reaches the end of the input gives all its tokens.
proof fn lemma_tokens_from_lexes(s: Seq<char>, p: int, ts: Seq<TokenView>, q: int)
    requires
        0 <= p,
        lexes(s, p, ts, q),
        lex_token(s, q).0 is Eof,
    ensures
        tokens_from(s, p) == ts,
    decreases ts.len(),
{
    if ts.len() > 0 {
        lemma_lex_token_progress(s, p);
        lemma_tokens_from_lexes(s, lex_token(s, p).1, ts.drop_first(), q);
        assert(seq![ts[0]] + ts.drop_first() =~= ts);
    }
}

/// The text a readable expression prints as lexes into the tokens it prints
/// as, and parsing those gives the expression back as the one statement of
/// the program, with no error.
pub proof fn lemma_printed_text_reads_back(e: ExpressionView)
    requires
        is_readable(e),
    ensures
        tokens_from(expression_text(e), 0) == printed_tokens(e),
        program_s(Seq::empty(), Seq::empty(), initial_state(tokens_from(expression_text(e), 0)))
            == Some(
            ProgramOutcome {
                statements: seq![StatementView::Expression { token: TokenView::LeftParen, expression: e }],
                errors: Seq::empty(),
                state: state_at(printed_tokens(e), printed_tokens(e).len() as int),
            },
        ),
{
    let s = expression_text(e);
    lemma_text_lexes(s, 0, e);
    lemma_tokens_from_lexes(s, 0, printed_tokens(e), s.len() as int);
    lemma_readable_simple(e);
    lemma_printed_expression_reads_back(e);
}

} // verus!
