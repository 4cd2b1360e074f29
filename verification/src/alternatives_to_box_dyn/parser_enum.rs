//! An earlier parser over the enum tree: `let` and `return` statements whose
//! value is an integer or one operator between two integers.
use vstd::prelude::*;
use crate::lexer::{lemma_eof_is_final, lemma_lex_token_progress, lex_token, tokens_from, Lexer};
use crate::text::push_string;
use crate::token::{token_text, Token, TokenView};
use super::ast_enum::{
    statements_view, Expression, ExpressionView, Identifier, IdentifierView, IntegerLiteral,
    IntegerLiteralView, LetStatement, LetStatementView, OperatorExpression, Program,
    ReturnStatement, ReturnStatementView, Statement, StatementView,
};

verus! {

/// Why a statement could not be parsed.
#[derive(Debug)]
pub enum ParserError {
    UnexpectedToken(String),
    Unimplemented(String),
}

/// The value of a `ParserError`: its kind and its message.
pub enum ParserErrorView {
    UnexpectedToken(Seq<char>),
    Unimplemented(Seq<char>),
}

impl View for ParserError {
    type V = ParserErrorView;

    open spec fn view(&self) -> ParserErrorView {
        match self {
            ParserError::UnexpectedToken(s) => ParserErrorView::UnexpectedToken(s@),
            ParserError::Unimplemented(s) => ParserErrorView::Unimplemented(s@),
        }
    }
}

/// The current token, the peek token, and the tokens after them.
pub struct TokenState {
    pub curr: Option<TokenView>,
    pub peek: Option<TokenView>,
    pub rest: Seq<TokenView>,
}

/// Moves one token on.
pub open spec fn step(st: TokenState) -> TokenState {
    TokenState {
        curr: st.peek,
        peek: if st.rest.len() > 0 {
            Some(st.rest[0])
        } else {
            None
        },
        rest: if st.rest.len() > 0 {
            st.rest.drop_first()
        } else {
            st.rest
        },
    }
}

/// How much input a state still holds.
pub open spec fn size(st: TokenState) -> nat {
    3 * st.rest.len() + (if st.peek is Some {
        2nat
    } else {
        0nat
    }) + (if st.curr is Some {
        1nat
    } else {
        0nat
    })
}

/// `after` is `before`, or holds less input.
pub open spec fn narrows(before: TokenState, after: TokenState) -> bool {
    after == before || size(after) < size(before)
}

/// Moving on never adds input, and takes some away whenever there is any.
pub proof fn lemma_step(st: TokenState)
    ensures
        size(step(st)) <= size(st),
        (st.curr is Some || st.peek is Some || st.rest.len() > 0) ==> size(step(st)) < size(st),
        narrows(st, step(st)),
{
}

/// The outcome of a parsing function: what it built and the state after it,
/// the error and the state at which it stopped, or `Abort` where the parser
/// panics (it prints a missing token with `unwrap`).
pub enum Step<T> {
    Done(T, TokenState),
    Failed(ParserErrorView, TokenState),
    Abort,
}

/// `<prefix><text of t>`, as an unexpected-token error.
pub open spec fn unexpected(prefix: Seq<char>, t: TokenView) -> ParserErrorView {
    ParserErrorView::UnexpectedToken(prefix + token_text(t))
}

/// The identifier at the current token.
pub open spec fn identifier_e(st: TokenState) -> Step<IdentifierView> {
    match st.curr {
        Some(TokenView::Ident(name)) => Step::Done(
            IdentifierView { token: TokenView::Ident(name), name },
            st,
        ),
        Some(t) => Step::Failed(unexpected("Expected identifier, got "@, t), st),
        None => Step::Abort,
    }
}

/// The integer literal at the current token.
pub open spec fn integer_e(st: TokenState) -> Step<IntegerLiteralView> {
    match st.curr {
        Some(TokenView::Int(v)) => Step::Done(
            IntegerLiteralView { token: TokenView::Int(v), value: v },
            st,
        ),
        Some(t) => Step::Failed(unexpected("Expected integer literal, got "@, t), st),
        None => Step::Abort,
    }
}

/// Whether `t` is `+`, `-`, `*` or `/`.
pub open spec fn is_arithmetic(t: TokenView) -> bool {
    t is Plus || t is Minus || t is Asterisk || t is Slash
}

/// `integer operator integer`, ending at the second integer.
pub open spec fn operator_e(st: TokenState) -> Step<ExpressionView> {
    match integer_e(st) {
        Step::Done(left, _) => {
            let st1 = step(st);
            match st1.curr {
                Some(op) => if is_arithmetic(op) {
                    let st2 = step(st1);
                    match integer_e(st2) {
                        Step::Done(right, _) => Step::Done(
                            ExpressionView::OperatorExpression {
                                left: Box::new(ExpressionView::IntegerLiteral(left)),
                                operator: op,
                                right: Box::new(ExpressionView::IntegerLiteral(right)),
                            },
                            st2,
                        ),
                        Step::Failed(e, s) => Step::Failed(e, s),
                        Step::Abort => Step::Abort,
                    }
                } else {
                    Step::Failed(unexpected("Expected operator, got "@, op), st1)
                },
                None => Step::Abort,
            }
        },
        Step::Failed(e, s) => Step::Failed(e, s),
        Step::Abort => Step::Abort,
    }
}

/// An integer followed by `;`, or an operator expression; the parser stays at
/// the integer, or ends at the second integer.
pub open spec fn expression_e(st: TokenState) -> Step<ExpressionView> {
    match st.curr {
        Some(TokenView::Int(v)) => match st.peek {
            Some(p) => if is_arithmetic(p) {
                operator_e(st)
            } else if p is Semicolon {
                Step::Done(
                    ExpressionView::IntegerLiteral(
                        IntegerLiteralView { token: TokenView::Int(v), value: v },
                    ),
                    st,
                )
            } else {
                Step::Failed(unexpected("Expected '+' or ';', got "@, p), st)
            },
            None => Step::Abort,
        },
        Some(TokenView::LeftParen) => Step::Failed(
            ParserErrorView::Unimplemented(
                "Parsing prefix expressions not implemented, got '('"@,
            ),
            st,
        ),
        Some(t) => Step::Failed(unexpected("Only support integer literals, got "@, t), st),
        None => Step::Abort,
    }
}

/// `let name = value`; the parser ends one token past the value.
pub open spec fn let_e(st: TokenState) -> Step<LetStatementView> {
    match st.curr {
        Some(TokenView::Let) => {
            let st1 = step(st);
            match identifier_e(st1) {
                Step::Done(name, _) => {
                    let st2 = step(st1);
                    match st2.curr {
                        Some(TokenView::Assign) => match expression_e(step(st2)) {
                            Step::Done(value, st4) => Step::Done(
                                LetStatementView { token: TokenView::Let, name, value },
                                step(st4),
                            ),
                            Step::Failed(e, s) => Step::Failed(e, s),
                            Step::Abort => Step::Abort,
                        },
                        Some(t) => Step::Failed(
                            unexpected("Expected '=' after identifier, got "@, t),
                            st2,
                        ),
                        None => Step::Abort,
                    }
                },
                Step::Failed(e, s) => Step::Failed(e, s),
                Step::Abort => Step::Abort,
            }
        },
        Some(t) => Step::Failed(unexpected("Expected 'let', got "@, t), st),
        None => Step::Abort,
    }
}

/// `return value`; the parser ends one token past the value.
pub open spec fn return_e(st: TokenState) -> Step<ReturnStatementView> {
    match st.curr {
        Some(TokenView::Return) => match expression_e(step(st)) {
            Step::Done(value, st2) => Step::Done(
                ReturnStatementView { token: TokenView::Return, value },
                step(st2),
            ),
            Step::Failed(e, s) => Step::Failed(e, s),
            Step::Abort => Step::Abort,
        },
        Some(t) => Step::Failed(unexpected("Expected 'return', got "@, t), st),
        None => Step::Abort,
    }
}

/// The statement at the current token: `let`, `return`, or an error naming the token.
pub open spec fn statement_e(st: TokenState) -> Step<StatementView> {
    match st.curr {
        Some(TokenView::Let) => match let_e(st) {
            Step::Done(s, st1) => Step::Done(StatementView::Let(s), st1),
            Step::Failed(e, s) => Step::Failed(e, s),
            Step::Abort => Step::Abort,
        },
        Some(TokenView::Return) => match return_e(st) {
            Step::Done(s, st1) => Step::Done(StatementView::Return(s), st1),
            Step::Failed(e, s) => Step::Failed(e, s),
            Step::Abort => Step::Abort,
        },
        Some(t) => Step::Failed(unexpected("Unexpected token "@, t), st),
        None => Step::Abort,
    }
}

/// Moves on until the current token is `;` or the input ends.
pub open spec fn skip_e(st: TokenState) -> TokenState
    decreases size(st),
{
    if st.curr is Some && !(st.curr->0 is Semicolon) {
        proof {
            lemma_step(st);
        }
        skip_e(step(st))
    } else {
        st
    }
}

/// Moving on to a `;` never adds input.
pub proof fn lemma_skip_e(st: TokenState)
    ensures
        narrows(st, skip_e(st)),
    decreases size(st),
{
    if st.curr is Some && !(st.curr->0 is Semicolon) {
        lemma_step(st);
        lemma_skip_e(step(st));
    }
}

/// What `parse_program` gathers from the current token on: the statements,
/// the errors, and the state at the end; `None` where the parser panics.
pub open spec fn program_e(
    statements: Seq<StatementView>,
    errors: Seq<ParserErrorView>,
    st: TokenState,
) -> Option<(Seq<StatementView>, Seq<ParserErrorView>, TokenState)>
    decreases size(st),
{
    if st.curr is None {
        Some((statements, errors, st))
    } else {
        match statement_e(st) {
            Step::Done(s, st1) => {
                let st2 = step(st1);
                if size(st2) < size(st) {
                    program_e(statements.push(s), errors, st2)
                } else {
                    None
                }
            },
            Step::Failed(e, st1) => {
                let st2 = step(skip_e(st1));
                if size(st2) < size(st) {
                    program_e(statements, errors.push(e), st2)
                } else {
                    None
                }
            },
            Step::Abort => None,
        }
    }
}

/// The outcome `r`, with `after` the state it left, is the outcome `p`.
pub open spec fn matches_step<T: View>(
    r: Result<T, ParserError>,
    after: TokenState,
    p: Step<T::V>,
) -> bool {
    match p {
        Step::Done(v, st) => r matches Ok(x) && x@ == v && after == st,
        Step::Failed(e, st) => r matches Err(x) && x@ == e && after == st,
        Step::Abort => false,
    }
}

/// The values of a sequence of errors.
pub open spec fn errors_view(s: Seq<ParserError>) -> Seq<ParserErrorView> {
    s.map_values(|e: ParserError| e@)
}

/// The value of an optional token.
pub open spec fn opt_token_view(t: Option<Token>) -> Option<TokenView> {
    match t {
        Some(t) => Some(t@),
        None => None,
    }
}

/// Parses the tokens of one source text, reading them from its lexer one at
/// a time.
pub struct Parser<'a> {
    /// The lexer the tokens come from.
    pub lexer: &'a mut Lexer,
    pub curr_token: Option<Token>,
    pub peek_token: Option<Token>,
    pub errors: Vec<ParserError>,
    /// Whether parsing stopped because the input ended where a token was
    /// needed (`Abort` of the step functions).
    pub cut_off: bool,
}

impl<'a> Parser<'a> {
    /// The current token, the peek token, and the tokens the lexer still holds.
    pub open spec fn state(&self) -> TokenState {
        TokenState {
            curr: opt_token_view(self.curr_token),
            peek: opt_token_view(self.peek_token),
            rest: tokens_from(self.lexer.source(), self.lexer.pos()),
        }
    }

    /// The errors recorded so far.
    pub open spec fn recorded(&self) -> Seq<ParserError> {
        self.errors@
    }

    /// The current and peek tokens of the state, and the recorded errors,
    /// are those the public fields hold.
    pub proof fn lemma_fields(&self)
        ensures
            self.state().curr == opt_token_view(self.curr_token),
            self.state().peek == opt_token_view(self.peek_token),
            self.recorded() == self.errors@,
    {
    }

    /// The lexer is well formed.
    pub open spec fn wf(&self) -> bool {
        self.lexer.wf()
    }

    /// A parser over the tokens of `lexer` from its position on, having read
    /// the first two as its current and peek tokens; the lexer, once the
    /// parser is done with, is where the parser left it.
    pub fn new(lexer: &'a mut Lexer) -> (p: Parser<'a>)
        requires
            old(lexer).wf(),
        ensures
            p.wf(),
            !p.cut_off,
            p.state() == step(
                step(
                    TokenState {
                        curr: None,
                        peek: None,
                        rest: tokens_from(old(lexer).source(), old(lexer).pos()),
                    },
                ),
            ),
            p.recorded().len() == 0,
            p.lexer.source() == old(lexer).source(),
            *final(p.lexer) == *final(lexer),
    {
        let mut result = Parser {
            lexer,
            curr_token: None,
            peek_token: None,
            errors: Vec::new(),
            cut_off: false,
        };
        result.advance_tokens();
        result.advance_tokens();
        result
    }

    /// Moves one token on.
    pub fn advance_tokens(&mut self)
        requires
            old(self).wf(),
        ensures
            final(self).wf(),
            *final(final(self).lexer) == *final(old(self).lexer),
            final(self).state() == step(old(self).state()),
            final(self).recorded() == old(self).recorded(),
            final(self).lexer.source() == old(self).lexer.source(),
            final(self).cut_off == old(self).cut_off,
            narrows(old(self).state(), final(self).state()),
    {
        proof {
            lemma_step(self.state());
            self.lexer.lemma_pos_nonneg();
            let s = self.lexer.source();
            let q = self.lexer.pos();
            lemma_lex_token_progress(s, q);
            if lex_token(s, q).0 is Eof {
                lemma_eof_is_final(s, q);
            }
        }
        let ghost s = self.lexer.source();
        let ghost q = self.lexer.pos();
        self.curr_token = self.peek_token.take();
        self.peek_token = self.lexer.next();
        proof {
            let rest = tokens_from(s, q);
            let q1 = lex_token(s, q).1;
            if lex_token(s, q).0 is Eof {
                assert(rest =~= Seq::<TokenView>::empty());
                assert(tokens_from(s, q1) =~= Seq::<TokenView>::empty());
            } else {
                assert(rest == seq![lex_token(s, q).0] + tokens_from(s, q1));
                assert(rest.drop_first() =~= tokens_from(s, q1));
            }
        }
    }

    /// Parses `let` and `return` statements until the input ends; a
    /// statement in error is recorded in `errors` and skipped up to the next
    /// `;`.  Where the input ends inside a statement at a place that needs a
    /// token, parsing stops and `cut_off` is set.
    pub fn parse_program(&mut self) -> (program: Program)
        requires
            old(self).wf(),
            !old(self).cut_off,
        ensures
            final(self).wf(),
            *final(final(self).lexer) == *final(old(self).lexer),
            final(self).cut_off == (program_e(
                Seq::empty(),
                errors_view(old(self).recorded()),
                old(self).state(),
            ) is None),
            !final(self).cut_off ==> ({
                let o = program_e(Seq::empty(), errors_view(old(self).recorded()), old(self).state())->0;
                &&& statements_view(program.statements@) == o.0
                &&& errors_view(final(self).recorded()) == o.1
                &&& final(self).state() == o.2
            }),
    {
        let ghost goal = program_e(Seq::empty(), errors_view(self.errors@), self.state());
        let mut program = Program { statements: Vec::new() };
        proof {
            assert(statements_view(program.statements@) =~= Seq::<StatementView>::empty());
        }
        while self.curr_token.is_some()
            invariant
                self.wf(),
                *final(self.lexer) == *final(old(self).lexer),
                !self.cut_off,
                goal == program_e(Seq::empty(), errors_view(old(self).recorded()), old(self).state()),
                program_e(statements_view(program.statements@), errors_view(self.errors@), self.state()) == goal,
            decreases size(self.state()),
        {
            let ghost st = self.state();
            let statement = match self.curr_token {
                Some(Token::Let) => match parse_let_statement(self) {
                    Ok(stmt) => Ok(Statement::Let(stmt)),
                    Err(e) => Err(e),
                },
                Some(Token::Return) => match parse_return_statement(self) {
                    Ok(stmt) => Ok(Statement::Return(stmt)),
                    Err(e) => Err(e),
                },
                _ => Err(
                    ParserError::UnexpectedToken(prefixed("Unexpected token ", &self.curr_token)),
                ),
            };
            proof {
                lemma_step(st);
            }
            match statement {
                Ok(statement) => {
                    proof {
                        assert(statements_view(program.statements@.push(statement))
                            == statements_view(program.statements@).push(statement@));
                    }
                    program.statements.push(statement);
                },
                Err(error) => {
                    if self.cut_off {
                        proof {
                            assert(statement_e(st) is Abort);
                        }
                        return program;
                    }
                    proof {
                        assert(errors_view(self.errors@.push(error)) == errors_view(self.errors@).push(error@));
                        lemma_skip_e(self.state());
                    }
                    self.errors.push(error);
                    self.skip_to_semicolon();
                },
            }
            proof {
                lemma_step(self.state());
            }
            self.advance_tokens();
            assert(size(self.state()) < size(st));
        }
        program
    }

    fn skip_to_semicolon(&mut self)
        requires
            old(self).wf(),
        ensures
            final(self).wf(),
            *final(final(self).lexer) == *final(old(self).lexer),
            final(self).recorded() == old(self).recorded(),
            final(self).cut_off == old(self).cut_off,
            final(self).state() == skip_e(old(self).state()),
    {
        while self.curr_token.is_some() && !matches!(self.curr_token, Some(Token::Semicolon))
            invariant
                self.wf(),
                *final(self.lexer) == *final(old(self).lexer),
                self.recorded() == old(self).recorded(),
                self.cut_off == old(self).cut_off,
                skip_e(self.state()) == skip_e(old(self).state()),
            decreases size(self.state()),
        {
            proof {
                lemma_step(self.state());
            }
            self.advance_tokens();
        }
    }
}

/// `<prefix><text of the token>`; the token is there.
fn prefixed(prefix: &str, t: &Option<Token>) -> (s: String)
    requires
        t is Some,
    ensures
        s@ == prefix@ + token_text(t->0@),
{
    let mut s = String::from_str(prefix);
    match t {
        Some(t) => push_string(&mut s, &t.to_string()),
        None => {},
    }
    s
}

/// Marks the parser as stopped at the end of its input.
fn stop(parser: &mut Parser) -> (e: ParserError)
    ensures
        final(parser).cut_off,
        *final(parser).lexer == *old(parser).lexer,
        *final(final(parser).lexer) == *final(old(parser).lexer),
        final(parser).curr_token == old(parser).curr_token,
        final(parser).peek_token == old(parser).peek_token,
        final(parser).errors == old(parser).errors,
{
    parser.cut_off = true;
    ParserError::UnexpectedToken(String::from_str("Unexpected end of input"))
}

/// `let <identifier> = <value>`; the parser ends one token past the value.
pub fn parse_let_statement(parser: &mut Parser) -> (r: Result<LetStatement, ParserError>)
    requires
        old(parser).wf(),
        !old(parser).cut_off,
    ensures
        final(parser).wf(),
        *final(final(parser).lexer) == *final(old(parser).lexer),
        final(parser).recorded() == old(parser).recorded(),
        final(parser).cut_off == (let_e(old(parser).state()) is Abort),
        final(parser).cut_off ==> r is Err,
        !(let_e(old(parser).state()) is Abort) ==> narrows(old(parser).state(), final(parser).state()),
        !(let_e(old(parser).state()) is Abort) ==> matches_step(r, final(parser).state(), let_e(old(parser).state())),
{
    match &parser.curr_token {
        Some(Token::Let) => {},
        Some(_) => {
            return Err(
                ParserError::UnexpectedToken(prefixed("Expected 'let', got ", &parser.curr_token)),
            );
        },
        None => {
            return Err(stop(parser));
        },
    }
    parser.advance_tokens();
    if parser.curr_token.is_none() {
        return Err(stop(parser));
    }
    let identifier: Identifier = parse_identifier(parser)?;
    parser.advance_tokens();
    match &parser.curr_token {
        Some(Token::Assign) => {},
        Some(_) => {
            return Err(
                ParserError::UnexpectedToken(
                    prefixed("Expected '=' after identifier, got ", &parser.curr_token),
                ),
            );
        },
        None => {
            return Err(stop(parser));
        },
    }
    parser.advance_tokens();
    let value: Expression = parse_expression(parser)?;
    let statement = LetStatement { token: Token::Let, name: identifier, value };
    parser.advance_tokens();
    Ok(statement)
}

/// The identifier at the current token, which is there.
pub fn parse_identifier(parser: &Parser) -> (r: Result<Identifier, ParserError>)
    requires
        parser.curr_token is Some,
    ensures
        matches_step(r, parser.state(), identifier_e(parser.state())),
{
    match &parser.curr_token {
        Some(Token::Ident(name)) => Ok(
            Identifier { token: Token::Ident(name.clone()), name: name.clone() },
        ),
        _ => Err(
            ParserError::UnexpectedToken(prefixed("Expected identifier, got ", &parser.curr_token)),
        ),
    }
}

/// An integer before `;`, or an operator expression.
pub fn parse_expression(parser: &mut Parser) -> (r: Result<Expression, ParserError>)
    requires
        old(parser).wf(),
        !old(parser).cut_off,
    ensures
        final(parser).wf(),
        *final(final(parser).lexer) == *final(old(parser).lexer),
        final(parser).recorded() == old(parser).recorded(),
        final(parser).cut_off == (expression_e(old(parser).state()) is Abort),
        final(parser).cut_off ==> r is Err,
        !(expression_e(old(parser).state()) is Abort) ==> narrows(old(parser).state(), final(parser).state()),
        !(expression_e(old(parser).state()) is Abort) ==> matches_step(r, final(parser).state(), expression_e(old(parser).state())),
{
    match &parser.curr_token {
        Some(Token::Int(value)) => {
            let value = *value;
            match &parser.peek_token {
                Some(Token::Plus) | Some(Token::Minus) | Some(Token::Asterisk) | Some(
                    Token::Slash,
                ) => parse_operator_expression(parser),
                Some(Token::Semicolon) => Ok(
                    Expression::IntegerLiteral(IntegerLiteral { token: Token::Int(value), value }),
                ),
                Some(_) => Err(
                    ParserError::UnexpectedToken(
                        prefixed("Expected '+' or ';', got ", &parser.peek_token),
                    ),
                ),
                None => Err(stop(parser)),
            }
        },
        Some(Token::LeftParen) => Err(
            ParserError::Unimplemented(
                String::from_str("Parsing prefix expressions not implemented, got '('"),
            ),
        ),
        Some(_) => Err(
            ParserError::UnexpectedToken(
                prefixed("Only support integer literals, got ", &parser.curr_token),
            ),
        ),
        None => Err(stop(parser)),
    }
}

/// The integer literal at the current token, which is there.
pub fn parse_integer_literal(parser: &Parser) -> (r: Result<IntegerLiteral, ParserError>)
    requires
        parser.curr_token is Some,
    ensures
        matches_step(r, parser.state(), integer_e(parser.state())),
{
    match &parser.curr_token {
        Some(Token::Int(value)) => Ok(IntegerLiteral { token: Token::Int(*value), value: *value }),
        _ => Err(
            ParserError::UnexpectedToken(
                prefixed("Expected integer literal, got ", &parser.curr_token),
            ),
        ),
    }
}

/// `integer operator integer`; the parser ends at the second integer.
pub fn parse_operator_expression(parser: &mut Parser) -> (r: Result<Expression, ParserError>)
    requires
        old(parser).wf(),
        !old(parser).cut_off,
    ensures
        final(parser).wf(),
        *final(final(parser).lexer) == *final(old(parser).lexer),
        final(parser).recorded() == old(parser).recorded(),
        final(parser).cut_off == (operator_e(old(parser).state()) is Abort),
        final(parser).cut_off ==> r is Err,
        !(operator_e(old(parser).state()) is Abort) ==> narrows(old(parser).state(), final(parser).state()),
        !(operator_e(old(parser).state()) is Abort) ==> matches_step(r, final(parser).state(), operator_e(old(parser).state())),
{
    if parser.curr_token.is_none() {
        return Err(stop(parser));
    }
    let left = parse_integer_literal(parser)?;
    parser.advance_tokens();
    match &parser.curr_token {
        Some(Token::Plus) | Some(Token::Minus) | Some(Token::Asterisk) | Some(Token::Slash) => {
            let operator = match &parser.curr_token {
                Some(t) => t.clone(),
                None => Token::Eof,
            };
            parser.advance_tokens();
            if parser.curr_token.is_none() {
                return Err(stop(parser));
            }
            let right = parse_integer_literal(parser)?;
            proof {
                assert(Expression::IntegerLiteral(left)@ == ExpressionView::IntegerLiteral(left@));
                assert(Expression::IntegerLiteral(right)@ == ExpressionView::IntegerLiteral(
                    right@,
                ));
            }
            Ok(
                Expression::OperatorExpression(
                    OperatorExpression {
                        left: Box::new(Expression::IntegerLiteral(left)),
                        operator,
                        right: Box::new(Expression::IntegerLiteral(right)),
                    },
                ),
            )
        },
        Some(_) => Err(
            ParserError::UnexpectedToken(prefixed("Expected operator, got ", &parser.curr_token)),
        ),
        None => Err(stop(parser)),
    }
}

/// `return <value>`; the parser ends one token past the value.
pub fn parse_return_statement(parser: &mut Parser) -> (r: Result<ReturnStatement, ParserError>)
    requires
        old(parser).wf(),
        !old(parser).cut_off,
    ensures
        final(parser).wf(),
        *final(final(parser).lexer) == *final(old(parser).lexer),
        final(parser).recorded() == old(parser).recorded(),
        final(parser).cut_off == (return_e(old(parser).state()) is Abort),
        final(parser).cut_off ==> r is Err,
        !(return_e(old(parser).state()) is Abort) ==> narrows(old(parser).state(), final(parser).state()),
        !(return_e(old(parser).state()) is Abort) ==> matches_step(r, final(parser).state(), return_e(old(parser).state())),
{
    match &parser.curr_token {
        Some(Token::Return) => {},
        Some(_) => {
            return Err(
                ParserError::UnexpectedToken(prefixed("Expected 'return', got ", &parser.curr_token)),
            );
        },
        None => {
            return Err(stop(parser));
        },
    }
    parser.advance_tokens();
    let return_value = parse_expression(parser)?;
    parser.advance_tokens();
    Ok(ReturnStatement { token: Token::Return, value: return_value })
}

} // verus!
