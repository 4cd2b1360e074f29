//! The parser: builds the syntax tree of a Monkey program from its tokens.
use vstd::prelude::*;
use crate::ast::view::{expressions_view, statements_view, ExpressionView};
use crate::ast::print::{lemma_expressions_view_push, lemma_statements_view_push};
use crate::ast::{
    BlockStatement, BooleanLiteral, Expression, ExpressionStatement, Identifier, IntegerLiteral,
    LetStatement, Program, ReturnStatement, Statement,
};
use crate::lexer::{lemma_eof_is_final, lemma_lex_token_progress, lex_token, tokens_from, Lexer};
use crate::text::push_string;
use crate::token::{Precedence, Token, TokenView};

pub mod grammar;
pub mod laws;
pub mod progress;
pub mod reading;
pub mod statement_laws;

use grammar::{
    advance, arguments_loop_s, block_loop_s, block_s, boolean_s, call_arguments_s, continues,
    expect_curr, expect_peek, expected_message, expression_loop_s, expression_s,
    expression_statement_s, identifier_s, if_s, infix_s, initial_state, integer_s, is_infix_operator,
    lemma_advance, lemma_program_end, lemma_program_step, lemma_skip, let_s, measure, outcome, prefix_s, program_s, return_s, shown,
    shrinks, skip_to_semicolon, statement_s, ParseState, Parsed, ParserErrorView, ProgramOutcome,
};

verus! {

/// Why a statement could not be parsed.
#[derive(Debug, PartialEq, Clone)]
pub enum ParserError {
    UnexpectedToken(String),
    NoPrefixExpressionFound(String),
    Unimplemented(String),
}

impl View for ParserError {
    type V = ParserErrorView;

    open spec fn view(&self) -> ParserErrorView {
        match self {
            ParserError::UnexpectedToken(s) => ParserErrorView::UnexpectedToken(s@),
            ParserError::NoPrefixExpressionFound(s) => ParserErrorView::NoPrefixExpressionFound(s@),
            ParserError::Unimplemented(s) => ParserErrorView::Unimplemented(s@),
        }
    }
}

/// The values of a sequence of errors.
pub open spec fn errors_view(s: Seq<ParserError>) -> Seq<ParserErrorView> {
    s.map_values(|e: ParserError| e@)
}

/// The value of an optional token.
pub open spec fn opt_token_view(t: Option<Token>) -> Option<TokenView> {
    match t {
        Some(t) => Some(t@),
        None => None,
    }
}

/// Parses the tokens of one source text, reading them from its lexer one at
/// a time.
pub struct Parser<'a> {
    /// The lexer the tokens come from.
    pub lexer: &'a mut Lexer,
    pub curr_token: Option<Token>,
    pub peek_token: Option<Token>,
    pub errors: Vec<ParserError>,
    /// Whether parsing stopped at a call whose `(` is the last token.
    pub cut_off: bool,
}

impl<'a> Parser<'a> {
    /// The current token, the peek token, and the tokens the lexer still holds.
    pub closed spec fn state(&self) -> ParseState {
        ParseState {
            curr: opt_token_view(self.curr_token),
            peek: opt_token_view(self.peek_token),
            rest: tokens_from(self.lexer.source(), self.lexer.pos()),
        }
    }

    /// The errors recorded so far.
    pub closed spec fn recorded(&self) -> Seq<ParserError> {
        self.errors@
    }

    /// Whether parsing stopped at a call whose `(` is the last token, where
    /// no argument list can be read.
    pub closed spec fn cut_off(&self) -> bool {
        self.cut_off
    }

    /// Whether parsing stopped at a call whose `(` is the last token.
    pub fn cut_off_call(&self) -> (r: bool)
        ensures
            r == self.cut_off(),
    {
        self.cut_off
    }

    /// The current and peek tokens of the state, and the recorded errors,
    /// are those the public fields hold.
    pub proof fn lemma_fields(&self)
        ensures
            self.state().curr == opt_token_view(self.curr_token),
            self.state().peek == opt_token_view(self.peek_token),
            self.recorded() == self.errors@,
    {
    }

    /// The lexer is well formed.
    pub closed spec fn wf(&self) -> bool {
        self.lexer.wf()
    }

    /// A parser over the tokens of `lexer` from its position on, having read
    /// the first two as its current and peek tokens; the lexer, once the
    /// parser is done with, is where the parser left it.
    pub fn new(lexer: &'a mut Lexer) -> (p: Parser<'a>)
        requires
            old(lexer).wf(),
        ensures
            p.wf(),
            p.state() == initial_state(tokens_from(old(lexer).source(), old(lexer).pos())),
            p.recorded().len() == 0,
            !p.cut_off(),
            p.lexer.source() == old(lexer).source(),
            *final(p.lexer) == *final(lexer),
    {
        let mut result = Parser {
            lexer,
            curr_token: None,
            peek_token: None,
            errors: Vec::new(),
            cut_off: false,
        };
        result.advance_tokens();
        result.advance_tokens();
        result
    }

    /// Moves one token on: the peek token becomes the current one, and the
    /// next token of the input becomes the peek token.
    pub fn advance_tokens(&mut self)
        requires
            old(self).wf(),
        ensures
            final(self).wf(),
            final(self).state() == advance(old(self).state()),
            final(self).recorded() == old(self).recorded(),
            final(self).cut_off() == old(self).cut_off(),
            final(self).lexer.source() == old(self).lexer.source(),
            *final(final(self).lexer) == *final(old(self).lexer),
            shrinks(old(self).state(), final(self).state()),
            measure(final(self).state()) <= measure(old(self).state()),
    {
        proof {
            lemma_advance(self.state());
            self.lexer.lemma_pos_nonneg();
            let s = self.lexer.source();
            let q = self.lexer.pos();
            lemma_lex_token_progress(s, q);
            if lex_token(s, q).0 is Eof {
                lemma_eof_is_final(s, q);
            }
        }
        let ghost s = self.lexer.source();
        let ghost q = self.lexer.pos();
        self.curr_token = self.peek_token.take();
        self.peek_token = self.lexer.next();
        proof {
            let rest = tokens_from(s, q);
            let q1 = lex_token(s, q).1;
            if lex_token(s, q).0 is Eof {
                assert(rest =~= Seq::<TokenView>::empty());
                assert(tokens_from(s, q1) =~= Seq::<TokenView>::empty());
            } else {
                assert(rest == seq![lex_token(s, q).0] + tokens_from(s, q1));
                assert(rest.drop_first() =~= tokens_from(s, q1));
            }
        }
    }

    /// Whether the current token is `token_type`.
    pub fn curr_is(&self, token_type: &Token) -> (r: bool)
        ensures
            r == (self.state().curr == Some(token_type@)),
    {
        match &self.curr_token {
            Some(t) => t.same(token_type),
            None => false,
        }
    }

    /// Whether the peek token is `token_type`.
    pub fn peek_is(&self, token_type: &Token) -> (r: bool)
        ensures
            r == (self.state().peek == Some(token_type@)),
    {
        match &self.peek_token {
            Some(t) => t.same(token_type),
            None => false,
        }
    }

    /// Moves on when the current token is `token_type`; otherwise an error
    /// that names the expected and the current token.
    pub fn assert_curr_and_consume(&mut self, token_type: &Token) -> (r: Result<(), ParserError>)
        requires
            old(self).wf(),
        ensures
            final(self).wf(),
            *final(final(self).lexer) == *final(old(self).lexer),
            final(self).recorded() == old(self).recorded(),
            final(self).cut_off() == old(self).cut_off(),
            outcome(r, final(self).state(), expect_curr(old(self).state(), token_type@), |x: ()| ()),
            shrinks(old(self).state(), final(self).state()),
            measure(final(self).state()) <= measure(old(self).state()),
    {
        if self.curr_is(token_type) {
            self.advance_tokens();
            Ok(())
        } else {
            Err(ParserError::UnexpectedToken(expected_text(token_type, &self.curr_token)))
        }
    }

    /// Moves on when the peek token is `token_type`; otherwise an error that
    /// names the expected and the peek token.
    pub fn assert_peek_and_consume(&mut self, token_type: &Token) -> (r: Result<(), ParserError>)
        requires
            old(self).wf(),
        ensures
            final(self).wf(),
            *final(final(self).lexer) == *final(old(self).lexer),
            final(self).recorded() == old(self).recorded(),
            final(self).cut_off() == old(self).cut_off(),
            outcome(r, final(self).state(), expect_peek(old(self).state(), token_type@), |x: ()| ()),
            shrinks(old(self).state(), final(self).state()),
            measure(final(self).state()) <= measure(old(self).state()),
    {
        if self.peek_is(token_type) {
            self.advance_tokens();
            Ok(())
        } else {
            Err(ParserError::UnexpectedToken(expected_text(token_type, &self.peek_token)))
        }
    }

    /// Moves on until the current token is `;` or the input ends.
    fn skip_to_semicolon(&mut self)
        requires
            old(self).wf(),
        ensures
            final(self).wf(),
            *final(final(self).lexer) == *final(old(self).lexer),
            final(self).recorded() == old(self).recorded(),
            final(self).cut_off() == old(self).cut_off(),
            final(self).state() == skip_to_semicolon(old(self).state()),
    {
        while self.curr_token.is_some() && !self.curr_is(&Token::Semicolon)
            invariant
                self.wf(),
                *final(self.lexer) == *final(old(self).lexer),
                self.recorded() == old(self).recorded(),
                self.cut_off() == old(self).cut_off(),
                skip_to_semicolon(self.state()) == skip_to_semicolon(old(self).state()),
            decreases measure(self.state()),
        {
            proof {
                lemma_advance(self.state());
            }
            self.advance_tokens();
        }
    }

    /// Parses statements until the input ends.  A statement in error is
    /// recorded in `errors` and skipped up to the next `;`.  Parsing stops
    /// early, and `cut_off_call` tells so, at a call whose `(` is the last
    /// token.
    pub fn parse_program(&mut self) -> (program: Program)
        requires
            old(self).wf(),
            !old(self).cut_off(),
        ensures
            final(self).wf(),
            *final(final(self).lexer) == *final(old(self).lexer),
            final(self).cut_off() == (program_s(
                Seq::empty(),
                errors_view(old(self).recorded()),
                old(self).state(),
            ) is None),
            !final(self).cut_off() ==> ({
                let o = program_s(Seq::empty(), errors_view(old(self).recorded()), old(self).state())->0;
                &&& statements_view(program.statements@) == o.statements
                &&& errors_view(final(self).recorded()) == o.errors
                &&& final(self).state() == o.state
            }),
    {
        let ghost goal = program_s(Seq::empty(), errors_view(self.errors@), self.state());
        let mut program = Program { statements: Vec::new() };
        while self.curr_token.is_some()
            invariant
                self.wf(),
                *final(self.lexer) == *final(old(self).lexer),
                !self.cut_off(),
                goal == program_s(Seq::empty(), errors_view(old(self).recorded()), old(self).state()),
                program_s(statements_view(program.statements@), errors_view(self.errors@), self.state())
                    == goal,
            decreases measure(self.state()),
        {
            let ghost st = self.state();
            let ghost done = statements_view(program.statements@);
            let ghost errs = errors_view(self.errors@);
            proof {
                lemma_program_step(done, errs, st);
            }
            let statement = parse_statement(self);
            match statement {
                Ok(statement) => {
                    proof {
                        lemma_statements_view_push(program.statements@, statement);
                    }
                    program.statements.push(statement);
                },
                Err(error) => {
                    if self.cut_off {
                        proof {
                            assert(statement_s(st) is Abort);
                        }
                        return program;
                    }
                    proof {
                        assert(errors_view(self.errors@.push(error)) == errors_view(self.errors@).push(error@));
                    }
                    proof {
                        lemma_skip(self.state());
                    }
                    self.errors.push(error);
                    self.skip_to_semicolon();
                },
            }
            proof {
                lemma_advance(self.state());
                lemma_advance(st);
            }
            self.advance_tokens();
            assert(measure(self.state()) < measure(st));
        }
        proof {
            lemma_program_end(statements_view(program.statements@), errors_view(self.errors@), self.state());
        }
        program
    }
}

/// The current token; there is one.
fn current_token(parser: &Parser) -> (t: Token)
    requires
        parser.state().curr is Some,
    ensures
        t@ == parser.state().curr->0,
{
    match &parser.curr_token {
        Some(t) => t.clone(),
        None => Token::Eof,
    }
}

/// `<prefix><text of the token>`, with `EOF` when there is none.
fn prefixed_text(prefix: &str, t: &Option<Token>) -> (s: String)
    ensures
        s@ == prefix@ + shown(opt_token_view(*t)),
{
    let mut s = String::from_str(prefix);
    push_string(&mut s, &shown_text(t));
    s
}

/// The statement at the current token: a `let` statement, a `return`
/// statement, or an expression statement.
pub fn parse_statement(parser: &mut Parser) -> (r: Result<Statement, ParserError>)
    requires
        old(parser).wf(),
        !old(parser).cut_off(),
    ensures
        final(parser).wf(),
        *final(final(parser).lexer) == *final(old(parser).lexer),
        final(parser).recorded() == old(parser).recorded(),
        !(statement_s(old(parser).state()) is Abort) ==> shrinks(old(parser).state(), final(parser).state()),
        !(statement_s(old(parser).state()) is Abort) ==> outcome(r, final(parser).state(), statement_s(old(parser).state()), |x: Statement| x@),
        final(parser).cut_off() == (statement_s(old(parser).state()) is Abort),
        final(parser).cut_off() ==> r is Err,
    decreases measure(old(parser).state()), 5nat,
{
    match parser.curr_token {
        Some(Token::Let) => Ok(Statement::Let(parse_let_statement(parser)?)),
        Some(Token::Return) => Ok(Statement::Return(parse_return_statement(parser)?)),
        Some(_) => Ok(Statement::Expression(parse_expression_statement(parser)?)),
        None => Err(ParserError::UnexpectedToken(String::from_str("Unexpected end of input"))),
    }
}

/// `let <identifier> = <expression>;`; the parser is left at the `;`.
pub fn parse_let_statement(parser: &mut Parser) -> (r: Result<LetStatement, ParserError>)
    requires
        old(parser).wf(),
        !old(parser).cut_off(),
    ensures
        final(parser).wf(),
        *final(final(parser).lexer) == *final(old(parser).lexer),
        final(parser).recorded() == old(parser).recorded(),
        !(let_s(old(parser).state()) is Abort) ==> shrinks(old(parser).state(), final(parser).state()),
        !(let_s(old(parser).state()) is Abort) ==> outcome(r, final(parser).state(), let_s(old(parser).state()), |x: LetStatement| x@),
        final(parser).cut_off() == (let_s(old(parser).state()) is Abort),
        final(parser).cut_off() ==> r is Err,
    decreases measure(old(parser).state()), 4nat,
{
    parser.assert_curr_and_consume(&Token::Let)?;
    let identifier: Identifier = parse_identifier(parser)?;
    parser.advance_tokens();
    parser.assert_curr_and_consume(&Token::Assign)?;
    let value: Expression = parse_expression(parser, Precedence::Lowest)?;
    let statement = LetStatement { token: Token::Let, identifier, value };
    parser.assert_peek_and_consume(&Token::Semicolon)?;
    Ok(statement)
}

/// `return <expression>;`; the parser is left at the `;`.
pub fn parse_return_statement(parser: &mut Parser) -> (r: Result<ReturnStatement, ParserError>)
    requires
        old(parser).wf(),
        !old(parser).cut_off(),
    ensures
        final(parser).wf(),
        *final(final(parser).lexer) == *final(old(parser).lexer),
        final(parser).recorded() == old(parser).recorded(),
        !(return_s(old(parser).state()) is Abort) ==> shrinks(old(parser).state(), final(parser).state()),
        !(return_s(old(parser).state()) is Abort) ==> outcome(r, final(parser).state(), return_s(old(parser).state()), |x: ReturnStatement| x@),
        final(parser).cut_off() == (return_s(old(parser).state()) is Abort),
        final(parser).cut_off() ==> r is Err,
    decreases measure(old(parser).state()), 4nat,
{
    parser.assert_curr_and_consume(&Token::Return)?;
    let value = parse_expression(parser, Precedence::Lowest)?;
    parser.assert_peek_and_consume(&Token::Semicolon)?;
    Ok(ReturnStatement { token: Token::Return, value })
}

/// An expression standing as a statement; the parser is left at its last token.
pub fn parse_expression_statement(parser: &mut Parser) -> (r: Result<ExpressionStatement, ParserError>)
    requires
        old(parser).wf(),
        !old(parser).cut_off(),
    ensures
        final(parser).wf(),
        *final(final(parser).lexer) == *final(old(parser).lexer),
        final(parser).recorded() == old(parser).recorded(),
        !(expression_statement_s(old(parser).state()) is Abort) ==> shrinks(old(parser).state(), final(parser).state()),
        !(expression_statement_s(old(parser).state()) is Abort) ==> outcome(
            r,
            final(parser).state(),
            expression_statement_s(old(parser).state()),
            |x: ExpressionStatement| x@,
        ),
        final(parser).cut_off() == (expression_statement_s(old(parser).state()) is Abort),
        final(parser).cut_off() ==> r is Err,
    decreases measure(old(parser).state()), 4nat,
{
    let expression = parse_expression(parser, Precedence::Lowest)?;
    Ok(ExpressionStatement { token: Token::LeftParen, expression })
}

/// `{ <statements> }`; the parser is left past the `}`.
pub fn parse_block_statement(parser: &mut Parser) -> (r: Result<BlockStatement, ParserError>)
    requires
        old(parser).wf(),
        !old(parser).cut_off(),
    ensures
        final(parser).wf(),
        *final(final(parser).lexer) == *final(old(parser).lexer),
        final(parser).recorded() == old(parser).recorded(),
        !(block_s(old(parser).state()) is Abort) ==> shrinks(old(parser).state(), final(parser).state()),
        !(block_s(old(parser).state()) is Abort) ==> outcome(r, final(parser).state(), block_s(old(parser).state()), |x: BlockStatement| x@),
        final(parser).cut_off() == (block_s(old(parser).state()) is Abort),
        final(parser).cut_off() ==> r is Err,
    decreases measure(old(parser).state()), 7nat,
{
    let ghost goal = block_s(parser.state());
    parser.assert_curr_and_consume(&Token::LeftBrace)?;
    let mut statements: Vec<Statement> = Vec::new();
    while !parser.curr_is(&Token::RightBrace) && parser.curr_token.is_some()
        invariant
            parser.wf(),
            *final(parser.lexer) == *final(old(parser).lexer),
            parser.recorded() == old(parser).recorded(),
            goal == block_s(old(parser).state()),
            !parser.cut_off(),
            block_loop_s(statements_view(statements@), parser.state()) == goal,
            shrinks(old(parser).state(), parser.state()),
            measure(parser.state()) < measure(old(parser).state()),
        decreases measure(parser.state()),
    {
        let ghost st = parser.state();
        match parse_statement(parser) {
            Ok(statement) => {
                proof {
                    lemma_statements_view_push(statements@, statement);
                }
                statements.push(statement);
            },
            Err(err) => return Err(err),
        }
        proof {
            lemma_advance(parser.state());
        }
        parser.advance_tokens();
    }
    parser.assert_curr_and_consume(&Token::RightBrace)?;
    Ok(BlockStatement { token: Token::LeftBrace, statements })
}

/// Whether the expression loop at `precedence` goes on: the peek token is
/// there, is not `;`, and binds stronger than `precedence`.
fn peek_continues(parser: &Parser, precedence: &Precedence) -> (r: bool)
    ensures
        r == continues(parser.state(), *precedence),
{
    match &parser.peek_token {
        Some(Token::Semicolon) => false,
        Some(token) => precedence.lt(&token.precedence()),
        None => false,
    }
}

/// An expression whose operators bind stronger than `precedence`; the parser
/// is left at its last token.
pub fn parse_expression(parser: &mut Parser, precedence: Precedence) -> (r: Result<
    Expression,
    ParserError,
>)
    requires
        old(parser).wf(),
        !old(parser).cut_off(),
    ensures
        final(parser).wf(),
        *final(final(parser).lexer) == *final(old(parser).lexer),
        final(parser).recorded() == old(parser).recorded(),
        !(expression_s(old(parser).state(), precedence) is Abort) ==> shrinks(old(parser).state(), final(parser).state()),
        !(expression_s(old(parser).state(), precedence) is Abort) ==> outcome(
            r,
            final(parser).state(),
            expression_s(old(parser).state(), precedence),
            |x: Expression| x@,
        ),
        final(parser).cut_off() == (expression_s(old(parser).state(), precedence) is Abort),
        final(parser).cut_off() ==> r is Err,
    decreases measure(old(parser).state()), 3nat,
{
    let ghost goal = expression_s(parser.state(), precedence);
    let prefix = parse_prefix_expression(parser)?;
    let mut left_expression = match prefix {
        Some(e) => e,
        None => {
            return Err(
                ParserError::NoPrefixExpressionFound(
                    prefixed_text("Expected a prefix expression token, got ", &parser.curr_token),
                ),
            );
        },
    };
    while peek_continues(parser, &precedence)
        invariant
            parser.wf(),
            *final(parser.lexer) == *final(old(parser).lexer),
            parser.recorded() == old(parser).recorded(),
            goal == expression_s(old(parser).state(), precedence),
            !parser.cut_off(),
            expression_loop_s(left_expression@, parser.state(), precedence) == goal,
            shrinks(old(parser).state(), parser.state()),
        decreases measure(parser.state()),
    {
        proof {
            crate::token::lemma_operator_strength(parser.state().peek->0);
        }
        match parse_infix_expression(parser, left_expression)? {
            Some(e) => {
                left_expression = e;
            },
            None => {
                // The loop goes on only where the peek token is an operator or `(`.
                proof {
                    assert(false);
                }
                return Err(ParserError::UnexpectedToken(String::from_str("Expected an operator")));
            },
        }
    }
    Ok(left_expression)
}

/// The identifier at the current token.
pub fn parse_identifier(parser: &Parser) -> (r: Result<Identifier, ParserError>)
    ensures
        outcome(r, parser.state(), identifier_s(parser.state()), |x: Identifier| x@),
{
    match &parser.curr_token {
        Some(Token::Ident(name)) => Ok(
            Identifier { token: Token::Ident(name.clone()), name: name.clone() },
        ),
        _ => Err(
            ParserError::UnexpectedToken(
                prefixed_text("Expected identifier, got ", &parser.curr_token),
            ),
        ),
    }
}

/// The integer literal at the current token.
pub fn parse_integer_literal(parser: &Parser) -> (r: Result<IntegerLiteral, ParserError>)
    ensures
        outcome(
            r,
            parser.state(),
            integer_s(parser.state()),
            |x: IntegerLiteral| x@,
        ),
{
    match &parser.curr_token {
        Some(Token::Int(value)) => Ok(IntegerLiteral { token: Token::Int(*value), value: *value }),
        _ => Err(
            ParserError::UnexpectedToken(
                prefixed_text("Expected integer literal, got ", &parser.curr_token),
            ),
        ),
    }
}

/// The boolean literal at the current token.
pub fn parse_boolean(parser: &Parser) -> (r: Result<BooleanLiteral, ParserError>)
    ensures
        outcome(r, parser.state(), boolean_s(parser.state()), |x: BooleanLiteral| x@),
{
    match &parser.curr_token {
        Some(Token::True) => Ok(BooleanLiteral { token: Token::True, value: true }),
        Some(Token::False) => Ok(BooleanLiteral { token: Token::False, value: false }),
        _ => Err(
            ParserError::UnexpectedToken(
                prefixed_text("Expected boolean literal, got ", &parser.curr_token),
            ),
        ),
    }
}

/// The value of an optional expression.
pub open spec fn opt_expression_view(x: Option<Expression>) -> Option<ExpressionView> {
    match x {
        Some(e) => Some(e@),
        None => None,
    }
}

/// The expression that starts at the current token, `None` when no
/// expression starts with it.
pub fn parse_prefix_expression(parser: &mut Parser) -> (r: Result<Option<Expression>, ParserError>)
    requires
        old(parser).wf(),
        !old(parser).cut_off(),
    ensures
        final(parser).wf(),
        *final(final(parser).lexer) == *final(old(parser).lexer),
        final(parser).recorded() == old(parser).recorded(),
        !(prefix_s(old(parser).state()) is Abort) ==> shrinks(old(parser).state(), final(parser).state()),
        !(prefix_s(old(parser).state()) is Abort) ==> outcome(
            r,
            final(parser).state(),
            prefix_s(old(parser).state()),
            |x: Option<Expression>| opt_expression_view(x),
        ),
        final(parser).cut_off() == (prefix_s(old(parser).state()) is Abort),
        final(parser).cut_off() ==> r is Err,
    decreases measure(old(parser).state()), 2nat,
{
    proof {
        lemma_advance(parser.state());
    }
    match parser.curr_token {
        Some(Token::Ident(_)) => Ok(Some(Expression::identifier(parse_identifier(parser)?))),
        Some(Token::Int(_)) => Ok(Some(Expression::integer(parse_integer_literal(parser)?))),
        Some(Token::Bang) | Some(Token::Minus) => {
            let operator = current_token(parser);
            parser.advance_tokens();
            let expression = parse_expression(parser, Precedence::Prefix)?;
            Ok(Some(Expression::prefix(operator, expression)))
        },
        Some(Token::True) | Some(Token::False) => Ok(
            Some(Expression::boolean(parse_boolean(parser)?)),
        ),
        Some(Token::LeftParen) => {
            parser.advance_tokens();
            let expression = parse_expression(parser, Precedence::Lowest)?;
            parser.assert_peek_and_consume(&Token::RightParen)?;
            Ok(Some(expression))
        },
        Some(Token::If) => Ok(Some(parse_if_expression(parser)?)),
        Some(_) => Ok(None),
        None => Err(
            ParserError::UnexpectedToken(
                prefixed_text("Expected prefix expression token, got ", &parser.curr_token),
            ),
        ),
    }
}

/// `if (<condition>) { ... }` with an optional `else { ... }`; the parser
/// is left past the last `}`.
pub fn parse_if_expression(parser: &mut Parser) -> (r: Result<Expression, ParserError>)
    requires
        old(parser).wf(),
        !old(parser).cut_off(),
    ensures
        final(parser).wf(),
        *final(final(parser).lexer) == *final(old(parser).lexer),
        final(parser).recorded() == old(parser).recorded(),
        !(if_s(old(parser).state()) is Abort) ==> shrinks(old(parser).state(), final(parser).state()),
        !(if_s(old(parser).state()) is Abort) ==> outcome(r, final(parser).state(), if_s(old(parser).state()), |x: Expression| x@),
        final(parser).cut_off() == (if_s(old(parser).state()) is Abort),
        final(parser).cut_off() ==> r is Err,
    decreases measure(old(parser).state()), 1nat,
{
    proof {
        lemma_advance(parser.state());
    }
    parser.assert_peek_and_consume(&Token::LeftParen)?;
    let condition = parse_expression(parser, Precedence::Lowest)?;
    parser.assert_curr_and_consume(&Token::RightParen)?;
    let consequence = parse_block_statement(parser)?;
    let alternative = if parser.curr_is(&Token::Else) {
        proof {
            lemma_advance(parser.state());
        }
        parser.advance_tokens();
        Some(parse_block_statement(parser)?)
    } else {
        None
    };
    Ok(Expression::if_expression(condition, consequence, alternative))
}

/// The infix expression or call whose operator is the peek token, with
/// `left` as its left operand; the parser is left at its last token (past the
/// `)` of a call).  `None`, with the parser where it was, when the peek token
/// is neither an operator nor `(`.
pub fn parse_infix_expression(parser: &mut Parser, left: Expression) -> (r: Result<
    Option<Expression>,
    ParserError,
>)
    requires
        old(parser).wf(),
        !old(parser).cut_off(),
    ensures
        final(parser).wf(),
        *final(final(parser).lexer) == *final(old(parser).lexer),
        final(parser).recorded() == old(parser).recorded(),
        !(infix_s(left@, old(parser).state()) is Abort) ==> shrinks(
            old(parser).state(),
            final(parser).state(),
        ),
        r matches Ok(Some(_)) ==> measure(final(parser).state()) < measure(old(parser).state()),
        !(infix_s(left@, old(parser).state()) is Abort) ==> outcome(
            r,
            final(parser).state(),
            infix_s(left@, old(parser).state()),
            |x: Option<Expression>| opt_expression_view(x),
        ),
        final(parser).cut_off() == (infix_s(left@, old(parser).state()) is Abort),
        final(parser).cut_off() ==> r is Err,
    decreases measure(old(parser).state()), 0nat,
{
    proof {
        lemma_advance(parser.state());
        lemma_advance(advance(parser.state()));
    }
    match parser.peek_token {
        Some(Token::Plus) | Some(Token::Minus) | Some(Token::Asterisk) | Some(Token::Slash) | Some(
            Token::LessThan,
        ) | Some(Token::GreaterThan) | Some(Token::Equal) | Some(Token::NotEqual) => {
            parser.advance_tokens();
            let operator = current_token(parser);
            parser.advance_tokens();
            let right = parse_expression(parser, operator.precedence())?;
            Ok(Some(Expression::infix(left, operator, right)))
        },
        Some(Token::LeftParen) => {
            parser.advance_tokens();
            let arguments = parse_call_arguments(parser)?;
            Ok(Some(Expression::call(left, arguments)))
        },
        _ => Ok(None),
    }
}

/// The arguments of a call, from its `(` to past its `)`.
pub fn parse_call_arguments(parser: &mut Parser) -> (r: Result<Vec<Expression>, ParserError>)
    requires
        old(parser).wf(),
        !old(parser).cut_off(),
    ensures
        final(parser).wf(),
        *final(final(parser).lexer) == *final(old(parser).lexer),
        final(parser).recorded() == old(parser).recorded(),
        !(call_arguments_s(old(parser).state()) is Abort) ==> shrinks(old(parser).state(), final(parser).state()),
        !(call_arguments_s(old(parser).state()) is Abort) ==> outcome(
            r,
            final(parser).state(),
            call_arguments_s(old(parser).state()),
            |x: Vec<Expression>| expressions_view(x@),
        ),
        final(parser).cut_off() == (call_arguments_s(old(parser).state()) is Abort),
        final(parser).cut_off() ==> r is Err,
    decreases measure(old(parser).state()), 2nat,
{
    let ghost goal = call_arguments_s(parser.state());
    proof {
        lemma_advance(parser.state());
    }
    parser.assert_curr_and_consume(&Token::LeftParen)?;
    let mut arguments: Vec<Expression> = Vec::new();
    if parser.curr_token.is_none() {
        parser.cut_off = true;
        return Err(ParserError::UnexpectedToken(String::from_str("Unexpected end of input")));
    }
    if parser.curr_is(&Token::RightParen) {
        parser.advance_tokens();
        return Ok(arguments);
    }
    let first = parse_expression(parser, Precedence::Lowest)?;
    proof {
        lemma_expressions_view_push(arguments@, first);
    }
    arguments.push(first);
    parser.advance_tokens();
    while parser.curr_is(&Token::Comma)
        invariant
            parser.wf(),
            *final(parser.lexer) == *final(old(parser).lexer),
            parser.recorded() == old(parser).recorded(),
            goal == call_arguments_s(old(parser).state()),
            !parser.cut_off(),
            arguments_loop_s(expressions_view(arguments@), parser.state()) == goal,
            shrinks(old(parser).state(), parser.state()),
            measure(parser.state()) < measure(old(parser).state()),
        decreases measure(parser.state()),
    {
        parser.advance_tokens();
        let e = parse_expression(parser, Precedence::Lowest)?;
        proof {
            lemma_expressions_view_push(arguments@, e);
        }
        arguments.push(e);
        parser.advance_tokens();
    }
    parser.assert_curr_and_consume(&Token::RightParen)?;
    Ok(arguments)
}

/// The text of a token, `EOF` when there is none.
fn shown_text(t: &Option<Token>) -> (s: String)
    ensures
        s@ == shown(opt_token_view(*t)),
{
    match t {
        Some(t) => t.to_string(),
        None => Token::Eof.to_string(),
    }
}

/// `Expected '<expected>', got '<got>'`.
fn expected_text(expected: &Token, got: &Option<Token>) -> (s: String)
    ensures
        s@ == expected_message(expected@, opt_token_view(*got)),
{
    let mut s = String::from_str("Expected '");
    push_string(&mut s, &expected.to_string());
    s.append("', got '");
    push_string(&mut s, &shown_text(got));
    s.append("'");
    s
}

} // verus!
