//! The lexer: turns Monkey source text into tokens, one call at a time.
use vstd::prelude::*;
use crate::text::{
    is_digit_char, is_whitespace_char, is_alphabetic_char, digits_value, is_whitespace,
    is_alphabetic, is_ascii_digit, chars_of, string_from_chars, parse_digits, push_char,
    digit_char, nat_text,
};
use crate::token::{token_text, Token, TokenView};

verus! {

/// The character at index `i` of `s`, or `None` past either end.
pub open spec fn char_at(s: Seq<char>, i: int) -> Option<char> {
    if 0 <= i < s.len() {
        Some(s[i])
    } else {
        None
    }
}

/// First index at or after `i` where the run of characters that satisfy `p` stops.
pub open spec fn run_end(s: Seq<char>, i: int, p: spec_fn(char) -> bool) -> int
    decreases s.len() - i,
{
    if 0 <= i < s.len() && p(s[i]) {
        run_end(s, i + 1, p)
    } else {
        i
    }
}

/// The whitespace class of `char::is_whitespace`.
pub open spec fn whitespace() -> spec_fn(char) -> bool {
    |c: char| is_whitespace_char(c)
}

/// The letter class of `char::is_alphabetic`.
pub open spec fn alphabetic() -> spec_fn(char) -> bool {
    |c: char| is_alphabetic_char(c)
}

/// The ASCII digits.
pub open spec fn digit() -> spec_fn(char) -> bool {
    |c: char| is_digit_char(c)
}

/// The token of a character that is a token by itself (besides `=` and `!`,
/// which may start a two-character operator).
pub open spec fn single_char_token(c: char) -> Option<TokenView> {
    if c == '+' {
        Some(TokenView::Plus)
    } else if c == '-' {
        Some(TokenView::Minus)
    } else if c == '*' {
        Some(TokenView::Asterisk)
    } else if c == '/' {
        Some(TokenView::Slash)
    } else if c == '<' {
        Some(TokenView::LessThan)
    } else if c == '>' {
        Some(TokenView::GreaterThan)
    } else if c == ';' {
        Some(TokenView::Semicolon)
    } else if c == '(' {
        Some(TokenView::LeftParen)
    } else if c == ')' {
        Some(TokenView::RightParen)
    } else if c == ',' {
        Some(TokenView::Comma)
    } else if c == '{' {
        Some(TokenView::LeftBrace)
    } else if c == '}' {
        Some(TokenView::RightBrace)
    } else {
        None
    }
}

/// The token of a word of letters: one of the keywords `fn`, `let`, `true`,
/// `false`, `if`, `else`, `return`, or else an identifier.
pub open spec fn word_token(w: Seq<char>) -> TokenView {
    if w == seq!['f', 'n'] {
        TokenView::Function
    } else if w == seq!['l', 'e', 't'] {
        TokenView::Let
    } else if w == seq!['t', 'r', 'u', 'e'] {
        TokenView::True
    } else if w == seq!['f', 'a', 'l', 's', 'e'] {
        TokenView::False
    } else if w == seq!['i', 'f'] {
        TokenView::If
    } else if w == seq!['e', 'l', 's', 'e'] {
        TokenView::Else
    } else if w == seq!['r', 'e', 't', 'u', 'r', 'n'] {
        TokenView::Return
    } else {
        TokenView::Ident(w)
    }
}

/// The token of a run of digits: its value when it fits in an `i64`, else an
/// illegal token holding the digits.
pub open spec fn number_token(w: Seq<char>) -> TokenView {
    if digits_value(w) <= i64::MAX {
        TokenView::Int(digits_value(w) as i64)
    } else {
        TokenView::Illegal(w)
    }
}

/// The token that starts at index `p` of `s`, and the index just after it.
/// Whitespace before a token is skipped; at the end of the input the token is
/// `Eof` and the index does not move.  Words run as long as letters follow,
/// numbers as long as digits follow.
pub open spec fn lex_token(s: Seq<char>, p: int) -> (TokenView, int)
    decreases s.len() - p,
{
    if p < 0 || p >= s.len() {
        (TokenView::Eof, p)
    } else {
        let c = s[p];
        if c == '=' {
            if char_at(s, p + 1) == Some('=') {
                (TokenView::Equal, p + 2)
            } else {
                (TokenView::Assign, p + 1)
            }
        } else if c == '!' {
            if char_at(s, p + 1) == Some('=') {
                (TokenView::NotEqual, p + 2)
            } else {
                (TokenView::Bang, p + 1)
            }
        } else if single_char_token(c) is Some {
            (single_char_token(c)->0, p + 1)
        } else if is_whitespace_char(c) {
            let q = run_end(s, p + 1, whitespace());
            proof {
                lemma_run_end(s, p + 1, whitespace());
            }
            lex_token(s, q)
        } else if is_alphabetic_char(c) {
            let q = run_end(s, p + 1, alphabetic());
            (word_token(s.subrange(p, q)), q)
        } else if is_digit_char(c) {
            let q = run_end(s, p + 1, digit());
            (number_token(s.subrange(p, q)), q)
        } else {
            (TokenView::Illegal(seq![c]), p + 1)
        }
    }
}

/// The tokens of `s` from index `p` on, up to but without the end of input.
pub open spec fn tokens_from(s: Seq<char>, p: int) -> Seq<TokenView>
    decreases s.len() - p,
{
    let (t, q) = lex_token(s, p);
    if t is Eof {
        seq![]
    } else {
        proof {
            lemma_lex_token_progress(s, p);
        }
        seq![t] + tokens_from(s, q)
    }
}

/// A run stops at or after where it starts, no later than the end, after
/// characters that all belong to the class, before one that does not.
pub proof fn lemma_run_end(s: Seq<char>, i: int, p: spec_fn(char) -> bool)
    requires
        0 <= i <= s.len(),
    ensures
        i <= run_end(s, i, p) <= s.len(),
        forall|k: int| i <= k < run_end(s, i, p) ==> p(#[trigger] s[k]),
        run_end(s, i, p) < s.len() ==> !p(s[run_end(s, i, p)]),
    decreases s.len() - i,
{
    if i < s.len() && p(s[i]) {
        lemma_run_end(s, i + 1, p);
    }
}

/// Lexing never moves backwards; a token other than `Eof` moves forward and
/// stays within the input; `Eof` comes exactly at or past the end.
pub proof fn lemma_lex_token_progress(s: Seq<char>, p: int)
    requires
        0 <= p,
    ensures
        p <= lex_token(s, p).1,
        !(lex_token(s, p).0 is Eof) ==> p < lex_token(s, p).1 <= s.len(),
        lex_token(s, p).0 is Eof ==> lex_token(s, p).1 == if p < s.len() { s.len() as int } else { p },
    decreases s.len() - p,
{
    if p < s.len() {
        let c = s[p];
        if c == '=' || c == '!' || single_char_token(c) is Some {
        } else if is_whitespace_char(c) {
            lemma_run_end(s, p + 1, whitespace());
            lemma_lex_token_progress(s, run_end(s, p + 1, whitespace()));
        } else if is_alphabetic_char(c) {
            lemma_run_end(s, p + 1, alphabetic());
        } else if is_digit_char(c) {
            lemma_run_end(s, p + 1, digit());
        }
    }
}

/// Once the lexer has reached the end of input it stays there: every further
/// call yields `Eof` and leaves the position as it is.
pub proof fn lemma_eof_is_final(s: Seq<char>, p: int)
    requires
        0 <= p,
        lex_token(s, p).0 is Eof,
    ensures
        lex_token(s, lex_token(s, p).1) == (TokenView::Eof, lex_token(s, p).1),
{
    lemma_lex_token_progress(s, p);
}

/// A lexer reads at most as many tokens (besides `Eof`) as characters remain.
pub proof fn lemma_token_count(s: Seq<char>, p: int)
    requires
        0 <= p,
    ensures
        tokens_from(s, p).len() <= if p < s.len() {
            s.len() - p
        } else {
            0
        },
    decreases s.len() - p,
{
    lemma_lex_token_progress(s, p);
    let (t, q) = lex_token(s, p);
    if !(t is Eof) {
        lemma_token_count(s, q);
    }
}

/// A run of a class that reaches the end of the text stops there.
pub(crate) proof fn lemma_run_to_end(s: Seq<char>, i: int, p: spec_fn(char) -> bool)
    requires
        0 <= i <= s.len(),
        forall|k: int| i <= k < s.len() ==> p(#[trigger] s[k]),
    ensures
        run_end(s, i, p) == s.len(),
    decreases s.len() - i,
{
    if i < s.len() {
        lemma_run_to_end(s, i + 1, p);
    }
}

/// A word of letters lexes as its word token and takes the whole text.
proof fn lemma_word_lexes(w: Seq<char>)
    requires
        w.len() > 0,
        forall|k: int| 0 <= k < w.len() ==> is_alphabetic_char(#[trigger] w[k]),
    ensures
        lex_token(w, 0) == (word_token(w), w.len() as int),
{
    lemma_run_to_end(w, 1, alphabetic());
    assert(w.subrange(0, w.len() as int) =~= w);
}

/// The decimal text of a natural number is a non-empty run of digits whose
/// value is the number.
pub(crate) proof fn lemma_nat_text_digits(n: nat)
    ensures
        nat_text(n).len() > 0,
        forall|k: int| 0 <= k < nat_text(n).len() ==> is_digit_char(#[trigger] nat_text(n)[k]),
        digits_value(nat_text(n)) == n,
    decreases n,
{
    if n >= 10 {
        lemma_nat_text_digits(n / 10);
        let w = nat_text(n);
        assert(w.drop_last() =~= nat_text(n / 10));
        assert(w.last() == digit_char(n % 10));
        assert((digit_char(n % 10) as int) == n % 10 + 48);
        assert(digits_value(w) == digits_value(nat_text(n / 10)) * 10 + n % 10);
        assert((n / 10) * 10 + n % 10 == n);
    } else {
        assert(nat_text(n).drop_last() =~= Seq::<char>::empty());
        assert((digit_char(n) as int) == n + 48);
        assert(digits_value(Seq::<char>::empty()) == 0);
        assert(digits_value(nat_text(n)) == n);
    }
}

/// Whether the text a token prints as lexes back to the token: every token
/// but `Eof`, illegal input, negative numbers, and names that are empty,
/// hold a character that is not a letter, or are keywords.
pub open spec fn lexes_back(t: TokenView) -> bool {
    match t {
        TokenView::Eof => false,
        TokenView::Illegal(_) => false,
        TokenView::Int(i) => i >= 0,
        TokenView::Ident(w) => w.len() > 0 && (forall|k: int|
            0 <= k < w.len() ==> is_alphabetic_char(#[trigger] w[k])) && word_token(w)
            == TokenView::Ident(w),
        _ => true,
    }
}

/// The lexer reads the text a token prints as back as that token, and the
/// whole text.
pub proof fn lemma_token_text_lexes_back(t: TokenView)
    requires
        lexes_back(t),
    ensures
        lex_token(token_text(t), 0) == (t, token_text(t).len() as int),
{
    let s = token_text(t);
    match t {
        TokenView::Ident(w) => {
            lemma_word_lexes(w);
        },
        TokenView::Int(i) => {
            lemma_nat_text_digits(i as nat);
            lemma_run_to_end(s, 1, digit());
            assert(s.subrange(0, s.len() as int) =~= s);
        },
        TokenView::Function | TokenView::Let | TokenView::True | TokenView::False
        | TokenView::If | TokenView::Else | TokenView::Return => {
            lemma_word_lexes(s);
        },
        _ => {},
    }
}

/// Lexes Monkey source text.
pub struct Lexer {
    input: Vec<char>,
    position: usize,
    read_position: usize,
    ch: Option<char>,
}

impl Lexer {
    /// The characters of the source text.
    pub closed spec fn source(&self) -> Seq<char> {
        self.input@
    }

    /// The index of the character under examination.
    pub closed spec fn pos(&self) -> int {
        self.position as int
    }

    /// Positions are never negative.
    pub proof fn lemma_pos_nonneg(&self)
        ensures
            0 <= self.pos(),
    {
    }

    /// The index of the character that the next `read_char` moves to.
    pub closed spec fn reading(&self) -> int {
        self.read_position as int
    }

    /// In a well-formed lexer the reading position is one past the current
    /// one, and the current character is the one there.
    pub proof fn lemma_reading(&self)
        requires
            self.wf(),
        ensures
            self.reading() == self.pos() + 1,
            self.current() == char_at(self.source(), self.pos()),
    {
    }

    /// The character under examination, `None` past the end.
    pub closed spec fn current(&self) -> Option<char> {
        self.ch
    }

    /// The reading position is one past the current one, and the current
    /// character is the one at the current position.
    pub closed spec fn wf(&self) -> bool {
        &&& self.read_position == self.position + 1
        &&& self.ch == char_at(self.input@, self.position as int)
        &&& self.input@.len() < usize::MAX
    }

    /// A lexer at the start of `input`.
    pub fn new(input: String) -> (lexer: Lexer)
        requires
            input@.len() < usize::MAX,
        ensures
            lexer.wf(),
            lexer.source() == input@,
            lexer.pos() == 0,
            lexer.reading() == 1,
            lexer.current() == char_at(input@, 0),
    {
        let chars = chars_of(&input);
        let mut result = Lexer { input: chars, position: 0, read_position: 0, ch: None };
        result.read_char();
        result
    }

    /// Moves to the next character: the reading position becomes the current one.
    pub fn read_char(&mut self)
        requires
            old(self).reading() < usize::MAX,
        ensures
            final(self).source() == old(self).source(),
            final(self).pos() == old(self).reading(),
            final(self).reading() == old(self).reading() + 1,
            final(self).current() == char_at(old(self).source(), old(self).reading()),
            old(self).source().len() < usize::MAX ==> final(self).wf(),
    {
        self.ch = if self.read_position < self.input.len() {
            Some(self.input[self.read_position])
        } else {
            None
        };
        self.position = self.read_position;
        self.read_position = self.read_position + 1;
    }

    /// The next token of the input; `Eof` once the input is used up.
    pub fn next_token(&mut self) -> (tok: Token)
        requires
            old(self).wf(),
        ensures
            final(self).wf(),
            final(self).source() == old(self).source(),
            (tok@, final(self).pos()) == lex_token(old(self).source(), old(self).pos()),
        decreases old(self).source().len() - old(self).pos(),
    {
        if self.ch.is_none() {
            return Token::Eof;
        }
        let ghost s = self.input@;
        let ghost p = self.position as int;
        let ch = self.ch.unwrap();
        self.read_char();
        match ch {
            '=' => match self.ch {
                Some('=') => {
                    self.read_char();
                    Token::Equal
                },
                _ => Token::Assign,
            },
            '+' => Token::Plus,
            '-' => Token::Minus,
            '!' => match self.ch {
                Some('=') => {
                    self.read_char();
                    Token::NotEqual
                },
                _ => Token::Bang,
            },
            '*' => Token::Asterisk,
            '/' => Token::Slash,
            '<' => Token::LessThan,
            '>' => Token::GreaterThan,
            ';' => Token::Semicolon,
            '(' => Token::LeftParen,
            ')' => Token::RightParen,
            ',' => Token::Comma,
            '{' => Token::LeftBrace,
            '}' => Token::RightBrace,
            _ => {
                if is_whitespace(ch) {
                    let ghost q = run_end(s, p + 1, whitespace());
                    proof {
                        lemma_run_end(s, p + 1, whitespace());
                    }
                    while self.ch.is_some() && is_whitespace(self.ch.unwrap())
                        invariant
                            self.wf(),
                            self.input@ == s,
                            0 <= p,
                            p + 1 <= self.position <= q,
                            q == run_end(s, self.position as int, whitespace()),
                            q <= s.len(),
                        decreases s.len() - self.position,
                    {
                        proof {
                            assert(run_end(s, self.position as int, whitespace()) == run_end(
                                s,
                                self.position + 1,
                                whitespace(),
                            ));
                            lemma_run_end(s, self.position + 1, whitespace());
                        }
                        self.read_char();
                    }
                    self.next_token()
                } else if is_alphabetic(ch) {
                    let ghost q = run_end(s, p + 1, alphabetic());
                    proof {
                        lemma_run_end(s, p + 1, alphabetic());
                    }
                    let mut literal: Vec<char> = Vec::new();
                    literal.push(ch);
                    while self.ch.is_some() && is_alphabetic(self.ch.unwrap())
                        invariant
                            self.wf(),
                            self.input@ == s,
                            0 <= p,
                            p + 1 <= self.position <= q,
                            q == run_end(s, self.position as int, alphabetic()),
                            q <= s.len(),
                            literal@ == s.subrange(p, self.position as int),
                        decreases s.len() - self.position,
                    {
                        proof {
                            assert(run_end(s, self.position as int, alphabetic()) == run_end(
                                s,
                                self.position + 1,
                                alphabetic(),
                            ));
                            lemma_run_end(s, self.position + 1, alphabetic());
                            assert(s.subrange(p, self.position + 1) == s.subrange(
                                p,
                                self.position as int,
                            ).push(s[self.position as int]));
                        }
                        literal.push(self.ch.unwrap());
                        self.read_char();
                    }
                    keyword_or_ident(&literal)
                } else if is_ascii_digit(ch) {
                    let ghost q = run_end(s, p + 1, digit());
                    proof {
                        lemma_run_end(s, p + 1, digit());
                    }
                    let mut literal: Vec<char> = Vec::new();
                    literal.push(ch);
                    while self.ch.is_some() && is_ascii_digit(self.ch.unwrap())
                        invariant
                            self.wf(),
                            self.input@ == s,
                            0 <= p,
                            p + 1 <= self.position <= q,
                            q == run_end(s, self.position as int, digit()),
                            q <= s.len(),
                            literal@ == s.subrange(p, self.position as int),
                            forall|k: int| 0 <= k < literal@.len() ==> is_digit_char(#[trigger] literal@[k]),
                        decreases s.len() - self.position,
                    {
                        proof {
                            assert(run_end(s, self.position as int, digit()) == run_end(
                                s,
                                self.position + 1,
                                digit(),
                            ));
                            lemma_run_end(s, self.position + 1, digit());
                            assert(s.subrange(p, self.position + 1) == s.subrange(
                                p,
                                self.position as int,
                            ).push(s[self.position as int]));
                        }
                        literal.push(self.ch.unwrap());
                        self.read_char();
                    }
                    match parse_digits(&literal) {
                        Some(value) => Token::Int(value),
                        None => Token::Illegal(string_from_chars(&literal)),
                    }
                } else {
                    let mut text = String::new();
                    push_char(&mut text, ch);
                    Token::Illegal(text)
                }
            },
        }
    }

    /// The next token, or `None` once the input is used up.
    pub fn next(&mut self) -> (r: Option<Token>)
        requires
            old(self).wf(),
        ensures
            final(self).wf(),
            final(self).source() == old(self).source(),
            final(self).pos() == lex_token(old(self).source(), old(self).pos()).1,
            match r {
                Some(t) => !(t@ is Eof) && t@ == lex_token(old(self).source(), old(self).pos()).0,
                None => lex_token(old(self).source(), old(self).pos()).0 is Eof,
            },
    {
        let tok = self.next_token();
        match tok {
            Token::Eof => None,
            t => Some(t),
        }
    }
}

fn chars_equal(w: &Vec<char>, lit: &Vec<char>) -> (r: bool)
    ensures
        r == (w@ == lit@),
{
    if w.len() != lit.len() {
        return false;
    }
    let n = w.len();
    for i in 0..n
        invariant
            n == w@.len(),
            n == lit@.len(),
            forall|k: int| 0 <= k < i ==> w@[k] == lit@[k],
    {
        if w[i] != lit[i] {
            return false;
        }
    }
    assert(w@ == lit@);
    true
}

/// The keyword token the word spells, or an identifier holding it.
fn keyword_or_ident(w: &Vec<char>) -> (t: Token)
    ensures
        t@ == word_token(w@),
{
    if chars_equal(w, &vec!['f', 'n']) {
        Token::Function
    } else if chars_equal(w, &vec!['l', 'e', 't']) {
        Token::Let
    } else if chars_equal(w, &vec!['t', 'r', 'u', 'e']) {
        Token::True
    } else if chars_equal(w, &vec!['f', 'a', 'l', 's', 'e']) {
        Token::False
    } else if chars_equal(w, &vec!['i', 'f']) {
        Token::If
    } else if chars_equal(w, &vec!['e', 'l', 's', 'e']) {
        Token::Else
    } else if chars_equal(w, &vec!['r', 'e', 't', 'u', 'r', 'n']) {
        Token::Return
    } else {
        Token::Ident(string_from_chars(w))
    }
}


} // verus!
