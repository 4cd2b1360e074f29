//! Character classes and the building of text: the pieces of the
//! lexer and of the printers that work on single characters and numbers.
use vstd::prelude::*;

verus! {

#[verifier::external_type_specification]
#[verifier::external_body]
pub struct ExParseIntError(std::num::ParseIntError);

/// Whether `c` has the Unicode `White_Space` property (what
/// `char::is_whitespace` decides): the ASCII tab, line feed, vertical tab,
/// form feed, carriage return and space, and U+0085, U+00A0, U+1680,
/// U+2000 to U+200A, U+2028, U+2029, U+202F, U+205F and U+3000.
pub open spec fn is_whitespace_char(c: char) -> bool {
    ('\u{9}' <= c && c <= '\u{d}') || c == ' ' || c == '\u{85}' || c == '\u{a0}'
        || c == '\u{1680}' || ('\u{2000}' <= c && c <= '\u{200a}') || c == '\u{2028}'
        || c == '\u{2029}' || c == '\u{202f}' || c == '\u{205f}' || c == '\u{3000}'
}

/// Whether `c`, a character beyond ASCII, has the Unicode `Alphabetic`
/// property (what `char::is_alphabetic` decides there).
pub uninterp spec fn is_alphabetic_beyond_ascii(c: char) -> bool;

/// Whether `c` has the Unicode `Alphabetic` property: within ASCII exactly the
/// letters `a` to `z` and `A` to `Z`; no whitespace character has it.
pub open spec fn is_alphabetic_char(c: char) -> bool {
    ('a' <= c && c <= 'z') || ('A' <= c && c <= 'Z') || ('\u{80}' <= c && !is_whitespace_char(c)
        && is_alphabetic_beyond_ascii(c))
}

/// Whether `c` is one of the ASCII digits `'0'..='9'`.
pub open spec fn is_digit_char(c: char) -> bool {
    '0' <= c && c <= '9'
}

/// Whether `c` is whitespace, as `char::is_whitespace` decides.
pub fn is_whitespace(c: char) -> (r: bool)
    ensures
        r == is_whitespace_char(c),
{
    ('\u{9}' <= c && c <= '\u{d}') || c == ' ' || c == '\u{85}' || c == '\u{a0}'
        || c == '\u{1680}' || ('\u{2000}' <= c && c <= '\u{200a}') || c == '\u{2028}'
        || c == '\u{2029}' || c == '\u{202f}' || c == '\u{205f}' || c == '\u{3000}'
}

/// Calls `char::is_alphabetic`, which decides the Unicode `Alphabetic`
/// property.  Within ASCII that property holds of the 52 letters and of
/// nothing else, and no character of the Unicode `White_Space` set has it
/// (those are separators and controls), as the contract says; beyond ASCII
/// the result is otherwise named
/// `is_alphabetic_beyond_ascii`, and the Unicode table behind it is not
/// written out here.
#[verifier::external_body]
pub(crate) fn is_alphabetic(c: char) -> (r: bool)
    ensures
        r == (('a' <= c && c <= 'z') || ('A' <= c && c <= 'Z') || ('\u{80}' <= c
            && !is_whitespace_char(c) && is_alphabetic_beyond_ascii(c))),
        r == is_alphabetic_char(c),
{
    c.is_alphabetic()
}

/// The ASCII digit test of `char::is_ascii_digit`.
pub fn is_ascii_digit(c: char) -> (r: bool)
    ensures
        r == is_digit_char(c),
{
    '0' <= c && c <= '9'
}

/// Calls `String::push`: the string afterwards is the old one with `c` appended.
#[verifier::external_body]
pub(crate) fn push_char(s: &mut String, c: char)
    ensures
        final(s)@ == old(s)@.push(c),
{
    s.push(c)
}

/// Appends the text of `t` to `s`.
pub fn push_string(s: &mut String, t: &String)
    ensures
        final(s)@ == old(s)@ + t@,
{
    s.append(t.as_str());
}

/// A new string holding the characters of `v` in order.
pub fn string_from_chars(v: &Vec<char>) -> (s: String)
    ensures
        s@ == v@,
{
    let mut s = String::new();
    let n = v.len();
    for i in 0..n
        invariant
            n == v@.len(),
            s@ == v@.subrange(0, i as int),
    {
        push_char(&mut s, v[i]);
        assert(v@.subrange(0, i + 1) == v@.subrange(0, i as int).push(v@[i as int]));
    }
    assert(v@.subrange(0, n as int) == v@);
    s
}

/// The characters of `s`, in order.
pub fn str_chars(s: &str) -> (v: Vec<char>)
    ensures
        v@ == s@,
{
    broadcast use vstd::string::group_string_axioms;

    let mut v: Vec<char> = Vec::new();
    for c in it: s.chars()
        invariant
            v@ == it.seq().subrange(0, it.index() as int),
    {
        v.push(c);
    }
    v
}

/// The characters of `s`, in order.
pub fn chars_of(s: &String) -> (v: Vec<char>)
    ensures
        v@ == s@,
{
    str_chars(s.as_str())
}

/// Whether the two strings hold the same characters.
pub fn str_eq(a: &str, b: &str) -> (r: bool)
    ensures
        r == (a@ == b@),
{
    let x = str_chars(a);
    let y = str_chars(b);
    if x.len() != y.len() {
        return false;
    }
    let n = x.len();
    for i in 0..n
        invariant
            n == a@.len(),
            n == b@.len(),
            x@ == a@,
            y@ == b@,
            forall|k: int| 0 <= k < i ==> a@[k] == b@[k],
    {
        if x[i] != y[i] {
            return false;
        }
    }
    assert(a@ == b@);
    true
}

/// Whether every character of `s` is an ASCII digit.
pub open spec fn all_digits(s: Seq<char>) -> bool {
    forall|k: int| 0 <= k < s.len() ==> is_digit_char(#[trigger] s[k])
}

/// The value of `s` read as an optional `+` or `-` followed by one or more
/// decimal digits; `None` when `s` has any other form.
pub open spec fn signed_decimal_value(s: Seq<char>) -> Option<int> {
    if s.len() > 1 && (s[0] == '-' || s[0] == '+') && all_digits(s.drop_first()) {
        if s[0] == '-' {
            Some(-(digits_value(s.drop_first()) as int))
        } else {
            Some(digits_value(s.drop_first()) as int)
        }
    } else if s.len() > 0 && all_digits(s) {
        Some(digits_value(s) as int)
    } else {
        None
    }
}

/// Calls `str::parse::<i32>`.  As `i32::from_str_radix` documents, the text
/// must be an optional sign followed by digits only, and the value must fit
/// in an `i32`; the contract says exactly that.  What the error holds is not
/// stated.
#[verifier::external_body]
pub(crate) fn parse_i32(s: &str) -> (r: Result<i32, std::num::ParseIntError>)
    ensures
        r is Ok <==> (signed_decimal_value(s@) matches Some(v) && i32::MIN <= v <= i32::MAX),
        r matches Ok(v) ==> signed_decimal_value(s@) == Some(v as int),
{
    s.parse::<i32>()
}

/// Calls `ToString::to_string` on a `ParseIntError`: the message std gives
/// for the error.  The text depends on the kind of error, which the type
/// does not show here, so nothing is stated of it.
#[verifier::external_body]
pub(crate) fn int_error_message(e: &std::num::ParseIntError) -> String {
    e.to_string()
}

/// The text `str::to_uppercase` makes of `s` (Unicode upper-case mapping).
pub uninterp spec fn uppercase_text(s: Seq<char>) -> Seq<char>;

/// The text `str::to_lowercase` makes of `s` (Unicode lower-case mapping).
pub uninterp spec fn lowercase_text(s: Seq<char>) -> Seq<char>;

/// Calls `str::to_uppercase`; its result is named `uppercase_text`.
#[verifier::external_body]
pub(crate) fn to_uppercase(s: &str) -> (r: String)
    ensures
        r@ == uppercase_text(s@),
{
    s.to_uppercase()
}

/// Calls `str::to_lowercase`; its result is named `lowercase_text`.
#[verifier::external_body]
pub(crate) fn to_lowercase(s: &str) -> (r: String)
    ensures
        r@ == lowercase_text(s@),
{
    s.to_lowercase()
}

/// The characters of `s` in reverse order.
pub fn reversed(s: &str) -> (r: String)
    ensures
        r@ == s@.reverse(),
{
    let chars = str_chars(s);
    let n = chars.len();
    let mut r = String::new();
    let mut i = n;
    while i > 0
        invariant
            n == s@.len(),
            chars@ == s@,
            i <= n,
            r@ == s@.subrange(i as int, n as int).reverse(),
        decreases i,
    {
        i = i - 1;
        let c = chars[i];
        proof {
            assert(s@.subrange(i as int, n as int) == seq![c] + s@.subrange(i + 1, n as int));
            assert(s@.subrange(i as int, n as int).reverse() == s@.subrange(i + 1, n as int).reverse().push(c));
        }
        push_char(&mut r, c);
    }
    assert(s@.subrange(0, n as int) == s@);
    r
}

/// The ASCII digit for `d`, which is below ten.
pub open spec fn digit_char(d: nat) -> char {
    (d + 48) as char
}

/// Decimal digits of `n`, most significant first, without leading zeros.
pub open spec fn nat_text(n: nat) -> Seq<char>
    decreases n,
{
    if n < 10 {
        seq![digit_char(n)]
    } else {
        nat_text(n / 10).push(digit_char(n % 10))
    }
}

/// Decimal text of `i`: a minus sign before the digits when `i` is negative.
pub open spec fn int_text(i: int) -> Seq<char> {
    if i < 0 {
        seq!['-'] + nat_text((-i) as nat)
    } else {
        nat_text(i as nat)
    }
}

/// Numeric value of a sequence of decimal digits, read most significant first.
pub open spec fn digits_value(w: Seq<char>) -> nat
    decreases w.len(),
{
    if w.len() == 0 {
        0
    } else {
        digits_value(w.drop_last()) * 10 + ((w.last() as int - 48) as nat)
    }
}

fn digit_of(d: u64) -> (c: char)
    requires
        d < 10,
    ensures
        c == digit_char(d as nat),
{
    match d {
        0 => '0',
        1 => '1',
        2 => '2',
        3 => '3',
        4 => '4',
        5 => '5',
        6 => '6',
        7 => '7',
        8 => '8',
        _ => '9',
    }
}

/// Appends the decimal digits of `m` to `out`.
pub fn push_nat_text(out: &mut String, m: u64)
    ensures
        final(out)@ == old(out)@ + nat_text(m as nat),
    decreases m,
{
    if m >= 10 {
        push_nat_text(out, m / 10);
    }
    push_char(out, digit_of(m % 10));
    proof {
        if m >= 10 {
            assert(nat_text(m as nat) == nat_text((m / 10) as nat).push(digit_char((m % 10) as nat)));
        }
    }
}

/// The decimal text of `v`, as `i64`'s `to_string` writes it.
pub fn int_to_string(v: i64) -> (s: String)
    ensures
        s@ == int_text(v as int),
{
    let mut s = String::new();
    if v < 0 {
        push_char(&mut s, '-');
        let m: u64 = (-(v as i128)) as u64;
        push_nat_text(&mut s, m);
    } else {
        push_nat_text(&mut s, v as u64);
    }
    s
}

/// Value of the decimal digits `w` when it fits in an `i64`, `None` otherwise
/// (what `str::parse::<i64>` gives on a run of ASCII digits).
pub fn parse_digits(w: &Vec<char>) -> (r: Option<i64>)
    requires
        forall|k: int| 0 <= k < w@.len() ==> is_digit_char(#[trigger] w@[k]),
    ensures
        r matches Some(v) ==> v == digits_value(w@),
        r is None <==> digits_value(w@) > i64::MAX,
{
    let n = w.len();
    let mut acc: i64 = 0;
    let mut i: usize = 0;
    while i < n
        invariant
            n == w@.len(),
            i <= n,
            forall|k: int| 0 <= k < w@.len() ==> is_digit_char(#[trigger] w@[k]),
            acc == digits_value(w@.subrange(0, i as int)),
        decreases n - i,
    {
        let c = w[i];
        let d: i64 = (c as u32 - 48) as i64;
        assert(w@.subrange(0, i + 1).drop_last() == w@.subrange(0, i as int));
        if acc > (i64::MAX - d) / 10 {
            proof {
                assert(acc * 10 + d > i64::MAX) by (nonlinear_arith)
                    requires acc > (i64::MAX - d) / 10, 0 <= d < 10;
                lemma_digits_value_prefix_mono(w@, i + 1);
            }
            return None;
        }
        proof {
            assert(acc * 10 + d <= i64::MAX) by (nonlinear_arith)
                requires acc <= (i64::MAX - d) / 10, 0 <= d < 10, 0 <= acc;
        }
        acc = acc * 10 + d;
        i = i + 1;
    }
    assert(w@.subrange(0, n as int) == w@);
    Some(acc)
}

/// The value of a digit sequence is at least the value of each of its prefixes.
pub proof fn lemma_digits_value_prefix_mono(w: Seq<char>, i: int)
    requires
        0 <= i <= w.len(),
        forall|k: int| 0 <= k < w.len() ==> is_digit_char(#[trigger] w[k]),
    ensures
        digits_value(w.subrange(0, i)) <= digits_value(w),
    decreases w.len() - i,
{
    if i < w.len() {
        lemma_digits_value_prefix_mono(w, i + 1);
        let p = w.subrange(0, i + 1);
        assert(p.drop_last() == w.subrange(0, i));
        let a = digits_value(w.subrange(0, i));
        let d = (p.last() as int - 48) as nat;
        assert(digits_value(p) == a * 10 + d);
        assert(a <= a * 10 + d) by (nonlinear_arith)
            requires d >= 0, a >= 0;
    } else {
        assert(w.subrange(0, i) == w);
    }
}

} // verus!
