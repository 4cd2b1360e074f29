//! The decisions of the read-eval-print loop: when a line ends the session.
use vstd::prelude::*;
use crate::lexer::{run_end, whitespace};
use crate::text::{is_whitespace, is_whitespace_char, str_chars, str_eq, string_from_chars};

verus! {

/// The end of `s[lo..hi]` once whitespace at its end is dropped.
pub open spec fn trim_end(s: Seq<char>, lo: int, hi: int) -> int
    decreases hi - lo,
{
    if lo < hi && is_whitespace_char(s[hi - 1]) {
        trim_end(s, lo, hi - 1)
    } else {
        hi
    }
}

/// `s` without the whitespace at either end (what `str::trim` gives).
pub open spec fn trimmed(s: Seq<char>) -> Seq<char> {
    let start = run_end(s, 0, whitespace());
    s.subrange(start, trim_end(s, start, s.len() as int))
}

/// Whether the line, trimmed, is `exit` or `quit`: the lines that end the session.
pub fn is_exit_command(line: &str) -> (r: bool)
    ensures
        r == (trimmed(line@) == "exit"@ || trimmed(line@) == "quit"@),
{
    let chars = str_chars(line);
    let ghost s = line@;
    let mut start: usize = 0;
    proof {
        crate::lexer::lemma_run_end(s, 0, whitespace());
    }
    while start < chars.len() && is_whitespace(chars[start])
        invariant
            chars@ == s,
            0 <= start <= chars.len(),
            run_end(s, start as int, whitespace()) == run_end(s, 0, whitespace()),
        decreases chars.len() - start,
    {
        start = start + 1;
    }
    let mut end: usize = chars.len();
    while end > start && is_whitespace(chars[end - 1])
        invariant
            chars@ == s,
            start <= end <= chars.len(),
            trim_end(s, start as int, end as int) == trim_end(s, start as int, s.len() as int),
        decreases end - start,
    {
        end = end - 1;
    }
    let mut word: Vec<char> = Vec::new();
    let mut i: usize = start;
    while i < end
        invariant
            chars@ == s,
            start <= i <= end <= chars.len(),
            word@ == s.subrange(start as int, i as int),
        decreases end - i,
    {
        word.push(chars[i]);
        i = i + 1;
    }
    assert(word@ == trimmed(s));
    let text = string_from_chars(&word);
    str_eq(text.as_str(), "exit") || str_eq(text.as_str(), "quit")
}

} // verus!
