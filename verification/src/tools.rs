//! Asking a tool for its version: the flag to ask with, and the version in
//! what the tool prints.

use vstd::prelude::*;
use crate::text::{
    chars_of, copy_of, is_white_space, is_whitespace, same_text, string_of, trim_bounds, trimmed,
};

verus! {

/// The flag that makes `tool` print its version: `-v` for the tools of
/// Node.js, `version` for Go, and `--version` for every other tool.
pub open spec fn version_flag_of(tool: Seq<char>) -> Seq<char> {
    if tool == "npm"@ || tool == "pnpm"@ || tool == "yarn"@ || tool == "bun"@ || tool == "node"@ {
        "-v"@
    } else if tool == "go"@ {
        "version"@
    } else {
        "--version"@
    }
}

/// The flag that makes `tool` print its version.
pub fn version_flag(tool: &str) -> (flag: &'static str)
    ensures
        flag@ == version_flag_of(tool@),
{
    if same_text(tool, "npm") || same_text(tool, "pnpm") || same_text(tool, "yarn") || same_text(
        tool,
        "bun",
    ) || same_text(tool, "node") {
        "-v"
    } else if same_text(tool, "go") {
        "version"
    } else {
        "--version"
    }
}

/// Whether `c` is one of the digits `0` to `9`.
pub open spec fn is_digit(c: char) -> bool {
    '0' <= c <= '9'
}

/// Whether a word that begins with a digit begins at `at`: a digit stands
/// there, and it stands first or behind white space.
pub open spec fn begins_version(s: Seq<char>, at: int) -> bool {
    0 <= at < s.len() && is_digit(s[at]) && (at == 0 || is_white_space(s[at - 1]))
}

/// Where the first word that begins with a digit begins, at `at` or behind
/// it; the length of `s` where there is none.
pub open spec fn version_start(s: Seq<char>, at: int) -> int
    decreases s.len() - at,
{
    if at < 0 || at >= s.len() {
        s.len() as int
    } else if begins_version(s, at) {
        at
    } else {
        version_start(s, at + 1)
    }
}

/// Where the word ends that `at` stands in: at the next white space, or at
/// the end of `s`.
pub open spec fn word_end(s: Seq<char>, at: int) -> int
    decreases s.len() - at,
{
    if at < 0 || at >= s.len() || is_white_space(s[at]) {
        at
    } else {
        word_end(s, at + 1)
    }
}

/// `s` without the characters `c` that it begins with.
pub open spec fn without_leading(s: Seq<char>, c: char) -> Seq<char>
    decreases s.len(),
{
    if s.len() > 0 && s.first() == c {
        without_leading(s.drop_first(), c)
    } else {
        s
    }
}

/// The version in what a tool printed: the first word that begins with a
/// digit, or, where there is none, all of it without the white space around
/// it; either without a `v` before it.
pub open spec fn version_in(output: Seq<char>) -> Seq<char> {
    let text = trimmed(output);
    let start = version_start(text, 0);
    if start < text.len() {
        without_leading(text.subrange(start, word_end(text, start)), 'v')
    } else {
        without_leading(text, 'v')
    }
}

/// The version in what a tool printed.
pub fn extract_version(output: &str) -> (version: String)
    ensures
        version@ == version_in(output@),
{
    let chars = chars_of(output);
    let (lo, hi) = trim_bounds(&chars, 0, chars.len());
    assert(chars@.subrange(0, chars@.len() as int) =~= chars@);
    let text = copy_of(&chars, lo, hi);
    let mut start: usize = 0;
    while start < text.len() && !(is_digit_char(text[start]) && (start == 0 || is_whitespace(
        text[start - 1],
    )))
        invariant
            start <= text@.len(),
            version_start(text@, 0) == version_start(text@, start as int),
        decreases text@.len() - start,
    {
        start += 1;
    }
    let mut from: usize = 0;
    let mut to: usize = text.len();
    if start < text.len() {
        let mut end: usize = start;
        while end < text.len() && !is_whitespace(text[end])
            invariant
                start <= end <= text@.len(),
                word_end(text@, start as int) == word_end(text@, end as int),
            decreases text@.len() - end,
        {
            end += 1;
        }
        from = start;
        to = end;
    }
    let ghost word = text@.subrange(from as int, to as int);
    assert(start >= text@.len() ==> word =~= text@);
    let mut first: usize = from;
    while first < to && text[first] == 'v'
        invariant
            from <= first <= to <= text@.len(),
            without_leading(word, 'v') == without_leading(
                text@.subrange(first as int, to as int),
                'v',
            ),
        decreases to - first,
    {
        assert(text@.subrange(first as int, to as int).drop_first() =~= text@.subrange(
            first + 1,
            to as int,
        ));
        first += 1;
    }
    string_of(&text, first, to)
}

/// Whether `c` is one of the digits `0` to `9`.
fn is_digit_char(c: char) -> (digit: bool)
    ensures
        digit == is_digit(c),
{
    let code: u32 = c as u32;
    0x30 <= code && code <= 0x39
}

} // verus!
