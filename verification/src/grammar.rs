//! The lexical grammar of tag names and the character classes the parser
//! reads: letters, name-tail characters, whitespace and boundary characters.
//!
//! A tag name is an optional leading `!`, one or more letters, optionally
//! followed by one `:` and further letters, digits or hyphens, always taken
//! as the longest such prefix (for example `svelte:options`, `my-element`,
//! `!svelte:element`).

use vstd::prelude::*;

verus! {

/// An ASCII letter.
pub open spec fn is_letter(c: char) -> bool {
    ('a' <= c && c <= 'z') || ('A' <= c && c <= 'Z')
}

/// An ASCII digit.
pub open spec fn is_digit(c: char) -> bool {
    '0' <= c && c <= '9'
}

/// A character allowed in the tail of a tag name: a letter, a digit or `-`.
pub open spec fn is_name_tail(c: char) -> bool {
    is_letter(c) || is_digit(c) || c == '-'
}

/// A whitespace character: space, tab, newline, carriage return, vertical
/// tab or form feed.
pub open spec fn is_space(c: char) -> bool {
    c == ' ' || c == '\t' || c == '\n' || c == '\r' || c == '\u{b}' || c == '\u{c}'
}

/// A character that may close a reserved tag name: whitespace, `/` or `>`.
pub open spec fn is_boundary(c: char) -> bool {
    is_space(c) || c == '/' || c == '>'
}

/// The end of the maximal run of letters starting at `i`.
pub open spec fn letter_run_end(s: Seq<char>, i: int) -> int
    decreases s.len() - i,
{
    if 0 <= i && i < s.len() && is_letter(s[i]) {
        letter_run_end(s, i + 1)
    } else {
        i
    }
}

/// The end of the maximal run of name-tail characters starting at `i`.
pub open spec fn tail_run_end(s: Seq<char>, i: int) -> int
    decreases s.len() - i,
{
    if 0 <= i && i < s.len() && is_name_tail(s[i]) {
        tail_run_end(s, i + 1)
    } else {
        i
    }
}

/// The end of the maximal run of whitespace starting at `i`.
pub open spec fn space_run_end(s: Seq<char>, i: int) -> int
    decreases s.len() - i,
{
    if 0 <= i && i < s.len() && is_space(s[i]) {
        space_run_end(s, i + 1)
    } else {
        i
    }
}

/// A maximal letter run stays within the bounds it started in.
pub proof fn lemma_letter_run_end_bounds(s: Seq<char>, i: int)
    requires
        0 <= i <= s.len(),
    ensures
        i <= letter_run_end(s, i) <= s.len(),
    decreases s.len() - i,
{
    if i < s.len() && is_letter(s[i]) {
        lemma_letter_run_end_bounds(s, i + 1);
    }
}

/// A maximal name-tail run stays within the bounds it started in.
pub proof fn lemma_tail_run_end_bounds(s: Seq<char>, i: int)
    requires
        0 <= i <= s.len(),
    ensures
        i <= tail_run_end(s, i) <= s.len(),
    decreases s.len() - i,
{
    if i < s.len() && is_name_tail(s[i]) {
        lemma_tail_run_end_bounds(s, i + 1);
    }
}

/// Whether a tag name starts at position `i` of `s`: a letter, or `!`
/// followed by a letter.
pub open spec fn tag_name_exists(s: Seq<char>, i: int) -> bool {
    if 0 <= i && i < s.len() && s[i] == '!' {
        i + 1 < s.len() && is_letter(s[i + 1])
    } else {
        0 <= i && i < s.len() && is_letter(s[i])
    }
}

/// The end of the longest tag name starting at position `i` of `s`:
/// an optional `!`, the maximal letter run, an optional `:`, then the
/// maximal run of letters, digits and hyphens.
pub open spec fn tag_name_end(s: Seq<char>, i: int) -> int
    recommends
        tag_name_exists(s, i),
{
    let j = if s[i] == '!' {
        i + 1
    } else {
        i
    };
    let k = letter_run_end(s, j);
    let m = if k < s.len() && s[k] == ':' {
        k + 1
    } else {
        k
    };
    tail_run_end(s, m)
}

/// The longest tag name starting at position `i` of `s`.
pub open spec fn tag_name_at(s: Seq<char>, i: int) -> Seq<char>
    recommends
        tag_name_exists(s, i),
{
    s.subrange(i, tag_name_end(s, i))
}

/// Where a tag name exists, it is non-empty and ends within the source.
pub proof fn lemma_tag_name_end_bounds(s: Seq<char>, i: int)
    requires
        tag_name_exists(s, i),
    ensures
        i < tag_name_end(s, i) <= s.len(),
{
    let j = if s[i] == '!' {
        i + 1
    } else {
        i
    };
    assert(is_letter(s[j]));
    assert(letter_run_end(s, j) == letter_run_end(s, j + 1));
    lemma_letter_run_end_bounds(s, j + 1);
    let k = letter_run_end(s, j);
    let m = if k < s.len() && s[k] == ':' {
        k + 1
    } else {
        k
    };
    lemma_tail_run_end_bounds(s, m);
}

/// An ASCII letter, as executable code.
pub fn letter(c: char) -> (r: bool)
    ensures
        r == is_letter(c),
{
    ('a' <= c && c <= 'z') || ('A' <= c && c <= 'Z')
}

/// A character allowed in the tail of a tag name, as executable code.
pub fn name_tail(c: char) -> (r: bool)
    ensures
        r == is_name_tail(c),
{
    letter(c) || ('0' <= c && c <= '9') || c == '-'
}

/// A whitespace character, as executable code.
pub fn space(c: char) -> (r: bool)
    ensures
        r == is_space(c),
{
    c == ' ' || c == '\t' || c == '\n' || c == '\r' || c == '\u{b}' || c == '\u{c}'
}

/// A boundary character, as executable code.
pub fn boundary(c: char) -> (r: bool)
    ensures
        r == is_boundary(c),
{
    space(c) || c == '/' || c == '>'
}

/// The characters of a string slice, as a vector.
pub fn chars_of(s: &str) -> (r: Vec<char>)
    ensures
        r@ == s@,
{
    let n = s.unicode_len();
    let mut r: Vec<char> = Vec::new();
    let mut i: usize = 0;
    while i < n
        invariant
            i <= n,
            n == s@.len(),
            r@ == s@.subrange(0, i as int),
        decreases n - i,
    {
        r.push(s.get_char(i));
        i = i + 1;
        proof {
            assert(r@ =~= s@.subrange(0, i as int));
        }
    }
    proof {
        assert(r@ =~= s@);
    }
    r
}

/// Whether a string starts with a tag name; the head of the name grammar
/// (a letter, or `!` followed by a letter) decides by itself.
pub fn valid_tag_name_match(s: &str) -> (r: bool)
    ensures
        r == tag_name_exists(s@, 0),
{
    let n = s.unicode_len();
    if n == 0 {
        return false;
    }
    let c0 = s.get_char(0);
    if c0 == '!' {
        n > 1 && letter(s.get_char(1))
    } else {
        letter(c0)
    }
}

} // verus!
