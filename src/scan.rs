//! Character-level scanning shared by the annotation grammar and the argument
//! parsers. Every scanner works on a slice of characters from a start position
//! and is specified by a spec function of the same shape.

use vstd::prelude::*;

verus! {

pub open spec fn is_blank(c: char) -> bool {
    c == ' ' || c == '\t'
}

pub open spec fn is_digit(c: char) -> bool {
    '0' <= c && c <= '9'
}

pub open spec fn is_alpha(c: char) -> bool {
    ('a' <= c && c <= 'z') || ('A' <= c && c <= 'Z')
}

pub open spec fn is_ident_part(c: char) -> bool {
    is_alpha(c) || is_digit(c) || c == '_'
}

/// First position at or after `i` that does not hold a space or a tab.
pub open spec fn blanks_end(s: Seq<char>, i: int) -> int
    decreases s.len() - i,
{
    if 0 <= i < s.len() && is_blank(s[i]) {
        blanks_end(s, i + 1)
    } else {
        i
    }
}

/// First position at or after `i` that does not hold a carriage return or a line feed.
pub open spec fn line_ends_end(s: Seq<char>, i: int) -> int
    decreases s.len() - i,
{
    if 0 <= i < s.len() && (s[i] == '\r' || s[i] == '\n') {
        line_ends_end(s, i + 1)
    } else {
        i
    }
}

/// First position at or after `i` that does not hold a decimal digit.
pub open spec fn digits_end(s: Seq<char>, i: int) -> int
    decreases s.len() - i,
{
    if 0 <= i < s.len() && is_digit(s[i]) {
        digits_end(s, i + 1)
    } else {
        i
    }
}

/// First position at or after `i` that does not continue an identifier.
pub open spec fn ident_rest_end(s: Seq<char>, i: int) -> int
    decreases s.len() - i,
{
    if 0 <= i < s.len() && is_ident_part(s[i]) {
        ident_rest_end(s, i + 1)
    } else {
        i
    }
}

/// First position at or after `i` that holds `a` or `b`, or the end.
pub open spec fn stop_at(s: Seq<char>, i: int, a: char, b: char) -> int
    decreases s.len() - i,
{
    if 0 <= i < s.len() && s[i] != a && s[i] != b {
        stop_at(s, i + 1, a, b)
    } else {
        i
    }
}

pub proof fn lemma_blanks_end_bounds(s: Seq<char>, i: int)
    requires
        0 <= i <= s.len(),
    ensures
        i <= blanks_end(s, i) <= s.len(),
    decreases s.len() - i,
{
    if i < s.len() && is_blank(s[i]) {
        lemma_blanks_end_bounds(s, i + 1);
    }
}

pub proof fn lemma_digits_end_bounds(s: Seq<char>, i: int)
    requires
        0 <= i <= s.len(),
    ensures
        i <= digits_end(s, i) <= s.len(),
    decreases s.len() - i,
{
    if i < s.len() && is_digit(s[i]) {
        lemma_digits_end_bounds(s, i + 1);
    }
}

pub proof fn lemma_ident_rest_end_bounds(s: Seq<char>, i: int)
    requires
        0 <= i <= s.len(),
    ensures
        i <= ident_rest_end(s, i) <= s.len(),
    decreases s.len() - i,
{
    if i < s.len() && is_ident_part(s[i]) {
        lemma_ident_rest_end_bounds(s, i + 1);
    }
}

pub proof fn lemma_stop_at_bounds(s: Seq<char>, i: int, a: char, b: char)
    requires
        0 <= i <= s.len(),
    ensures
        i <= stop_at(s, i, a, b) <= s.len(),
    decreases s.len() - i,
{
    if i < s.len() && s[i] != a && s[i] != b {
        lemma_stop_at_bounds(s, i + 1, a, b);
    }
}

pub fn skip_blanks(s: &Vec<char>, i: usize) -> (r: usize)
    requires
        i <= s.len(),
    ensures
        r == blanks_end(s@, i as int),
        i <= r <= s.len(),
{
    let mut j = i;
    while j < s.len() && (s[j] == ' ' || s[j] == '\t')
        invariant
            i <= j <= s.len(),
            blanks_end(s@, j as int) == blanks_end(s@, i as int),
        decreases s.len() - j,
    {
        j = j + 1;
    }
    proof {
        lemma_blanks_end_bounds(s@, i as int);
    }
    j
}

pub proof fn lemma_line_ends_end_bounds(s: Seq<char>, i: int)
    requires
        0 <= i <= s.len(),
    ensures
        i <= line_ends_end(s, i) <= s.len(),
    decreases s.len() - i,
{
    if i < s.len() && (s[i] == '\r' || s[i] == '\n') {
        lemma_line_ends_end_bounds(s, i + 1);
    }
}

pub fn skip_line_ends(s: &Vec<char>, i: usize) -> (r: usize)
    requires
        i <= s.len(),
    ensures
        r == line_ends_end(s@, i as int),
        i <= r <= s.len(),
{
    let mut j = i;
    while j < s.len() && (s[j] == '\r' || s[j] == '\n')
        invariant
            i <= j <= s.len(),
            line_ends_end(s@, j as int) == line_ends_end(s@, i as int),
        decreases s.len() - j,
    {
        j = j + 1;
    }
    proof {
        lemma_line_ends_end_bounds(s@, i as int);
    }
    j
}

pub fn skip_digits(s: &Vec<char>, i: usize) -> (r: usize)
    requires
        i <= s.len(),
    ensures
        r == digits_end(s@, i as int),
        i <= r <= s.len(),
{
    let mut j = i;
    while j < s.len() && '0' <= s[j] && s[j] <= '9'
        invariant
            i <= j <= s.len(),
            digits_end(s@, j as int) == digits_end(s@, i as int),
        decreases s.len() - j,
    {
        j = j + 1;
    }
    proof {
        lemma_digits_end_bounds(s@, i as int);
    }
    j
}

pub fn skip_ident_rest(s: &Vec<char>, i: usize) -> (r: usize)
    requires
        i <= s.len(),
    ensures
        r == ident_rest_end(s@, i as int),
        i <= r <= s.len(),
{
    let mut j = i;
    while j < s.len() && (('a' <= s[j] && s[j] <= 'z') || ('A' <= s[j] && s[j] <= 'Z') || (
    '0' <= s[j] && s[j] <= '9') || s[j] == '_')
        invariant
            i <= j <= s.len(),
            ident_rest_end(s@, j as int) == ident_rest_end(s@, i as int),
        decreases s.len() - j,
    {
        j = j + 1;
    }
    proof {
        lemma_ident_rest_end_bounds(s@, i as int);
    }
    j
}

pub fn find_stop(s: &Vec<char>, i: usize, a: char, b: char) -> (r: usize)
    requires
        i <= s.len(),
    ensures
        r == stop_at(s@, i as int, a, b),
        i <= r <= s.len(),
{
    let mut j = i;
    while j < s.len() && s[j] != a && s[j] != b
        invariant
            i <= j <= s.len(),
            stop_at(s@, j as int, a, b) == stop_at(s@, i as int, a, b),
        decreases s.len() - j,
    {
        j = j + 1;
    }
    proof {
        lemma_stop_at_bounds(s@, i as int, a, b);
    }
    j
}

/// The characters of `s`, in order.
pub fn chars_of(s: &str) -> (r: Vec<char>)
    ensures
        r@ == s@,
{
    let n = s.unicode_len();
    let mut r: Vec<char> = Vec::new();
    let mut i: usize = 0;
    while i < n
        invariant
            n == s@.len(),
            i <= n,
            r@ == s@.subrange(0, i as int),
        decreases n - i,
    {
        r.push(s.get_char(i));
        assert(r@ =~= s@.subrange(0, i + 1));
        i = i + 1;
    }
    assert(s@.subrange(0, n as int) =~= s@);
    r
}

/// The text of `s` between character positions `from` and `to`.
pub fn slice_text(s: &str, from: usize, to: usize) -> (r: String)
    requires
        from <= to <= s@.len(),
    ensures
        r@ == s@.subrange(from as int, to as int),
{
    String::from_str(s.substring_char(from, to))
}

} // verus!
