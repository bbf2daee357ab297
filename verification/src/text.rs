//! Text primitives for the query layer: case folding, substring matching,
//! decimal rendering of ASNs, and character-count truncation.

use vstd::prelude::*;

verus! {

use vstd::string::StrSliceExecFns;
use vstd::string::StringExecFns;

/// The sequence of characters `str::to_lowercase` yields for `s`.
/// Unicode lowercasing is a function of the characters alone; its full
/// definition is not restated here.
pub uninterp spec fn lower_of(s: Seq<char>) -> Seq<char>;

/// `needle` occurs contiguously inside `hay`.
pub open spec fn contains_seq(hay: Seq<char>, needle: Seq<char>) -> bool {
    exists|i: int|
        0 <= i && i + needle.len() <= hay.len() && #[trigger] hay.subrange(i, i + needle.len())
            == needle
}

/// The code point of `c` after mapping ASCII uppercase letters to lowercase.
pub open spec fn ascii_lower_code(c: char) -> int {
    if 'A' <= c && c <= 'Z' {
        c as int + 32
    } else {
        c as int
    }
}

/// Equality after mapping ASCII uppercase letters to lowercase; characters
/// outside the ASCII letters must match exactly.
pub open spec fn ascii_eq_ignore_case(a: Seq<char>, b: Seq<char>) -> bool {
    a.len() == b.len() && forall|i: int|
        0 <= i < a.len() ==> ascii_lower_code(a[i]) == ascii_lower_code(b[i])
}

/// The character for a single decimal digit.
pub open spec fn digit_char(d: int) -> char {
    if d == 0 {
        '0'
    } else if d == 1 {
        '1'
    } else if d == 2 {
        '2'
    } else if d == 3 {
        '3'
    } else if d == 4 {
        '4'
    } else if d == 5 {
        '5'
    } else if d == 6 {
        '6'
    } else if d == 7 {
        '7'
    } else if d == 8 {
        '8'
    } else {
        '9'
    }
}

/// Base-ten digits of a non-negative integer, most significant first.
pub open spec fn dec_digits(n: int) -> Seq<char>
    decreases n,
{
    if n < 10 {
        seq![digit_char(n)]
    } else {
        dec_digits(n / 10).push(digit_char(n % 10))
    }
}

/// The base-ten rendering of an integer, with a leading minus sign when
/// negative.
pub open spec fn int_repr(n: int) -> Seq<char> {
    if n >= 0 {
        dec_digits(n)
    } else {
        seq!['-'] + dec_digits(-n)
    }
}

/// The first `max` characters of `s`, or all of `s` when it is no longer.
pub open spec fn clip_chars(s: Seq<char>, max: int) -> Seq<char> {
    if s.len() <= max {
        s
    } else {
        s.take(max)
    }
}

/// `s` unchanged when it has at most `max` characters, else its first `max`
/// characters followed by an ellipsis marker.
pub open spec fn truncated_chars(s: Seq<char>, max: int) -> Seq<char> {
    if s.len() > max {
        s.take(max) + "..."@
    } else {
        s
    }
}

/// Relies on `str::to_lowercase`: the result is a function of the characters
/// alone.
#[verifier::external_body]
pub(crate) fn to_lowercase(s: &str) -> (r: String)
    ensures
        r@ == lower_of(s@),
{
    s.to_lowercase()
}

/// Relies on `str::contains` with a `&str` pattern: true exactly when the
/// needle occurs as a contiguous substring of the haystack.
#[verifier::external_body]
pub(crate) fn str_contains(hay: &str, needle: &str) -> (r: bool)
    ensures
        r == contains_seq(hay@, needle@),
{
    hay.contains(needle)
}

/// Relies on `str::eq_ignore_ascii_case`: equality after mapping ASCII
/// uppercase letters to lowercase, character by character.
#[verifier::external_body]
pub(crate) fn str_eq_ignore_ascii_case(a: &str, b: &str) -> (r: bool)
    ensures
        r == ascii_eq_ignore_case(a@, b@),
{
    a.eq_ignore_ascii_case(b)
}

/// Relies on `i64::to_string`: the base-ten rendering of the value, with a
/// leading minus sign when negative.
#[verifier::external_body]
pub(crate) fn i64_to_string(n: i64) -> (r: String)
    ensures
        r@ == int_repr(n as int),
{
    n.to_string()
}

/// Truncates `s` to at most `max_chars` characters, appending `"..."` when
/// anything was cut off. Counts characters, not bytes, so multi-byte text is
/// never split.
pub fn truncate_chars(s: &str, max_chars: usize) -> (r: String)
    ensures
        r@ == truncated_chars(s@, max_chars as int),
{
    let char_count = s.unicode_len();
    if char_count > max_chars {
        let prefix = s.substring_char(0, max_chars);
        let mut r = String::from_str(prefix);
        r.append("...");
        r
    } else {
        s.to_owned()
    }
}

/// The first `max_chars` characters of `s`, with no ellipsis marker.
pub fn clip_to_chars(s: &str, max_chars: usize) -> (r: String)
    ensures
        r@ == clip_chars(s@, max_chars as int),
{
    if s.unicode_len() > max_chars {
        let prefix = s.substring_char(0, max_chars);
        String::from_str(prefix)
    } else {
        s.to_owned()
    }
}

} // verus!
