//! The parts of text handling that headers, addresses and error messages need.

use vstd::prelude::*;

verus! {

/// The White_Space property of the Unicode Character Database.
pub open spec fn is_white_space(c: char) -> bool {
    ||| '\u{0009}' <= c <= '\u{000D}'
    ||| c == '\u{0020}'
    ||| c == '\u{0085}'
    ||| c == '\u{00A0}'
    ||| c == '\u{1680}'
    ||| '\u{2000}' <= c <= '\u{200A}'
    ||| c == '\u{2028}'
    ||| c == '\u{2029}'
    ||| c == '\u{202F}'
    ||| c == '\u{205F}'
    ||| c == '\u{3000}'
}

/// The text without its leading white space.
pub open spec fn trimmed_start(text: Seq<char>) -> Seq<char>
    decreases text.len(),
{
    if text.len() > 0 && is_white_space(text.first()) {
        trimmed_start(text.drop_first())
    } else {
        text
    }
}

/// The text without its trailing white space.
pub open spec fn trimmed_end(text: Seq<char>) -> Seq<char>
    decreases text.len(),
{
    if text.len() > 0 && is_white_space(text.last()) {
        trimmed_end(text.drop_last())
    } else {
        text
    }
}

/// The text without white space at either end.
pub open spec fn trimmed(text: Seq<char>) -> Seq<char> {
    trimmed_end(trimmed_start(text))
}

/// `str::trim` of std removes leading and trailing white space, as the Unicode property
/// White_Space defines it.
pub assume_specification[ str::trim ](text: &str) -> (rest: &str)
    ensures
        rest@ == trimmed(text@),
;

/// The text in lower case, as `str::to_lowercase` of std gives it.
pub uninterp spec fn lowercase(text: Seq<char>) -> Seq<char>;

/// What a character becomes in lower case when it stands alone.
pub open spec fn lower_letter(c: char) -> Seq<char> {
    if c <= '\u{7f}' {
        seq![ascii_lower(c)]
    } else {
        lowercase(seq![c])
    }
}

/// The text in lower case, one character after the other, each as if it stood alone.
pub open spec fn letterwise(text: Seq<char>) -> Seq<char>
    decreases text.len(),
{
    if text.len() == 0 {
        Seq::empty()
    } else {
        letterwise(text.drop_last()) + lower_letter(text.last())
    }
}

/// The small sigma for both of its forms, the one at the end of words and the other; any other
/// character itself.
pub open spec fn plain_sigma(c: char) -> char {
    if c == '\u{3c2}' {
        '\u{3c3}'
    } else {
        c
    }
}

/// The text with the two forms of the small sigma made one.
pub open spec fn with_plain_sigmas(text: Seq<char>) -> Seq<char> {
    text.map_values(|c: char| plain_sigma(c))
}

/// `str::to_lowercase` of std maps the text by Unicode's case tables. Claims that the result is
/// determined by the text, and that it is that of the characters in turn, but for the capital
/// sigma, which gets one of two forms by its place in the word. An ASCII character becomes its
/// ASCII lower case; what another character becomes is not said.
pub assume_specification[ str::to_lowercase ](text: &str) -> (lower: String)
    ensures
        lower@ == lowercase(text@),
        with_plain_sigmas(lower@) == with_plain_sigmas(letterwise(text@)),
;

/// Whether one text occurs in the other, all of it in one piece.
pub open spec fn occurs_in(part: Seq<char>, text: Seq<char>) -> bool {
    exists|i: int|
        0 <= i && i + part.len() <= text.len() && #[trigger] text.subrange(i, i + part.len())
            == part
}

/// Calls `str::contains` of std with a text to look for. Claims that it is true just where that
/// text is a piece of the other.
#[verifier::external_body]
pub(crate) fn contains(text: &str, part: &str) -> (found: bool)
    ensures
        found == occurs_in(part@, text@),
{
    text.contains(part)
}

/// The text without the repetitions of that character at its end.
pub open spec fn without_trailing(text: Seq<char>, c: char) -> Seq<char>
    decreases text.len(),
{
    if text.len() > 0 && text.last() == c {
        without_trailing(text.drop_last(), c)
    } else {
        text
    }
}

/// Calls `str::trim_end_matches` of std with a character. Claims that it removes all repetitions
/// of the character at the end, and nothing else.
#[verifier::external_body]
pub(crate) fn trim_trailing(text: &str, c: char) -> (rest: &str)
    ensures
        rest@ == without_trailing(text@, c),
{
    text.trim_end_matches(c)
}

/// The character in lower case if it is an ASCII letter, else the character itself.
pub open spec fn ascii_lower(c: char) -> char {
    if 'A' <= c <= 'Z' {
        ((c as u32) + 32) as char
    } else {
        c
    }
}

/// The text with its ASCII letters in lower case.
pub open spec fn ascii_lowercase(text: Seq<char>) -> Seq<char> {
    text.map_values(|c: char| ascii_lower(c))
}

/// The character in upper case if it is an ASCII letter, else the character itself.
pub open spec fn ascii_upper(c: char) -> char {
    if 'a' <= c <= 'z' {
        ((c as u32) - 32) as char
    } else {
        c
    }
}

/// The text with its ASCII letters in upper case.
pub open spec fn ascii_uppercase(text: Seq<char>) -> Seq<char> {
    text.map_values(|c: char| ascii_upper(c))
}

/// `str::eq_ignore_ascii_case` of std compares two texts after mapping their ASCII letters to
/// lower case.
pub assume_specification[ str::eq_ignore_ascii_case ](text: &str, other: &str) -> (same: bool)
    ensures
        same == (ascii_lowercase(text@) == ascii_lowercase(other@)),
;

/// What an optional text holds.
pub open spec fn optional(text: Option<String>) -> Option<Seq<char>> {
    match text {
        Some(text) => Some(text@),
        None => None,
    }
}

/// One text behind the other.
pub(crate) fn concat(first: &str, second: &str) -> (joined: String)
    ensures
        joined@ == first@ + second@,
{
    let mut joined: String = first.to_string();
    joined.append(second);
    joined
}

} // verus!
