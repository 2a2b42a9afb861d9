//! What the operations on text do, seen from the characters.

use vstd::prelude::*;

use crate::text::{
    ascii_lowercase, is_white_space, occurs_in, optional, trimmed, trimmed_end, trimmed_start,
    without_trailing,
};

verus! {

/// A text without any character but white space.
pub open spec fn is_blank(text: Seq<char>) -> bool {
    forall|i: int| 0 <= i < text.len() ==> is_white_space(#[trigger] text[i])
}

/// The blanks and line ends of ASCII are white space, and nothing that can be seen there is.
pub proof fn white_space_in_ascii(c: char)
    requires
        c <= '\u{7f}',
    ensures
        is_white_space(c) <==> c == ' ' || c == '\t' || c == '\n' || c == '\r' || c == '\u{b}' || c
            == '\u{c}',
{
}

proof fn lemma_trimmed_start_parts(text: Seq<char>) -> (n: int)
    ensures
        0 <= n <= text.len(),
        trimmed_start(text) == text.skip(n),
        is_blank(text.take(n)),
        n < text.len() ==> !is_white_space(text[n]),
    decreases text.len(),
{
    if text.len() > 0 && is_white_space(text.first()) {
        let rest = text.drop_first();
        let n = lemma_trimmed_start_parts(rest);
        assert(rest.skip(n) =~= text.skip(n + 1));
        assert forall|i: int| 0 <= i < n + 1 implies is_white_space(
            #[trigger] text.take(n + 1)[i],
        ) by {
            if i > 0 {
                assert(rest.take(n)[i - 1] == text[i]);
            }
        }
        n + 1
    } else {
        assert(text.skip(0) =~= text);
        0
    }
}

proof fn lemma_trimmed_end_parts(text: Seq<char>) -> (n: int)
    ensures
        0 <= n <= text.len(),
        trimmed_end(text) == text.take(n),
        is_blank(text.skip(n)),
        n > 0 ==> !is_white_space(text[n - 1]),
    decreases text.len(),
{
    if text.len() > 0 && is_white_space(text.last()) {
        let rest = text.drop_last();
        let n = lemma_trimmed_end_parts(rest);
        assert(rest.take(n) =~= text.take(n));
        assert forall|i: int| 0 <= i < text.len() - n implies is_white_space(
            #[trigger] text.skip(n)[i],
        ) by {
            if n + i < rest.len() {
                assert(rest.skip(n)[i] == text[n + i]);
            }
        }
        n
    } else {
        assert(text.take(text.len() as int) =~= text);
        text.len() as int
    }
}

/// Trimming cuts white space off both ends and nothing else: what it leaves is a piece of the text
/// with only white space before and behind it, which neither begins nor ends with white space.
pub proof fn trimming_cuts_white_space_off_the_ends(text: Seq<char>) -> (ends: (int, int))
    ensures
        0 <= ends.0 <= ends.1 <= text.len(),
        trimmed(text) == text.subrange(ends.0, ends.1),
        forall|i: int|
            0 <= i < ends.0 || ends.1 <= i < text.len() ==> is_white_space(#[trigger] text[i]),
        ends.0 < ends.1 ==> !is_white_space(text[ends.0]) && !is_white_space(text[ends.1 - 1]),
{
    let start = lemma_trimmed_start_parts(text);
    let rest = text.skip(start);
    let kept = lemma_trimmed_end_parts(rest);
    assert(rest.take(kept) =~= text.subrange(start, start + kept));
    assert forall|i: int|
        0 <= i < start || start + kept <= i < text.len() implies is_white_space(
        #[trigger] text[i],
    ) by {
        if i < start {
            assert(text.take(start)[i] == text[i]);
        } else {
            assert(rest.skip(kept)[i - start - kept] == text[i]);
        }
    }
    (start, start + kept)
}

/// Trimming leaves nothing of a text just where the text is nothing but white space.
pub proof fn trimming_leaves_what_is_not_blank(text: Seq<char>)
    ensures
        trimmed(text).len() == 0 <==> is_blank(text),
{
    let ends = trimming_cuts_white_space_off_the_ends(text);
}

/// White space around a text makes no difference to what trimming leaves.
pub proof fn trimming_ignores_white_space_around(
    before: Seq<char>,
    text: Seq<char>,
    after: Seq<char>,
)
    requires
        is_blank(before),
        is_blank(after),
    ensures
        trimmed(before + text + after) == trimmed(text),
{
    let whole = before + text + after;
    let inner = trimming_cuts_white_space_off_the_ends(text);
    let outer = trimming_cuts_white_space_off_the_ends(whole);
    let shift = before.len() as int;
    assert forall|i: int| 0 <= i < whole.len() implies (#[trigger] whole[i]) == if i < shift {
        before[i]
    } else if i < shift + text.len() {
        text[i - shift]
    } else {
        after[i - shift - text.len()]
    } by {}
    if is_blank(text) {
        assert(is_blank(whole));
        trimming_leaves_what_is_not_blank(text);
        trimming_leaves_what_is_not_blank(whole);
        assert(trimmed(whole) =~= trimmed(text));
    } else {
        trimming_leaves_what_is_not_blank(text);
        assert(whole[shift + inner.0] == text[inner.0]);
        assert(whole[shift + inner.1 - 1] == text[inner.1 - 1]);
        assert(!is_white_space(whole[outer.0]));
        assert(!is_white_space(whole[outer.1 - 1]));
        assert(outer.0 == shift + inner.0);
        assert(outer.1 == shift + inner.1);
        assert(trimmed(whole) =~= trimmed(text));
    }
}

/// One text occurs in another just where the other is made of it with something before and
/// something behind.
pub proof fn occurring_is_standing_between(part: Seq<char>, text: Seq<char>)
    ensures
        occurs_in(part, text) <==> exists|before: Seq<char>, after: Seq<char>|
            text == #[trigger] (before + part + after),
{
    if occurs_in(part, text) {
        let i = choose|i: int|
            0 <= i && i + part.len() <= text.len() && #[trigger] text.subrange(i, i + part.len())
                == part;
        assert(text =~= text.take(i) + part + text.skip(i + part.len()));
    }
    if exists|before: Seq<char>, after: Seq<char>| text == #[trigger] (before + part + after) {
        let (before, after) = choose|before: Seq<char>, after: Seq<char>|
            text == #[trigger] (before + part + after);
        let i = before.len() as int;
        assert(text.subrange(i, i + part.len()) =~= part);
    }
}

/// Cutting a character off the end of a text cuts off all of its repetitions there, and no other
/// character: what is left does not end with it, and the text is that and the repetitions.
pub proof fn cutting_off_repetitions(text: Seq<char>, c: char)
    ensures
        ({
            let rest = without_trailing(text, c);
            &&& rest.len() <= text.len()
            &&& rest == text.take(rest.len() as int)
            &&& rest.len() > 0 ==> rest.last() != c
            &&& forall|i: int| rest.len() <= i < text.len() ==> (#[trigger] text[i]) == c
        }),
    decreases text.len(),
{
    if text.len() > 0 && text.last() == c {
        let shorter = text.drop_last();
        cutting_off_repetitions(shorter, c);
        let rest = without_trailing(text, c);
        assert(shorter.take(rest.len() as int) =~= text.take(rest.len() as int));
        assert forall|i: int| rest.len() <= i < text.len() implies (#[trigger] text[i]) == c by {
            if i < shorter.len() {
                assert(shorter[i] == text[i]);
            }
        }
    } else {
        assert(text.take(text.len() as int) =~= text);
    }
}

/// Bringing ASCII letters to lower case keeps every other character, and gives each capital the
/// small letter that stands as far from `a` as the capital from `A`.
pub proof fn small_letters_of_capitals(text: Seq<char>, i: int)
    requires
        0 <= i < text.len(),
    ensures
        ascii_lowercase(text).len() == text.len(),
        'A' <= text[i] && text[i] <= 'Z' ==> ascii_lowercase(text)[i] as u32 - 'a' as u32
            == text[i] as u32 - 'A' as u32,
        !('A' <= text[i] && text[i] <= 'Z') ==> ascii_lowercase(text)[i] == text[i],
{
}

/// An optional text holds what the text holds.
pub proof fn optional_texts(text: String)
    ensures
        optional(Some(text)) == Some(text@),
        optional(None) is None,
{
}

} // verus!
