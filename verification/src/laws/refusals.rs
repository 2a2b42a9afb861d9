//! Laws of the error messages of upstream.

use vstd::prelude::*;
use vstd::utf8::is_ascii_chars;

use crate::text::{
    ascii_lowercase, ascii_upper, ascii_uppercase, letterwise, lower_letter, occurs_in,
};
use crate::upstream::{refuses_encrypted_content, refuses_summaries};

verus! {

proof fn lemma_occurs_within(
    part: Seq<char>,
    text: Seq<char>,
    before: Seq<char>,
    after: Seq<char>,
)
    requires
        occurs_in(part, text),
    ensures
        occurs_in(part, before + text + after),
{
    let i = choose|i: int|
        0 <= i && i + part.len() <= text.len() && #[trigger] text.subrange(i, i + part.len())
            == part;
    let all = before + text + after;
    let j = before.len() + i;
    assert(all.subrange(j, j + part.len()) =~= text.subrange(i, i + part.len()));
}

/// A lower-case message that refuses encrypted content, or summaries, does so with anything before
/// and behind it.
pub proof fn surrounding_text_hides_no_refusal(
    lower: Seq<char>,
    before: Seq<char>,
    after: Seq<char>,
)
    ensures
        refuses_encrypted_content(lower) ==> refuses_encrypted_content(before + lower + after),
        refuses_summaries(lower) ==> refuses_summaries(before + lower + after),
{
    if refuses_encrypted_content(lower) {
        lemma_occurs_within("encrypted_content"@, lower, before, after);
        lemma_occurs_within("was not issued to this caller"@, lower, before, after);
    }
    if refuses_summaries(lower) {
        lemma_occurs_within("must be verified"@, lower, before, after);
        lemma_occurs_within("summar"@, lower, before, after);
    }
}

/// A text of ASCII characters is brought to lower case by its ASCII letters alone.
pub proof fn letterwise_of_ascii_text(text: Seq<char>)
    requires
        is_ascii_chars(text),
    ensures
        letterwise(text) == ascii_lowercase(text),
    decreases text.len(),
{
    if text.len() > 0 {
        letterwise_of_ascii_text(text.drop_last());
    }
    assert(letterwise(text) =~= ascii_lowercase(text));
}

proof fn lemma_letterwise_concat(first: Seq<char>, second: Seq<char>)
    ensures
        letterwise(first + second) == letterwise(first) + letterwise(second),
    decreases second.len(),
{
    if second.len() == 0 {
        assert(first + second =~= first);
    } else {
        lemma_letterwise_concat(first, second.drop_last());
        assert((first + second).drop_last() =~= first + second.drop_last());
    }
    assert(letterwise(first + second) =~= letterwise(first) + letterwise(second));
}

proof fn lemma_letterwise_of_uppercase(text: Seq<char>)
    ensures
        letterwise(ascii_uppercase(text)) == letterwise(text),
    decreases text.len(),
{
    if text.len() > 0 {
        lemma_letterwise_of_uppercase(text.drop_last());
        assert(ascii_uppercase(text).drop_last() =~= ascii_uppercase(text.drop_last()));
        assert(lower_letter(ascii_upper(text.last())) == lower_letter(text.last()));
    } else {
        assert(ascii_uppercase(text) =~= text);
    }
}

/// Whatever the message: the case of its ASCII letters makes no difference to whether it counts as
/// a refusal of encrypted content, or of summaries.
pub proof fn letter_case_hides_no_refusal(message: Seq<char>)
    ensures
        refuses_encrypted_content(letterwise(ascii_uppercase(message)))
            == refuses_encrypted_content(letterwise(message)),
        refuses_summaries(letterwise(ascii_uppercase(message))) == refuses_summaries(
            letterwise(message),
        ),
{
    lemma_letterwise_of_uppercase(message);
}

/// Whatever the message, and whatever stands before and behind it: where the message counts as a
/// refusal of encrypted content, or of summaries, the whole text does.
pub proof fn text_around_a_message_hides_no_refusal(
    message: Seq<char>,
    before: Seq<char>,
    after: Seq<char>,
)
    ensures
        refuses_encrypted_content(letterwise(message)) ==> refuses_encrypted_content(
            letterwise(before + message + after),
        ),
        refuses_summaries(letterwise(message)) ==> refuses_summaries(
            letterwise(before + message + after),
        ),
{
    lemma_letterwise_concat(before, message);
    lemma_letterwise_concat(before + message, after);
    surrounding_text_hides_no_refusal(
        letterwise(message),
        letterwise(before),
        letterwise(after),
    );
}

} // verus!
