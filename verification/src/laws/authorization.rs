//! Laws of the `Authorization` header.

use vstd::prelude::*;

use crate::auth::{chosen_key, has_bearer_scheme, is_bare_scheme, names_scheme, normalized};
use crate::text::{
    ascii_lower, ascii_lowercase, is_white_space, trimmed, trimmed_end, trimmed_start,
};

verus! {

proof fn lemma_trimmed_start(text: Seq<char>)
    ensures
        trimmed_start(text).len() > 0 ==> !is_white_space(trimmed_start(text).first()),
    decreases text.len(),
{
    if text.len() > 0 && is_white_space(text.first()) {
        lemma_trimmed_start(text.drop_first());
    }
}

proof fn lemma_trimmed_end(text: Seq<char>)
    ensures
        trimmed_end(text).len() > 0 ==> !is_white_space(trimmed_end(text).last()),
        trimmed_end(text).len() > 0 ==> trimmed_end(text).first() == text.first(),
    decreases text.len(),
{
    if text.len() > 0 && is_white_space(text.last()) {
        lemma_trimmed_end(text.drop_last());
    }
}

/// Trimming leaves a text that begins and ends with something else than white space, if it leaves
/// anything, and a second trimming changes nothing.
pub proof fn trimming_twice_is_trimming_once(text: Seq<char>)
    ensures
        trimmed(text).len() > 0 ==> !is_white_space(trimmed(text).first()) && !is_white_space(
            trimmed(text).last(),
        ),
        trimmed(trimmed(text)) == trimmed(text),
{
    lemma_trimmed_start(text);
    lemma_trimmed_end(trimmed_start(text));
}

/// Whatever the key, the header begins with the word Bearer, followed by a space or by nothing.
pub proof fn headers_name_the_scheme(value: Seq<char>)
    ensures
        names_scheme(normalized(value)),
{
    if !names_scheme(trimmed(value)) {
        reveal_strlit("Bearer ");
        reveal_strlit("bearer ");
        assert(normalized(value).take(7) =~= "Bearer "@);
        assert(ascii_lowercase("Bearer "@) =~= "bearer "@) by {
            assert(ascii_lower('B') == 'b');
        }
    }
}

/// Normalizing a header again changes nothing. A blank key is left out, since its header ends with
/// the space that trimming takes away.
pub proof fn normalizing_twice_is_normalizing_once(value: Seq<char>)
    requires
        trimmed(value).len() > 0,
    ensures
        normalized(normalized(value)) == normalized(value),
{
    let header = normalized(value);
    trimming_twice_is_trimming_once(value);
    headers_name_the_scheme(value);
    if !names_scheme(trimmed(value)) {
        reveal_strlit("Bearer ");
        assert(header.first() == 'B');
        assert(header.last() == trimmed(value).last());
    }
    assert(trimmed(header) == header);
}

/// A text that names the scheme, and behind it names the scheme again.
pub open spec fn names_scheme_twice(text: Seq<char>) -> bool {
    has_bearer_scheme(text) && names_scheme(text.skip(7))
}

/// The word Bearer is never put before a key that names the scheme itself: a header names the
/// scheme twice only where the key already did.
pub proof fn scheme_is_not_doubled(value: Seq<char>)
    ensures
        names_scheme_twice(normalized(value)) ==> names_scheme_twice(trimmed(value)),
{
    if !names_scheme(trimmed(value)) {
        reveal_strlit("Bearer ");
        assert(normalized(value).skip(7) =~= trimmed(value));
    }
}

/// The header of the word Bearer alone is that word, so it does not begin with the word twice.
pub proof fn bare_scheme_is_not_doubled(value: Seq<char>)
    requires
        is_bare_scheme(trimmed(value)),
    ensures
        normalized(value) == trimmed(value),
        !("bearer bearer"@.is_prefix_of(ascii_lowercase(normalized(value)))),
{
    reveal_strlit("bearer");
    reveal_strlit("bearer bearer");
    assert(ascii_lowercase(normalized(value)).len() == 6);
}

/// A caller's header that names the scheme and has no white space around it is forwarded as it is,
/// whatever key the proxy has.
pub proof fn callers_header_is_forwarded(header: Seq<char>, fallback: Option<Seq<char>>)
    requires
        names_scheme(header),
        trimmed(header) == header,
    ensures
        chosen_key(Some(header), fallback) == Some(header),
        normalized(header) == header,
{
    reveal_strlit("bearer");
    assert(ascii_lowercase(header).len() == header.len());
}

} // verus!
