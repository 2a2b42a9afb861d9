//! The `Authorization` header: which key is used, and in what form it is sent.

use vstd::prelude::*;
use vstd::utf8::{
    encode_utf8, encode_utf8_decode_utf8, is_ascii_chars, is_ascii_chars_encode_utf8,
    is_char_boundary, is_char_boundary_iff_not_is_continuation_byte,
    is_char_boundary_start_end_of_seq, encode_utf8_valid_utf8,
};

use crate::text::{
    ascii_lower, ascii_lowercase, concat, is_white_space, optional, trimmed, trimmed_end,
    trimmed_start,
};

verus! {

/// A text that begins with the word Bearer, in any case, and a space.
pub open spec fn has_bearer_scheme(text: Seq<char>) -> bool {
    text.len() >= 7 && ascii_lowercase(text.take(7)) == "bearer "@
}

/// The word Bearer, in any case, and nothing else.
pub open spec fn is_bare_scheme(text: Seq<char>) -> bool {
    ascii_lowercase(text) == "bearer"@
}

/// A text that begins with the word Bearer, followed by a space or by nothing.
pub open spec fn names_scheme(text: Seq<char>) -> bool {
    has_bearer_scheme(text) || is_bare_scheme(text)
}

/// The header for a key: the key without white space around it, behind the word Bearer unless it
/// begins with that word already.
pub open spec fn normalized(value: Seq<char>) -> Seq<char> {
    if names_scheme(trimmed(value)) {
        trimmed(value)
    } else {
        "Bearer "@ + trimmed(value)
    }
}

/// A text whose first seven bytes, if it has as many, end with a character.
pub open spec fn splits_after_scheme(text: Seq<char>) -> bool {
    encode_utf8(text).len() >= 7 ==> is_char_boundary(encode_utf8(text), 7)
}

pub(crate) proof fn lemma_encode_utf8_concat(first: Seq<char>, second: Seq<char>)
    ensures
        encode_utf8(first + second) == encode_utf8(first) + encode_utf8(second),
    decreases first.len(),
{
    if first.len() == 0 {
        assert(first + second =~= second);
    } else {
        lemma_encode_utf8_concat(first.drop_first(), second);
        assert((first + second).drop_first() =~= first.drop_first() + second);
    }
    assert(encode_utf8(first + second) =~= encode_utf8(first) + encode_utf8(second));
}

proof fn lemma_encode_utf8_injective(first: Seq<char>, second: Seq<char>)
    requires
        encode_utf8(first) == encode_utf8(second),
    ensures
        first == second,
{
    encode_utf8_decode_utf8(first);
    encode_utf8_decode_utf8(second);
}

proof fn lemma_bearer_literal()
    ensures
        "bearer "@.len() == 7,
        ascii_lowercase("bearer "@) == "bearer "@,
        is_ascii_chars("bearer "@),
{
    reveal_strlit("bearer ");
    assert(ascii_lowercase("bearer "@) =~= "bearer "@);
}

proof fn lemma_bare_literal()
    ensures
        ascii_lowercase("bearer"@) == "bearer"@,
{
    reveal_strlit("bearer");
    assert(ascii_lowercase("bearer"@) =~= "bearer"@);
}

/// The word Bearer and the space behind it take the first seven bytes.
proof fn lemma_bearer_scheme_bytes(text: Seq<char>)
    requires
        has_bearer_scheme(text),
    ensures
        encode_utf8(text).len() >= 7,
        encode_utf8(text).subrange(0, 7) == encode_utf8(text.take(7)),
{
    let scheme = text.take(7);
    lemma_bearer_literal();
    assert(is_ascii_chars(scheme)) by {
        assert forall|i: int| 0 <= i < scheme.len() implies '\0' <= #[trigger] scheme[i]
            <= '\u{7f}' by {
            assert(ascii_lowercase(scheme)[i] == ascii_lower(scheme[i]));
            assert("bearer "@[i] <= '\u{7f}');
        }
    }
    is_ascii_chars_encode_utf8(scheme);
    assert(scheme + text.skip(7) =~= text);
    lemma_encode_utf8_concat(scheme, text.skip(7));
    assert(encode_utf8(text).subrange(0, 7) =~= encode_utf8(scheme));
}

/// Brings a key into the form of an `Authorization` header. The text without white space around it
/// must not have a character across its seventh byte.
pub fn normalize_auth_header(value: &str) -> (header: String)
    requires
        splits_after_scheme(trimmed(value@)),
    ensures
        header@ == normalized(value@),
{
    let trimmed = value.trim();
    proof {
        lemma_bare_literal();
    }
    if trimmed.eq_ignore_ascii_case("bearer") {
        return trimmed.to_string();
    }
    if trimmed.as_bytes().len() >= 7 {
        let (scheme, rest) = trimmed.split_at(7);
        proof {
            lemma_bearer_literal();
            lemma_encode_utf8_concat(scheme@, rest@);
            assert(encode_utf8(scheme@ + rest@) =~= encode_utf8(trimmed@));
            lemma_encode_utf8_injective(scheme@ + rest@, trimmed@);
            if has_bearer_scheme(trimmed@) {
                lemma_bearer_scheme_bytes(trimmed@);
                lemma_encode_utf8_injective(scheme@, trimmed@.take(7));
            }
            if ascii_lowercase(scheme@) == "bearer "@ {
                assert(scheme@.len() == ascii_lowercase(scheme@).len());
                assert(trimmed@.take(7) =~= scheme@);
            }
        }
        if scheme.eq_ignore_ascii_case("bearer ") {
            return trimmed.to_string();
        }
    } else {
        proof {
            if has_bearer_scheme(trimmed@) {
                lemma_bearer_scheme_bytes(trimmed@);
            }
        }
    }
    concat("Bearer ", trimmed)
}

/// The key that is used: the caller's, unless it is blank or missing.
pub open spec fn chosen_key(caller: Option<Seq<char>>, fallback: Option<Seq<char>>) -> Option<
    Seq<char>,
> {
    match caller {
        Some(header) => if trimmed(header).len() > 0 {
            caller
        } else {
            fallback
        },
        None => fallback,
    }
}

/// The `Authorization` header of a request to upstream: the caller's, or else the proxy's own key.
pub fn resolve_auth_header(caller_auth: Option<String>, fallback_key: Option<String>) -> (header:
    Option<String>)
    requires
        chosen_key(optional(caller_auth), optional(fallback_key)) matches Some(key)
            ==> splits_after_scheme(trimmed(key)),
    ensures
        optional(header) == match chosen_key(optional(caller_auth), optional(fallback_key)) {
            Some(key) => Some(normalized(key)),
            None => None,
        },
{
    if let Some(header) = caller_auth {
        if !header.trim().is_empty() {
            return Some(normalize_auth_header(&header));
        }
    }
    match fallback_key {
        Some(key) => Some(normalize_auth_header(&key)),
        None => None,
    }
}

/// A byte that a header value may show as text: a visible ASCII character, a space or a tab.
pub open spec fn is_visible_ascii(byte: u8) -> bool {
    32 <= byte < 127 || byte == 9
}

/// The text of a header value, where all of its bytes can be shown.
pub open spec fn visible_text(raw: Seq<u8>) -> Option<Seq<char>> {
    if forall|i: int| 0 <= i < raw.len() ==> is_visible_ascii(#[trigger] raw[i]) {
        Some(raw.map_values(|byte: u8| byte as char))
    } else {
        None
    }
}

/// Calls `HeaderValue::to_str` of the crate `http`, on the header value with these bytes. Claims
/// that there is a text just where all bytes are visible ASCII characters, spaces or tabs, and that
/// it has these bytes as its characters.
#[verifier::external_body]
fn header_text(raw: &[u8]) -> (text: Option<String>)
    ensures
        optional(text) == visible_text(raw@),
{
    let value = axum::http::HeaderValue::from_bytes(raw).ok()?;
    value.to_str().ok().map(|text| text.to_string())
}

/// What an optional header value shows as text.
pub open spec fn caller_key(raw: Option<&[u8]>) -> Option<Seq<char>> {
    match raw {
        Some(raw) => visible_text(raw@),
        None => None,
    }
}

proof fn lemma_trimmed_start_ascii(text: Seq<char>)
    requires
        is_ascii_chars(text),
    ensures
        is_ascii_chars(trimmed_start(text)),
    decreases text.len(),
{
    if text.len() > 0 && is_white_space(text.first()) {
        lemma_trimmed_start_ascii(text.drop_first());
    }
}

proof fn lemma_trimmed_end_ascii(text: Seq<char>)
    requires
        is_ascii_chars(text),
    ensures
        is_ascii_chars(trimmed_end(text)),
    decreases text.len(),
{
    if text.len() > 0 && is_white_space(text.last()) {
        lemma_trimmed_end_ascii(text.drop_last());
    }
}

/// In a text of ASCII characters every byte ends one.
pub(crate) proof fn lemma_ascii_splits(text: Seq<char>)
    requires
        is_ascii_chars(text),
    ensures
        splits_after_scheme(text),
{
    let bytes = encode_utf8(text);
    encode_utf8_valid_utf8(text);
    is_ascii_chars_encode_utf8(text);
    if bytes.len() == 7 {
        is_char_boundary_start_end_of_seq(bytes);
    } else if bytes.len() > 7 {
        assert(text[7] as u8 == bytes[7]);
        is_char_boundary_iff_not_is_continuation_byte(bytes, 7);
    }
}

/// The `Authorization` header for upstream, from the header value that the caller sent and the
/// proxy's own key. A caller's value that cannot be shown as text counts as missing.
pub fn request_auth(raw_header: Option<&[u8]>, fallback_key: Option<String>) -> (header: Option<
    String,
>)
    requires
        chosen_key(caller_key(raw_header), None) is None ==> (optional(fallback_key) matches Some(
            key,
        ) ==> splits_after_scheme(trimmed(key))),
    ensures
        optional(header) == match chosen_key(caller_key(raw_header), optional(fallback_key)) {
            Some(key) => Some(normalized(key)),
            None => None,
        },
{
    let caller_auth: Option<String> = match raw_header {
        Some(raw) => header_text(raw),
        None => None,
    };
    proof {
        if let Some(key) = optional(caller_auth) {
            assert(is_ascii_chars(key));
            lemma_trimmed_start_ascii(key);
            lemma_trimmed_end_ascii(trimmed_start(key));
            lemma_ascii_splits(trimmed(key));
        }
    }
    resolve_auth_header(caller_auth, fallback_key)
}

} // verus!
