//! Which key is used and what its header is, seen from the characters.

use vstd::prelude::*;
use vstd::utf8::{
    decode_utf8, decode_utf8_encode_utf8, decode_utf8_split, encode_utf8, encode_utf8_decode_utf8,
    encode_utf8_valid_utf8, is_ascii_chars, is_char_boundary,
    is_char_boundary_iff_not_is_continuation_byte, is_char_boundary_start_end_of_seq,
    valid_utf8_split,
};

use crate::auth::{
    caller_key, chosen_key, has_bearer_scheme, is_bare_scheme, lemma_ascii_splits,
    lemma_encode_utf8_concat, names_scheme, normalized, splits_after_scheme, visible_text,
};
use crate::laws::texts::{
    is_blank, trimming_cuts_white_space_off_the_ends, trimming_ignores_white_space_around,
    trimming_leaves_what_is_not_blank,
};
use crate::text::{ascii_lower, ascii_lowercase, is_white_space, trimmed};

verus! {

/// A text that is the word Bearer, each letter large or small, or begins with it and a space.
pub open spec fn begins_with_bearer(text: Seq<char>) -> bool {
    &&& text.len() >= 6
    &&& text[0] == 'B' || text[0] == 'b'
    &&& text[1] == 'E' || text[1] == 'e'
    &&& text[2] == 'A' || text[2] == 'a'
    &&& text[3] == 'R' || text[3] == 'r'
    &&& text[4] == 'E' || text[4] == 'e'
    &&& text[5] == 'R' || text[5] == 'r'
    &&& text.len() == 6 || text[6] == ' '
}

proof fn lemma_lower(c: char)
    ensures
        ascii_lower(c) == 'b' <==> c == 'B' || c == 'b',
        ascii_lower(c) == 'e' <==> c == 'E' || c == 'e',
        ascii_lower(c) == 'a' <==> c == 'A' || c == 'a',
        ascii_lower(c) == 'r' <==> c == 'R' || c == 'r',
        ascii_lower(c) == ' ' <==> c == ' ',
{
}

proof fn lemma_begins_with_bearer(text: Seq<char>)
    ensures
        names_scheme(text) <==> begins_with_bearer(text),
{
    reveal_strlit("bearer");
    reveal_strlit("bearer ");
    let scheme = ascii_lowercase(text.take(7));
    let whole = ascii_lowercase(text);
    assert forall|i: int| 0 <= i < text.len() implies whole[i] == ascii_lower(
        #[trigger] text[i],
    ) by {}
    if text.len() >= 7 {
        assert forall|i: int| 0 <= i < 7 implies scheme[i] == ascii_lower(#[trigger] text[i]) by {
            assert(text.take(7)[i] == text[i]);
        }
    }
    if text.len() >= 6 {
        lemma_lower(text[0]);
        lemma_lower(text[1]);
        lemma_lower(text[2]);
        lemma_lower(text[3]);
        lemma_lower(text[4]);
        lemma_lower(text[5]);
        if text.len() >= 7 {
            lemma_lower(text[6]);
        }
    }
    if is_bare_scheme(text) {
        assert(whole.len() == 6);
        assert(whole[0] == 'b' && whole[1] == 'e' && whole[2] == 'a' && whole[3] == 'r' && whole[4]
            == 'e' && whole[5] == 'r');
    }
    if has_bearer_scheme(text) {
        assert(scheme[0] == 'b' && scheme[1] == 'e' && scheme[2] == 'a' && scheme[3] == 'r'
            && scheme[4] == 'e' && scheme[5] == 'r' && scheme[6] == ' ');
    }
    if begins_with_bearer(text) {
        if text.len() == 6 {
            assert(whole =~= "bearer"@);
        } else {
            assert(scheme =~= "bearer "@);
        }
    }
}

/// The header of a key, whatever white space stands around the key: the key itself where it is the
/// word Bearer or begins with it and a space, and otherwise the word Bearer, a space and the key.
pub proof fn headers_of_keys(before: Seq<char>, key: Seq<char>, after: Seq<char>)
    requires
        is_blank(before),
        is_blank(after),
        key.len() > 0 ==> !is_white_space(key.first()) && !is_white_space(key.last()),
    ensures
        normalized(before + key + after) == if begins_with_bearer(key) {
            key
        } else {
            seq!['B', 'e', 'a', 'r', 'e', 'r', ' '] + key
        },
{
    trimming_ignores_white_space_around(before, key, after);
    let ends = trimming_cuts_white_space_off_the_ends(key);
    if key.len() > 0 {
        assert(ends.0 == 0 && ends.1 == key.len());
    }
    assert(trimmed(key) =~= key);
    lemma_begins_with_bearer(key);
    reveal_strlit("Bearer ");
    assert("Bearer "@ =~= seq!['B', 'e', 'a', 'r', 'e', 'r', ' ']);
}

/// The caller's header is used where it has a character that is not white space; the proxy's own
/// key, if there is one, in every other case, and in no other.
pub proof fn the_callers_key_goes_first(header: Seq<char>, fallback: Option<Seq<char>>)
    ensures
        !is_blank(header) ==> chosen_key(Some(header), fallback) == Some(header),
        is_blank(header) ==> chosen_key(Some(header), fallback) == fallback,
        chosen_key(None, fallback) == fallback,
{
    trimming_leaves_what_is_not_blank(header);
}

/// A header value is read as text where each of its bytes is a tab or lies between the space and
/// the tilde of ASCII, and is then the text of these characters. A value with any other byte
/// counts as missing.
pub proof fn header_values_are_ascii_texts(raw: Seq<u8>, i: int)
    requires
        0 <= i < raw.len(),
    ensures
        (forall|j: int| 0 <= j < raw.len() ==> 0x20 <= #[trigger] raw[j] <= 0x7e || raw[j] == 0x09)
            ==> {
            &&& visible_text(raw) matches Some(text)
            &&& text.len() == raw.len()
            &&& text[i] as u32 == raw[i] as u32
        },
        !(0x20 <= raw[i] <= 0x7e || raw[i] == 0x09) ==> visible_text(raw) is None,
{
}

/// The caller's key is the text of the header value that the caller sent, if one was sent.
pub proof fn callers_keys_are_header_values(raw: &[u8])
    ensures
        caller_key(Some(raw)) == visible_text(raw@),
        caller_key(None) is None,
{
}

/// The keys that can be normalized are those of fewer than seven bytes, and those of which some
/// first characters take just seven.
pub proof fn keys_that_can_be_normalized(text: Seq<char>)
    ensures
        splits_after_scheme(text) <==> encode_utf8(text).len() < 7 || exists|n: int|
            0 <= n <= text.len() && #[trigger] encode_utf8(text.take(n)).len() == 7,
{
    let bytes = encode_utf8(text);
    encode_utf8_valid_utf8(text);
    if bytes.len() >= 7 && is_char_boundary(bytes, 7) {
        let head = bytes.subrange(0, 7);
        let tail = bytes.subrange(7, bytes.len() as int);
        valid_utf8_split(bytes, 7);
        decode_utf8_split(bytes, 7);
        encode_utf8_decode_utf8(text);
        decode_utf8_encode_utf8(head);
        let n = decode_utf8(head).len() as int;
        assert(text =~= decode_utf8(head) + decode_utf8(tail));
        assert(text.take(n) =~= decode_utf8(head));
        assert(encode_utf8(text.take(n)).len() == 7);
    }
    if exists|n: int| 0 <= n <= text.len() && #[trigger] encode_utf8(text.take(n)).len() == 7 {
        let n = choose|n: int|
            0 <= n <= text.len() && #[trigger] encode_utf8(text.take(n)).len() == 7;
        let tail = encode_utf8(text.skip(n));
        assert(text =~= text.take(n) + text.skip(n));
        lemma_encode_utf8_concat(text.take(n), text.skip(n));
        encode_utf8_valid_utf8(text.skip(n));
        if tail.len() == 0 {
            is_char_boundary_start_end_of_seq(bytes);
        } else {
            is_char_boundary_start_end_of_seq(tail);
            is_char_boundary_iff_not_is_continuation_byte(tail, 0);
            assert(bytes[7] == tail[0]);
            is_char_boundary_iff_not_is_continuation_byte(bytes, 7);
        }
    }
}

/// A key of ASCII characters can always be normalized.
pub proof fn ascii_keys_can_be_normalized(text: Seq<char>)
    requires
        is_ascii_chars(text),
    ensures
        splits_after_scheme(text),
{
    lemma_ascii_splits(text);
}

} // verus!
