//! Laws of the requests that go to upstream.

use vstd::prelude::*;

use crate::json::JsonTree;
use crate::laws::rewriting::{
    lemma_names_differ, stateless_keeps_other_members, stripping_keeps_other_members,
    stripping_leaves_no_encrypted_content, stripping_twice_is_stripping_once,
};
use crate::request::{named_model, prepared, wants_stream};
use crate::rewrite::{carries_encrypted_content, stateless, with_unbound_input};
use crate::upstream::address;

verus! {

/// A request that replays no encrypted content passes untouched.
pub proof fn clean_requests_pass_untouched(body: JsonTree)
    requires
        !carries_encrypted_content(body),
    ensures
        prepared(body) == body,
{
}

/// No request goes to upstream with encrypted content in it, and preparing a prepared request
/// changes nothing.
pub proof fn prepared_requests_are_clean(body: JsonTree)
    ensures
        !carries_encrypted_content(prepared(body)),
        prepared(prepared(body)) == prepared(body),
{
    stripping_leaves_no_encrypted_content(stateless(body));
}

/// Preparing a request changes no member but `input`, `store`, `include` and `reasoning`; so it
/// keeps the model, and whether the answer is streamed.
pub proof fn preparing_keeps_other_members(body: JsonTree, name: Seq<char>)
    ensures
        name != "input"@ && name != "store"@ && name != "include"@ && name != "reasoning"@
            ==> prepared(body).field(name) == body.field(name),
        wants_stream(prepared(body)) == wants_stream(body),
        named_model(prepared(body)) == named_model(body),
{
    lemma_names_differ();
    if carries_encrypted_content(body) {
        if name != "input"@ && name != "store"@ && name != "include"@ && name != "reasoning"@ {
            stateless_keeps_other_members(body, name);
            stripping_keeps_other_members(stateless(body), name);
        }
        stateless_keeps_other_members(body, "stream"@);
        stripping_keeps_other_members(stateless(body), "stream"@);
        stateless_keeps_other_members(body, "model"@);
        stripping_keeps_other_members(stateless(body), "model"@);
    }
}

/// A request that was stripped when it was prepared is the same after it is stripped again.
pub proof fn stripping_a_prepared_replay_changes_nothing(body: JsonTree)
    requires
        carries_encrypted_content(body),
    ensures
        with_unbound_input(prepared(body)) == prepared(body),
{
    stripping_twice_is_stripping_once(stateless(body));
}

/// A slash at the end of the base address makes no difference.
pub proof fn trailing_slashes_do_not_count(base_url: Seq<char>, path: Seq<char>)
    ensures
        address(base_url.push('/'), path) == address(base_url, path),
{
    assert(base_url.push('/').drop_last() =~= base_url);
}

} // verus!
