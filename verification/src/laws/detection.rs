//! Which requests count as replays of encrypted reasoning, and what becomes of them.

use vstd::prelude::*;

use crate::json::JsonTree;
use crate::laws::rewriting::{
    lemma_names_differ, stateless_requests_ask_for_summaries, stripping_leaves_no_encrypted_content,
};
use crate::laws::stripping::is_of_type_reasoning;
use crate::request::{named_model, prepared, wants_stream};
use crate::rewrite::{
    carries_encrypted_content, replays_encrypted_content, some_replays_encrypted_content,
    stateless, unbound_items, with_unbound_input,
};

verus! {

/// An object of type `reasoning` whose `encrypted_content` is a text with at least one character.
pub open spec fn holds_encrypted_content(item: JsonTree) -> bool {
    &&& item matches JsonTree::Object(members)
    &&& is_of_type_reasoning(members)
    &&& members.dom().contains("encrypted_content"@)
    &&& members["encrypted_content"@] matches JsonTree::Text(content)
    &&& content.len() > 0
}

/// A request is a replay just where its `input` is an array with, at some place, a reasoning item
/// that holds encrypted content. What is no object is none.
pub proof fn replays_hold_encrypted_content_somewhere(body: JsonTree)
    ensures
        carries_encrypted_content(body) <==> {
            &&& body matches JsonTree::Object(members)
            &&& members.dom().contains("input"@)
            &&& members["input"@] matches JsonTree::Array(items)
            &&& exists|i: int| 0 <= i < items.len() && holds_encrypted_content(#[trigger] items[i])
        },
{
    if body is Object && body->Object_0.dom().contains("input"@)
        && body->Object_0["input"@] is Array {
        let items = body->Object_0["input"@]->Array_0;
        assert forall|i: int| 0 <= i < items.len() implies replays_encrypted_content(
            #[trigger] items[i],
        ) == holds_encrypted_content(items[i]) by {}
        assert(some_replays_encrypted_content(items) <==> exists|i: int|
            0 <= i < items.len() && holds_encrypted_content(#[trigger] items[i]));
    }
}

/// Two requests with the same `input` are both replays or neither is, whatever else they hold.
pub proof fn the_input_alone_makes_a_replay(first: JsonTree, second: JsonTree)
    requires
        first.field("input"@) == second.field("input"@),
    ensures
        carries_encrypted_content(first) == carries_encrypted_content(second),
{
}

/// A request whose `input` is made of two lists is a replay just where a request with one of them
/// is: no other item hides the encrypted content of an item.
pub proof fn other_items_hide_no_replay(
    members: Map<Seq<char>, JsonTree>,
    first: Seq<JsonTree>,
    second: Seq<JsonTree>,
)
    ensures
        carries_encrypted_content(
            JsonTree::Object(members.insert("input"@, JsonTree::Array(first + second))),
        ) == (carries_encrypted_content(
            JsonTree::Object(members.insert("input"@, JsonTree::Array(first))),
        ) || carries_encrypted_content(
            JsonTree::Object(members.insert("input"@, JsonTree::Array(second))),
        )),
{
    let whole = first + second;
    if some_replays_encrypted_content(first) {
        let i = choose|i: int|
            0 <= i < first.len() && replays_encrypted_content(#[trigger] first[i]);
        assert(whole[i] == first[i]);
    }
    if some_replays_encrypted_content(second) {
        let i = choose|i: int|
            0 <= i < second.len() && replays_encrypted_content(#[trigger] second[i]);
        assert(whole[first.len() + i] == second[i]);
    }
    if some_replays_encrypted_content(whole) {
        let i = choose|i: int|
            0 <= i < whole.len() && replays_encrypted_content(#[trigger] whole[i]);
        if i < first.len() {
            assert(first[i] == whole[i]);
        } else {
            assert(second[i - first.len()] == whole[i]);
        }
    }
}

/// Whatever else a request holds: where a reasoning item in it holds encrypted content, the request
/// that goes to upstream has, in its `input`, what stripping leaves of the items, and no reasoning
/// item there has `encrypted_content` or `id`; storing is off; and a summary is asked for.
pub proof fn replays_go_to_upstream_without_encrypted_content(
    members: Map<Seq<char>, JsonTree>,
    items: Seq<JsonTree>,
    i: int,
)
    requires
        members.dom().contains("input"@),
        members["input"@] == JsonTree::Array(items),
        0 <= i < items.len(),
        holds_encrypted_content(items[i]),
    ensures
        prepared(JsonTree::Object(members)).field("input"@) == Some(
            JsonTree::Array(unbound_items(items)),
        ),
        forall|j: int|
            0 <= j < unbound_items(items).len() && (
            #[trigger] unbound_items(items)[j]) is Object && is_of_type_reasoning(
                unbound_items(items)[j]->Object_0,
            ) ==> {
                let left = unbound_items(items)[j]->Object_0;
                !left.dom().contains("encrypted_content"@) && !left.dom().contains("id"@)
            },
        prepared(JsonTree::Object(members)).field("store"@) == Some(JsonTree::Bool(false)),
        prepared(JsonTree::Object(members)).field("reasoning"@) matches Some(
            JsonTree::Object(reasoning),
        ) && reasoning.dom().contains("summary"@),
        prepared(JsonTree::Object(members)).field("include"@) matches Some(
            JsonTree::Array(entries),
        ) ==> forall|j: int|
            0 <= j < entries.len() ==> (#[trigger] entries[j]) != JsonTree::Text(
                "reasoning.encrypted_content"@,
            ),
        prepared(JsonTree::Object(members)) == with_unbound_input(
            stateless(JsonTree::Object(members)),
        ),
{
    let body = JsonTree::Object(members);
    lemma_names_differ();
    replays_hold_encrypted_content_somewhere(body);
    stateless_requests_ask_for_summaries(body);
    assert(stateless(body).field("input"@) == body.field("input"@));
    stripping_leaves_no_encrypted_content(stateless(body));
    assert(carries_encrypted_content(body));
}

/// Where no reasoning item of a request holds encrypted content, the request goes to upstream as it
/// came.
pub proof fn other_requests_go_to_upstream_as_they_came(body: JsonTree)
    requires
        body.field("input"@) matches Some(JsonTree::Array(items)) ==> forall|i: int|
            0 <= i < items.len() ==> !holds_encrypted_content(#[trigger] items[i]),
    ensures
        prepared(body) == body,
{
    replays_hold_encrypted_content_somewhere(body);
}

/// A request is streamed just where its `stream` is true, and names the model that its `model` is
/// as a text; without such a text the model is unknown.
pub proof fn streaming_and_model_are_read_from_the_request(body: JsonTree)
    ensures
        wants_stream(body) <==> body is Object && body->Object_0.dom().contains("stream"@)
            && body->Object_0["stream"@] == JsonTree::Bool(true),
        body is Object && body->Object_0.dom().contains("model"@)
            && body->Object_0["model"@] is Text ==> named_model(body)
            == body->Object_0["model"@]->Text_0,
        !(body is Object && body->Object_0.dom().contains("model"@)
            && body->Object_0["model"@] is Text) ==> named_model(body) == "unknown"@,
{
}

} // verus!
