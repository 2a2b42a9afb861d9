//! Laws of the rewriting of requests.

use vstd::prelude::*;

use crate::json::{lemma_with_own_field, JsonTree};
use crate::rewrite::{
    asks_for_encrypted_content, carries_encrypted_content, has_readable_summary, is_kept,
    is_reasoning, lemma_unbound_items_push, some_replays_encrypted_content, stateless, unbound,
    unbound_items, with_unbound_input, without_encrypted_entries, without_encrypted_include,
    without_summary_wish,
};

verus! {

/// The member names that the rewriting touches or reads are different names.
pub(crate) proof fn lemma_names_differ()
    ensures
        "type"@ != "encrypted_content"@,
        "type"@ != "id"@,
        "summary"@ != "encrypted_content"@,
        "summary"@ != "id"@,
        "encrypted_content"@ != "id"@,
        "input"@ != "store"@,
        "input"@ != "include"@,
        "input"@ != "reasoning"@,
        "store"@ != "include"@,
        "store"@ != "reasoning"@,
        "include"@ != "reasoning"@,
        "stream"@ != "input"@,
        "stream"@ != "store"@,
        "stream"@ != "include"@,
        "stream"@ != "reasoning"@,
        "model"@ != "input"@,
        "model"@ != "store"@,
        "model"@ != "include"@,
        "model"@ != "reasoning"@,
{
    reveal_strlit("type");
    reveal_strlit("summary");
    reveal_strlit("encrypted_content");
    reveal_strlit("id");
    reveal_strlit("input");
    reveal_strlit("store");
    reveal_strlit("include");
    reveal_strlit("reasoning");
    reveal_strlit("stream");
    reveal_strlit("model");
    assert("type"@.len() == 4 && "id"@.len() == 2 && "summary"@.len() == 7);
    assert("encrypted_content"@.len() == 17 && "reasoning"@.len() == 9);
    assert("input"@.len() == 5 && "store"@.len() == 5 && "include"@.len() == 7);
    assert("stream"@.len() == 6 && "model"@.len() == 5);
    assert("input"@[0] == 'i' && "store"@[0] == 's' && "model"@[0] == 'm');
}

/// Unbinding an item leaves what decides about keeping it, and a second time changes nothing.
proof fn lemma_unbound_item(item: JsonTree)
    ensures
        is_reasoning(unbound(item)) == is_reasoning(item),
        is_kept(unbound(item)) == is_kept(item),
        unbound(unbound(item)) == unbound(item),
        is_reasoning(item) ==> unbound(item).field("encrypted_content"@) is None,
        is_reasoning(item) ==> unbound(item).field("id"@) is None,
{
    lemma_names_differ();
    if is_reasoning(item) {
        assert(unbound(item).field("type"@) == item.field("type"@));
        assert(unbound(item).field("summary"@) == item.field("summary"@));
        let members = unbound(item)->Object_0;
        assert(members.remove("encrypted_content"@).remove("id"@) =~= members);
    }
}

/// An item that unbinding can leave.
spec fn is_left(left: JsonTree) -> bool {
    exists|item: JsonTree| is_kept(item) && left == #[trigger] unbound(item)
}

/// Every item that unbinding leaves is a kept item without its binding.
proof fn lemma_unbound_items_from(items: Seq<JsonTree>)
    ensures
        forall|i: int|
            0 <= i < unbound_items(items).len() ==> is_left(#[trigger] unbound_items(items)[i]),
    decreases items.len(),
{
    if items.len() > 0 {
        let rest = items.drop_last();
        lemma_unbound_items_from(rest);
        lemma_unbound_items_push(rest, items.last());
        assert(rest.push(items.last()) =~= items);
        assert forall|i: int| 0 <= i < unbound_items(items).len() implies is_left(
            #[trigger] unbound_items(items)[i],
        ) by {
            if i < unbound_items(rest).len() {
                assert(unbound_items(items)[i] == unbound_items(rest)[i]);
            } else {
                assert(unbound_items(items)[i] == unbound(items.last()));
            }
        }
    } else {
        reveal(Seq::filter);
        assert(unbound_items(items).len() == 0);
    }
}

/// A request that was stripped carries no encrypted content: of its input items, those that replay
/// reasoning have neither `encrypted_content` nor `id`, and each has a summary to read.
pub proof fn stripping_leaves_no_encrypted_content(body: JsonTree)
    ensures
        !carries_encrypted_content(with_unbound_input(body)),
        with_unbound_input(body).field("input"@) matches Some(JsonTree::Array(items)) ==> forall|
            i: int,
        |
            0 <= i < items.len() && is_reasoning(#[trigger] items[i]) ==> {
                &&& items[i].field("encrypted_content"@) is None
                &&& items[i].field("id"@) is None
                &&& has_readable_summary(items[i])
            },
{
    if let Some(JsonTree::Array(items)) = body.field("input"@) {
        let left = unbound_items(items);
        assert(with_unbound_input(body).field("input"@) == Some(JsonTree::Array(left)));
        lemma_unbound_items_from(items);
        assert forall|i: int| 0 <= i < left.len() && is_reasoning(#[trigger] left[i]) implies {
            &&& left[i].field("encrypted_content"@) is None
            &&& left[i].field("id"@) is None
            &&& has_readable_summary(left[i])
        } by {
            let item = choose|item: JsonTree| is_kept(item) && left[i] == #[trigger] unbound(item);
            lemma_unbound_item(item);
        }
        assert(!some_replays_encrypted_content(left));
    }
}

proof fn lemma_unbound_items_twice(items: Seq<JsonTree>)
    ensures
        unbound_items(unbound_items(items)) == unbound_items(items),
    decreases items.len(),
{
    if items.len() > 0 {
        let rest = items.drop_last();
        lemma_unbound_items_twice(rest);
        lemma_unbound_items_push(rest, items.last());
        assert(rest.push(items.last()) =~= items);
        lemma_unbound_items_push(unbound_items(rest), unbound(items.last()));
        lemma_unbound_item(items.last());
    } else {
        reveal(Seq::filter);
        assert(unbound_items(items) =~= items);
    }
}

/// Stripping a request a second time changes nothing.
pub proof fn stripping_twice_is_stripping_once(body: JsonTree)
    ensures
        with_unbound_input(with_unbound_input(body)) == with_unbound_input(body),
{
    if let Some(JsonTree::Array(items)) = body.field("input"@) {
        lemma_unbound_items_twice(items);
        let once = with_unbound_input(body);
        assert(once.field("input"@) == Some(JsonTree::Array(unbound_items(items))));
        lemma_with_own_field(once, "input"@);
    }
}

/// Stripping touches reasoning items only: the other input items stay as they are, in their order.
pub proof fn stripping_keeps_other_items(items: Seq<JsonTree>)
    ensures
        unbound_items(items).filter(|item: JsonTree| !is_reasoning(item)) == items.filter(
            |item: JsonTree| !is_reasoning(item),
        ),
    decreases items.len(),
{
    reveal(Seq::filter);
    if items.len() > 0 {
        let rest = items.drop_last();
        let last = items.last();
        stripping_keeps_other_items(rest);
        lemma_unbound_items_push(rest, last);
        assert(rest.push(last) =~= items);
        lemma_unbound_item(last);
        assert(unbound_items(rest).push(unbound(last)).drop_last() =~= unbound_items(rest));
    } else {
        assert(unbound_items(items) =~= items);
    }
}

/// A request without reasoning items passes through stripping unchanged.
pub proof fn stripping_keeps_requests_without_reasoning(body: JsonTree)
    requires
        body.field("input"@) matches Some(JsonTree::Array(items)) ==> forall|i: int|
            0 <= i < items.len() ==> !is_reasoning(#[trigger] items[i]),
    ensures
        with_unbound_input(body) == body,
{
    if let Some(JsonTree::Array(items)) = body.field("input"@) {
        lemma_unbound_items_none(items);
        lemma_with_own_field(body, "input"@);
    }
}

proof fn lemma_unbound_items_none(items: Seq<JsonTree>)
    requires
        forall|i: int| 0 <= i < items.len() ==> !is_reasoning(#[trigger] items[i]),
    ensures
        unbound_items(items) == items,
    decreases items.len(),
{
    if items.len() > 0 {
        let rest = items.drop_last();
        assert forall|i: int| 0 <= i < rest.len() implies !is_reasoning(#[trigger] rest[i]) by {
            assert(rest[i] == items[i]);
        }
        lemma_unbound_items_none(rest);
        lemma_unbound_items_push(rest, items.last());
        assert(rest.push(items.last()) =~= items);
    } else {
        reveal(Seq::filter);
        assert(unbound_items(items) =~= items);
    }
}

/// Stripping changes no member of the request but `input`.
pub proof fn stripping_keeps_other_members(body: JsonTree, name: Seq<char>)
    requires
        name != "input"@,
    ensures
        with_unbound_input(body).field(name) == body.field(name),
{
}

proof fn lemma_without_encrypted_entries(entries: Seq<JsonTree>)
    ensures
        forall|i: int|
            0 <= i < without_encrypted_entries(entries).len() ==> !asks_for_encrypted_content(
                #[trigger] without_encrypted_entries(entries)[i],
            ),
        without_encrypted_entries(without_encrypted_entries(entries)) == without_encrypted_entries(
            entries,
        ),
    decreases entries.len(),
{
    reveal(Seq::filter);
    if entries.len() > 0 {
        let rest = entries.drop_last();
        let last = entries.last();
        lemma_without_encrypted_entries(rest);
        assert(without_encrypted_entries(rest).push(last).drop_last() =~= without_encrypted_entries(
            rest,
        ));
    }
}

/// A stateless request stores nothing, asks for a summary of its reasoning, and nowhere asks for
/// encrypted reasoning.
pub proof fn stateless_requests_ask_for_summaries(body: JsonTree)
    requires
        body is Object,
    ensures
        stateless(body).field("store"@) == Some(JsonTree::Bool(false)),
        stateless(body).field("reasoning"@) matches Some(reasoning) && reasoning.field(
            "summary"@,
        ) is Some,
        stateless(body).field("include"@) matches Some(JsonTree::Array(entries)) ==> entries.len()
            > 0 && forall|i: int|
            0 <= i < entries.len() ==> !asks_for_encrypted_content(#[trigger] entries[i]),
{
    lemma_names_differ();
    let stored = body.with_field("store"@, JsonTree::Bool(false));
    if let Some(JsonTree::Array(entries)) = stored.field("include"@) {
        lemma_without_encrypted_entries(entries);
    }
    assert(stateless(body).field("include"@) == without_encrypted_include(stored).field(
        "include"@,
    ));
}

/// Making a request stateless a second time changes nothing.
pub proof fn stateless_twice_is_stateless_once(body: JsonTree)
    ensures
        stateless(stateless(body)) == stateless(body),
{
    lemma_names_differ();
    let once = stateless(body);
    if body is Object {
        let stored = body.with_field("store"@, JsonTree::Bool(false));
        if let Some(JsonTree::Array(entries)) = stored.field("include"@) {
            lemma_without_encrypted_entries(entries);
        }
        assert(once.field("include"@) == without_encrypted_include(stored).field("include"@));
        assert(once.field("store"@) == Some(JsonTree::Bool(false)));
        lemma_with_own_field(once, "store"@);
        lemma_with_own_field(once, "include"@);
        lemma_with_own_field(once, "reasoning"@);
    }
}

/// Making a request stateless changes no member but `store`, `include` and `reasoning`.
pub proof fn stateless_keeps_other_members(body: JsonTree, name: Seq<char>)
    requires
        name != "store"@,
        name != "include"@,
        name != "reasoning"@,
    ensures
        stateless(body).field(name) == body.field(name),
{
}

/// A `reasoning` that is an object keeps what else it holds when a summary is asked for, and a
/// summary that the caller chose stays.
pub proof fn stateless_keeps_reasoning_members(body: JsonTree, name: Seq<char>)
    requires
        body.field("reasoning"@) is Some,
        body.field("reasoning"@)->0 is Object,
        body.field("reasoning"@)->0.field(name) is Some,
    ensures
        stateless(body).field("reasoning"@) is Some,
        stateless(body).field("reasoning"@)->0.field(name) == body.field("reasoning"@)->0.field(
            name,
        ),
{
    lemma_names_differ();
}

/// Stripping and making stateless can be done in either order.
pub proof fn stripping_and_stateless_commute(body: JsonTree)
    ensures
        with_unbound_input(stateless(body)) == stateless(with_unbound_input(body)),
{
    lemma_names_differ();
    if let JsonTree::Object(members) = body {
        if body.field("input"@) matches Some(JsonTree::Array(_)) {
            let left = with_unbound_input(stateless(body))->Object_0;
            let right = stateless(with_unbound_input(body))->Object_0;
            assert(stateless(body).field("input"@) == body.field("input"@));
            assert(left =~= right);
        } else {
            assert(stateless(body).field("input"@) == body.field("input"@));
        }
    }
}

/// A request without a wish for a summary has none in its `reasoning`, and no empty `reasoning`
/// object where it had an object before.
pub proof fn summary_wish_is_gone(body: JsonTree)
    ensures
        without_summary_wish(body).field("reasoning"@) matches Some(JsonTree::Object(members))
            ==> !members.dom().contains("summary"@) && members != Map::<
            Seq<char>,
            JsonTree,
        >::empty(),
{
}

/// Taking the wish for a summary out a second time changes nothing.
pub proof fn summary_wish_goes_once(body: JsonTree)
    ensures
        without_summary_wish(without_summary_wish(body)) == without_summary_wish(body),
{
    let once = without_summary_wish(body);
    lemma_with_own_field(once, "reasoning"@);
    if let Some(JsonTree::Object(members)) = once.field("reasoning"@) {
        assert(members.remove("summary"@) =~= members);
    }
}

/// Taking the wish for a summary out changes no member but `reasoning`, and within it none but
/// `summary`.
pub proof fn summary_wish_leaves_the_rest(body: JsonTree, name: Seq<char>)
    ensures
        name != "reasoning"@ ==> without_summary_wish(body).field(name) == body.field(name),
        name != "summary"@ && body.field("reasoning"@) is Some && body.field(
            "reasoning"@,
        )->0.field(name) is Some ==> {
            &&& without_summary_wish(body).field("reasoning"@) is Some
            &&& without_summary_wish(body).field("reasoning"@)->0.field(name) == body.field(
                "reasoning"@,
            )->0.field(name)
        },
{
    if let Some(JsonTree::Object(members)) = body.field("reasoning"@) {
        if name != "summary"@ && members.dom().contains(name) {
            assert(members.remove("summary"@).dom().contains(name));
        }
    }
}

/// Stripping and taking the wish for a summary out can be done in either order.
pub proof fn stripping_and_summary_wish_commute(body: JsonTree)
    ensures
        with_unbound_input(without_summary_wish(body)) == without_summary_wish(
            with_unbound_input(body),
        ),
{
    lemma_names_differ();
    assert(without_summary_wish(body).field("input"@) == body.field("input"@));
    assert(with_unbound_input(body).field("reasoning"@) == body.field("reasoning"@));
    if body is Object {
        let left = with_unbound_input(without_summary_wish(body))->Object_0;
        let right = without_summary_wish(with_unbound_input(body))->Object_0;
        assert(left =~= right);
    }
}

/// Where the wish for a summary is all that making a request stateless added, taking it out gives
/// the request back, but for storing, which stays off: where the request had no `include`, and
/// either no `reasoning` or one with members of which none is `summary`.
pub proof fn taking_the_summary_wish_back(body: JsonTree)
    requires
        body is Object,
        body.field("include"@) is None,
        body.field("reasoning"@) matches Some(reasoning) ==> {
            &&& reasoning is Object
            &&& reasoning.field("summary"@) is None
            &&& reasoning->Object_0 != Map::<Seq<char>, JsonTree>::empty()
        },
    ensures
        without_summary_wish(stateless(body)) == body.with_field("store"@, JsonTree::Bool(false)),
{
    lemma_names_differ();
    let stored = body.with_field("store"@, JsonTree::Bool(false));
    let wished = stateless(body)->Object_0["reasoning"@]->Object_0;
    assert(stored.field("reasoning"@) == body.field("reasoning"@));
    if let Some(JsonTree::Object(members)) = body.field("reasoning"@) {
        assert(wished.remove("summary"@) =~= members);
    } else {
        assert(wished.remove("summary"@) =~= Map::<Seq<char>, JsonTree>::empty());
    }
    assert(without_summary_wish(stateless(body))->Object_0 =~= stored->Object_0);
}

} // verus!
