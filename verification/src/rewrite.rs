//! The rewriting of requests that replay encrypted reasoning.

use vstd::prelude::*;

use crate::json::{lemma_with_own_field, trees, Json, JsonMap, JsonTree};
use crate::text::trimmed;

verus! {

/// An input item that replays the model's reasoning.
pub open spec fn is_reasoning(item: JsonTree) -> bool {
    item.field("type"@) == Some(JsonTree::Text("reasoning"@))
}

/// A reasoning item with a non-empty text under `encrypted_content`.
pub open spec fn replays_encrypted_content(item: JsonTree) -> bool {
    &&& is_reasoning(item)
    &&& item.field("encrypted_content"@) matches Some(JsonTree::Text(blob))
    &&& blob.len() > 0
}

/// Input items of which one replays encrypted content.
pub open spec fn some_replays_encrypted_content(items: Seq<JsonTree>) -> bool {
    exists|i: int| 0 <= i < items.len() && replays_encrypted_content(#[trigger] items[i])
}

/// A request whose `input` is an array with an item that replays encrypted content.
pub open spec fn carries_encrypted_content(body: JsonTree) -> bool {
    &&& body.field("input"@) matches Some(JsonTree::Array(items))
    &&& some_replays_encrypted_content(items)
}

/// A summary entry whose `text` holds more than white space.
pub open spec fn has_readable_text(entry: JsonTree) -> bool {
    &&& entry.field("text"@) matches Some(JsonTree::Text(text))
    &&& trimmed(text).len() > 0
}

/// Summary entries of which one is readable.
pub open spec fn some_has_readable_text(entries: Seq<JsonTree>) -> bool {
    exists|i: int| 0 <= i < entries.len() && has_readable_text(#[trigger] entries[i])
}

/// An item whose `summary` is an array with a readable entry.
pub open spec fn has_readable_summary(item: JsonTree) -> bool {
    &&& item.field("summary"@) matches Some(JsonTree::Array(entries))
    &&& some_has_readable_text(entries)
}

/// Reasoning items stay only where they have something readable left; other items always stay.
pub open spec fn is_kept(item: JsonTree) -> bool {
    is_reasoning(item) ==> has_readable_summary(item)
}

/// A reasoning item without what binds it to the caller it was issued to; any other item as it is.
pub open spec fn unbound(item: JsonTree) -> JsonTree {
    if is_reasoning(item) {
        item.without_field("encrypted_content"@).without_field("id"@)
    } else {
        item
    }
}

/// The input items that stay, in their order, each without its binding.
pub open spec fn unbound_items(items: Seq<JsonTree>) -> Seq<JsonTree> {
    items.filter(|item: JsonTree| is_kept(item)).map_values(|item: JsonTree| unbound(item))
}

/// The request with its input items unbound, where `input` is an array.
pub open spec fn with_unbound_input(body: JsonTree) -> JsonTree {
    match body.field("input"@) {
        Some(JsonTree::Array(items)) => body.with_field(
            "input"@,
            JsonTree::Array(unbound_items(items)),
        ),
        _ => body,
    }
}

/// The entry of `include` that asks for encrypted reasoning.
pub open spec fn asks_for_encrypted_content(entry: JsonTree) -> bool {
    entry == JsonTree::Text("reasoning.encrypted_content"@)
}

/// The list without the entries that ask for encrypted reasoning.
pub open spec fn without_encrypted_entries(entries: Seq<JsonTree>) -> Seq<JsonTree> {
    entries.filter(|entry: JsonTree| !asks_for_encrypted_content(entry))
}

/// The request without a wish for encrypted reasoning; an `include` that is left empty goes.
pub open spec fn without_encrypted_include(body: JsonTree) -> JsonTree {
    match body.field("include"@) {
        Some(JsonTree::Array(entries)) => {
            let rest = without_encrypted_entries(entries);
            if rest.len() == 0 {
                body.without_field("include"@)
            } else {
                body.with_field("include"@, JsonTree::Array(rest))
            }
        },
        _ => body,
    }
}

/// The `reasoning` member that asks for a readable summary: what was there, with a `summary` if it
/// had none, or a new object where there was no object.
pub open spec fn with_summary(reasoning: Option<JsonTree>) -> JsonTree {
    let auto = JsonTree::Text("auto"@);
    match reasoning {
        Some(JsonTree::Object(members)) => if members.dom().contains("summary"@) {
            JsonTree::Object(members)
        } else {
            JsonTree::Object(members.insert("summary"@, auto))
        },
        _ => JsonTree::Object(Map::empty().insert("summary"@, auto)),
    }
}

/// The request with a wish for a readable summary.
pub open spec fn with_summary_wish(body: JsonTree) -> JsonTree {
    body.with_field("reasoning"@, with_summary(body.field("reasoning"@)))
}

/// The request made stateless: nothing is stored, no encrypted reasoning is asked for, and
/// readable summaries are. A request that is no object stays as it is.
pub open spec fn stateless(body: JsonTree) -> JsonTree {
    with_summary_wish(
        without_encrypted_include(body.with_field("store"@, JsonTree::Bool(false))),
    )
}

/// The request without a wish for a summary; a `reasoning` that is left empty goes.
pub open spec fn without_summary_wish(body: JsonTree) -> JsonTree {
    match body.field("reasoning"@) {
        Some(JsonTree::Object(members)) => {
            let rest = members.remove("summary"@);
            if rest == Map::<Seq<char>, JsonTree>::empty() {
                body.without_field("reasoning"@)
            } else {
                body.with_field("reasoning"@, JsonTree::Object(rest))
            }
        },
        _ => body,
    }
}

/// Whether the item is a reasoning item.
fn item_is_reasoning(item: &Json) -> (reasoning: bool)
    ensures
        reasoning == is_reasoning(item@),
{
    match item.get("type") {
        Some(kind) => kind.is_text("reasoning"),
        None => false,
    }
}

/// Whether the item is a reasoning item that replays encrypted content.
fn item_is_encrypted(item: &Json) -> (encrypted: bool)
    ensures
        encrypted == replays_encrypted_content(item@),
{
    if !item_is_reasoning(item) {
        return false;
    }
    match item.get("encrypted_content") {
        Some(content) => match content.as_str() {
            Some(blob) => !blob.is_empty(),
            None => false,
        },
        None => false,
    }
}

/// Whether the item's summary has something to read.
fn item_is_readable(item: &Json) -> (readable: bool)
    ensures
        readable == has_readable_summary(item@),
{
    if let Some(summary) = item.get("summary") {
        if let Some(entries) = summary.as_array() {
            let mut i: usize = 0;
            while i < entries.len()
                invariant
                    item@.field("summary"@) == Some(JsonTree::Array(trees(entries@))),
                    i <= entries@.len(),
                    forall|j: int| 0 <= j < i ==> !has_readable_text(#[trigger] trees(entries@)[j]),
                decreases entries@.len() - i,
            {
                assert(trees(entries@)[i as int] == entries@[i as int]@);
                if let Some(text) = entries[i].get("text") {
                    if let Some(text) = text.as_str() {
                        if !text.trim().is_empty() {
                            assert(some_has_readable_text(trees(entries@)));
                            return true;
                        }
                    }
                }
                i += 1;
            }
        }
    }
    false
}

/// Whether the request replays encrypted reasoning: whether its `input` is an array with a
/// reasoning item whose `encrypted_content` is a non-empty text.
pub fn has_encrypted_content(body: &Json) -> (found: bool)
    ensures
        found == carries_encrypted_content(body@),
{
    if let Some(input) = body.get("input") {
        if let Some(items) = input.as_array() {
            let mut i: usize = 0;
            while i < items.len()
                invariant
                    body@.field("input"@) == Some(JsonTree::Array(trees(items@))),
                    i <= items@.len(),
                    forall|j: int|
                        0 <= j < i ==> !replays_encrypted_content(#[trigger] trees(items@)[j]),
                decreases items@.len() - i,
            {
                assert(trees(items@)[i as int] == items@[i as int]@);
                if item_is_encrypted(&items[i]) {
                    assert(some_replays_encrypted_content(trees(items@)));
                    return true;
                }
                i += 1;
            }
        }
    }
    false
}

/// What one more item adds to the unbound items.
pub(crate) proof fn lemma_unbound_items_push(items: Seq<JsonTree>, item: JsonTree)
    ensures
        unbound_items(items.push(item)) == if is_kept(item) {
            unbound_items(items).push(unbound(item))
        } else {
            unbound_items(items)
        },
{
    reveal(Seq::filter);
    assert(items.push(item).drop_last() =~= items);
    assert(unbound_items(items.push(item)) =~= if is_kept(item) {
        unbound_items(items).push(unbound(item))
    } else {
        unbound_items(items)
    });
}

/// Removes the binding of each reasoning item, and the reasoning items that are not readable
/// without it.
fn strip_items(items: &mut Vec<Json>)
    ensures
        trees(final(items)@) == unbound_items(trees(old(items)@)),
{
    let ghost all = trees(items@);
    let ghost mut seen: int = 0;
    let mut i: usize = 0;
    while i < items.len()
        invariant
            0 <= seen <= all.len(),
            i <= items@.len(),
            all == trees(old(items)@),
            trees(items@) == unbound_items(all.take(seen)) + all.skip(seen),
            unbound_items(all.take(seen)).len() == i,
        decreases items@.len() - i,
    {
        let ghost before = items@;
        proof {
            lemma_unbound_items_push(all.take(seen), all[seen]);
            assert(all.take(seen + 1) =~= all.take(seen).push(all[seen]));
            assert(trees(items@)[i as int] == items@[i as int]@);
            assert(all.skip(seen)[0] == all[seen]);
        }
        if item_is_reasoning(&items[i]) {
            if item_is_readable(&items[i]) {
                if let Json::Object(members) = &mut items[i] {
                    members.remove("encrypted_content");
                    members.remove("id");
                }
                assert(trees(items@) =~= trees(before).update(i as int, unbound(all[seen])));
                assert(trees(items@) =~= unbound_items(all.take(seen + 1)) + all.skip(seen + 1));
                i += 1;
            } else {
                items.remove(i);
                assert(trees(items@) =~= trees(before).remove(i as int));
                assert(trees(items@) =~= unbound_items(all.take(seen + 1)) + all.skip(seen + 1));
            }
        } else {
            assert(trees(items@) =~= unbound_items(all.take(seen + 1)) + all.skip(seen + 1));
            i += 1;
        }
        proof {
            seen = seen + 1;
        }
    }
    assert(all.take(seen) =~= all);
    assert(trees(items@) =~= unbound_items(all));
}

/// Makes the request's reasoning items readable to any caller: where `input` is an array, its
/// reasoning items lose `encrypted_content` and `id`, and those whose summary has no readable text
/// are dropped.
pub fn strip_encrypted_content_from_input(body: &mut Json)
    ensures
        final(body)@ == with_unbound_input(old(body)@),
{
    proof {
        lemma_with_own_field(body@, "input"@);
    }
    if let Some(input) = body.get_mut("input") {
        if let Json::Array(items) = input {
            strip_items(items);
        }
    }
}

/// Removes the entries that ask for encrypted reasoning.
fn retain_readable_entries(entries: &mut Vec<Json>)
    ensures
        trees(final(entries)@) == without_encrypted_entries(trees(old(entries)@)),
{
    let ghost all = trees(entries@);
    let ghost mut seen: int = 0;
    let mut i: usize = 0;
    while i < entries.len()
        invariant
            0 <= seen <= all.len(),
            i <= entries@.len(),
            all == trees(old(entries)@),
            trees(entries@) == without_encrypted_entries(all.take(seen)) + all.skip(seen),
            without_encrypted_entries(all.take(seen)).len() == i,
        decreases entries@.len() - i,
    {
        let ghost before = entries@;
        proof {
            reveal(Seq::filter);
            assert(all.take(seen + 1).drop_last() =~= all.take(seen));
            assert(trees(entries@)[i as int] == entries@[i as int]@);
            assert(all.skip(seen)[0] == all[seen]);
        }
        if entries[i].is_text("reasoning.encrypted_content") {
            entries.remove(i);
            assert(trees(entries@) =~= trees(before).remove(i as int));
        } else {
            i += 1;
        }
        assert(trees(entries@) =~= without_encrypted_entries(all.take(seen + 1)) + all.skip(
            seen + 1,
        ));
        proof {
            seen = seen + 1;
        }
    }
    assert(all.take(seen) =~= all);
    assert(trees(entries@) =~= without_encrypted_entries(all));
}

/// Takes the wish for encrypted reasoning out of the request's members.
fn drop_encrypted_include(members: &mut JsonMap)
    ensures
        JsonTree::Object(final(members)@) == without_encrypted_include(
            JsonTree::Object(old(members)@),
        ),
{
    let ghost before = JsonTree::Object(members@);
    proof {
        lemma_with_own_field(before, "include"@);
    }
    let mut emptied: bool = false;
    if let Some(wishes) = members.get_mut("include") {
        if let Json::Array(entries) = wishes {
            retain_readable_entries(entries);
            emptied = entries.len() == 0;
        }
    }
    if emptied {
        members.remove("include");
        assert(members@ =~= old(members)@.remove("include"@));
    }
}

/// The object that asks for automatic summaries and nothing else.
fn automatic_summary() -> (reasoning: Json)
    ensures
        reasoning@ == with_summary(None),
{
    let mut members = JsonMap::new();
    members.insert("summary".to_string(), Json::Text("auto".to_string()));
    Json::Object(members)
}

/// Puts the wish for a readable summary among the request's members.
fn ask_for_summary(members: &mut JsonMap)
    ensures
        JsonTree::Object(final(members)@) == with_summary_wish(JsonTree::Object(old(members)@)),
{
    let absent: bool = match members.get_mut("reasoning") {
        Some(Json::Object(reasoning)) => {
            if !reasoning.contains_key("summary") {
                reasoning.insert("summary".to_string(), Json::Text("auto".to_string()));
            }
            false
        },
        _ => true,
    };
    if absent {
        members.insert("reasoning".to_string(), automatic_summary());
        assert(members@ =~= old(members)@.insert("reasoning"@, with_summary(None)));
    }
}

/// Makes the request stateless: `store` becomes false, the wish for encrypted reasoning leaves
/// `include`, and `reasoning` asks for a summary unless it has one already. Does nothing to a
/// request that is no object.
pub fn inject_responses_fix(body: &mut Json)
    ensures
        final(body)@ == stateless(old(body)@),
{
    if let Json::Object(members) = body {
        members.insert("store".to_string(), Json::Bool(false));
        drop_encrypted_include(members);
        ask_for_summary(members);
    }
}

/// Takes `reasoning.summary` out of the request, and `reasoning` with it if nothing else is left.
pub fn strip_reasoning_summary(body: &mut Json)
    ensures
        final(body)@ == without_summary_wish(old(body)@),
{
    let ghost before = body@;
    proof {
        lemma_with_own_field(before, "reasoning"@);
    }
    let mut emptied: bool = false;
    if let Some(Json::Object(reasoning)) = body.get_mut("reasoning") {
        reasoning.remove("summary");
        emptied = reasoning.is_empty();
    }
    if emptied {
        if let Json::Object(members) = body {
            members.remove("reasoning");
            assert(members@ =~= before->Object_0.remove("reasoning"@));
        }
    }
}

} // verus!
