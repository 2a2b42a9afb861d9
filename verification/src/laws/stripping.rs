//! What stripping does to a request, item by item.

use vstd::prelude::*;

use crate::json::JsonTree;
use crate::laws::texts::{is_blank, trimming_leaves_what_is_not_blank};
use crate::rewrite::{
    has_readable_text, is_kept, lemma_unbound_items_push, some_has_readable_text, unbound,
    unbound_items, with_unbound_input,
};
use crate::text::is_white_space;

verus! {

/// An object whose `type` is the text `reasoning`.
pub open spec fn is_of_type_reasoning(members: Map<Seq<char>, JsonTree>) -> bool {
    members.dom().contains("type"@) && members["type"@] == JsonTree::Text("reasoning"@)
}

/// The `summary` of the object is an array that has, at the first of these places, an object whose
/// `text` has, at the second, a character that is not white space.
pub open spec fn shows(members: Map<Seq<char>, JsonTree>, place: int, character: int) -> bool {
    &&& members.dom().contains("summary"@)
    &&& members["summary"@] matches JsonTree::Array(entries)
    &&& 0 <= place < entries.len()
    &&& entries[place] matches JsonTree::Object(entry)
    &&& entry.dom().contains("text"@)
    &&& entry["text"@] matches JsonTree::Text(text)
    &&& 0 <= character < text.len()
    &&& !is_white_space(text[character])
}

proof fn lemma_kept(members: Map<Seq<char>, JsonTree>)
    requires
        is_of_type_reasoning(members),
    ensures
        is_kept(JsonTree::Object(members)) <==> exists|place: int, character: int|
            shows(members, place, character),
{
    if is_kept(JsonTree::Object(members)) {
        let entries = members["summary"@]->Array_0;
        assert(some_has_readable_text(entries));
        let place = choose|i: int|
            0 <= i < entries.len() && has_readable_text(#[trigger] entries[i]);
        let text = entries[place]->Object_0["text"@]->Text_0;
        trimming_leaves_what_is_not_blank(text);
        assert(!is_blank(text));
        let character = choose|i: int| 0 <= i < text.len() && !is_white_space(#[trigger] text[i]);
        assert(shows(members, place, character));
    }
    if exists|place: int, character: int| shows(members, place, character) {
        let (place, character) = choose|place: int, character: int|
            shows(members, place, character);
        let entries = members["summary"@]->Array_0;
        let text = entries[place]->Object_0["text"@]->Text_0;
        trimming_leaves_what_is_not_blank(text);
        assert(!is_blank(text));
        assert(has_readable_text(entries[place]));
        assert(some_has_readable_text(entries));
    }
}

proof fn lemma_one_item(item: JsonTree)
    ensures
        unbound_items(seq![item]) == if is_kept(item) {
            seq![unbound(item)]
        } else {
            Seq::empty()
        },
{
    reveal(Seq::filter);
    lemma_unbound_items_push(Seq::empty(), item);
    assert(Seq::<JsonTree>::empty().push(item) =~= seq![item]);
    assert(unbound_items(Seq::empty()) =~= Seq::empty());
    assert(Seq::<JsonTree>::empty().push(unbound(item)) =~= seq![unbound(item)]);
}

/// Items are stripped each for itself: what is left of two lists, one behind the other, is what is
/// left of each, one behind the other. Of no items nothing is left.
pub proof fn items_are_stripped_each_for_itself(first: Seq<JsonTree>, second: Seq<JsonTree>)
    ensures
        unbound_items(first + second) == unbound_items(first) + unbound_items(second),
        unbound_items(Seq::empty()) == Seq::<JsonTree>::empty(),
    decreases second.len(),
{
    reveal(Seq::filter);
    assert(unbound_items(Seq::empty()) =~= Seq::empty());
    if second.len() == 0 {
        assert(first + second =~= first);
        assert(second =~= Seq::empty());
    } else {
        let rest = second.drop_last();
        items_are_stripped_each_for_itself(first, rest);
        lemma_unbound_items_push(rest, second.last());
        lemma_unbound_items_push(first + rest, second.last());
        assert(rest.push(second.last()) =~= second);
        assert((first + rest).push(second.last()) =~= first + second);
    }
    assert(unbound_items(first + second) =~= unbound_items(first) + unbound_items(second));
}

/// A reasoning item stays where one character that is not white space can be read in its summary.
/// It loses `encrypted_content` and `id`, and no other member.
pub proof fn readable_reasoning_stays(
    members: Map<Seq<char>, JsonTree>,
    place: int,
    character: int,
)
    requires
        is_of_type_reasoning(members),
        shows(members, place, character),
    ensures
        unbound_items(seq![JsonTree::Object(members)]) == seq![
            JsonTree::Object(members.remove("encrypted_content"@).remove("id"@)),
        ],
{
    lemma_kept(members);
    lemma_one_item(JsonTree::Object(members));
}

/// A reasoning item without a character to read in its summary goes.
pub proof fn unreadable_reasoning_goes(members: Map<Seq<char>, JsonTree>)
    requires
        is_of_type_reasoning(members),
        forall|place: int, character: int| !shows(members, place, character),
    ensures
        unbound_items(seq![JsonTree::Object(members)]) == Seq::<JsonTree>::empty(),
{
    lemma_kept(members);
    lemma_one_item(JsonTree::Object(members));
}

/// An item that is no reasoning item stays as it is.
pub proof fn other_items_stay(item: JsonTree)
    requires
        item matches JsonTree::Object(members) ==> !is_of_type_reasoning(members),
    ensures
        unbound_items(seq![item]) == seq![item],
{
    lemma_one_item(item);
}

/// Stripping a request puts what is left of its items in place of its `input`, where that is an
/// array, and changes nothing else. A request without an array there stays as it is.
pub proof fn stripping_changes_the_input_array(body: JsonTree)
    ensures
        body matches JsonTree::Object(members) ==> {
            if members.dom().contains("input"@) && members["input"@] is Array {
                with_unbound_input(body) == JsonTree::Object(
                    members.insert(
                        "input"@,
                        JsonTree::Array(unbound_items(members["input"@]->Array_0)),
                    ),
                )
            } else {
                with_unbound_input(body) == body
            }
        },
        !(body is Object) ==> with_unbound_input(body) == body,
{
}

/// Wherever a readable reasoning item stands in a request, the stripped request has it, without
/// `encrypted_content` and `id`, behind what is left of the items before it.
pub proof fn readable_reasoning_stays_in_its_place(
    body: JsonTree,
    items: Seq<JsonTree>,
    i: int,
    members: Map<Seq<char>, JsonTree>,
    place: int,
    character: int,
)
    requires
        body.field("input"@) == Some(JsonTree::Array(items)),
        0 <= i < items.len(),
        items[i] == JsonTree::Object(members),
        is_of_type_reasoning(members),
        shows(members, place, character),
    ensures
        with_unbound_input(body).field("input"@) matches Some(JsonTree::Array(left)) && {
            let at = unbound_items(items.take(i)).len() as int;
            &&& at <= i
            &&& at < left.len()
            &&& left[at] == JsonTree::Object(members.remove("encrypted_content"@).remove("id"@))
        },
{
    lemma_split_at(items, i);
    readable_reasoning_stays(members, place, character);
}

/// Wherever an item stands in a request that is no reasoning item, the stripped request has it as
/// it is, behind what is left of the items before it.
pub proof fn other_items_stay_in_their_place(body: JsonTree, items: Seq<JsonTree>, i: int)
    requires
        body.field("input"@) == Some(JsonTree::Array(items)),
        0 <= i < items.len(),
        items[i] matches JsonTree::Object(members) ==> !is_of_type_reasoning(members),
    ensures
        with_unbound_input(body).field("input"@) matches Some(JsonTree::Array(left)) && {
            let at = unbound_items(items.take(i)).len() as int;
            &&& at <= i
            &&& at < left.len()
            &&& left[at] == items[i]
        },
{
    lemma_split_at(items, i);
    other_items_stay(items[i]);
}

proof fn lemma_no_more_items(items: Seq<JsonTree>)
    ensures
        unbound_items(items).len() <= items.len(),
    decreases items.len(),
{
    if items.len() > 0 {
        lemma_no_more_items(items.drop_last());
        lemma_unbound_items_push(items.drop_last(), items.last());
        assert(items.drop_last().push(items.last()) =~= items);
    } else {
        reveal(Seq::filter);
        assert(unbound_items(items).len() == 0);
    }
}

proof fn lemma_split_at(items: Seq<JsonTree>, i: int)
    requires
        0 <= i < items.len(),
    ensures
        unbound_items(items) == unbound_items(items.take(i)) + unbound_items(seq![items[i]])
            + unbound_items(items.skip(i + 1)),
        unbound_items(items.take(i)).len() <= i,
{
    assert(items =~= items.take(i) + seq![items[i]] + items.skip(i + 1));
    items_are_stripped_each_for_itself(items.take(i), seq![items[i]]);
    items_are_stripped_each_for_itself(items.take(i) + seq![items[i]], items.skip(i + 1));
    lemma_no_more_items(items.take(i));
}

/// Every item of a stripped request comes from an item of the request: it is one that is no
/// reasoning item, as it was, or a readable reasoning item without `encrypted_content` and `id`.
pub proof fn stripped_items_come_from_the_request(items: Seq<JsonTree>, at: int) -> (i: int)
    requires
        0 <= at < unbound_items(items).len(),
    ensures
        0 <= i < items.len(),
        at == unbound_items(items.take(i)).len(),
        items[i] matches JsonTree::Object(members) && is_of_type_reasoning(members) ==> {
            &&& unbound_items(items)[at] == JsonTree::Object(
                items[i]->Object_0.remove("encrypted_content"@).remove("id"@),
            )
            &&& exists|place: int, character: int| shows(items[i]->Object_0, place, character)
        },
        !(items[i] is Object && is_of_type_reasoning(items[i]->Object_0))
            ==> unbound_items(items)[at] == items[i],
    decreases items.len(),
{
    if items.len() == 0 {
        reveal(Seq::filter);
        assert(unbound_items(items).len() == 0);
        0
    } else {
        let rest = items.drop_last();
        let last = items.last();
        lemma_unbound_items_push(rest, last);
        assert(rest.push(last) =~= items);
        if at < unbound_items(rest).len() {
            let i = stripped_items_come_from_the_request(rest, at);
            assert(rest.take(i) =~= items.take(i));
            i
        } else {
            let i = items.len() - 1;
            assert(items.take(i) =~= rest);
            if last is Object && is_of_type_reasoning(last->Object_0) {
                lemma_kept(last->Object_0);
            }
            i
        }
    }
}

} // verus!
