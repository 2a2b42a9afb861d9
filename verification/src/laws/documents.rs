//! What documents are, member by member and item by item.

use vstd::prelude::*;

use crate::json::{
    first_wins, lemma_first_wins_absent, lemma_first_wins_at, trees, Json, JsonMap, JsonTree,
};

verus! {

/// A document stands for the tree of its own kind, with what it holds standing for itself.
pub proof fn documents_stand_for_their_trees(
    flag: bool,
    number: serde_json::Number,
    text: String,
    items: Vec<Json>,
    members: JsonMap,
)
    ensures
        Json::Null@ == JsonTree::Null,
        Json::Bool(flag)@ == JsonTree::Bool(flag),
        Json::Number(number)@ == JsonTree::Number(number),
        Json::Text(text)@ == JsonTree::Text(text@),
        Json::Array(items)@ is Array,
        Json::Array(items)@->Array_0.len() == items@.len(),
        forall|i: int|
            0 <= i < items@.len() ==> (#[trigger] Json::Array(items)@->Array_0[i]) == items@[i]@,
        Json::Object(members)@ == JsonTree::Object(members@),
{
    lemma_trees(items@);
}

proof fn lemma_trees(items: Seq<Json>)
    ensures
        trees(items).len() == items.len(),
        forall|i: int| 0 <= i < items.len() ==> (#[trigger] trees(items)[i]) == items[i]@,
{
}

/// An object has just the members of its map; what is no object has none.
pub proof fn fields_are_the_members_of_objects(document: JsonTree, name: Seq<char>)
    ensures
        document is Object && document->Object_0.dom().contains(name) ==> document.field(name)
            == Some(document->Object_0[name]),
        document is Object && !document->Object_0.dom().contains(name) ==> document.field(
            name,
        ) is None,
        !(document is Object) ==> document.field(name) is None,
{
}

/// Setting a member of an object and taking one out are seen in that member alone, and leave what
/// is no object as it is.
pub proof fn fields_change_one_at_a_time(
    document: JsonTree,
    name: Seq<char>,
    other: Seq<char>,
    value: JsonTree,
)
    requires
        name != other,
    ensures
        document is Object ==> {
            &&& document.with_field(name, value).field(name) == Some(value)
            &&& document.with_field(name, value).field(other) == document.field(other)
            &&& document.without_field(name).field(name) is None
            &&& document.without_field(name).field(other) == document.field(other)
        },
        !(document is Object) ==> {
            &&& document.with_field(name, value) == document
            &&& document.without_field(name) == document
        },
{
}

/// Of pairs with one name the first says what the member is, wherever it stands among the others;
/// a name that no pair has is no member.
pub proof fn the_first_pair_of_a_name_counts(
    before: Seq<(Seq<char>, JsonTree)>,
    name: Seq<char>,
    value: JsonTree,
    after: Seq<(Seq<char>, JsonTree)>,
)
    requires
        forall|i: int| 0 <= i < before.len() ==> (#[trigger] before[i]).0 != name,
    ensures
        !first_wins(before).dom().contains(name),
        first_wins(before.push((name, value)) + after).dom().contains(name),
        first_wins(before.push((name, value)) + after)[name] == value,
{
    let pairs = before.push((name, value)) + after;
    let place = before.len() as int;
    lemma_first_wins_absent(before, name);
    assert forall|j: int| 0 <= j < place implies (#[trigger] pairs[j]).0 != pairs[place].0 by {
        assert(pairs[j] == before[j]);
    }
    lemma_first_wins_at(pairs, place);
}

} // verus!
