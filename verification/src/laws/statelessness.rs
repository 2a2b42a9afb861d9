//! What making a request stateless does to it, and what taking the wish for a summary out does.

use vstd::prelude::*;

use crate::json::JsonTree;
use crate::laws::rewriting::lemma_names_differ;
use crate::rewrite::{
    stateless, with_summary, without_encrypted_entries, without_encrypted_include,
    without_summary_wish,
};

verus! {

/// What is no object is no request to change, and stays as it is.
pub proof fn only_objects_are_changed(body: JsonTree)
    requires
        !(body is Object),
    ensures
        stateless(body) == body,
        without_summary_wish(body) == body,
{
}

/// A stateless request has `store` false, whatever it had there.
pub proof fn storing_is_off(members: Map<Seq<char>, JsonTree>)
    ensures
        stateless(JsonTree::Object(members)) is Object,
        stateless(JsonTree::Object(members))->Object_0.dom().contains("store"@),
        stateless(JsonTree::Object(members))->Object_0["store"@] == JsonTree::Bool(false),
{
    lemma_names_differ();
}

/// The entries of `include` are looked at each for itself: what is left of two lists, one behind
/// the other, is what is left of each. Only the text `reasoning.encrypted_content` goes.
pub proof fn one_entry_of_the_wishes_goes(
    first: Seq<JsonTree>,
    second: Seq<JsonTree>,
    entry: JsonTree,
)
    ensures
        without_encrypted_entries(first + second) == without_encrypted_entries(first)
            + without_encrypted_entries(second),
        without_encrypted_entries(Seq::empty()) == Seq::<JsonTree>::empty(),
        without_encrypted_entries(seq![entry]) == if entry == JsonTree::Text(
            "reasoning.encrypted_content"@,
        ) {
            Seq::<JsonTree>::empty()
        } else {
            seq![entry]
        },
    decreases second.len(),
{
    reveal(Seq::filter);
    assert(seq![entry].drop_last() =~= Seq::<JsonTree>::empty());
    assert(without_encrypted_entries(Seq::empty()) =~= Seq::<JsonTree>::empty());
    assert(Seq::<JsonTree>::empty().push(entry) =~= seq![entry]);
    if second.len() == 0 {
        assert(first + second =~= first);
        assert(second =~= Seq::empty());
    } else {
        one_entry_of_the_wishes_goes(first, second.drop_last(), entry);
        assert((first + second).drop_last() =~= first + second.drop_last());
        assert((first + second).last() == second.last());
    }
    assert(without_encrypted_entries(first + second) =~= without_encrypted_entries(first)
        + without_encrypted_entries(second));
}

proof fn lemma_entries(entries: Seq<JsonTree>)
    ensures
        without_encrypted_entries(entries) == entries.filter(
            |entry: JsonTree| entry != JsonTree::Text("reasoning.encrypted_content"@),
        ),
        without_encrypted_entries(entries).len() == 0 <==> forall|i: int|
            0 <= i < entries.len() ==> (#[trigger] entries[i]) == JsonTree::Text(
                "reasoning.encrypted_content"@,
            ),
        forall|i: int|
            0 <= i < entries.len() && (#[trigger] entries[i]) != JsonTree::Text(
                "reasoning.encrypted_content"@,
            ) ==> without_encrypted_entries(entries).contains(entries[i]),
    decreases entries.len(),
{
    reveal(Seq::filter);
    let wish = JsonTree::Text("reasoning.encrypted_content"@);
    if entries.len() > 0 {
        let rest = entries.drop_last();
        lemma_entries(rest);
        let left = without_encrypted_entries(entries);
        let before = without_encrypted_entries(rest);
        assert forall|i: int| 0 <= i < entries.len() && (#[trigger] entries[i]) != wish implies
            left.contains(entries[i]) by {
            if i < rest.len() {
                assert(rest[i] == entries[i]);
                let k = before.index_of(entries[i]);
                assert(left[k] == entries[i]);
            } else {
                assert(left[left.len() - 1] == entries[i]);
            }
        }
        if left.len() == 0 {
            assert forall|i: int| 0 <= i < entries.len() implies (#[trigger] entries[i])
                == wish by {
                if entries[i] != wish {
                    assert(left.contains(entries[i]));
                }
            }
        } else if forall|i: int| 0 <= i < entries.len() ==> (#[trigger] entries[i]) == wish {
            assert forall|i: int| 0 <= i < rest.len() implies (#[trigger] rest[i]) == wish by {
                assert(rest[i] == entries[i]);
            }
            assert(entries[entries.len() - 1] == wish);
        }
    }
}

/// Where a request's `include` is an array, the stateless request's `include` holds the entries of
/// it that are not the text `reasoning.encrypted_content`, all of them and in their order. It goes
/// only where there is no such entry. An `include` that is no array stays as it is.
pub proof fn other_wishes_stay(members: Map<Seq<char>, JsonTree>)
    ensures
        ({
            let changed = stateless(JsonTree::Object(members))->Object_0;
            if members.dom().contains("include"@) && members["include"@] is Array {
                let entries = members["include"@]->Array_0;
                let wish = JsonTree::Text("reasoning.encrypted_content"@);
                &&& changed.dom().contains("include"@) <==> exists|i: int|
                    0 <= i < entries.len() && (#[trigger] entries[i]) != wish
                &&& changed.dom().contains("include"@) ==> changed["include"@] == JsonTree::Array(
                    entries.filter(|entry: JsonTree| entry != wish),
                )
                &&& forall|i: int|
                    0 <= i < entries.len() && (#[trigger] entries[i]) != wish
                        ==> changed["include"@]->Array_0.contains(entries[i])
            } else {
                &&& changed.dom().contains("include"@) == members.dom().contains("include"@)
                &&& members.dom().contains("include"@) ==> changed["include"@]
                    == members["include"@]
            }
        }),
{
    lemma_names_differ();
    let stored = JsonTree::Object(members).with_field("store"@, JsonTree::Bool(false));
    let changed = stateless(JsonTree::Object(members))->Object_0;
    assert(without_encrypted_include(stored) is Object);
    assert(changed.dom().contains("include"@) == without_encrypted_include(
        stored,
    )->Object_0.dom().contains("include"@));
    if members.dom().contains("include"@) && members["include"@] is Array {
        let entries = members["include"@]->Array_0;
        let wish = JsonTree::Text("reasoning.encrypted_content"@);
        lemma_entries(entries);
        assert(stored.field("include"@) == Some(JsonTree::Array(entries)));
        assert(without_encrypted_entries(entries) == entries.filter(
            |entry: JsonTree| entry != wish,
        )) by {
            assert((|entry: JsonTree| entry != wish) =~= (|entry: JsonTree|
                entry != JsonTree::Text("reasoning.encrypted_content"@)));
        }
    }
}

/// A stateless request has a `reasoning` that is an object with a `summary`. A `reasoning` that was
/// an object keeps all its members, a `summary` among them too; only a missing one becomes `auto`.
/// In place of anything else there comes an object with that alone.
pub proof fn summaries_are_asked_for(members: Map<Seq<char>, JsonTree>, name: Seq<char>)
    ensures
        ({
            let changed = stateless(JsonTree::Object(members))->Object_0;
            let had = members.dom().contains("reasoning"@) && members["reasoning"@] is Object;
            let before = members["reasoning"@]->Object_0;
            &&& changed.dom().contains("reasoning"@)
            &&& changed["reasoning"@] matches JsonTree::Object(after)
            &&& after.dom().contains("summary"@)
            &&& had && before.dom().contains(name) ==> after.dom().contains(name) && after[name]
                == before[name]
            &&& had && !before.dom().contains(name) && name != "summary"@
                ==> !after.dom().contains(name)
            &&& had && !before.dom().contains("summary"@) ==> after["summary"@]
                == JsonTree::Text("auto"@)
            &&& !had ==> after["summary"@] == JsonTree::Text("auto"@)
            &&& !had && name != "summary"@ ==> !after.dom().contains(name)
        }),
{
    lemma_names_differ();
    let stored = JsonTree::Object(members).with_field("store"@, JsonTree::Bool(false));
    let listed = without_encrypted_include(stored);
    assert(listed is Object);
    assert(listed.field("reasoning"@) == JsonTree::Object(members).field("reasoning"@));
    assert(stateless(JsonTree::Object(members)).field("reasoning"@) == Some(
        with_summary(JsonTree::Object(members).field("reasoning"@)),
    ));
}

/// A stateless request has each other member just as the request has it, and no other.
pub proof fn stateless_requests_keep_the_rest(
    members: Map<Seq<char>, JsonTree>,
    name: Seq<char>,
)
    requires
        name != "store"@,
        name != "include"@,
        name != "reasoning"@,
    ensures
        ({
            let changed = stateless(JsonTree::Object(members))->Object_0;
            &&& changed.dom().contains(name) == members.dom().contains(name)
            &&& members.dom().contains(name) ==> changed[name] == members[name]
        }),
{
    lemma_names_differ();
}

/// Taking the wish for a summary out takes `summary` out of a `reasoning` that is an object, and
/// nothing else. The `reasoning` goes just where `summary` was its only member, or it had none.
pub proof fn only_the_summary_goes(members: Map<Seq<char>, JsonTree>, name: Seq<char>)
    requires
        members.dom().contains("reasoning"@),
        members["reasoning"@] is Object,
    ensures
        ({
            let before = members["reasoning"@]->Object_0;
            let changed = without_summary_wish(JsonTree::Object(members))->Object_0;
            &&& changed.dom().contains("reasoning"@) <==> exists|other: Seq<char>|
                #[trigger] before.dom().contains(other) && other != "summary"@
            &&& changed.dom().contains("reasoning"@) ==> {
                &&& changed["reasoning"@] matches JsonTree::Object(after)
                &&& after.dom().contains(name) <==> before.dom().contains(name) && name
                    != "summary"@
                &&& after.dom().contains(name) ==> after[name] == before[name]
            }
        }),
{
    let before = members["reasoning"@]->Object_0;
    let rest = before.remove("summary"@);
    let empty = Map::<Seq<char>, JsonTree>::empty();
    if rest == empty {
        assert forall|other: Seq<char>| #[trigger] before.dom().contains(other) implies other
            == "summary"@ by {
            if other != "summary"@ {
                assert(rest.dom().contains(other));
            }
        }
    } else if forall|other: Seq<char>| #[trigger]
        before.dom().contains(other) ==> other == "summary"@ {
        assert(rest =~= empty);
    }
}

/// Taking the wish for a summary out leaves a request without a `reasoning` object as it is, and
/// every other member of any request.
pub proof fn the_rest_stays_without_the_summary(
    members: Map<Seq<char>, JsonTree>,
    name: Seq<char>,
)
    ensures
        !(members.dom().contains("reasoning"@) && members["reasoning"@] is Object)
            ==> without_summary_wish(JsonTree::Object(members)) == JsonTree::Object(members),
        ({
            let changed = without_summary_wish(JsonTree::Object(members))->Object_0;
            name != "reasoning"@ ==> {
                &&& changed.dom().contains(name) == members.dom().contains(name)
                &&& members.dom().contains(name) ==> changed[name] == members[name]
            }
        }),
        without_summary_wish(JsonTree::Object(members)) is Object,
{
}

} // verus!
