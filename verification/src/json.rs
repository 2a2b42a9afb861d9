//! JSON documents: the executable tree, and the mathematical tree that contracts speak of.

use serde_json::Value;
use vstd::prelude::*;

use crate::wire::{
    close_value, map_entries, map_tree, open_value, parse_value, parsed_json, value_pairs,
    value_tree, Shape,
};

verus! {

/// What a JSON document is, apart from how it is stored. Objects are maps: the order in which an
/// object's members are written has no meaning.
#[verifier::ext_equal]
pub enum JsonTree {
    Null,
    Bool(bool),
    Number(serde_json::Number),
    Text(Seq<char>),
    Array(Seq<JsonTree>),
    Object(Map<Seq<char>, JsonTree>),
}

impl JsonTree {
    /// The member of that name, where the document is an object that has one.
    pub open spec fn field(self, name: Seq<char>) -> Option<JsonTree> {
        match self {
            JsonTree::Object(members) => if members.dom().contains(name) {
                Some(members[name])
            } else {
                None
            },
            _ => None,
        }
    }

    /// The document with that member set, where it is an object; any other document as it is.
    pub open spec fn with_field(self, name: Seq<char>, value: JsonTree) -> JsonTree {
        match self {
            JsonTree::Object(members) => JsonTree::Object(members.insert(name, value)),
            _ => self,
        }
    }

    /// The document without that member, where it is an object; any other document as it is.
    pub open spec fn without_field(self, name: Seq<char>) -> JsonTree {
        match self {
            JsonTree::Object(members) => JsonTree::Object(members.remove(name)),
            _ => self,
        }
    }
}

/// Setting a member to the value that it has changes nothing.
pub proof fn lemma_with_own_field(document: JsonTree, name: Seq<char>)
    ensures
        document.field(name) matches Some(value) ==> document.with_field(name, value) == document,
{
    if let JsonTree::Object(members) = document {
        if members.dom().contains(name) {
            assert(members.insert(name, members[name]) =~= members);
        }
    }
}

/// A JSON document. Its view is the [`JsonTree`] that it stands for.
#[derive(Debug)]
pub enum Json {
    Null,
    Bool(bool),
    Number(serde_json::Number),
    Text(String),
    Array(Vec<Json>),
    Object(JsonMap),
}

/// The members of a JSON object. Its view is the map from member names to documents. Of entries
/// with one name the first counts, so every list of entries stands for an object.
#[derive(Debug)]
pub struct JsonMap {
    entries: Vec<(String, Json)>,
}

/// The map that a list of pairs stands for: of pairs with one name, the first counts.
pub open spec fn first_wins(pairs: Seq<(Seq<char>, JsonTree)>) -> Map<Seq<char>, JsonTree>
    decreases pairs.len(),
{
    if pairs.len() == 0 {
        Map::empty()
    } else {
        first_wins(pairs.drop_first()).insert(pairs[0].0, pairs[0].1)
    }
}

/// The trees of a list of documents.
pub open spec fn trees(items: Seq<Json>) -> Seq<JsonTree>
    decreases items,
{
    Seq::new(
        items.len(),
        |i: int|
            if 0 <= i < items.len() {
                items[i].tree()
            } else {
                JsonTree::Null
            },
    )
}

/// The names and trees of a list of object members.
pub open spec fn named_trees(entries: Seq<(String, Json)>) -> Seq<(Seq<char>, JsonTree)>
    decreases entries,
{
    Seq::new(
        entries.len(),
        |i: int|
            if 0 <= i < entries.len() {
                (entries[i].0@, entries[i].1.tree())
            } else {
                (Seq::empty(), JsonTree::Null)
            },
    )
}

impl Json {
    /// What the document is.
    pub open spec fn tree(self) -> JsonTree
        decreases self,
    {
        match self {
            Json::Null => JsonTree::Null,
            Json::Bool(flag) => JsonTree::Bool(flag),
            Json::Number(number) => JsonTree::Number(number),
            Json::Text(text) => JsonTree::Text(text@),
            Json::Array(items) => JsonTree::Array(trees(items@)),
            Json::Object(members) => JsonTree::Object(members.members()),
        }
    }
}

impl JsonMap {
    /// What the members are.
    pub closed spec fn members(self) -> Map<Seq<char>, JsonTree>
        decreases self,
    {
        first_wins(named_trees(self.entries@))
    }
}

impl View for Json {
    type V = JsonTree;

    open spec fn view(&self) -> JsonTree {
        self.tree()
    }
}

impl View for JsonMap {
    type V = Map<Seq<char>, JsonTree>;

    open spec fn view(&self) -> Map<Seq<char>, JsonTree> {
        self.members()
    }
}

pub(crate) proof fn lemma_first_wins_at(pairs: Seq<(Seq<char>, JsonTree)>, i: int)
    requires
        0 <= i < pairs.len(),
        forall|j: int| 0 <= j < i ==> (#[trigger] pairs[j]).0 != pairs[i].0,
    ensures
        first_wins(pairs).dom().contains(pairs[i].0),
        first_wins(pairs)[pairs[i].0] == pairs[i].1,
    decreases pairs.len(),
{
    if i > 0 {
        let rest = pairs.drop_first();
        assert forall|j: int| 0 <= j < i - 1 implies (#[trigger] rest[j]).0 != rest[i - 1].0 by {
            assert(rest[j] == pairs[j + 1]);
        }
        lemma_first_wins_at(rest, i - 1);
        assert(pairs[0].0 != pairs[i].0);
    }
}

pub(crate) proof fn lemma_first_wins_absent(pairs: Seq<(Seq<char>, JsonTree)>, name: Seq<char>)
    requires
        forall|j: int| 0 <= j < pairs.len() ==> (#[trigger] pairs[j]).0 != name,
    ensures
        !first_wins(pairs).dom().contains(name),
    decreases pairs.len(),
{
    if pairs.len() > 0 {
        let rest = pairs.drop_first();
        assert forall|j: int| 0 <= j < rest.len() implies (#[trigger] rest[j]).0 != name by {
            assert(rest[j] == pairs[j + 1]);
        }
        lemma_first_wins_absent(rest, name);
        assert(pairs[0].0 != name);
    }
}

proof fn lemma_first_wins_update(pairs: Seq<(Seq<char>, JsonTree)>, i: int, value: JsonTree)
    requires
        0 <= i < pairs.len(),
        forall|j: int| 0 <= j < i ==> (#[trigger] pairs[j]).0 != pairs[i].0,
    ensures
        first_wins(pairs.update(i, (pairs[i].0, value))) == first_wins(pairs).insert(
            pairs[i].0,
            value,
        ),
    decreases pairs.len(),
{
    let updated = pairs.update(i, (pairs[i].0, value));
    let rest = pairs.drop_first();
    if i == 0 {
        assert(updated.drop_first() =~= rest);
    } else {
        assert forall|j: int| 0 <= j < i - 1 implies (#[trigger] rest[j]).0 != rest[i - 1].0 by {
            assert(rest[j] == pairs[j + 1]);
        }
        lemma_first_wins_update(rest, i - 1, value);
        assert(updated.drop_first() =~= rest.update(i - 1, (pairs[i].0, value)));
        assert(pairs[0].0 != pairs[i].0);
    }
    assert(first_wins(updated) =~= first_wins(pairs).insert(pairs[i].0, value));
}

proof fn lemma_first_wins_push(pairs: Seq<(Seq<char>, JsonTree)>, pair: (Seq<char>, JsonTree))
    requires
        forall|j: int| 0 <= j < pairs.len() ==> (#[trigger] pairs[j]).0 != pair.0,
    ensures
        first_wins(pairs.push(pair)) == first_wins(pairs).insert(pair.0, pair.1),
    decreases pairs.len(),
{
    let pushed = pairs.push(pair);
    if pairs.len() == 0 {
        assert(pushed.drop_first() =~= pairs);
    } else {
        let rest = pairs.drop_first();
        assert forall|j: int| 0 <= j < rest.len() implies (#[trigger] rest[j]).0 != pair.0 by {
            assert(rest[j] == pairs[j + 1]);
        }
        lemma_first_wins_push(rest, pair);
        assert(pushed.drop_first() =~= rest.push(pair));
        assert(pairs[0].0 != pair.0);
    }
    assert(first_wins(pushed) =~= first_wins(pairs).insert(pair.0, pair.1));
}

proof fn lemma_first_wins_remove(pairs: Seq<(Seq<char>, JsonTree)>, i: int)
    requires
        0 <= i < pairs.len(),
    ensures
        first_wins(pairs.remove(i)).remove(pairs[i].0) == first_wins(pairs).remove(pairs[i].0),
    decreases pairs.len(),
{
    let shorter = pairs.remove(i);
    let rest = pairs.drop_first();
    if i == 0 {
        assert(shorter =~= rest);
    } else {
        lemma_first_wins_remove(rest, i - 1);
        assert(shorter.drop_first() =~= rest.remove(i - 1));
        assert(rest[i - 1] == pairs[i]);
        assert(first_wins(shorter).remove(pairs[i].0) =~= first_wins(shorter.drop_first()).remove(
            pairs[i].0,
        ).insert(pairs[0].0, pairs[0].1).remove(pairs[i].0));
        assert(first_wins(pairs).remove(pairs[i].0) =~= first_wins(rest).remove(pairs[i].0).insert(
            pairs[0].0,
            pairs[0].1,
        ).remove(pairs[i].0));
    }
    assert(first_wins(shorter).remove(pairs[i].0) =~= first_wins(pairs).remove(pairs[i].0));
}

impl JsonMap {
    /// An object without members.
    pub fn new() -> (map: JsonMap)
        ensures
            map@ == Map::<Seq<char>, JsonTree>::empty(),
    {
        JsonMap { entries: Vec::new() }
    }

    /// The place of the first entry of that name.
    fn find(&self, name: &str) -> (found: Option<usize>)
        ensures
            match found {
                Some(i) => {
                    &&& i < self.entries@.len()
                    &&& self.entries@[i as int].0@ == name@
                    &&& forall|j: int| 0 <= j < i ==> (#[trigger] self.entries@[j]).0@ != name@
                    &&& self@.dom().contains(name@)
                    &&& self@[name@] == self.entries@[i as int].1@
                },
                None => {
                    &&& forall|j: int|
                        0 <= j < self.entries@.len() ==> (#[trigger] self.entries@[j]).0@ != name@
                    &&& !self@.dom().contains(name@)
                },
            },
    {
        let wanted: String = name.to_string();
        let mut i: usize = 0;
        while i < self.entries.len()
            invariant
                i <= self.entries@.len(),
                wanted@ == name@,
                forall|j: int| 0 <= j < i ==> (#[trigger] self.entries@[j]).0@ != name@,
            decreases self.entries@.len() - i,
        {
            if self.entries[i].0 == wanted {
                proof {
                    lemma_first_wins_at(named_trees(self.entries@), i as int);
                }
                return Some(i);
            }
            i += 1;
        }
        proof {
            lemma_first_wins_absent(named_trees(self.entries@), name@);
        }
        None
    }

    /// The member of that name.
    pub fn get(&self, name: &str) -> (found: Option<&Json>)
        ensures
            match found {
                Some(value) => self@.dom().contains(name@) && value@ == self@[name@],
                None => !self@.dom().contains(name@),
            },
    {
        match self.find(name) {
            Some(i) => Some(&self.entries[i].1),
            None => None,
        }
    }

    /// The member of that name, for changing it in place.
    pub fn get_mut(&mut self, name: &str) -> (found: Option<&mut Json>)
        ensures
            match found {
                Some(value) => {
                    &&& old(self)@.dom().contains(name@)
                    &&& value@ == old(self)@[name@]
                    &&& final(self)@ == old(self)@.insert(name@, final(value)@)
                },
                None => !old(self)@.dom().contains(name@) && final(self)@ == old(self)@,
            },
    {
        match self.find(name) {
            Some(i) => {
                let ghost before = self.entries@;
                assert forall|entry: (String, Json)| entry.0@ == name@ implies first_wins(
                    named_trees(#[trigger] before.update(i as int, entry)),
                ) == old(self)@.insert(name@, entry.1@) by {
                    lemma_first_wins_update(named_trees(before), i as int, entry.1@);
                    assert(named_trees(before.update(i as int, entry)) =~= named_trees(
                        before,
                    ).update(i as int, (name@, entry.1@)));
                }
                let entry = &mut self.entries[i];
                let value = &mut entry.1;
                Some(value)
            },
            None => None,
        }
    }

    /// Whether there is a member of that name.
    pub fn contains_key(&self, name: &str) -> (found: bool)
        ensures
            found == self@.dom().contains(name@),
    {
        self.find(name).is_some()
    }

    /// Whether there is no member at all.
    pub fn is_empty(&self) -> (empty: bool)
        ensures
            empty == (self@ == Map::<Seq<char>, JsonTree>::empty()),
    {
        proof {
            if self.entries@.len() > 0 {
                assert(self@.dom().contains(self.entries@[0].0@));
            }
        }
        self.entries.len() == 0
    }

    /// Gives the member of that name this value, and adds the member where there was none.
    pub fn insert(&mut self, name: String, value: Json)
        ensures
            final(self)@ == old(self)@.insert(name@, value@),
    {
        match self.find(name.as_str()) {
            Some(i) => {
                proof {
                    lemma_first_wins_update(named_trees(self.entries@), i as int, value@);
                }
                self.entries[i].1 = value;
                assert(named_trees(self.entries@) =~= named_trees(old(self).entries@).update(
                    i as int,
                    (name@, value@),
                ));
            },
            None => {
                proof {
                    lemma_first_wins_push(named_trees(self.entries@), (name@, value@));
                }
                self.entries.push((name, value));
                assert(named_trees(self.entries@) =~= named_trees(old(self).entries@).push(
                    (name@, value@),
                ));
            },
        }
    }

    /// Takes the member of that name out.
    pub fn remove(&mut self, name: &str)
        ensures
            final(self)@ == old(self)@.remove(name@),
    {
        loop
            invariant
                self@.remove(name@) == old(self)@.remove(name@),
            ensures
                self@ == old(self)@.remove(name@),
            decreases self.entries@.len(),
        {
            match self.find(name) {
                Some(i) => {
                    proof {
                        lemma_first_wins_remove(named_trees(self.entries@), i as int);
                    }
                    let ghost before = named_trees(self.entries@);
                    self.entries.remove(i);
                    assert(named_trees(self.entries@) =~= before.remove(i as int));
                },
                None => {
                    assert(self@.remove(name@) =~= self@);
                    break;
                },
            }
        }
    }
}

impl Json {
    /// The member of that name, where the document is an object that has one.
    pub fn get(&self, name: &str) -> (found: Option<&Json>)
        ensures
            match found {
                Some(value) => self@.field(name@) == Some(value@),
                None => self@.field(name@) is None,
            },
    {
        match self {
            Json::Object(members) => members.get(name),
            _ => None,
        }
    }

    /// The member of that name, for changing it in place.
    pub fn get_mut(&mut self, name: &str) -> (found: Option<&mut Json>)
        ensures
            match found {
                Some(value) => {
                    &&& old(self)@.field(name@) == Some(value@)
                    &&& final(self)@ == old(self)@.with_field(name@, final(value)@)
                },
                None => old(self)@.field(name@) is None && final(self)@ == old(self)@,
            },
    {
        match self {
            Json::Object(members) => members.get_mut(name),
            _ => None,
        }
    }

    /// The text, where the document is one.
    pub fn as_str(&self) -> (found: Option<&str>)
        ensures
            match found {
                Some(text) => self@ == JsonTree::Text(text@),
                None => !(self@ is Text),
            },
    {
        match self {
            Json::Text(text) => Some(text.as_str()),
            _ => None,
        }
    }

    /// The truth value, where the document is one.
    pub fn as_bool(&self) -> (found: Option<bool>)
        ensures
            match found {
                Some(flag) => self@ == JsonTree::Bool(flag),
                None => !(self@ is Bool),
            },
    {
        match self {
            Json::Bool(flag) => Some(*flag),
            _ => None,
        }
    }

    /// The items, where the document is an array.
    pub fn as_array(&self) -> (found: Option<&Vec<Json>>)
        ensures
            match found {
                Some(items) => self@ == JsonTree::Array(trees(items@)),
                None => !(self@ is Array),
            },
    {
        match self {
            Json::Array(items) => Some(items),
            _ => None,
        }
    }

    /// Whether the document is this text.
    pub fn is_text(&self, text: &str) -> (same: bool)
        ensures
            same == (self@ == JsonTree::Text(text@)),
    {
        match self {
            Json::Text(own) => *own == text.to_string(),
            _ => false,
        }
    }
}

proof fn lemma_first_wins_finite(pairs: Seq<(Seq<char>, JsonTree)>)
    ensures
        first_wins(pairs).dom().finite(),
    decreases pairs.len(),
{
    if pairs.len() > 0 {
        lemma_first_wins_finite(pairs.drop_first());
    }
}

impl Json {
    /// The document that a value of `serde_json` holds.
    pub fn from_value(value: Value) -> (document: Json)
        ensures
            document@ == value_tree(value),
        decreases value_tree(value),
    {
        match open_value(value) {
            Shape::Null => Json::Null,
            Shape::Bool(flag) => Json::Bool(flag),
            Shape::Number(number) => Json::Number(number),
            Shape::Text(text) => Json::Text(text),
            Shape::Array(values) => {
                let ghost all = values@;
                let mut items: Vec<Json> = Vec::new();
                for item in iter: values
                    invariant
                        iter.seq() == all,
                        value_tree(value) == JsonTree::Array(
                            all.map_values(|item: Value| value_tree(item)),
                        ),
                        items@.len() == iter.index(),
                        forall|i: int|
                            0 <= i < items@.len() ==> (#[trigger] items@[i])@ == value_tree(all[i]),
                {
                    proof {
                        let mapped = all.map_values(|item: Value| value_tree(item));
                        assert(mapped[iter.index()] == value_tree(item));
                        assert(decreases_to!(value_tree(value) => value_tree(value)->Array_0));
                        assert(decreases_to!(mapped => mapped[iter.index()]));
                    }
                    items.push(Json::from_value(item));
                }
                assert(trees(items@) =~= all.map_values(|item: Value| value_tree(item)));
                Json::Array(items)
            },
            Shape::Object(map) => {
                let values = map_entries(map);
                let ghost all = values@;
                let mut entries: Vec<(String, Json)> = Vec::new();
                for entry in iter: values
                    invariant
                        iter.seq() == all,
                        value_tree(value) == JsonTree::Object(first_wins(value_pairs(all))),
                        forall|i: int, j: int|
                            0 <= i < j < all.len() ==> (#[trigger] all[i]).0@ != (
                            #[trigger] all[j]).0@,
                        entries@.len() == iter.index(),
                        forall|i: int|
                            0 <= i < entries@.len() ==> (#[trigger] entries@[i]).0@ == all[i].0@
                                && entries@[i].1@ == value_tree(all[i].1),
                {
                    proof {
                        let pairs = value_pairs(all);
                        let members = first_wins(pairs);
                        lemma_first_wins_at(pairs, iter.index());
                        lemma_first_wins_finite(pairs);
                        assert(members[entry.0@] == value_tree(entry.1));
                        assert(decreases_to!(value_tree(value) => value_tree(value)->Object_0));
                        assert(decreases_to!(members => members[entry.0@]));
                    }
                    let (name, member) = entry;
                    entries.push((name, Json::from_value(member)));
                }
                assert(named_trees(entries@) =~= value_pairs(all));
                Json::Object(JsonMap { entries })
            },
        }
    }

    /// The document as a value of `serde_json`.
    pub fn to_value(&self) -> (value: Value)
        ensures
            value_tree(value) == self@,
        decreases self,
    {
        match self {
            Json::Null => close_value(Shape::Null),
            Json::Bool(flag) => close_value(Shape::Bool(*flag)),
            Json::Number(number) => close_value(Shape::Number(number.clone())),
            Json::Text(text) => close_value(Shape::Text(text.clone())),
            Json::Array(items) => {
                let mut values: Vec<Value> = Vec::new();
                let mut i: usize = 0;
                while i < items.len()
                    invariant
                        *self == Json::Array(*items),
                        i <= items@.len(),
                        values@.len() == i,
                        forall|j: int|
                            0 <= j < i ==> value_tree(#[trigger] values@[j]) == items@[j]@,
                    decreases items@.len() - i,
                {
                    assert(decreases_to!(self => self->Array_0));
                    assert(decreases_to!(items@ => items@[i as int]));
                    values.push(items[i].to_value());
                    i += 1;
                }
                assert(values@.map_values(|item: Value| value_tree(item)) =~= trees(items@));
                close_value(Shape::Array(values))
            },
            Json::Object(members) => close_value(Shape::Object(members.to_map())),
        }
    }

    /// Reads a document as `serde_json` reads it. The error is the text that `serde_json` gives.
    pub fn parse(bytes: &[u8]) -> (outcome: Result<Json, String>)
        ensures
            match outcome {
                Ok(document) => parsed_json(bytes@) == Ok::<JsonTree, Seq<char>>(document@),
                Err(message) => parsed_json(bytes@) == Err::<JsonTree, Seq<char>>(message@),
            },
    {
        match parse_value(bytes) {
            Ok(value) => Ok(Json::from_value(value)),
            Err(message) => Err(message),
        }
    }
}

impl JsonMap {
    /// The members as an object of `serde_json`.
    fn to_map(&self) -> (map: serde_json::Map<String, Value>)
        ensures
            map_tree(map) == self@,
        decreases self,
    {
        let mut map = serde_json::Map::new();
        let mut i: usize = self.entries.len();
        let ghost pairs = named_trees(self.entries@);
        while i > 0
            invariant
                i <= self.entries@.len(),
                pairs == named_trees(self.entries@),
                map_tree(map) == first_wins(pairs.skip(i as int)),
            decreases i,
        {
            i -= 1;
            map.insert(self.entries[i].0.clone(), self.entries[i].1.to_value());
            assert(pairs.skip(i as int).drop_first() =~= pairs.skip(i as int + 1));
        }
        assert(pairs.skip(0) =~= pairs);
        map
    }
}

} // verus!
