//! The value tree: what a JSON document is in memory.

use vstd::prelude::*;
use crate::codegen::to_json::{
    lemma_nesting_of_items, lemma_nesting_of_items_bound, lemma_nesting_of_members,
    lemma_nesting_of_members_bound, ToJson,
};
use crate::codegen::{DumpGenerator, Generator, PrettyGenerator};
use crate::entries::{distinct_keys, lemma_position, lemma_position_same_keys, lookup};
use crate::model::{json_eq, nesting, render, Json};
use crate::text::str_eq;
use crate::number::Number;
use crate::object::StrMap;
use crate::short::Short;

pub mod implements;

verus! {

/// A JSON object: a map from member names to values.
pub type Object = StrMap<JsonValue>;

/// A JSON value.
#[derive(Debug)]
pub enum JsonValue {
    Null,
    /// A string that is short enough to be stored inline.
    Short(Short),
    String(String),
    Number(Number),
    Boolean(bool),
    Object(Object),
    Array(Vec<JsonValue>),
}

/// The document that a value stands for.
pub open spec fn model_of(value: JsonValue) -> Json
    decreases value,
{
    match value {
        JsonValue::Null => Json::Null,
        JsonValue::Short(short) => Json::String(short@),
        JsonValue::String(string) => Json::String(string@),
        JsonValue::Number(number) => Json::Number(number@),
        JsonValue::Boolean(flag) => Json::Bool(flag),
        JsonValue::Object(object) => Json::Object(
            Seq::new(
                object@.len(),
                |i: int|
                    if 0 <= i < object@.len() {
                        proof {
                            object.lemma_value_decreases(i);
                        }
                        (object@[i].0, model_of(object@[i].1))
                    } else {
                        (Seq::empty(), Json::Null)
                    },
            ),
        ),
        JsonValue::Array(items) => Json::Array(
            Seq::new(
                items@.len(),
                |i: int|
                    if 0 <= i < items@.len() {
                        model_of(items@[i])
                    } else {
                        Json::Null
                    },
            ),
        ),
    }
}

impl View for JsonValue {
    type V = Json;

    open spec fn view(&self) -> Json {
        model_of(*self)
    }
}

impl Default for JsonValue {
    fn default() -> (value: JsonValue)
        ensures
            value == JsonValue::Null,
    {
        JsonValue::Null
    }
}

/// The members that the entries of an object stand for.
pub open spec fn members_of(entries: Seq<(Seq<char>, JsonValue)>) -> Seq<(Seq<char>, Json)> {
    Seq::new(entries.len(), |i: int| (entries[i].0, entries[i].1@))
}

/// The items that the items of an array stand for.
pub open spec fn items_of(items: Seq<JsonValue>) -> Seq<Json> {
    Seq::new(items.len(), |i: int| items[i]@)
}

/// What an object stands for, said with `members_of`.
pub proof fn lemma_object_model(object: Object)
    ensures
        JsonValue::Object(object)@ == Json::Object(members_of(object@)),
{
    assert(JsonValue::Object(object)@->Object_0 =~= members_of(object@));
}

/// What an array stands for, said with `items_of`.
pub proof fn lemma_array_model(items: Vec<JsonValue>)
    ensures
        JsonValue::Array(items)@ == Json::Array(items_of(items@)),
{
    assert(JsonValue::Array(items)@->Array_0 =~= items_of(items@));
}

impl Clone for JsonValue {
    /// A copy that stands for the same document.
    fn clone(&self) -> (copy: JsonValue)
        ensures
            copy@ == self@,
        decreases self,
    {
        match self {
            JsonValue::Null => JsonValue::Null,
            JsonValue::Short(short) => JsonValue::Short(*short),
            JsonValue::String(string) => JsonValue::String(string.clone()),
            JsonValue::Number(number) => JsonValue::Number(*number),
            JsonValue::Boolean(flag) => JsonValue::Boolean(*flag),
            JsonValue::Object(object) => {
                let ghost entries = object@;
                let mut copy: Object = StrMap::with_capacity(object.len());
                let mut iter = object.iter();
                let ghost mut i: nat = 0;
                loop
                    invariant
                        i <= entries.len(),
                        entries == object@,
                        distinct_keys(entries),
                        *self == JsonValue::Object(*object),
                        iter@ == entries.skip(i as int),
                        copy@.len() == i,
                        forall|j: int|
                            0 <= j < i ==> (#[trigger] copy@[j]).0 == entries[j].0 && copy@[j].1@
                                == entries[j].1@,
                    ensures
                        i == entries.len(),
                    decreases entries.len() - i,
                {
                    match iter.next() {
                        Some((key, value)) => {
                            assert(entries.skip(i as int).first() == entries[i as int]);
                            assert(entries.skip(i as int).drop_first() =~= entries.skip(
                                i as int + 1,
                            ));
                            proof {
                                object.lemma_value_decreases(i as int);
                                lemma_position(copy@, key@);
                                assert(decreases_to!(*self => self->Object_0));
                            }
                            copy.insert(key, value.clone());
                            proof {
                                i = i + 1;
                            }
                        },
                        None => {
                            break ;
                        },
                    }
                }
                proof {
                    lemma_object_model(*object);
                    lemma_object_model(copy);
                    assert(members_of(copy@) =~= members_of(object@));
                }
                JsonValue::Object(copy)
            },
            JsonValue::Array(items) => {
                let mut copy: Vec<JsonValue> = Vec::with_capacity(items.len());
                let mut i: usize = 0;
                while i < items.len()
                    invariant
                        i <= items@.len(),
                        *self == JsonValue::Array(*items),
                        copy@.len() == i,
                        forall|j: int| 0 <= j < i ==> (#[trigger] copy@[j])@ == items@[j]@,
                    decreases items@.len() - i,
                {
                    assert(decreases_to!(*self => self->Array_0));
                    copy.push(items[i].clone());
                    i += 1;
                }
                proof {
                    lemma_array_model(*items);
                    lemma_array_model(copy);
                    assert(items_of(copy@) =~= items_of(items@));
                }
                JsonValue::Array(copy)
            },
        }
    }
}

impl JsonValue {
    /// The compact text of the value.
    pub fn dump(&self) -> (text: String)
        ensures
            text@ == render(self@, None, 0),
    {
        let mut gen = DumpGenerator::new();
        let _ = self.generate(&mut gen);
        assert(gen.sink().text =~= render(self@, None, 0));
        gen.consume()
    }

    /// Whether the value opens at most `limit` levels of nesting, which is
    /// what `pretty` asks for with a limit of `u16::MAX`.
    pub fn nests_within(&self, limit: u16) -> (within: bool)
        ensures
            within == (nesting(self@) <= limit),
        decreases self,
    {
        match self {
            JsonValue::Array(items) => {
                proof {
                    lemma_array_model(*items);
                    assert(decreases_to!(*self => self->Array_0));
                }
                if items.len() == 0 {
                    return true;
                }
                if limit == 0 {
                    return false;
                }
                let ghost all = items_of(items@);
                let mut i: usize = 0;
                while i < items.len()
                    invariant
                        i <= items@.len(),
                        limit > 0,
                        *self == JsonValue::Array(*items),
                        self@ == Json::Array(all),
                        all == items_of(items@),
                        forall|j: int| 0 <= j < i ==> nesting(#[trigger] all[j]) <= limit - 1,
                    decreases items@.len() - i,
                {
                    assert(decreases_to!(*self => self->Array_0));
                    if !items[i].nests_within(limit - 1) {
                        proof {
                            lemma_nesting_of_items(all, all.len(), i as int);
                        }
                        return false;
                    }
                    i += 1;
                }
                proof {
                    lemma_nesting_of_items_bound(all, all.len(), (limit - 1) as nat);
                }
                true
            },
            JsonValue::Object(object) => {
                proof {
                    lemma_object_model(*object);
                    assert(decreases_to!(*self => self->Object_0));
                }
                if object.len() == 0 {
                    return true;
                }
                if limit == 0 {
                    return false;
                }
                let ghost entries = object@;
                let ghost all = members_of(object@);
                let mut iter = object.iter();
                let ghost mut i: nat = 0;
                loop
                    invariant
                        i <= entries.len(),
                        limit > 0,
                        entries == object@,
                        all == members_of(object@),
                        *self == JsonValue::Object(*object),
                        self@ == Json::Object(all),
                        iter@ == entries.skip(i as int),
                        forall|j: int| 0 <= j < i ==> nesting((#[trigger] all[j]).1) <= limit - 1,
                    ensures
                        i == entries.len(),
                    decreases entries.len() - i,
                {
                    match iter.next() {
                        Some((_, value)) => {
                            assert(entries.skip(i as int).first() == entries[i as int]);
                            assert(entries.skip(i as int).drop_first() =~= entries.skip(
                                i as int + 1,
                            ));
                            proof {
                                object.lemma_value_decreases(i as int);
                                assert(decreases_to!(*self => self->Object_0));
                                assert(all[i as int].1 == value@);
                            }
                            if !value.nests_within(limit - 1) {
                                proof {
                                    lemma_nesting_of_members(all, all.len(), i as int);
                                }
                                return false;
                            }
                            proof {
                                i = i + 1;
                            }
                        },
                        None => {
                            break ;
                        },
                    }
                }
                proof {
                    lemma_nesting_of_members_bound(all, all.len(), (limit - 1) as nat);
                }
                true
            },
            _ => true,
        }
    }

    /// The text of the value, indented by `spaces` spaces for each level of
    /// nesting. The levels are counted in 16 bits.
    pub fn pretty(&self, spaces: u16) -> (text: String)
        requires
            nesting(self@) <= u16::MAX,
        ensures
            text@ == render(self@, Some(spaces as nat), 0),
    {
        let mut gen = PrettyGenerator::new(spaces);
        let _ = self.generate(&mut gen);
        assert(gen.sink().text =~= render(self@, Some(spaces as nat), 0));
        gen.consume()
    }
}

/// Whether two objects are equal: they have equally many members, and every
/// member of the first has an equal one of the same name in the second.
pub fn object_eq(a: &Object, b: &Object) -> (same: bool)
    ensures
        same == json_eq(Json::Object(members_of(a@)), Json::Object(members_of(b@))),
    decreases a,
{
    if a.len() != b.len() {
        return false;
    }
    let ghost entries = a@;
    let ghost ours = members_of(a@);
    let ghost theirs = members_of(b@);
    let mut iter = a.iter();
    let ghost mut i: nat = 0;
    loop
        invariant
            i <= entries.len(),
            entries == a@,
            ours == members_of(a@),
            theirs == members_of(b@),
            iter@ == entries.skip(i as int),
            a@.len() == b@.len(),
            forall|j: int|
                0 <= j < i ==> match lookup(theirs, (#[trigger] ours[j]).0) {
                    Some(y) => json_eq(ours[j].1, y),
                    None => false,
                },
        ensures
            i == entries.len(),
        decreases entries.len() - i,
    {
        match iter.next() {
            Some((key, value)) => {
                assert(entries.skip(i as int).first() == entries[i as int]);
                assert(entries.skip(i as int).drop_first() =~= entries.skip(i as int + 1));
                proof {
                    a.lemma_value_decreases(i as int);
                    lemma_position_same_keys(b@, theirs, key@);
                    lemma_position(b@, key@);
                    assert(ours[i as int] == (key@, value@));
                }
                match b.get(key) {
                    Some(their_value) => {
                        assert(lookup(theirs, ours[i as int].0) == Some(their_value@));
                        if !value.eq(their_value) {
                            return false;
                        }
                    },
                    None => {
                        assert(lookup(theirs, ours[i as int].0) is None);
                        return false;
                    },
                }
                proof {
                    i = i + 1;
                }
            },
            None => {
                break ;
            },
        }
    }
    true
}

impl PartialEq for JsonValue {
    /// Values are equal if they stand for equal documents. A short string
    /// equals a string of the same text, and the members of an object are
    /// compared by name, whatever their order.
    fn eq(&self, other: &JsonValue) -> (same: bool)
        decreases self,
    {
        match (self, other) {
            (JsonValue::Null, JsonValue::Null) => true,
            (JsonValue::Short(a), JsonValue::Short(b)) => str_eq(a.as_str(), b.as_str()),
            (JsonValue::String(a), JsonValue::String(b)) => str_eq(a.as_str(), b.as_str()),
            (JsonValue::Short(a), JsonValue::String(b)) => str_eq(a.as_str(), b.as_str()),
            (JsonValue::String(a), JsonValue::Short(b)) => str_eq(a.as_str(), b.as_str()),
            (JsonValue::Number(a), JsonValue::Number(b)) => a == b,
            (JsonValue::Boolean(a), JsonValue::Boolean(b)) => *a == *b,
            (JsonValue::Object(a), JsonValue::Object(b)) => {
                proof {
                    lemma_object_model(*a);
                    lemma_object_model(*b);
                    assert(decreases_to!(*self => self->Object_0));
                }
                object_eq(a, b)
            },
            (JsonValue::Array(a), JsonValue::Array(b)) => {
                proof {
                    lemma_array_model(*a);
                    lemma_array_model(*b);
                }
                if a.len() != b.len() {
                    return false;
                }
                let mut i: usize = 0;
                while i < a.len()
                    invariant
                        i <= a@.len(),
                        a@.len() == b@.len(),
                        *self == JsonValue::Array(*a),
                        self@ == Json::Array(items_of(a@)),
                        other@ == Json::Array(items_of(b@)),
                        forall|j: int|
                            0 <= j < i ==> json_eq(
                                #[trigger] items_of(a@)[j],
                                items_of(b@)[j],
                            ),
                    decreases a@.len() - i,
                {
                    assert(decreases_to!(*self => self->Array_0));
                    if !a[i].eq(&b[i]) {
                        assert(!json_eq(items_of(a@)[i as int], items_of(b@)[i as int]));
                        return false;
                    }
                    i += 1;
                }
                true
            },
            _ => false,
        }
    }
}

impl vstd::std_specs::cmp::PartialEqSpecImpl for JsonValue {
    open spec fn obeys_eq_spec() -> bool {
        true
    }

    open spec fn eq_spec(&self, other: &JsonValue) -> bool {
        json_eq(self@, other@)
    }
}

} // verus!
