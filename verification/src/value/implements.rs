//! Conversions into [`JsonValue`] and comparisons of a [`JsonValue`] with
//! plain values.

use vstd::prelude::*;
use vstd::std_specs::cmp::PartialEqSpec;
use vstd::std_specs::convert::{FromSpec, IntoSpec};
use crate::entries::{lemma_position, lookup, upsert};
use crate::model::{json_eq, Json};
use crate::number::Number;
use crate::short::{Short, MAX_LEN};
use crate::text::str_eq;
use crate::value::{lemma_object_model, members_of, object_eq, JsonValue, Object};

verus! {

impl<'a> From<&'a str> for JsonValue {
    /// A string value: a short string if the text fits in one, a string on
    /// the heap otherwise.
    fn from(val: &'a str) -> (value: JsonValue)
        ensures
            value@ == Json::String(val@),
            value is Short <==> Short::fits(val@),
            value is String <==> !Short::fits(val@),
    {
        if val.as_bytes().len() <= MAX_LEN {
            JsonValue::Short(Short::from_slice(val))
        } else {
            JsonValue::String(val.to_owned())
        }
    }
}

impl<'a> vstd::std_specs::convert::FromSpecImpl<&'a str> for JsonValue {
    /// The conversion is specified by the contract of `from` itself.
    open spec fn obeys_from_spec() -> bool {
        false
    }

    open spec fn from_spec(val: &'a str) -> JsonValue {
        JsonValue::Null
    }
}

impl<T: Into<JsonValue>> From<Option<T>> for JsonValue {
    /// The value that `val` holds, or `Null` if it holds none.
    fn from(val: Option<T>) -> (value: JsonValue) {
        match val {
            Some(val) => val.into(),
            None => JsonValue::Null,
        }
    }
}

impl<T: Into<JsonValue>> vstd::std_specs::convert::FromSpecImpl<Option<T>> for JsonValue {
    open spec fn obeys_from_spec() -> bool {
        T::obeys_into_spec()
    }

    open spec fn from_spec(val: Option<T>) -> JsonValue {
        match val {
            Some(val) => val.into_spec(),
            None => JsonValue::Null,
        }
    }
}

impl<T: Into<JsonValue>> From<Vec<T>> for JsonValue {
    /// An array of the values that the items of `val` convert to.
    fn from(val: Vec<T>) -> (value: JsonValue)
        ensures
            value is Array,
            value->Array_0@.len() == val@.len(),
            T::obeys_into_spec() ==> forall|i: int|
                0 <= i < val@.len() ==> #[trigger] value->Array_0@[i] == val@[i].into_spec(),
    {
        let mut val = val;
        let ghost all = val@;
        let mut reversed: Vec<T> = Vec::with_capacity(val.len());
        while val.len() > 0
            invariant
                val@.len() + reversed@.len() == all.len(),
                forall|i: int| 0 <= i < val@.len() ==> val@[i] == all[i],
                forall|i: int|
                    0 <= i < reversed@.len() ==> reversed@[i] == all[all.len() - 1 - i],
            decreases val@.len(),
        {
            match val.pop() {
                Some(item) => reversed.push(item),
                None => {},
            }
        }
        let mut items: Vec<JsonValue> = Vec::with_capacity(reversed.len());
        while reversed.len() > 0
            invariant
                items@.len() + reversed@.len() == all.len(),
                forall|i: int|
                    0 <= i < reversed@.len() ==> reversed@[i] == all[all.len() - 1 - i],
                T::obeys_into_spec() ==> forall|i: int|
                    0 <= i < items@.len() ==> #[trigger] items@[i] == all[i].into_spec(),
            decreases reversed@.len(),
        {
            match reversed.pop() {
                Some(item) => items.push(item.into()),
                None => {},
            }
        }
        JsonValue::Array(items)
    }
}

impl<T: Into<JsonValue>> vstd::std_specs::convert::FromSpecImpl<Vec<T>> for JsonValue {
    /// The conversion is specified by the contract of `from` itself.
    open spec fn obeys_from_spec() -> bool {
        false
    }

    open spec fn from_spec(val: Vec<T>) -> JsonValue {
        JsonValue::Null
    }
}

/// Whether `item` is what some clone of `source` converts to.
pub open spec fn cloned_into<T: Clone + Into<JsonValue>>(source: T, item: JsonValue) -> bool {
    exists|copy: T| #[trigger] cloned(source, copy) && item == copy.into_spec()
}

impl<'a, T: Clone + Into<JsonValue>> From<&'a [T]> for JsonValue {
    /// An array of the values that clones of the items of `val` convert to.
    fn from(val: &'a [T]) -> (value: JsonValue)
        ensures
            value is Array,
            value->Array_0@.len() == val@.len(),
            T::obeys_into_spec() ==> forall|i: int|
                0 <= i < val@.len() ==> #[trigger] cloned_into(val@[i], value->Array_0@[i]),
    {
        let mut items: Vec<JsonValue> = Vec::with_capacity(val.len());
        let mut i: usize = 0;
        while i < val.len()
            invariant
                i <= val@.len(),
                items@.len() == i,
                T::obeys_into_spec() ==> forall|j: int|
                    0 <= j < i ==> #[trigger] cloned_into(val@[j], items@[j]),
            decreases val@.len() - i,
        {
            let copy = val[i].clone();
            let ghost seen = copy;
            let item: JsonValue = copy.into();
            items.push(item);
            proof {
                if T::obeys_into_spec() {
                    assert(cloned(val@[i as int], seen) && items@[i as int] == seen.into_spec());
                    assert(cloned_into(val@[i as int], items@[i as int]));
                }
            }
            i += 1;
        }
        JsonValue::Array(items)
    }
}

impl<'a, T: Clone + Into<JsonValue>> vstd::std_specs::convert::FromSpecImpl<&'a [T]> for JsonValue {
    /// The conversion is specified by the contract of `from` itself.
    open spec fn obeys_from_spec() -> bool {
        false
    }

    open spec fn from_spec(val: &'a [T]) -> JsonValue {
        JsonValue::Null
    }
}

impl<T: Clone + Into<JsonValue>, const N: usize> From<[T; N]> for JsonValue {
    /// An array of the values that clones of the items of `val` convert to.
    fn from(val: [T; N]) -> (value: JsonValue)
        ensures
            value is Array,
            value->Array_0@.len() == N,
            T::obeys_into_spec() ==> forall|i: int|
                0 <= i < N ==> #[trigger] cloned_into(val@[i], value->Array_0@[i]),
    {
        let mut items: Vec<JsonValue> = Vec::with_capacity(N);
        let mut i: usize = 0;
        while i < N
            invariant
                i <= N,
                items@.len() == i,
                T::obeys_into_spec() ==> forall|j: int|
                    0 <= j < i ==> #[trigger] cloned_into(val@[j], items@[j]),
            decreases N - i,
        {
            let copy = val[i].clone();
            let ghost seen = copy;
            let item: JsonValue = copy.into();
            items.push(item);
            proof {
                if T::obeys_into_spec() {
                    assert(cloned(val@[i as int], seen) && items@[i as int] == seen.into_spec());
                    assert(cloned_into(val@[i as int], items@[i as int]));
                }
            }
            i += 1;
        }
        JsonValue::Array(items)
    }
}

impl<T: Clone + Into<JsonValue>, const N: usize> vstd::std_specs::convert::FromSpecImpl<[T; N]> for JsonValue {
    /// The conversion is specified by the contract of `from` itself.
    open spec fn obeys_from_spec() -> bool {
        false
    }

    open spec fn from_spec(val: [T; N]) -> JsonValue {
        JsonValue::Null
    }
}

impl<'a> PartialEq<&'a str> for JsonValue {
    fn eq(&self, other: &&'a str) -> (same: bool) {
        match self {
            JsonValue::Short(value) => str_eq(value.as_str(), *other),
            JsonValue::String(value) => str_eq(value.as_str(), *other),
            _ => false,
        }
    }
}

impl<'a> vstd::std_specs::cmp::PartialEqSpecImpl<&'a str> for JsonValue {
    open spec fn obeys_eq_spec() -> bool {
        true
    }

    open spec fn eq_spec(&self, other: &&'a str) -> bool {
        self@ == Json::String(other@)
    }
}

impl<'a> PartialEq<JsonValue> for &'a str {
    fn eq(&self, other: &JsonValue) -> (same: bool) {
        match other {
            JsonValue::Short(value) => str_eq(value.as_str(), *self),
            JsonValue::String(value) => str_eq(value.as_str(), *self),
            _ => false,
        }
    }
}

impl<'a> vstd::std_specs::cmp::PartialEqSpecImpl<JsonValue> for &'a str {
    open spec fn obeys_eq_spec() -> bool {
        true
    }

    open spec fn eq_spec(&self, other: &JsonValue) -> bool {
        other@ == Json::String(self@)
    }
}

impl PartialEq<str> for JsonValue {
    fn eq(&self, other: &str) -> (same: bool) {
        match self {
            JsonValue::Short(value) => str_eq(value.as_str(), other),
            JsonValue::String(value) => str_eq(value.as_str(), other),
            _ => false,
        }
    }
}

impl vstd::std_specs::cmp::PartialEqSpecImpl<str> for JsonValue {
    open spec fn obeys_eq_spec() -> bool {
        true
    }

    open spec fn eq_spec(&self, other: &str) -> bool {
        self@ == Json::String(other@)
    }
}

impl PartialEq<JsonValue> for str {
    fn eq(&self, other: &JsonValue) -> (same: bool) {
        match other {
            JsonValue::Short(value) => str_eq(value.as_str(), self),
            JsonValue::String(value) => str_eq(value.as_str(), self),
            _ => false,
        }
    }
}

impl vstd::std_specs::cmp::PartialEqSpecImpl<JsonValue> for str {
    open spec fn obeys_eq_spec() -> bool {
        true
    }

    open spec fn eq_spec(&self, other: &JsonValue) -> bool {
        other@ == Json::String(self@)
    }
}

impl From<String> for JsonValue {
    fn from(val: String) -> (value: JsonValue)
        ensures
            value@ == Json::String(val@),
    {
        JsonValue::String(val)
    }
}

impl vstd::std_specs::convert::FromSpecImpl<String> for JsonValue {
    open spec fn obeys_from_spec() -> bool {
        true
    }

    open spec fn from_spec(val: String) -> JsonValue {
        JsonValue::String(val)
    }
}

impl PartialEq<String> for JsonValue {
    fn eq(&self, other: &String) -> (same: bool) {
        match self {
            JsonValue::String(value) => str_eq(value.as_str(), other.as_str()),
            _ => false,
        }
    }
}

impl vstd::std_specs::cmp::PartialEqSpecImpl<String> for JsonValue {
    open spec fn obeys_eq_spec() -> bool {
        true
    }

    open spec fn eq_spec(&self, other: &String) -> bool {
        self is String && self->String_0@ == other@
    }
}

impl<'a> PartialEq<String> for &'a JsonValue {
    fn eq(&self, other: &String) -> (same: bool) {
        match *self {
            JsonValue::String(value) => str_eq(value.as_str(), other.as_str()),
            _ => false,
        }
    }
}

impl<'a> vstd::std_specs::cmp::PartialEqSpecImpl<String> for &'a JsonValue {
    open spec fn obeys_eq_spec() -> bool {
        true
    }

    open spec fn eq_spec(&self, other: &String) -> bool {
        (**self) is String && (**self)->String_0@ == other@
    }
}

impl PartialEq<JsonValue> for String {
    fn eq(&self, other: &JsonValue) -> (same: bool) {
        match other {
            JsonValue::String(value) => str_eq(value.as_str(), self.as_str()),
            _ => false,
        }
    }
}

impl vstd::std_specs::cmp::PartialEqSpecImpl<JsonValue> for String {
    open spec fn obeys_eq_spec() -> bool {
        true
    }

    open spec fn eq_spec(&self, other: &JsonValue) -> bool {
        other is String && other->String_0@ == self@
    }
}

impl From<u8> for JsonValue {
    fn from(val: u8) -> (value: JsonValue)
        ensures
            value@ == Json::Number(val as int),
    {
        JsonValue::Number(Number::from(val))
    }
}

impl vstd::std_specs::convert::FromSpecImpl<u8> for JsonValue {
    open spec fn obeys_from_spec() -> bool {
        true
    }

    open spec fn from_spec(val: u8) -> JsonValue {
        JsonValue::Number(Number::of(val as int))
    }
}

impl PartialEq<u8> for JsonValue {
    fn eq(&self, other: &u8) -> (same: bool) {
        match self {
            JsonValue::Number(value) => *value == Number::from(*other),
            _ => false,
        }
    }
}

impl vstd::std_specs::cmp::PartialEqSpecImpl<u8> for JsonValue {
    open spec fn obeys_eq_spec() -> bool {
        true
    }

    open spec fn eq_spec(&self, other: &u8) -> bool {
        self@ == Json::Number(*other as int)
    }
}

impl<'a> PartialEq<u8> for &'a JsonValue {
    fn eq(&self, other: &u8) -> (same: bool) {
        match *self {
            JsonValue::Number(value) => *value == Number::from(*other),
            _ => false,
        }
    }
}

impl<'a> vstd::std_specs::cmp::PartialEqSpecImpl<u8> for &'a JsonValue {
    open spec fn obeys_eq_spec() -> bool {
        true
    }

    open spec fn eq_spec(&self, other: &u8) -> bool {
        self@ == Json::Number(*other as int)
    }
}

impl PartialEq<JsonValue> for u8 {
    fn eq(&self, other: &JsonValue) -> (same: bool) {
        match other {
            JsonValue::Number(value) => *value == Number::from(*self),
            _ => false,
        }
    }
}

impl vstd::std_specs::cmp::PartialEqSpecImpl<JsonValue> for u8 {
    open spec fn obeys_eq_spec() -> bool {
        true
    }

    open spec fn eq_spec(&self, other: &JsonValue) -> bool {
        other@ == Json::Number(*self as int)
    }
}

impl From<u16> for JsonValue {
    fn from(val: u16) -> (value: JsonValue)
        ensures
            value@ == Json::Number(val as int),
    {
        JsonValue::Number(Number::from(val))
    }
}

impl vstd::std_specs::convert::FromSpecImpl<u16> for JsonValue {
    open spec fn obeys_from_spec() -> bool {
        true
    }

    open spec fn from_spec(val: u16) -> JsonValue {
        JsonValue::Number(Number::of(val as int))
    }
}

impl PartialEq<u16> for JsonValue {
    fn eq(&self, other: &u16) -> (same: bool) {
        match self {
            JsonValue::Number(value) => *value == Number::from(*other),
            _ => false,
        }
    }
}

impl vstd::std_specs::cmp::PartialEqSpecImpl<u16> for JsonValue {
    open spec fn obeys_eq_spec() -> bool {
        true
    }

    open spec fn eq_spec(&self, other: &u16) -> bool {
        self@ == Json::Number(*other as int)
    }
}

impl<'a> PartialEq<u16> for &'a JsonValue {
    fn eq(&self, other: &u16) -> (same: bool) {
        match *self {
            JsonValue::Number(value) => *value == Number::from(*other),
            _ => false,
        }
    }
}

impl<'a> vstd::std_specs::cmp::PartialEqSpecImpl<u16> for &'a JsonValue {
    open spec fn obeys_eq_spec() -> bool {
        true
    }

    open spec fn eq_spec(&self, other: &u16) -> bool {
        self@ == Json::Number(*other as int)
    }
}

impl PartialEq<JsonValue> for u16 {
    fn eq(&self, other: &JsonValue) -> (same: bool) {
        match other {
            JsonValue::Number(value) => *value == Number::from(*self),
            _ => false,
        }
    }
}

impl vstd::std_specs::cmp::PartialEqSpecImpl<JsonValue> for u16 {
    open spec fn obeys_eq_spec() -> bool {
        true
    }

    open spec fn eq_spec(&self, other: &JsonValue) -> bool {
        other@ == Json::Number(*self as int)
    }
}

impl From<u32> for JsonValue {
    fn from(val: u32) -> (value: JsonValue)
        ensures
            value@ == Json::Number(val as int),
    {
        JsonValue::Number(Number::from(val))
    }
}

impl vstd::std_specs::convert::FromSpecImpl<u32> for JsonValue {
    open spec fn obeys_from_spec() -> bool {
        true
    }

    open spec fn from_spec(val: u32) -> JsonValue {
        JsonValue::Number(Number::of(val as int))
    }
}

impl PartialEq<u32> for JsonValue {
    fn eq(&self, other: &u32) -> (same: bool) {
        match self {
            JsonValue::Number(value) => *value == Number::from(*other),
            _ => false,
        }
    }
}

impl vstd::std_specs::cmp::PartialEqSpecImpl<u32> for JsonValue {
    open spec fn obeys_eq_spec() -> bool {
        true
    }

    open spec fn eq_spec(&self, other: &u32) -> bool {
        self@ == Json::Number(*other as int)
    }
}

impl<'a> PartialEq<u32> for &'a JsonValue {
    fn eq(&self, other: &u32) -> (same: bool) {
        match *self {
            JsonValue::Number(value) => *value == Number::from(*other),
            _ => false,
        }
    }
}

impl<'a> vstd::std_specs::cmp::PartialEqSpecImpl<u32> for &'a JsonValue {
    open spec fn obeys_eq_spec() -> bool {
        true
    }

    open spec fn eq_spec(&self, other: &u32) -> bool {
        self@ == Json::Number(*other as int)
    }
}

impl PartialEq<JsonValue> for u32 {
    fn eq(&self, other: &JsonValue) -> (same: bool) {
        match other {
            JsonValue::Number(value) => *value == Number::from(*self),
            _ => false,
        }
    }
}

impl vstd::std_specs::cmp::PartialEqSpecImpl<JsonValue> for u32 {
    open spec fn obeys_eq_spec() -> bool {
        true
    }

    open spec fn eq_spec(&self, other: &JsonValue) -> bool {
        other@ == Json::Number(*self as int)
    }
}

impl From<u64> for JsonValue {
    fn from(val: u64) -> (value: JsonValue)
        ensures
            value@ == Json::Number(val as int),
    {
        JsonValue::Number(Number::from(val))
    }
}

impl vstd::std_specs::convert::FromSpecImpl<u64> for JsonValue {
    open spec fn obeys_from_spec() -> bool {
        true
    }

    open spec fn from_spec(val: u64) -> JsonValue {
        JsonValue::Number(Number::of(val as int))
    }
}

impl PartialEq<u64> for JsonValue {
    fn eq(&self, other: &u64) -> (same: bool) {
        match self {
            JsonValue::Number(value) => *value == Number::from(*other),
            _ => false,
        }
    }
}

impl vstd::std_specs::cmp::PartialEqSpecImpl<u64> for JsonValue {
    open spec fn obeys_eq_spec() -> bool {
        true
    }

    open spec fn eq_spec(&self, other: &u64) -> bool {
        self@ == Json::Number(*other as int)
    }
}

impl<'a> PartialEq<u64> for &'a JsonValue {
    fn eq(&self, other: &u64) -> (same: bool) {
        match *self {
            JsonValue::Number(value) => *value == Number::from(*other),
            _ => false,
        }
    }
}

impl<'a> vstd::std_specs::cmp::PartialEqSpecImpl<u64> for &'a JsonValue {
    open spec fn obeys_eq_spec() -> bool {
        true
    }

    open spec fn eq_spec(&self, other: &u64) -> bool {
        self@ == Json::Number(*other as int)
    }
}

impl PartialEq<JsonValue> for u64 {
    fn eq(&self, other: &JsonValue) -> (same: bool) {
        match other {
            JsonValue::Number(value) => *value == Number::from(*self),
            _ => false,
        }
    }
}

impl vstd::std_specs::cmp::PartialEqSpecImpl<JsonValue> for u64 {
    open spec fn obeys_eq_spec() -> bool {
        true
    }

    open spec fn eq_spec(&self, other: &JsonValue) -> bool {
        other@ == Json::Number(*self as int)
    }
}

impl From<usize> for JsonValue {
    fn from(val: usize) -> (value: JsonValue)
        ensures
            value@ == Json::Number(val as int),
    {
        JsonValue::Number(Number::from(val))
    }
}

impl vstd::std_specs::convert::FromSpecImpl<usize> for JsonValue {
    open spec fn obeys_from_spec() -> bool {
        true
    }

    open spec fn from_spec(val: usize) -> JsonValue {
        JsonValue::Number(Number::of(val as int))
    }
}

impl PartialEq<usize> for JsonValue {
    fn eq(&self, other: &usize) -> (same: bool) {
        match self {
            JsonValue::Number(value) => *value == Number::from(*other),
            _ => false,
        }
    }
}

impl vstd::std_specs::cmp::PartialEqSpecImpl<usize> for JsonValue {
    open spec fn obeys_eq_spec() -> bool {
        true
    }

    open spec fn eq_spec(&self, other: &usize) -> bool {
        self@ == Json::Number(*other as int)
    }
}

impl<'a> PartialEq<usize> for &'a JsonValue {
    fn eq(&self, other: &usize) -> (same: bool) {
        match *self {
            JsonValue::Number(value) => *value == Number::from(*other),
            _ => false,
        }
    }
}

impl<'a> vstd::std_specs::cmp::PartialEqSpecImpl<usize> for &'a JsonValue {
    open spec fn obeys_eq_spec() -> bool {
        true
    }

    open spec fn eq_spec(&self, other: &usize) -> bool {
        self@ == Json::Number(*other as int)
    }
}

impl PartialEq<JsonValue> for usize {
    fn eq(&self, other: &JsonValue) -> (same: bool) {
        match other {
            JsonValue::Number(value) => *value == Number::from(*self),
            _ => false,
        }
    }
}

impl vstd::std_specs::cmp::PartialEqSpecImpl<JsonValue> for usize {
    open spec fn obeys_eq_spec() -> bool {
        true
    }

    open spec fn eq_spec(&self, other: &JsonValue) -> bool {
        other@ == Json::Number(*self as int)
    }
}

impl From<i8> for JsonValue {
    fn from(val: i8) -> (value: JsonValue)
        ensures
            value@ == Json::Number(val as int),
    {
        JsonValue::Number(Number::from(val))
    }
}

impl vstd::std_specs::convert::FromSpecImpl<i8> for JsonValue {
    open spec fn obeys_from_spec() -> bool {
        true
    }

    open spec fn from_spec(val: i8) -> JsonValue {
        JsonValue::Number(Number::of(val as int))
    }
}

impl PartialEq<i8> for JsonValue {
    fn eq(&self, other: &i8) -> (same: bool) {
        match self {
            JsonValue::Number(value) => *value == Number::from(*other),
            _ => false,
        }
    }
}

impl vstd::std_specs::cmp::PartialEqSpecImpl<i8> for JsonValue {
    open spec fn obeys_eq_spec() -> bool {
        true
    }

    open spec fn eq_spec(&self, other: &i8) -> bool {
        self@ == Json::Number(*other as int)
    }
}

impl<'a> PartialEq<i8> for &'a JsonValue {
    fn eq(&self, other: &i8) -> (same: bool) {
        match *self {
            JsonValue::Number(value) => *value == Number::from(*other),
            _ => false,
        }
    }
}

impl<'a> vstd::std_specs::cmp::PartialEqSpecImpl<i8> for &'a JsonValue {
    open spec fn obeys_eq_spec() -> bool {
        true
    }

    open spec fn eq_spec(&self, other: &i8) -> bool {
        self@ == Json::Number(*other as int)
    }
}

impl PartialEq<JsonValue> for i8 {
    fn eq(&self, other: &JsonValue) -> (same: bool) {
        match other {
            JsonValue::Number(value) => *value == Number::from(*self),
            _ => false,
        }
    }
}

impl vstd::std_specs::cmp::PartialEqSpecImpl<JsonValue> for i8 {
    open spec fn obeys_eq_spec() -> bool {
        true
    }

    open spec fn eq_spec(&self, other: &JsonValue) -> bool {
        other@ == Json::Number(*self as int)
    }
}

impl From<i16> for JsonValue {
    fn from(val: i16) -> (value: JsonValue)
        ensures
            value@ == Json::Number(val as int),
    {
        JsonValue::Number(Number::from(val))
    }
}

impl vstd::std_specs::convert::FromSpecImpl<i16> for JsonValue {
    open spec fn obeys_from_spec() -> bool {
        true
    }

    open spec fn from_spec(val: i16) -> JsonValue {
        JsonValue::Number(Number::of(val as int))
    }
}

impl PartialEq<i16> for JsonValue {
    fn eq(&self, other: &i16) -> (same: bool) {
        match self {
            JsonValue::Number(value) => *value == Number::from(*other),
            _ => false,
        }
    }
}

impl vstd::std_specs::cmp::PartialEqSpecImpl<i16> for JsonValue {
    open spec fn obeys_eq_spec() -> bool {
        true
    }

    open spec fn eq_spec(&self, other: &i16) -> bool {
        self@ == Json::Number(*other as int)
    }
}

impl<'a> PartialEq<i16> for &'a JsonValue {
    fn eq(&self, other: &i16) -> (same: bool) {
        match *self {
            JsonValue::Number(value) => *value == Number::from(*other),
            _ => false,
        }
    }
}

impl<'a> vstd::std_specs::cmp::PartialEqSpecImpl<i16> for &'a JsonValue {
    open spec fn obeys_eq_spec() -> bool {
        true
    }

    open spec fn eq_spec(&self, other: &i16) -> bool {
        self@ == Json::Number(*other as int)
    }
}

impl PartialEq<JsonValue> for i16 {
    fn eq(&self, other: &JsonValue) -> (same: bool) {
        match other {
            JsonValue::Number(value) => *value == Number::from(*self),
            _ => false,
        }
    }
}

impl vstd::std_specs::cmp::PartialEqSpecImpl<JsonValue> for i16 {
    open spec fn obeys_eq_spec() -> bool {
        true
    }

    open spec fn eq_spec(&self, other: &JsonValue) -> bool {
        other@ == Json::Number(*self as int)
    }
}

impl From<i32> for JsonValue {
    fn from(val: i32) -> (value: JsonValue)
        ensures
            value@ == Json::Number(val as int),
    {
        JsonValue::Number(Number::from(val))
    }
}

impl vstd::std_specs::convert::FromSpecImpl<i32> for JsonValue {
    open spec fn obeys_from_spec() -> bool {
        true
    }

    open spec fn from_spec(val: i32) -> JsonValue {
        JsonValue::Number(Number::of(val as int))
    }
}

impl PartialEq<i32> for JsonValue {
    fn eq(&self, other: &i32) -> (same: bool) {
        match self {
            JsonValue::Number(value) => *value == Number::from(*other),
            _ => false,
        }
    }
}

impl vstd::std_specs::cmp::PartialEqSpecImpl<i32> for JsonValue {
    open spec fn obeys_eq_spec() -> bool {
        true
    }

    open spec fn eq_spec(&self, other: &i32) -> bool {
        self@ == Json::Number(*other as int)
    }
}

impl<'a> PartialEq<i32> for &'a JsonValue {
    fn eq(&self, other: &i32) -> (same: bool) {
        match *self {
            JsonValue::Number(value) => *value == Number::from(*other),
            _ => false,
        }
    }
}

impl<'a> vstd::std_specs::cmp::PartialEqSpecImpl<i32> for &'a JsonValue {
    open spec fn obeys_eq_spec() -> bool {
        true
    }

    open spec fn eq_spec(&self, other: &i32) -> bool {
        self@ == Json::Number(*other as int)
    }
}

impl PartialEq<JsonValue> for i32 {
    fn eq(&self, other: &JsonValue) -> (same: bool) {
        match other {
            JsonValue::Number(value) => *value == Number::from(*self),
            _ => false,
        }
    }
}

impl vstd::std_specs::cmp::PartialEqSpecImpl<JsonValue> for i32 {
    open spec fn obeys_eq_spec() -> bool {
        true
    }

    open spec fn eq_spec(&self, other: &JsonValue) -> bool {
        other@ == Json::Number(*self as int)
    }
}

impl From<i64> for JsonValue {
    fn from(val: i64) -> (value: JsonValue)
        ensures
            value@ == Json::Number(val as int),
    {
        JsonValue::Number(Number::from(val))
    }
}

impl vstd::std_specs::convert::FromSpecImpl<i64> for JsonValue {
    open spec fn obeys_from_spec() -> bool {
        true
    }

    open spec fn from_spec(val: i64) -> JsonValue {
        JsonValue::Number(Number::of(val as int))
    }
}

impl PartialEq<i64> for JsonValue {
    fn eq(&self, other: &i64) -> (same: bool) {
        match self {
            JsonValue::Number(value) => *value == Number::from(*other),
            _ => false,
        }
    }
}

impl vstd::std_specs::cmp::PartialEqSpecImpl<i64> for JsonValue {
    open spec fn obeys_eq_spec() -> bool {
        true
    }

    open spec fn eq_spec(&self, other: &i64) -> bool {
        self@ == Json::Number(*other as int)
    }
}

impl<'a> PartialEq<i64> for &'a JsonValue {
    fn eq(&self, other: &i64) -> (same: bool) {
        match *self {
            JsonValue::Number(value) => *value == Number::from(*other),
            _ => false,
        }
    }
}

impl<'a> vstd::std_specs::cmp::PartialEqSpecImpl<i64> for &'a JsonValue {
    open spec fn obeys_eq_spec() -> bool {
        true
    }

    open spec fn eq_spec(&self, other: &i64) -> bool {
        self@ == Json::Number(*other as int)
    }
}

impl PartialEq<JsonValue> for i64 {
    fn eq(&self, other: &JsonValue) -> (same: bool) {
        match other {
            JsonValue::Number(value) => *value == Number::from(*self),
            _ => false,
        }
    }
}

impl vstd::std_specs::cmp::PartialEqSpecImpl<JsonValue> for i64 {
    open spec fn obeys_eq_spec() -> bool {
        true
    }

    open spec fn eq_spec(&self, other: &JsonValue) -> bool {
        other@ == Json::Number(*self as int)
    }
}

impl From<isize> for JsonValue {
    fn from(val: isize) -> (value: JsonValue)
        ensures
            value@ == Json::Number(val as int),
    {
        JsonValue::Number(Number::from(val))
    }
}

impl vstd::std_specs::convert::FromSpecImpl<isize> for JsonValue {
    open spec fn obeys_from_spec() -> bool {
        true
    }

    open spec fn from_spec(val: isize) -> JsonValue {
        JsonValue::Number(Number::of(val as int))
    }
}

impl PartialEq<isize> for JsonValue {
    fn eq(&self, other: &isize) -> (same: bool) {
        match self {
            JsonValue::Number(value) => *value == Number::from(*other),
            _ => false,
        }
    }
}

impl vstd::std_specs::cmp::PartialEqSpecImpl<isize> for JsonValue {
    open spec fn obeys_eq_spec() -> bool {
        true
    }

    open spec fn eq_spec(&self, other: &isize) -> bool {
        self@ == Json::Number(*other as int)
    }
}

impl<'a> PartialEq<isize> for &'a JsonValue {
    fn eq(&self, other: &isize) -> (same: bool) {
        match *self {
            JsonValue::Number(value) => *value == Number::from(*other),
            _ => false,
        }
    }
}

impl<'a> vstd::std_specs::cmp::PartialEqSpecImpl<isize> for &'a JsonValue {
    open spec fn obeys_eq_spec() -> bool {
        true
    }

    open spec fn eq_spec(&self, other: &isize) -> bool {
        self@ == Json::Number(*other as int)
    }
}

impl PartialEq<JsonValue> for isize {
    fn eq(&self, other: &JsonValue) -> (same: bool) {
        match other {
            JsonValue::Number(value) => *value == Number::from(*self),
            _ => false,
        }
    }
}

impl vstd::std_specs::cmp::PartialEqSpecImpl<JsonValue> for isize {
    open spec fn obeys_eq_spec() -> bool {
        true
    }

    open spec fn eq_spec(&self, other: &JsonValue) -> bool {
        other@ == Json::Number(*self as int)
    }
}

impl From<Number> for JsonValue {
    fn from(val: Number) -> (value: JsonValue)
        ensures
            value@ == Json::Number(val@),
    {
        JsonValue::Number(val)
    }
}

impl vstd::std_specs::convert::FromSpecImpl<Number> for JsonValue {
    open spec fn obeys_from_spec() -> bool {
        true
    }

    open spec fn from_spec(val: Number) -> JsonValue {
        JsonValue::Number(val)
    }
}

impl PartialEq<Number> for JsonValue {
    fn eq(&self, other: &Number) -> (same: bool) {
        match self {
            JsonValue::Number(value) => *value == *other,
            _ => false,
        }
    }
}

impl vstd::std_specs::cmp::PartialEqSpecImpl<Number> for JsonValue {
    open spec fn obeys_eq_spec() -> bool {
        true
    }

    open spec fn eq_spec(&self, other: &Number) -> bool {
        self@ == Json::Number(other@)
    }
}

impl<'a> PartialEq<Number> for &'a JsonValue {
    fn eq(&self, other: &Number) -> (same: bool) {
        match *self {
            JsonValue::Number(value) => *value == *other,
            _ => false,
        }
    }
}

impl<'a> vstd::std_specs::cmp::PartialEqSpecImpl<Number> for &'a JsonValue {
    open spec fn obeys_eq_spec() -> bool {
        true
    }

    open spec fn eq_spec(&self, other: &Number) -> bool {
        self@ == Json::Number(other@)
    }
}

impl PartialEq<JsonValue> for Number {
    fn eq(&self, other: &JsonValue) -> (same: bool) {
        match other {
            JsonValue::Number(value) => *value == *self,
            _ => false,
        }
    }
}

impl vstd::std_specs::cmp::PartialEqSpecImpl<JsonValue> for Number {
    open spec fn obeys_eq_spec() -> bool {
        true
    }

    open spec fn eq_spec(&self, other: &JsonValue) -> bool {
        other@ == Json::Number(self@)
    }
}

impl From<Object> for JsonValue {
    fn from(val: Object) -> (value: JsonValue)
        ensures
            value == JsonValue::Object(val),
    {
        JsonValue::Object(val)
    }
}

impl vstd::std_specs::convert::FromSpecImpl<Object> for JsonValue {
    open spec fn obeys_from_spec() -> bool {
        true
    }

    open spec fn from_spec(val: Object) -> JsonValue {
        JsonValue::Object(val)
    }
}

impl PartialEq<Object> for JsonValue {
    fn eq(&self, other: &Object) -> (same: bool) {
        match self {
            JsonValue::Object(value) => {
                proof {
                    lemma_object_model(*value);
                }
                object_eq(value, other)
            },
            _ => false,
        }
    }
}

impl vstd::std_specs::cmp::PartialEqSpecImpl<Object> for JsonValue {
    open spec fn obeys_eq_spec() -> bool {
        true
    }

    open spec fn eq_spec(&self, other: &Object) -> bool {
        self is Object && json_eq(self@, Json::Object(members_of(other@)))
    }
}

impl<'a> PartialEq<Object> for &'a JsonValue {
    fn eq(&self, other: &Object) -> (same: bool) {
        match *self {
            JsonValue::Object(value) => {
                proof {
                    lemma_object_model(*value);
                }
                object_eq(value, other)
            },
            _ => false,
        }
    }
}

impl<'a> vstd::std_specs::cmp::PartialEqSpecImpl<Object> for &'a JsonValue {
    open spec fn obeys_eq_spec() -> bool {
        true
    }

    open spec fn eq_spec(&self, other: &Object) -> bool {
        (**self) is Object && json_eq((**self)@, Json::Object(members_of(other@)))
    }
}

impl PartialEq<JsonValue> for Object {
    fn eq(&self, other: &JsonValue) -> (same: bool) {
        match other {
            JsonValue::Object(value) => {
                proof {
                    lemma_object_model(*value);
                }
                object_eq(value, self)
            },
            _ => false,
        }
    }
}

impl vstd::std_specs::cmp::PartialEqSpecImpl<JsonValue> for Object {
    open spec fn obeys_eq_spec() -> bool {
        true
    }

    open spec fn eq_spec(&self, other: &JsonValue) -> bool {
        other is Object && json_eq(other@, Json::Object(members_of(self@)))
    }
}

impl From<bool> for JsonValue {
    fn from(val: bool) -> (value: JsonValue)
        ensures
            value@ == Json::Bool(val),
    {
        JsonValue::Boolean(val)
    }
}

impl vstd::std_specs::convert::FromSpecImpl<bool> for JsonValue {
    open spec fn obeys_from_spec() -> bool {
        true
    }

    open spec fn from_spec(val: bool) -> JsonValue {
        JsonValue::Boolean(val)
    }
}

impl PartialEq<bool> for JsonValue {
    fn eq(&self, other: &bool) -> (same: bool) {
        match self {
            JsonValue::Boolean(value) => *value == *other,
            _ => false,
        }
    }
}

impl vstd::std_specs::cmp::PartialEqSpecImpl<bool> for JsonValue {
    open spec fn obeys_eq_spec() -> bool {
        true
    }

    open spec fn eq_spec(&self, other: &bool) -> bool {
        self@ == Json::Bool(*other)
    }
}

impl<'a> PartialEq<bool> for &'a JsonValue {
    fn eq(&self, other: &bool) -> (same: bool) {
        match *self {
            JsonValue::Boolean(value) => *value == *other,
            _ => false,
        }
    }
}

impl<'a> vstd::std_specs::cmp::PartialEqSpecImpl<bool> for &'a JsonValue {
    open spec fn obeys_eq_spec() -> bool {
        true
    }

    open spec fn eq_spec(&self, other: &bool) -> bool {
        self@ == Json::Bool(*other)
    }
}

impl PartialEq<JsonValue> for bool {
    fn eq(&self, other: &JsonValue) -> (same: bool) {
        match other {
            JsonValue::Boolean(value) => *value == *self,
            _ => false,
        }
    }
}

impl vstd::std_specs::cmp::PartialEqSpecImpl<JsonValue> for bool {
    open spec fn obeys_eq_spec() -> bool {
        true
    }

    open spec fn eq_spec(&self, other: &JsonValue) -> bool {
        other@ == Json::Bool(*self)
    }
}

impl<'a> core::ops::Index<&'a str> for Object {
    type Output = JsonValue;

    /// The value of the member `index`, or `Null` if there is no such member.
    fn index(&self, index: &'a str) -> (value: &JsonValue)
        ensures
            *value == match lookup(self@, index@) {
                Some(v) => v,
                None => JsonValue::Null,
            },
    {
        match self.get(index) {
            Some(value) => value,
            None => &JsonValue::Null,
        }
    }
}

impl<'a> vstd::std_specs::core::IndexSpecImpl<&'a str> for Object {
    open spec fn index_req(&self, index: &&'a str) -> bool {
        true
    }
}

impl<'a> core::ops::IndexMut<&'a str> for Object {
    /// The value of the member `index`, for writing. A member that is not
    /// there is added first, with the value `Null`.
    fn index_mut(&mut self, index: &'a str) -> (value: &mut JsonValue)
        ensures
            *value == match lookup(old(self)@, index@) {
                Some(v) => v,
                None => JsonValue::Null,
            },
            final(self)@ =~= upsert(old(self)@, index@, *final(value)),
    {
        proof {
            lemma_position(self@, index@);
        }
        if self.get(index).is_none() {
            self.insert(index, JsonValue::Null)
        } else {
            match self.get_mut(index) {
                Some(value) => value,
                None => vstd::pervasive::unreached(),
            }
        }
    }
}

impl core::ops::Index<String> for Object {
    type Output = JsonValue;

    /// The value of the member `index`, or `Null` if there is no such member.
    fn index(&self, index: String) -> (value: &JsonValue)
        ensures
            *value == match lookup(self@, index@) {
                Some(v) => v,
                None => JsonValue::Null,
            },
    {
        match self.get(index.as_str()) {
            Some(value) => value,
            None => &JsonValue::Null,
        }
    }
}

impl vstd::std_specs::core::IndexSpecImpl<String> for Object {
    open spec fn index_req(&self, index: &String) -> bool {
        true
    }
}

impl core::ops::IndexMut<String> for Object {
    /// The value of the member `index`, for writing. A member that is not
    /// there is added first, with the value `Null`.
    fn index_mut(&mut self, index: String) -> (value: &mut JsonValue)
        ensures
            *value == match lookup(old(self)@, index@) {
                Some(v) => v,
                None => JsonValue::Null,
            },
            final(self)@ =~= upsert(old(self)@, index@, *final(value)),
    {
        proof {
            lemma_position(self@, index@);
        }
        if self.get(index.as_str()).is_none() {
            self.insert(index.as_str(), JsonValue::Null)
        } else {
            match self.get_mut(index.as_str()) {
                Some(value) => value,
                None => vstd::pervasive::unreached(),
            }
        }
    }
}

impl<'a> core::ops::Index<&'a String> for Object {
    type Output = JsonValue;

    /// The value of the member `index`, or `Null` if there is no such member.
    fn index(&self, index: &'a String) -> (value: &JsonValue)
        ensures
            *value == match lookup(self@, index@) {
                Some(v) => v,
                None => JsonValue::Null,
            },
    {
        match self.get(index.as_str()) {
            Some(value) => value,
            None => &JsonValue::Null,
        }
    }
}

impl<'a> vstd::std_specs::core::IndexSpecImpl<&'a String> for Object {
    open spec fn index_req(&self, index: &&'a String) -> bool {
        true
    }
}

impl<'a> core::ops::IndexMut<&'a String> for Object {
    /// The value of the member `index`, for writing. A member that is not
    /// there is added first, with the value `Null`.
    fn index_mut(&mut self, index: &'a String) -> (value: &mut JsonValue)
        ensures
            *value == match lookup(old(self)@, index@) {
                Some(v) => v,
                None => JsonValue::Null,
            },
            final(self)@ =~= upsert(old(self)@, index@, *final(value)),
    {
        proof {
            lemma_position(self@, index@);
        }
        if self.get(index.as_str()).is_none() {
            self.insert(index.as_str(), JsonValue::Null)
        } else {
            match self.get_mut(index.as_str()) {
                Some(value) => value,
                None => vstd::pervasive::unreached(),
            }
        }
    }
}

} // verus!
