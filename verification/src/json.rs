//! JSON values as the library holds them.

use vstd::prelude::*;
use crate::job::{NumberTree, NumberValue};

verus! {

/// A JSON value. Object entries keep their order; where a key occurs
/// twice, the later entry is the one that counts.
#[derive(Debug)]
pub enum JsonValue {
    Null,
    Bool(bool),
    Number(NumberValue),
    Text(String),
    Array(Vec<JsonValue>),
    Object(Vec<(String, JsonValue)>),
}

/// What a [`JsonValue`] holds.
pub enum JsonTree {
    Null,
    Bool(bool),
    Number(NumberTree),
    Text(Seq<char>),
    Array(Seq<JsonTree>),
    Object(Seq<(Seq<char>, JsonTree)>),
}

impl View for JsonValue {
    type V = JsonTree;

    open spec fn view(&self) -> JsonTree
        decreases self,
    {
        match self {
            JsonValue::Null => JsonTree::Null,
            JsonValue::Bool(b) => JsonTree::Bool(*b),
            JsonValue::Number(n) => JsonTree::Number(n@),
            JsonValue::Text(t) => JsonTree::Text(t@),
            JsonValue::Array(items) => JsonTree::Array(
                Seq::new(
                    items.len() as nat,
                    |i: int|
                        if 0 <= i < items.len() {
                            items[i].view()
                        } else {
                            JsonTree::Null
                        },
                ),
            ),
            JsonValue::Object(entries) => JsonTree::Object(
                Seq::new(
                    entries.len() as nat,
                    |i: int|
                        (
                            entries[i].0@,
                            if 0 <= i < entries.len() {
                                entries[i].1.view()
                            } else {
                                JsonTree::Null
                            },
                        ),
                ),
            ),
        }
    }
}

impl JsonValue {
    /// A copy that holds what the value holds.
    pub fn copy(&self) -> (c: Self)
        ensures
            c@ == self@,
        decreases self,
    {
        match self {
            JsonValue::Null => JsonValue::Null,
            JsonValue::Bool(b) => JsonValue::Bool(*b),
            JsonValue::Number(n) => JsonValue::Number(n.clone()),
            JsonValue::Text(t) => JsonValue::Text(t.clone()),
            JsonValue::Array(items) => {
                let mut copies: Vec<JsonValue> = Vec::new();
                let mut i: usize = 0;
                while i < items.len()
                    invariant
                        i <= items.len(),
                        copies.len() == i,
                        decreases_to!(self => *items),
                        forall|j: int| 0 <= j < i ==> (#[trigger] copies[j])@ == items[j]@,
                    decreases items.len() - i,
                {
                    let c = items[i].copy();
                    copies.push(c);
                    i = i + 1;
                }
                let c = JsonValue::Array(copies);
                assert(c@ == self@) by {
                    assert(c@->Array_0 =~= self@->Array_0);
                }
                c
            },
            JsonValue::Object(entries) => {
                let mut copies: Vec<(String, JsonValue)> = Vec::new();
                let mut i: usize = 0;
                while i < entries.len()
                    invariant
                        i <= entries.len(),
                        copies.len() == i,
                        decreases_to!(self => *entries),
                        forall|j: int|
                            0 <= j < i ==> (#[trigger] copies[j]).0@ == entries[j].0@
                                && copies[j].1@ == entries[j].1@,
                    decreases entries.len() - i,
                {
                    let c = entries[i].1.copy();
                    copies.push((entries[i].0.clone(), c));
                    i = i + 1;
                }
                let c = JsonValue::Object(copies);
                assert(c@ == self@) by {
                    assert forall|j: int| 0 <= j < copies.len() implies c@->Object_0[j]
                        == self@->Object_0[j] by {
                        assert(copies[j].0@ == entries[j].0@);
                    }
                    assert(c@->Object_0 =~= self@->Object_0);
                }
                c
            },
        }
    }
}

/// The entries of an object, each value by what it holds.
pub open spec fn entries_view(entries: Seq<(String, JsonValue)>) -> Seq<(Seq<char>, JsonTree)> {
    Seq::new(entries.len(), |i: int| (entries[i].0@, entries[i].1@))
}

/// The items of an array, each by what it holds.
pub open spec fn items_view(items: Seq<JsonValue>) -> Seq<JsonTree> {
    Seq::new(items.len(), |i: int| items[i]@)
}

impl JsonValue {
    /// The object with the entries `entries`, in their order.
    pub fn object(entries: Vec<(String, JsonValue)>) -> (r: Self)
        ensures
            r@ == JsonTree::Object(entries_view(entries@)),
    {
        let ghost held = entries_view(entries@);
        let r = JsonValue::Object(entries);
        assert(r@->Object_0 =~= held);
        r
    }

    /// The array with the items `items`, in their order.
    pub fn array(items: Vec<JsonValue>) -> (r: Self)
        ensures
            r@ == JsonTree::Array(items_view(items@)),
    {
        let ghost held = items_view(items@);
        let r = JsonValue::Array(items);
        assert(r@->Array_0 =~= held);
        r
    }

    /// The string `text`.
    pub fn text(text: &str) -> (r: Self)
        ensures
            r@ == JsonTree::Text(text@),
    {
        JsonValue::Text(text.to_string())
    }

    /// The number `n`.
    pub fn natural(n: u64) -> (r: Self)
        ensures
            r@ == JsonTree::Number(NumberTree::UInt(n as int)),
    {
        JsonValue::Number(NumberValue::UInt(n))
    }
}

/// The member `key` of the entries of an object: the value of the last
/// entry under that key.
pub open spec fn member(entries: Seq<(Seq<char>, JsonTree)>, key: Seq<char>) -> Option<JsonTree>
    decreases entries.len(),
{
    if entries.len() == 0 {
        None
    } else if entries.last().0 == key {
        Some(entries.last().1)
    } else {
        member(entries.drop_last(), key)
    }
}

impl JsonTree {
    /// The member `key`, where the value is an object that has it.
    pub open spec fn get(self, key: Seq<char>) -> Option<JsonTree> {
        match self {
            JsonTree::Object(entries) => member(entries, key),
            _ => None,
        }
    }

    /// The text, where the value is a string.
    pub open spec fn as_text(self) -> Option<Seq<char>> {
        match self {
            JsonTree::Text(t) => Some(t),
            _ => None,
        }
    }

    /// The truth value, where the value is one.
    pub open spec fn as_bool(self) -> Option<bool> {
        match self {
            JsonTree::Bool(b) => Some(b),
            _ => None,
        }
    }

    /// The number, where the value is a whole number that 64 bits with
    /// a sign hold.
    pub open spec fn as_integer(self) -> Option<int> {
        match self {
            JsonTree::Number(NumberTree::UInt(u)) => if u <= i64::MAX {
                Some(u)
            } else {
                None
            },
            JsonTree::Number(NumberTree::Int(i)) => Some(i),
            _ => None,
        }
    }

    /// The string under `key`, where the value is an object that holds
    /// one there.
    pub open spec fn text_at(self, key: Seq<char>) -> Option<Seq<char>> {
        match self.get(key) {
            Some(value) => value.as_text(),
            None => None,
        }
    }

    /// The member `key`, or null where there is none.
    pub open spec fn get_or_null(self, key: Seq<char>) -> JsonTree {
        match self.get(key) {
            Some(value) => value,
            None => JsonTree::Null,
        }
    }

    /// The number, where the value is a whole number that is not negative.
    pub open spec fn as_natural(self) -> Option<int> {
        match self {
            JsonTree::Number(NumberTree::UInt(u)) => Some(u),
            JsonTree::Number(NumberTree::Int(i)) => if i >= 0 {
                Some(i)
            } else {
                None
            },
            _ => None,
        }
    }
}

impl JsonValue {
    /// The member `key`, where the value is an object that has it.
    pub fn get(&self, key: &str) -> (r: Option<&JsonValue>)
        ensures
            match r {
                Some(v) => self@.get(key@) == Some(v@),
                None => self@.get(key@) is None,
            },
    {
        match self {
            JsonValue::Object(entries) => {
                let ghost all = self@->Object_0;
                let mut i: usize = entries.len();
                assert(all.take(i as int) == all);
                while i > 0
                    invariant
                        i <= entries.len(),
                        all == self@->Object_0,
                        self == JsonValue::Object(*entries),
                        member(all, key@) == member(all.take(i as int), key@),
                    decreases i,
                {
                    i = i - 1;
                    proof {
                        let part = all.take(i + 1);
                        assert(part.drop_last() == all.take(i as int));
                        assert(part.last() == all[i as int]);
                        assert(all[i as int].0 == entries[i as int].0@);
                        assert(all[i as int].1 == entries[i as int].1@);
                    }
                    if crate::text::str_eq(entries[i].0.as_str(), key) {
                        return Some(&entries[i].1);
                    }
                }
                assert(all.take(0) =~= Seq::<(Seq<char>, JsonTree)>::empty());
                None
            },
            _ => None,
        }
    }

    /// The text, where the value is a string.
    pub fn as_str(&self) -> (r: Option<&String>)
        ensures
            match r {
                Some(t) => self@.as_text() == Some(t@),
                None => self@.as_text() is None,
            },
    {
        match self {
            JsonValue::Text(t) => Some(t),
            _ => None,
        }
    }

    /// The truth value, where the value is one.
    pub fn as_bool(&self) -> (r: Option<bool>)
        ensures
            r == self@.as_bool(),
    {
        match self {
            JsonValue::Bool(b) => Some(*b),
            _ => None,
        }
    }

    /// The number, where the value is a whole number that 64 bits with
    /// a sign hold.
    pub fn as_i64(&self) -> (r: Option<i64>)
        ensures
            match r {
                Some(n) => self@.as_integer() == Some(n as int),
                None => self@.as_integer() is None,
            },
    {
        match self {
            JsonValue::Number(NumberValue::UInt(u)) => if *u <= 0x7fff_ffff_ffff_ffff {
                Some(*u as i64)
            } else {
                None
            },
            JsonValue::Number(NumberValue::Int(i)) => Some(*i),
            _ => None,
        }
    }

    /// The string under `key`, where the value is an object that holds
    /// one there.
    pub fn text_at(&self, key: &str) -> (r: Option<&String>)
        ensures
            match r {
                Some(text) => self@.text_at(key@) == Some(text@),
                None => self@.text_at(key@) is None,
            },
    {
        match self.get(key) {
            Some(value) => value.as_str(),
            None => None,
        }
    }

    /// A copy of the member `key`, or null where there is none.
    pub fn copy_of(&self, key: &str) -> (r: JsonValue)
        ensures
            r@ == self@.get_or_null(key@),
    {
        match self.get(key) {
            Some(value) => value.copy(),
            None => JsonValue::Null,
        }
    }

    /// The number, where the value is a whole number that is not negative.
    pub fn as_u64(&self) -> (r: Option<u64>)
        ensures
            match r {
                Some(n) => self@.as_natural() == Some(n as int),
                None => self@.as_natural() is None,
            },
    {
        match self {
            JsonValue::Number(NumberValue::UInt(u)) => Some(*u),
            JsonValue::Number(NumberValue::Int(i)) => if *i >= 0 {
                Some(*i as u64)
            } else {
                None
            },
            _ => None,
        }
    }

    /// The items, where the value is an array.
    pub fn as_array(&self) -> (r: Option<&Vec<JsonValue>>)
        ensures
            match r {
                Some(items) => self@ is Array && items.len() == self@->Array_0.len() && forall|
                    i: int,
                |
                    0 <= i < items.len() ==> (#[trigger] items[i])@ == self@->Array_0[i],
                None => !(self@ is Array),
            },
    {
        match self {
            JsonValue::Array(items) => Some(items),
            _ => None,
        }
    }

    /// Whether the value is null.
    pub fn is_null(&self) -> (b: bool)
        ensures
            b == (self@ is Null),
    {
        matches!(self, JsonValue::Null)
    }
}

/// Whether two numbers hold the same.
pub fn same_number(a: &NumberValue, b: &NumberValue) -> (r: bool)
    ensures
        r == (a@ == b@),
{
    match (a, b) {
        (NumberValue::Int(x), NumberValue::Int(y)) => *x == *y,
        (NumberValue::UInt(x), NumberValue::UInt(y)) => *x == *y,
        (NumberValue::Real(x), NumberValue::Real(y)) => crate::text::str_eq(
            x.as_str(),
            y.as_str(),
        ),
        (NumberValue::NonFinite(x), NumberValue::NonFinite(y)) => crate::text::str_eq(
            x.as_str(),
            y.as_str(),
        ),
        _ => false,
    }
}

/// Whether two JSON values hold the same: the same kind of value with
/// the same content, arrays and objects member by member in their order.
pub fn same_json(a: &JsonValue, b: &JsonValue) -> (r: bool)
    ensures
        r == (a@ == b@),
    decreases a,
{
    match (a, b) {
        (JsonValue::Null, JsonValue::Null) => true,
        (JsonValue::Bool(x), JsonValue::Bool(y)) => *x == *y,
        (JsonValue::Number(x), JsonValue::Number(y)) => same_number(x, y),
        (JsonValue::Text(x), JsonValue::Text(y)) => crate::text::str_eq(x.as_str(), y.as_str()),
        (JsonValue::Array(x), JsonValue::Array(y)) => {
            if x.len() != y.len() {
                assert(a@->Array_0.len() != b@->Array_0.len());
                return false;
            }
            let mut i: usize = 0;
            while i < x.len()
                invariant
                    i <= x.len(),
                    x.len() == y.len(),
                    decreases_to!(a => *x),
                    *a == JsonValue::Array(*x),
                    *b == JsonValue::Array(*y),
                    forall|j: int| 0 <= j < i ==> (#[trigger] x[j])@ == y[j]@,
                decreases x.len() - i,
            {
                if !same_json(&x[i], &y[i]) {
                    assert(a@->Array_0[i as int] != b@->Array_0[i as int]);
                    return false;
                }
                i = i + 1;
            }
            assert(a@->Array_0 =~= b@->Array_0);
            true
        },
        (JsonValue::Object(x), JsonValue::Object(y)) => {
            if x.len() != y.len() {
                assert(a@->Object_0.len() != b@->Object_0.len());
                return false;
            }
            let mut i: usize = 0;
            while i < x.len()
                invariant
                    i <= x.len(),
                    x.len() == y.len(),
                    decreases_to!(a => *x),
                    *a == JsonValue::Object(*x),
                    *b == JsonValue::Object(*y),
                    forall|j: int|
                        0 <= j < i ==> (#[trigger] x[j]).0@ == y[j].0@ && x[j].1@ == y[j].1@,
                decreases x.len() - i,
            {
                if !crate::text::str_eq(x[i].0.as_str(), y[i].0.as_str()) || !same_json(
                    &x[i].1,
                    &y[i].1,
                ) {
                    assert(a@->Object_0[i as int] != b@->Object_0[i as int]);
                    return false;
                }
                i = i + 1;
            }
            assert forall|j: int| 0 <= j < x.len() implies a@->Object_0[j] == b@->Object_0[j] by {
                assert(x[j].0@ == y[j].0@);
            }
            assert(a@->Object_0 =~= b@->Object_0);
            true
        },
        _ => false,
    }
}

impl Clone for JsonValue {
    fn clone(&self) -> (c: Self)
        ensures
            c@ == self@,
    {
        self.copy()
    }
}

} // verus!
