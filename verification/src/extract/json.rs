//! A JSON document as a tree of plain values.

use vstd::prelude::*;
use crate::text::str_eq;

verus! {

/// A JSON value. Numbers are not kept: nothing here reads them.
#[derive(Debug)]
pub enum JsonValue {
    Null,
    Bool(bool),
    Number,
    String(String),
    Array(Vec<JsonValue>),
    /// The members of an object, each a name with its value.
    Object(Vec<(String, JsonValue)>),
}

/// The value of the first member named `key` among `members`.
pub open spec fn lookup(members: Seq<(String, JsonValue)>, key: Seq<char>) -> Option<JsonValue>
    decreases members.len(),
{
    if members.len() == 0 {
        None
    } else if members[0].0@ == key {
        Some(members[0].1)
    } else {
        lookup(members.skip(1), key)
    }
}

/// The value behind an optional reference.
pub open spec fn held(value: Option<&JsonValue>) -> Option<JsonValue> {
    match value {
        Some(v) => Some(*v),
        None => None,
    }
}

/// The member named `key` of what `value` holds, if that is an object with
/// such a member.
pub open spec fn member_of(value: Option<JsonValue>, key: Seq<char>) -> Option<JsonValue> {
    match value {
        Some(v) => v.member(key),
        None => None,
    }
}

/// The text of what `value` holds, if that is a string.
pub open spec fn text_of(value: Option<JsonValue>) -> Option<Seq<char>> {
    match value {
        Some(v) => v.text(),
        None => None,
    }
}

/// The elements of what `value` holds, if that is an array.
pub open spec fn elements_of(value: Option<JsonValue>) -> Option<Seq<JsonValue>> {
    match value {
        Some(v) => v.elements(),
        None => None,
    }
}

impl JsonValue {
    /// The member named `key`, if this is an object that has one.
    pub open spec fn member(self, key: Seq<char>) -> Option<JsonValue> {
        match self {
            JsonValue::Object(members) => lookup(members@, key),
            _ => None,
        }
    }

    /// The text, if this is a string.
    pub open spec fn text(self) -> Option<Seq<char>> {
        match self {
            JsonValue::String(s) => Some(s@),
            _ => None,
        }
    }

    /// The elements, if this is an array.
    pub open spec fn elements(self) -> Option<Seq<JsonValue>> {
        match self {
            JsonValue::Array(items) => Some(items@),
            _ => None,
        }
    }

    /// The member named `key`, if this is an object that has one.
    pub fn get(&self, key: &str) -> (r: Option<&JsonValue>)
        ensures
            held(r) == self.member(key@),
    {
        match self {
            JsonValue::Object(members) => {
                let mut i: usize = 0;
                assert(members@.skip(0) =~= members@);
                while i < members.len()
                    invariant
                        i <= members.len(),
                        self.member(key@) == lookup(members@, key@),
                        lookup(members@, key@) == lookup(members@.skip(i as int), key@),
                    decreases members.len() - i,
                {
                    let ghost rest = members@.skip(i as int);
                    assert(rest[0] == members@[i as int]);
                    assert(rest.skip(1) =~= members@.skip(i as int + 1));
                    if str_eq(members[i].0.as_str(), key) {
                        assert(lookup(rest, key@) == Some(rest[0].1));
                        return Some(&members[i].1);
                    }
                    assert(lookup(rest, key@) == lookup(rest.skip(1), key@));
                    i = i + 1;
                }
                None
            },
            _ => None,
        }
    }

    /// The text, if this is a string.
    pub fn as_str(&self) -> (r: Option<&str>)
        ensures
            r is Some <==> self.text() is Some,
            r matches Some(s) ==> self.text() == Some(s@),
    {
        match self {
            JsonValue::String(s) => Some(s.as_str()),
            _ => None,
        }
    }

    /// The elements, if this is an array.
    pub fn as_array(&self) -> (r: Option<&Vec<JsonValue>>)
        ensures
            r is Some <==> self.elements() is Some,
            r matches Some(items) ==> self.elements() == Some(items@),
    {
        match self {
            JsonValue::Array(items) => Some(items),
            _ => None,
        }
    }
}

} // verus!
