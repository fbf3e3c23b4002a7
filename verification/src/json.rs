//! A JSON value as the harness adapters read and write it.
//!
//! Hook payloads arrive as JSON; the adapters look up fields by name and
//! test whether they are strings, unsigned integers or objects. This model
//! holds exactly that: numbers that are not unsigned 64-bit integers keep
//! their JSON text, so a value goes back out unchanged.

use vstd::prelude::*;

use crate::text::{chars_of, str_eq, string_from};

verus! {

/// A JSON value.
#[derive(Debug, PartialEq, Eq)]
pub enum Json {
    /// `null`.
    Null,
    /// `true` / `false`.
    Bool(bool),
    /// A non-negative integer that fits `u64`.
    Uint(u64),
    /// Any other number, by its JSON text.
    Num(String),
    /// A string.
    Str(String),
    /// An array.
    Arr(Vec<Json>),
    /// An object, its members in order.
    Obj(Vec<(String, Json)>),
}

/// An optional string as characters.
pub open spec fn opt_view(o: Option<String>) -> Option<Seq<char>> {
    match o {
        Some(s) => Some(s@),
        None => None,
    }
}

/// The value of the first member named `key`.
pub open spec fn entry_value(es: Seq<(String, Json)>, key: Seq<char>) -> Option<Json>
    decreases es.len(),
{
    if es.len() == 0 {
        None
    } else if es[0].0@ == key {
        Some(es[0].1)
    } else {
        entry_value(es.drop_first(), key)
    }
}

/// The member `key` of `j` when `j` is an object that has one.
pub open spec fn field(j: Json, key: Seq<char>) -> Option<Json> {
    match j {
        Json::Obj(es) => entry_value(es@, key),
        _ => None,
    }
}

/// The text of a string value.
pub open spec fn str_value(j: Option<Json>) -> Option<Seq<char>> {
    match j {
        Some(Json::Str(s)) => Some(s@),
        _ => None,
    }
}

/// An unsigned integer value (`Value::as_u64`).
pub open spec fn u64_value(j: Option<Json>) -> Option<u64> {
    match j {
        Some(Json::Uint(n)) => Some(n),
        _ => None,
    }
}

/// The string member `key` of `j`.
pub open spec fn str_field(j: Json, key: Seq<char>) -> Option<Seq<char>> {
    str_value(field(j, key))
}

proof fn lemma_entry_value_skip(es: Seq<(String, Json)>, key: Seq<char>, i: int)
    requires
        0 <= i < es.len(),
        es[i].0@ != key,
    ensures
        entry_value(es.skip(i), key) == entry_value(es.skip(i + 1), key),
{
    assert(es.skip(i).drop_first() =~= es.skip(i + 1));
}

/// Index of the first member named `key`.
fn entry_index(es: &Vec<(String, Json)>, key: &str) -> (r: Option<usize>)
    ensures
        match r {
            Some(i) => i < es.len() && entry_value(es@, key@) == Some(es@[i as int].1),
            None => entry_value(es@, key@) is None,
        },
{
    let mut i: usize = 0;
    assert(es@.skip(0) == es@);
    while i < es.len()
        invariant
            i <= es.len(),
            entry_value(es@, key@) == entry_value(es@.skip(i as int), key@),
        decreases es.len() - i,
    {
        if str_eq(es[i].0.as_str(), key) {
            assert(es@.skip(i as int)[0] == es@[i as int]);
            return Some(i);
        }
        proof {
            lemma_entry_value_skip(es@, key@, i as int);
        }
        i = i + 1;
    }
    None
}

impl Json {
    /// The member `key` when this is an object that has one.
    pub fn get(&self, key: &str) -> (r: Option<&Json>)
        ensures
            match r {
                Some(v) => field(*self, key@) == Some(*v),
                None => field(*self, key@) is None,
            },
    {
        match self {
            Json::Obj(es) => match entry_index(es, key) {
                Some(i) => Some(&es[i].1),
                None => None,
            },
            _ => None,
        }
    }

    /// Whether this is an object with a member `key`.
    pub fn has(&self, key: &str) -> (r: bool)
        ensures
            r == field(*self, key@) is Some,
    {
        self.get(key).is_some()
    }

    /// The text when this is a string.
    pub fn as_string(&self) -> (r: Option<String>)
        ensures
            opt_view(r) == str_value(Some(*self)),
    {
        match self {
            Json::Str(s) => Some(s.clone()),
            _ => None,
        }
    }

    /// The string member `key`.
    pub fn str_at(&self, key: &str) -> (r: Option<String>)
        ensures
            opt_view(r) == str_field(*self, key@),
    {
        match self.get(key) {
            Some(v) => v.as_string(),
            None => None,
        }
    }

    /// The unsigned integer member `key`.
    pub fn u64_at(&self, key: &str) -> (r: Option<u64>)
        ensures
            r == u64_value(field(*self, key@)),
    {
        match self.get(key) {
            Some(Json::Uint(n)) => Some(*n),
            _ => None,
        }
    }

    /// Whether this is an object.
    pub fn is_object(&self) -> (r: bool)
        ensures
            r == (*self is Obj),
    {
        match self {
            Json::Obj(_) => true,
            _ => false,
        }
    }

    /// Moves the member `key` out of an object.
    pub fn take(self, key: &str) -> (r: Option<Json>)
        ensures
            r == field(self, key@),
    {
        match self {
            Json::Obj(es) => {
                let mut es = es;
                match entry_index(&es, key) {
                    Some(i) => {
                        let (_, v) = es.remove(i);
                        Some(v)
                    },
                    None => None,
                }
            },
            _ => None,
        }
    }

    /// A string value.
    pub fn text(s: &str) -> (r: Json)
        ensures
            r matches Json::Str(t) && t@ == s@,
    {
        Json::Str(string_from(chars_of(s).as_slice()))
    }
}

} // verus!
