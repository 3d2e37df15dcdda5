//! A plain-value model of a JSON document.

use vstd::prelude::*;
use crate::text::{has_prefix, same_text};

verus! {

/// A JSON value. Numbers keep their textual form; objects keep their
/// entries in document order.
pub enum Json {
    Null,
    Bool(bool),
    Number(String),
    Str(String),
    Array(Vec<Json>),
    Object(Vec<(String, Json)>),
}

/// The value of the first of `entries`, from position `i` on, whose key is
/// `key`.
pub open spec fn entry_from(entries: Seq<(String, Json)>, key: Seq<char>, i: int) -> Option<Json>
    decreases entries.len() - i,
{
    if i < 0 || i >= entries.len() {
        None
    } else if entries[i].0@ == key {
        Some(entries[i].1)
    } else {
        entry_from(entries, key, i + 1)
    }
}

/// The value of the first of `entries`, from position `i` on, whose key
/// starts with `prefix`.
pub open spec fn prefixed_entry_from(entries: Seq<(String, Json)>, prefix: Seq<char>, i: int) -> Option<Json>
    decreases entries.len() - i,
{
    if i < 0 || i >= entries.len() {
        None
    } else if prefix.is_prefix_of(entries[i].0@) {
        Some(entries[i].1)
    } else {
        prefixed_entry_from(entries, prefix, i + 1)
    }
}

/// The member `key` of `v`, when `v` is an object that has one.
pub open spec fn member_of(v: Json, key: Seq<char>) -> Option<Json> {
    match v {
        Json::Object(entries) => entry_from(entries@, key, 0),
        _ => None,
    }
}

/// The first member of `v` whose key starts with `prefix`, when `v` is an
/// object that has one.
pub open spec fn prefixed_member_of(v: Json, prefix: Seq<char>) -> Option<Json> {
    match v {
        Json::Object(entries) => prefixed_entry_from(entries@, prefix, 0),
        _ => None,
    }
}

/// The characters of `v`, when it is a string.
pub open spec fn text_of(v: Option<Json>) -> Option<Seq<char>> {
    match v {
        Some(Json::Str(s)) => Some(s@),
        _ => None,
    }
}

/// The elements of `v`, when it is an array.
pub open spec fn items_of(v: Option<Json>) -> Option<Seq<Json>> {
    match v {
        Some(Json::Array(items)) => Some(items@),
        _ => None,
    }
}

/// `true` when `v` is an object.
pub open spec fn is_object(v: Option<Json>) -> bool {
    v matches Some(Json::Object(_))
}

/// What a borrowed lookup result stands for.
pub open spec fn found(r: Option<&Json>) -> Option<Json> {
    match r {
        Some(x) => Some(*x),
        None => None,
    }
}

impl Json {
    /// The member `key` of this value, when it is an object that has one.
    pub fn get(&self, key: &str) -> (r: Option<&Json>)
        ensures
            found(r) == member_of(*self, key@),
    {
        match self {
            Json::Object(entries) => {
                let mut i: usize = 0;
                while i < entries.len()
                    invariant
                        i <= entries@.len(),
                        member_of(*self, key@) == entry_from(entries@, key@, 0),
                        entry_from(entries@, key@, 0) == entry_from(entries@, key@, i as int),
                    decreases entries@.len() - i,
                {
                    let e = &entries[i];
                    if same_text(e.0.as_str(), key) {
                        assert(entry_from(entries@, key@, i as int) == Some(e.1));
                        return Some(&e.1);
                    }
                    i = i + 1;
                }
                None
            },
            _ => None,
        }
    }

    /// The first member of this value whose key starts with `prefix`, when
    /// it is an object that has one.
    pub fn get_prefixed(&self, prefix: &str) -> (r: Option<&Json>)
        ensures
            found(r) == prefixed_member_of(*self, prefix@),
    {
        match self {
            Json::Object(entries) => {
                let mut i: usize = 0;
                while i < entries.len()
                    invariant
                        i <= entries@.len(),
                        prefixed_member_of(*self, prefix@) == prefixed_entry_from(entries@, prefix@, 0),
                        prefixed_entry_from(entries@, prefix@, 0) == prefixed_entry_from(
                            entries@,
                            prefix@,
                            i as int,
                        ),
                    decreases entries@.len() - i,
                {
                    let e = &entries[i];
                    if has_prefix(e.0.as_str(), prefix) {
                        assert(prefixed_entry_from(entries@, prefix@, i as int) == Some(e.1));
                        return Some(&e.1);
                    }
                    i = i + 1;
                }
                None
            },
            _ => None,
        }
    }

    /// The string this value holds, when it is one.
    pub fn as_text(&self) -> (r: Option<&String>)
        ensures
            match r {
                Some(s) => text_of(Some(*self)) == Some(s@),
                None => text_of(Some(*self)) is None,
            },
    {
        match self {
            Json::Str(s) => Some(s),
            _ => None,
        }
    }

    /// The elements of this value, when it is an array.
    pub fn as_items(&self) -> (r: Option<&Vec<Json>>)
        ensures
            match r {
                Some(items) => items_of(Some(*self)) == Some(items@),
                None => items_of(Some(*self)) is None,
            },
    {
        match self {
            Json::Array(items) => Some(items),
            _ => None,
        }
    }
}

} // verus!
