//! A JSON value as plain data: what the library reads of Herdr's replies and
//! keeps in runtime handles.
use vstd::prelude::*;

use crate::text_map::TextMap;

verus! {

/// A JSON value. Numbers keep their decimal text; object members are kept in
/// ascending key order.
#[derive(Debug)]
pub enum Json {
    Null,
    Bool(bool),
    Number(String),
    String(String),
    Array(Vec<Json>),
    Object(TextMap<Json>),
}

impl Json {
    /// The member `key` of an object; `None` for a missing member and for a
    /// value that is no object.
    pub fn get(&self, key: &str) -> (r: Option<&Json>)
        ensures
            match self {
                Json::Object(m) => match r {
                    Some(v) => m@.contains_key(key@) && *v == m@[key@],
                    None => !m@.contains_key(key@),
                },
                _ => r is None,
            },
    {
        match self {
            Json::Object(m) => m.get(key),
            _ => None,
        }
    }

    /// The text of a JSON string; `None` for any other value.
    pub fn as_str(&self) -> (r: Option<&String>)
        ensures
            match self {
                Json::String(s) => r == Some(s),
                _ => r is None,
            },
    {
        match self {
            Json::String(s) => Some(s),
            _ => None,
        }
    }
}

} // verus!
