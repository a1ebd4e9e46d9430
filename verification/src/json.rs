//! A JSON document as the library reads it: the values the niconico APIs
//! answer with, after parsing.  Lookups behave as `serde_json::Value`'s
//! `get` / `as_str` / `as_i64` / `as_array` do: a missing key or a value
//! of another kind gives `None`.
use vstd::prelude::*;

use crate::text::{chars_of, chars_eq};

verus! {

/// A JSON number, by what the accessors give for it.
#[derive(Debug, Clone, Copy, PartialEq, Eq)]
pub struct JsonNumber {
    /// `as_i64()`: the value when it is an integer that fits in `i64`.
    pub as_i64: Option<i64>,
    /// `as_u64()`: the value when it is an integer that fits in `u64`.
    pub as_u64: Option<u64>,
    /// `as_f64()` converted with `as i64` (truncating, saturating).
    pub truncated: i64,
}

#[derive(Debug)]
pub enum Json {
    Null,
    Bool(bool),
    Num(JsonNumber),
    Str(String),
    Arr(Vec<Json>),
    /// Members in document order; keys are distinct.
    Obj(Vec<(String, Json)>),
}

/// The member `key` of a list of object members.
pub open spec fn field_of(fs: Seq<(String, Json)>, key: Seq<char>) -> Option<Json>
    decreases fs.len(),
{
    if fs.len() == 0 {
        None
    } else if fs[0].0@ == key {
        Some(fs[0].1)
    } else {
        field_of(fs.drop_first(), key)
    }
}

/// `value.get(key)` chained through an optional value.
pub open spec fn get(j: Option<Json>, key: Seq<char>) -> Option<Json> {
    match j {
        Some(Json::Obj(fs)) => field_of(fs@, key),
        _ => None,
    }
}

pub open spec fn as_str(j: Option<Json>) -> Option<Seq<char>> {
    match j {
        Some(Json::Str(s)) => Some(s@),
        _ => None,
    }
}

pub open spec fn as_i64(j: Option<Json>) -> Option<i64> {
    match j {
        Some(Json::Num(n)) => n.as_i64,
        _ => None,
    }
}

pub open spec fn as_u64(j: Option<Json>) -> Option<u64> {
    match j {
        Some(Json::Num(n)) => n.as_u64,
        _ => None,
    }
}

pub open spec fn as_array(j: Option<Json>) -> Option<Seq<Json>> {
    match j {
        Some(Json::Arr(v)) => Some(v@),
        _ => None,
    }
}

pub open spec fn is_object(j: Option<Json>) -> bool {
    j matches Some(Json::Obj(_))
}

pub open spec fn is_string(j: Option<Json>) -> bool {
    j matches Some(Json::Str(_))
}

/// `value.get(key)`.
pub fn get_field<'a>(j: &'a Json, key: &str) -> (r: Option<&'a Json>)
    ensures
        match r {
            Some(v) => get(Some(*j), key@) == Some(*v),
            None => get(Some(*j), key@) is None,
        },
{
    match j {
        Json::Obj(fs) => {
            assert(*j == Json::Obj(*fs));
            let k = chars_of(key);
            let mut i: usize = 0;
            assert(fs@.skip(0) =~= fs@);
            while i < fs.len()
                invariant
                    i <= fs.len(),
                    k@ == key@,
                    *j == Json::Obj(*fs),
                    field_of(fs@.skip(i as int), key@) == field_of(fs@, key@),
                decreases fs.len() - i,
            {
                let ghost rest = fs@.skip(i as int);
                assert(rest.drop_first() =~= fs@.skip(i + 1));
                assert(rest[0] == fs@[i as int]);
                let name = chars_of(fs[i].0.as_str());
                if chars_eq(&name, &k) {
                    assert(rest[0].0@ == key@);
                    assert(field_of(rest, key@) == Some(rest[0].1));
                    return Some(&fs[i].1);
                }
                i += 1;
            }
            None
        },
        _ => None,
    }
}

/// `value.get(key)` on an optional value.
pub fn get_opt<'a>(j: Option<&'a Json>, key: &str) -> (r: Option<&'a Json>)
    ensures
        match r {
            Some(v) => get(
                match j {
                    Some(x) => Some(*x),
                    None => None,
                },
                key@,
            ) == Some(*v),
            None => get(
                match j {
                    Some(x) => Some(*x),
                    None => None,
                },
                key@,
            ) is None,
        },
{
    match j {
        Some(x) => get_field(x, key),
        None => None,
    }
}

pub open spec fn opt(j: Option<&Json>) -> Option<Json> {
    match j {
        Some(x) => Some(*x),
        None => None,
    }
}

pub fn str_of(j: Option<&Json>) -> (r: Option<String>)
    ensures
        match r {
            Some(s) => as_str(opt(j)) == Some(s@),
            None => as_str(opt(j)) is None,
        },
{
    match j {
        Some(Json::Str(s)) => Some(s.clone()),
        _ => None,
    }
}

pub fn i64_of(j: Option<&Json>) -> (r: Option<i64>)
    ensures
        r == as_i64(opt(j)),
{
    match j {
        Some(Json::Num(n)) => n.as_i64,
        _ => None,
    }
}

pub fn u64_of(j: Option<&Json>) -> (r: Option<u64>)
    ensures
        r == as_u64(opt(j)),
{
    match j {
        Some(Json::Num(n)) => n.as_u64,
        _ => None,
    }
}

pub fn array_of<'a>(j: Option<&'a Json>) -> (r: Option<&'a Vec<Json>>)
    ensures
        match r {
            Some(v) => as_array(opt(j)) == Some(v@),
            None => as_array(opt(j)) is None,
        },
{
    match j {
        Some(Json::Arr(v)) => Some(v),
        _ => None,
    }
}

pub fn is_object_value(j: Option<&Json>) -> (r: bool)
    ensures
        r == is_object(opt(j)),
{
    match j {
        Some(Json::Obj(_)) => true,
        _ => false,
    }
}

pub fn is_string_value(j: Option<&Json>) -> (r: bool)
    ensures
        r == is_string(opt(j)),
{
    match j {
        Some(Json::Str(_)) => true,
        _ => false,
    }
}

} // verus!
