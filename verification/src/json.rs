//! A decoded JSON document, as the feed adapters read it: field lookup that
//! yields nothing on a missing key or a non-object, and typed reads that
//! yield nothing on a value of another type.
use vstd::prelude::*;
use crate::text::{chars_of, same_chars};

verus! {

/// A JSON number: its value when it is an integer in the `i64` range, and
/// the decimal text Rust prints for its `f64` value.
#[derive(Debug, Clone)]
pub struct JsonNum {
    pub int: Option<i64>,
    pub text: String,
}

/// A JSON value; an object keeps its fields in order, each key once.
#[derive(Debug)]
pub enum Json {
    Null,
    Bool(bool),
    Num(JsonNum),
    Str(String),
    Arr(Vec<Json>),
    Obj(Vec<(String, Json)>),
}

/// The value of the first field named `k`.
pub open spec fn field_in(entries: Seq<(String, Json)>, k: Seq<char>) -> Option<Json>
    decreases entries.len(),
{
    if entries.len() == 0 {
        None
    } else if entries[0].0@ == k {
        Some(entries[0].1)
    } else {
        field_in(entries.drop_first(), k)
    }
}

/// `v.get(k)`: the field `k` of an object; nothing for a missing key or a
/// value that is not an object.
pub open spec fn jget(v: Json, k: Seq<char>) -> Option<Json> {
    match v {
        Json::Obj(e) => field_in(e@, k),
        _ => None,
    }
}

/// `v[k]`: the field `k`, or `null` where `v.get(k)` yields nothing.
pub open spec fn jfield(v: Json, k: Seq<char>) -> Json {
    match jget(v, k) {
        Some(x) => x,
        None => Json::Null,
    }
}

/// `v.as_str()`.
pub open spec fn jstr(v: Json) -> Option<Seq<char>> {
    match v {
        Json::Str(s) => Some(s@),
        _ => None,
    }
}

/// `v.as_i64()`.
pub open spec fn jint(v: Json) -> Option<i64> {
    match v {
        Json::Num(n) => n.int,
        _ => None,
    }
}

/// A string as it is, or a number as the text of its `f64` value.
pub open spec fn jnum_text(v: Json) -> Option<Seq<char>> {
    match v {
        Json::Str(s) => Some(s@),
        Json::Num(n) => Some(n.text@),
        _ => None,
    }
}

/// `v.as_array()`.
pub open spec fn jarr(v: Json) -> Option<Seq<Json>> {
    match v {
        Json::Arr(a) => Some(a@),
        _ => None,
    }
}

/// `v.get(i)` on an array.
pub open spec fn jat(v: Json, i: int) -> Option<Json> {
    match v {
        Json::Arr(a) => if 0 <= i < a@.len() {
            Some(a@[i])
        } else {
            None
        },
        _ => None,
    }
}

pub open spec fn opt_str(o: Option<&str>) -> Option<Seq<char>> {
    match o {
        Some(s) => Some(s@),
        None => None,
    }
}

pub open spec fn opt_string(o: Option<String>) -> Option<Seq<char>> {
    match o {
        Some(s) => Some(s@),
        None => None,
    }
}

impl Json {
    /// `self.get(k)`.
    pub fn get(&self, k: &str) -> (r: Option<&Json>)
        ensures
            match r {
                Some(x) => jget(*self, k@) == Some(*x),
                None => jget(*self, k@) is None,
            },
    {
        match self {
            Json::Obj(entries) => {
                let kc = chars_of(k);
                assert(entries@.skip(0) =~= entries@);
                for i in 0..entries.len()
                    invariant
                        kc@ == k@,
                        jget(*self, k@) == field_in(entries@, k@),
                        field_in(entries@, k@) == field_in(entries@.skip(i as int), k@),
                {
                    proof {
                        assert(entries@.skip(i as int).drop_first() =~= entries@.skip(i + 1));
                        assert(entries@.skip(i as int)[0] == entries@[i as int]);
                    }
                    if same_chars(&chars_of(entries[i].0.as_str()), &kc) {
                        assert(entries@.skip(i as int)[0].0@ == k@);
                        assert(field_in(entries@.skip(i as int), k@) == Some(entries@[i as int].1));
                        return Some(&entries[i].1);
                    }
                }
                None
            },
            _ => None,
        }
    }

    /// `self.as_str()`.
    pub fn as_str(&self) -> (r: Option<&str>)
        ensures
            opt_str(r) == jstr(*self),
    {
        match self {
            Json::Str(s) => Some(s.as_str()),
            _ => None,
        }
    }

    /// `self.as_i64()`.
    pub fn as_i64(&self) -> (r: Option<i64>)
        ensures
            r == jint(*self),
    {
        match self {
            Json::Num(n) => n.int,
            _ => None,
        }
    }

    /// A string as it is, or a number as the text of its `f64` value.
    pub fn num_text(&self) -> (r: Option<String>)
        ensures
            opt_string(r) == jnum_text(*self),
    {
        match self {
            Json::Str(s) => Some(s.clone()),
            Json::Num(n) => Some(n.text.clone()),
            _ => None,
        }
    }

    /// `self.as_array()`.
    pub fn as_array(&self) -> (r: Option<&Vec<Json>>)
        ensures
            match r {
                Some(a) => jarr(*self) == Some(a@),
                None => jarr(*self) is None,
            },
    {
        match self {
            Json::Arr(a) => Some(a),
            _ => None,
        }
    }

    /// `self.get(i)` on an array.
    pub fn at(&self, i: usize) -> (r: Option<&Json>)
        ensures
            match r {
                Some(x) => jat(*self, i as int) == Some(*x),
                None => jat(*self, i as int) is None,
            },
    {
        match self {
            Json::Arr(a) => if i < a.len() {
                Some(&a[i])
            } else {
                None
            },
            _ => None,
        }
    }

    /// `self[k].as_str()`.
    pub fn field_str(&self, k: &str) -> (r: Option<&str>)
        ensures
            opt_str(r) == jstr(jfield(*self, k@)),
    {
        match self.get(k) {
            Some(x) => x.as_str(),
            None => None,
        }
    }

    /// `self[k].as_i64()`.
    pub fn field_i64(&self, k: &str) -> (r: Option<i64>)
        ensures
            r == jint(jfield(*self, k@)),
    {
        match self.get(k) {
            Some(x) => x.as_i64(),
            None => None,
        }
    }

    /// `self[k]` as a string, or a number's text.
    pub fn field_num_text(&self, k: &str) -> (r: Option<String>)
        ensures
            opt_string(r) == jnum_text(jfield(*self, k@)),
    {
        match self.get(k) {
            Some(x) => x.num_text(),
            None => None,
        }
    }

    /// `self[k].as_array()`.
    pub fn field_array(&self, k: &str) -> (r: Option<&Vec<Json>>)
        ensures
            match r {
                Some(a) => jarr(jfield(*self, k@)) == Some(a@),
                None => jarr(jfield(*self, k@)) is None,
            },
    {
        match self.get(k) {
            Some(x) => x.as_array(),
            None => None,
        }
    }
}

} // verus!
