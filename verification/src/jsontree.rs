//! A plain JSON tree the extraction logic can be verified over, and the
//! trusted decoder that builds it from response text.
use vstd::prelude::*;

use crate::text;

verus! {

/// A decoded JSON document. Numbers outside the signed 64-bit range keep
/// only the fact that they were numbers (`Big`); nothing the engine reads
/// is one.
#[derive(Debug)]
pub enum JsonVal {
    Null,
    Boolean(bool),
    Num(i64),
    Text(String),
    List(Vec<JsonVal>),
    Object(Vec<(String, JsonVal)>),
    Big,
}

/// The JSON tree `s` decodes to, if `s` is valid JSON.
pub uninterp spec fn json_of(s: Seq<char>) -> Option<JsonVal>;

/// Declares `serde_json::Value` so the converter below may take it; the
/// value stays opaque to the verifier.
#[verifier::external_type_specification]
#[verifier::external_body]
pub struct ExJsonValue(serde_json::Value);

/// Relies on `serde_json::from_str::<Value>`: parsing is a pure function
/// of the input text, and object entries iterate in sorted key order, so
/// the converted tree is one too.
#[verifier::external_body]
pub fn json_decode(s: &str) -> (r: Option<JsonVal>)
    ensures
        r == json_of(s@),
{
    match serde_json::from_str::<serde_json::Value>(s) {
        Err(_) => None,
        Ok(v) => Some(json_conv(&v)),
    }
}

/// Relies on the `serde_json::Value` enum: converts one node, arm by arm,
/// moving fields only.
#[verifier::external_body]
fn json_conv(v: &serde_json::Value) -> JsonVal {
    match v {
        serde_json::Value::Null => JsonVal::Null,
        serde_json::Value::Bool(b) => JsonVal::Boolean(*b),
        serde_json::Value::Number(n) => match n.as_i64() {
            Some(i) => JsonVal::Num(i),
            None => JsonVal::Big,
        },
        serde_json::Value::String(s) => JsonVal::Text(s.clone()),
        serde_json::Value::Array(a) => JsonVal::List(a.iter().map(json_conv).collect()),
        serde_json::Value::Object(o) => JsonVal::Object(
            o.iter().map(|(k, x)| (k.clone(), json_conv(x))).collect(),
        ),
    }
}

// ---------------------------------------------------------------------------
// Access
// ---------------------------------------------------------------------------

/// First field named `k` among `fields`.
pub open spec fn obj_get(fields: Seq<(String, JsonVal)>, k: Seq<char>) -> Option<JsonVal>
    decreases fields.len(),
{
    if fields.len() == 0 {
        None
    } else if fields[0].0@ == k {
        Some(fields[0].1)
    } else {
        obj_get(fields.skip(1), k)
    }
}

/// Field `k` of an object; nothing on any other node.
pub open spec fn jget(j: JsonVal, k: Seq<char>) -> Option<JsonVal> {
    match j {
        JsonVal::Object(fields) => obj_get(fields@, k),
        _ => None,
    }
}

/// Element `i` of a list; nothing on any other node.
pub open spec fn jat(j: JsonVal, i: int) -> Option<JsonVal> {
    match j {
        JsonVal::List(items) => if 0 <= i < items@.len() {
            Some(items@[i])
        } else {
            None
        },
        _ => None,
    }
}

/// The characters of a text node.
pub open spec fn jtext(j: JsonVal) -> Option<Seq<char>> {
    match j {
        JsonVal::Text(s) => Some(s@),
        _ => None,
    }
}

/// The value of an integer node.
pub open spec fn jnum(j: JsonVal) -> Option<i64> {
    match j {
        JsonVal::Num(n) => Some(n),
        _ => None,
    }
}

/// An optional node as an optional value.
pub open spec fn oview(j: Option<&JsonVal>) -> Option<JsonVal> {
    match j {
        Some(p) => Some(*p),
        None => None,
    }
}

/// Field access through an optional node: absent stays absent, exactly
/// as indexing through a missing key keeps yielding nothing.
pub open spec fn ojget(j: Option<JsonVal>, k: Seq<char>) -> Option<JsonVal> {
    match j {
        Some(v) => jget(v, k),
        None => None,
    }
}

/// Looks a field up through an optional node.
pub fn oget<'a>(j: Option<&'a JsonVal>, k: &str) -> (r: Option<&'a JsonVal>)
    ensures
        match r {
            Some(v) => ojget(oview(j), k@) == Some(*v),
            None => ojget(oview(j), k@) is None,
        },
{
    match j {
        Some(v) => v.get(k),
        None => None,
    }
}

/// Element access through an optional node.
pub open spec fn ojat(j: Option<JsonVal>, i: int) -> Option<JsonVal> {
    match j {
        Some(v) => jat(v, i),
        None => None,
    }
}

/// Looks an element up through an optional node.
pub fn oat<'a>(j: Option<&'a JsonVal>, i: usize) -> (r: Option<&'a JsonVal>)
    ensures
        match r {
            Some(v) => ojat(oview(j), i as int) == Some(*v),
            None => ojat(oview(j), i as int) is None,
        },
{
    match j {
        Some(v) => v.at(i),
        None => None,
    }
}

/// The text of an optional node.
pub open spec fn ojtext(j: Option<JsonVal>) -> Option<Seq<char>> {
    match j {
        Some(v) => jtext(v),
        None => None,
    }
}

/// The integer of an optional node.
pub open spec fn ojnum(j: Option<JsonVal>) -> Option<i64> {
    match j {
        Some(v) => jnum(v),
        None => None,
    }
}

impl JsonVal {
    /// Looks a field up on an object node.
    pub fn get<'a>(&'a self, k: &str) -> (r: Option<&'a JsonVal>)
        ensures
            match r {
                Some(v) => jget(*self, k@) == Some(*v),
                None => jget(*self, k@) is None,
            },
    {
        match self {
            JsonVal::Object(fields) => {
                let mut i: usize = 0;
                proof {
                    assert(fields@.skip(0) =~= fields@);
                }
                while i < fields.len()
                    invariant
                        0 <= i <= fields@.len(),
                        obj_get(fields@.skip(i as int), k@) == obj_get(fields@, k@),
                        jget(*self, k@) == obj_get(fields@, k@),
                        forall|t: int| 0 <= t < i ==> fields@[t].0@ != k@,
                    decreases fields@.len() - i,
                {
                    if text::str_eq(fields[i].0.as_str(), k) {
                        proof {
                            assert(fields@.skip(i as int)[0] == fields@[i as int]);
                            assert(obj_get(fields@.skip(i as int), k@) == Some(
                                fields@[i as int].1));
                        }
                        return Some(&fields[i].1);
                    }
                    proof {
                        assert(fields@.skip(i as int)[0] == fields@[i as int]);
                        assert(fields@.skip(i as int).skip(1) =~= fields@.skip(i as int + 1));
                    }
                    i = i + 1;
                }
                None
            },
            _ => None,
        }
    }

    /// Looks an element up on a list node.
    pub fn at<'a>(&'a self, i: usize) -> (r: Option<&'a JsonVal>)
        ensures
            match r {
                Some(v) => jat(*self, i as int) == Some(*v),
                None => jat(*self, i as int) is None,
            },
    {
        match self {
            JsonVal::List(items) => {
                if i < items.len() {
                    Some(&items[i])
                } else {
                    None
                }
            },
            _ => None,
        }
    }

    /// The string of a text node.
    pub fn as_text<'a>(&'a self) -> (r: Option<&'a String>)
        ensures
            match r {
                Some(v) => jtext(*self) == Some(v@),
                None => jtext(*self) is None,
            },
    {
        match self {
            JsonVal::Text(s) => Some(s),
            _ => None,
        }
    }

    /// The value of an integer node.
    pub fn as_num(&self) -> (r: Option<i64>)
        ensures
            r == jnum(*self),
    {
        match self {
            JsonVal::Num(n) => Some(*n),
            _ => None,
        }
    }

    /// The elements of a list node.
    pub fn as_list<'a>(&'a self) -> (r: Option<&'a Vec<JsonVal>>)
        ensures
            match r {
                Some(v) => *self matches JsonVal::List(items) && v == items,
                None => !(*self is List),
            },
    {
        match self {
            JsonVal::List(items) => Some(items),
            _ => None,
        }
    }
}

} // verus!
