//! JSON values as the commands read them.

use vstd::prelude::*;

verus! {

/// A JSON value.
#[derive(Debug)]
pub enum JsonValue {
    Null,
    Bool(bool),
    /// A non-negative integer.
    PosInt(u64),
    /// A negative integer.
    NegInt(i64),
    /// A number with a fraction or an exponent.
    Float,
    String(String),
    Array(Vec<JsonValue>),
    Object(Vec<(String, JsonValue)>),
}

/// The value as a signed 64-bit integer, where it is an integer in range
/// (as `Value::as_i64` gives it).
pub open spec fn json_as_i64(v: JsonValue) -> Option<i64> {
    match v {
        JsonValue::PosInt(n) => if n <= i64::MAX { Some(n as i64) } else { None },
        JsonValue::NegInt(i) => Some(i),
        _ => None,
    }
}

impl JsonValue {
    /// The value as a signed 64-bit integer, where it is an integer in range.
    pub fn as_i64(&self) -> (r: Option<i64>)
        ensures
            r == json_as_i64(*self),
    {
        match self {
            JsonValue::PosInt(n) => if *n <= 0x7fff_ffff_ffff_ffffu64 { Some(*n as i64) } else { None },
            JsonValue::NegInt(i) => Some(*i),
            _ => None,
        }
    }
}


/// The value of the first member of an object with the given key; `None`
/// for a missing key or a value that is not an object.
pub open spec fn json_member(v: JsonValue, key: Seq<char>) -> Option<JsonValue>
{
    match v {
        JsonValue::Object(members) => first_member(members@, key, 0),
        _ => None,
    }
}

/// The value of the first member at or after position `i` with the key.
pub open spec fn first_member(members: Seq<(String, JsonValue)>, key: Seq<char>, i: int) -> Option<JsonValue>
    decreases members.len() - i,
{
    if i < 0 || i >= members.len() {
        None
    } else if members[i].0@ == key {
        Some(members[i].1)
    } else {
        first_member(members, key, i + 1)
    }
}

impl JsonValue {
    /// The member of an object with the given key (`Value::get`).
    pub fn get(&self, key: &str) -> (r: Option<&JsonValue>)
        ensures
            match json_member(*self, key@) {
                Some(v) => r == Some(&v),
                None => r is None,
            },
    {
        match self {
            JsonValue::Object(members) => {
                let k = crate::text::to_chars(key);
                assert(json_member(*self, key@) == first_member(members@, key@, 0));
                for i in 0..members.len()
                    invariant
                        k@ == key@,
                        json_member(*self, key@) == first_member(members@, key@, 0),
                        first_member(members@, key@, 0) == first_member(members@, key@, i as int),
                {
                    let mk = crate::text::to_chars(members[i].0.as_str());
                    if crate::text::eq_chars(&mk, &k) {
                        assert(members@[i as int].0@ == key@);
                        assert(first_member(members@, key@, i as int) == Some(members@[i as int].1));
                        return Some(&members[i].1);
                    }
                }
                None
            },
            _ => None,
        }
    }

    /// The text of a string value (`Value::as_str`).
    pub fn as_str(&self) -> (r: Option<&str>)
        ensures
            match *self {
                JsonValue::String(s) => r matches Some(t) && t@ == s@,
                _ => r is None,
            },
    {
        match self {
            JsonValue::String(s) => Some(s.as_str()),
            _ => None,
        }
    }
}

} // verus!
