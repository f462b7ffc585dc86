//! A plain, library-owned form of a parsed JSON document, and the trusted
//! boundary that produces it from raw bytes.

use vstd::prelude::*;

verus! {

/// A parsed JSON value, holding only what the log normalizers read: unsigned
/// integers, strings, arrays and objects. A number that does not fit in
/// `u64` (negative or fractional) is kept as `NumOther`, since no format
/// rule reads such a number.
#[derive(Debug)]
pub enum JsonValue {
    Null,
    Bool(bool),
    UInt(u64),
    NumOther,
    Str(String),
    Arr(Vec<JsonValue>),
    Obj(Vec<(String, JsonValue)>),
}

/// What parsing a byte sequence as one JSON document yields: `None` when the
/// bytes are not a single well-formed document. The result depends on the
/// bytes alone; its definition is the JSON grammar and is not restated here.
pub uninterp spec fn json_of(bytes: Seq<u8>) -> Option<JsonValue>;

#[verifier::external_type_specification]
#[verifier::external_body]
pub struct ExSerdeValue(serde_json::Value);

/// Relies on serde_json::Value's public variants: rebuilds the value in the
/// library's own form, variant by variant; a number is kept only as what
/// `Number::as_u64` reports of it.
#[verifier::external_body]
fn value_of(v: serde_json::Value) -> JsonValue {
    match v {
        serde_json::Value::Null => JsonValue::Null,
        serde_json::Value::Bool(b) => JsonValue::Bool(b),
        serde_json::Value::Number(n) => match n.as_u64() {
            Some(u) => JsonValue::UInt(u),
            None => JsonValue::NumOther,
        },
        serde_json::Value::String(s) => JsonValue::Str(s),
        serde_json::Value::Array(a) => JsonValue::Arr(a.into_iter().map(value_of).collect()),
        serde_json::Value::Object(m) => {
            JsonValue::Obj(m.into_iter().map(|(k, x)| (k, value_of(x))).collect())
        },
    }
}

/// Relies on serde_json::from_slice: parses one JSON document from bytes,
/// deterministically, failing exactly when the bytes are not one well-formed
/// document.
#[verifier::external_body]
pub(crate) fn parse_json(bytes: &Vec<u8>) -> (r: Option<JsonValue>)
    ensures
        r == json_of(bytes@),
{
    match serde_json::from_slice::<serde_json::Value>(bytes.as_slice()) {
        Ok(v) => Some(value_of(v)),
        Err(_) => None,
    }
}

/// Relies on str's `==`: character-for-character equality of two string
/// slices.
#[verifier::external_body]
pub(crate) fn str_eq(a: &str, b: &str) -> (r: bool)
    ensures
        r == (a@ == b@),
{
    a == b
}

/// The member of an object held under `key`: the first pair whose name
/// matches, or `None` for a non-object or an absent key.
pub open spec fn spec_get(v: JsonValue, key: Seq<char>) -> Option<JsonValue> {
    match v {
        JsonValue::Obj(pairs) => spec_get_pairs(pairs@, key),
        _ => None,
    }
}

pub open spec fn spec_get_pairs(
    pairs: Seq<(String, JsonValue)>,
    key: Seq<char>,
) -> Option<JsonValue>
    decreases pairs.len(),
{
    if pairs.len() == 0 {
        None
    } else if pairs[0].0@ == key {
        Some(pairs[0].1)
    } else {
        spec_get_pairs(pairs.drop_first(), key)
    }
}

impl JsonValue {
    /// Looks `key` up in an object.
    pub fn get<'a>(&'a self, key: &str) -> (r: Option<&'a JsonValue>)
        ensures
            match r {
                Some(x) => spec_get(*self, key@) == Some(*x),
                None => spec_get(*self, key@) is None,
            },
    {
        match self {
            JsonValue::Obj(pairs) => {
                let mut i: usize = 0;
                assert(pairs@.skip(0) =~= pairs@);
                while i < pairs.len()
                    invariant
                        i <= pairs.len(),
                        spec_get_pairs(pairs@, key@) == spec_get_pairs(
                            pairs@.skip(i as int),
                            key@,
                        ),
                    decreases pairs.len() - i,
                {
                    assert(pairs@.skip(i as int)[0] == pairs@[i as int]);
                    if str_eq(pairs[i].0.as_str(), key) {
                        assert(spec_get_pairs(pairs@.skip(i as int), key@) == Some(
                            pairs@[i as int].1,
                        ));
                        assert(spec_get(*self, key@) == spec_get_pairs(pairs@, key@));
                        return Some(&pairs[i].1);
                    }
                    assert(pairs@.skip(i as int).drop_first() =~= pairs@.skip(i + 1));
                    i += 1;
                }
                None
            },
            _ => None,
        }
    }

    /// The value as an unsigned integer, where it is one.
    pub open spec fn spec_as_u64(self) -> Option<u64> {
        match self {
            JsonValue::UInt(n) => Some(n),
            _ => None,
        }
    }

    pub fn as_u64(&self) -> (r: Option<u64>)
        ensures
            r == self.spec_as_u64(),
    {
        match self {
            JsonValue::UInt(n) => Some(*n),
            _ => None,
        }
    }

    /// The value's character sequence, where it is a string.
    pub open spec fn spec_as_str(self) -> Option<Seq<char>> {
        match self {
            JsonValue::Str(s) => Some(s@),
            _ => None,
        }
    }

    pub fn as_str<'a>(&'a self) -> (r: Option<&'a String>)
        ensures
            match r {
                Some(s) => self.spec_as_str() == Some(s@),
                None => self.spec_as_str() is None,
            },
    {
        match self {
            JsonValue::Str(s) => Some(s),
            _ => None,
        }
    }

    /// The value's elements, where it is an array.
    pub open spec fn spec_as_array(self) -> Option<Seq<JsonValue>> {
        match self {
            JsonValue::Arr(items) => Some(items@),
            _ => None,
        }
    }

    pub fn as_array<'a>(&'a self) -> (r: Option<&'a Vec<JsonValue>>)
        ensures
            match r {
                Some(items) => self.spec_as_array() == Some(items@),
                None => self.spec_as_array() is None,
            },
    {
        match self {
            JsonValue::Arr(items) => Some(items),
            _ => None,
        }
    }
}

/// The unsigned integer under `key` in object `v`, if there is one.
pub open spec fn spec_get_u64(v: JsonValue, key: Seq<char>) -> Option<u64> {
    match spec_get(v, key) {
        Some(x) => x.spec_as_u64(),
        None => None,
    }
}

pub fn get_u64(v: &JsonValue, key: &str) -> (r: Option<u64>)
    ensures
        r == spec_get_u64(*v, key@),
{
    match v.get(key) {
        Some(x) => x.as_u64(),
        None => None,
    }
}

/// The string under `key` in object `v`, if there is one.
pub open spec fn spec_get_str(v: JsonValue, key: Seq<char>) -> Option<Seq<char>> {
    match spec_get(v, key) {
        Some(x) => x.spec_as_str(),
        None => None,
    }
}

pub fn get_str<'a>(v: &'a JsonValue, key: &str) -> (r: Option<&'a String>)
    ensures
        match r {
            Some(s) => spec_get_str(*v, key@) == Some(s@),
            None => spec_get_str(*v, key@) is None,
        },
{
    match v.get(key) {
        Some(x) => x.as_str(),
        None => None,
    }
}

} // verus!
