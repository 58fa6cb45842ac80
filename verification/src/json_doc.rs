//! A JSON document as plain values, read from text by the `json` crate, and
//! the queries the configuration reader makes of it.
use vstd::prelude::*;

verus! {

/// A JSON number as the `json` crate keeps it: a sign, a decimal mantissa and
/// a decimal exponent (the value is `±mantissa * 10^exponent`).
#[derive(PartialEq, Eq, Structural, Clone, Copy, Debug)]
pub struct JsonNumber {
    pub positive: bool,
    pub mantissa: u64,
    pub exponent: i16,
}

/// A JSON value. Object members keep the order of the text; a key occurs at
/// most once in an object read from text.
pub enum Json {
    Null,
    Str(String),
    Number(JsonNumber),
    Boolean(bool),
    Object(Vec<(String, Json)>),
    Array(Vec<Json>),
}

/// The value of `key` among object members, if present.
pub open spec fn member(entries: Seq<(String, Json)>, key: Seq<char>) -> Option<Json>
    decreases entries.len(),
{
    if entries.len() == 0 {
        None
    } else if entries[0].0@ == key {
        Some(entries[0].1)
    } else {
        member(entries.drop_first(), key)
    }
}

impl Json {
    /// The members of an object; nothing for any other value.
    pub open spec fn entries(self) -> Seq<(String, Json)> {
        match self {
            Json::Object(entries) => entries@,
            _ => Seq::empty(),
        }
    }

    /// Whether the value is an object with member `key`.
    pub open spec fn spec_has_key(self, key: Seq<char>) -> bool {
        match self {
            Json::Object(entries) => member(entries@, key) is Some,
            _ => false,
        }
    }

    /// The member `key` of an object; `Null` when absent or not an object.
    pub open spec fn at_key(self, key: Seq<char>) -> Json {
        match self {
            Json::Object(entries) => match member(entries@, key) {
                Some(v) => v,
                None => Json::Null,
            },
            _ => Json::Null,
        }
    }

    /// The element `i` of an array; `Null` when absent or not an array.
    pub open spec fn at_index(self, i: int) -> Json {
        match self {
            Json::Array(items) => if 0 <= i < items@.len() {
                items@[i]
            } else {
                Json::Null
            },
            _ => Json::Null,
        }
    }

    /// The text of a string value.
    pub open spec fn spec_as_str(self) -> Option<Seq<char>> {
        match self {
            Json::Str(s) => Some(s@),
            _ => None,
        }
    }

    /// A number that is a non-negative integer fitting in 32 bits, as the
    /// `json` crate's `as_u32` reads it: positive sign, exponent 0, and a
    /// mantissa of at most `u32::MAX`.
    pub open spec fn spec_as_u32(self) -> Option<u32> {
        match self {
            Json::Number(n) => number_as_u32(n),
            _ => None,
        }
    }
}

/// The `json` crate's conversion of a number to `u32`.
pub open spec fn number_as_u32(n: JsonNumber) -> Option<u32> {
    if n.positive && n.exponent == 0 && n.mantissa <= u32::MAX {
        Some(n.mantissa as u32)
    } else {
        None
    }
}

/// The document that the `json` crate reads from a text, or `None` where it
/// reports a syntax error.
pub uninterp spec fn parsed_json(text: Seq<char>) -> Option<Json>;

/// Reads a JSON text with `json::parse`. The contract claims only that the
/// result is the `json` crate's reading of the text (`parsed_json`): `None`
/// where `json::parse` returns an error, else the document converted member
/// for member by `json_from_value`.
#[verifier::external_body]
pub fn parse_json_text(text: &str) -> (r: Option<Json>)
    ensures
        r == parsed_json(text@),
{
    match json::parse(text) {
        Ok(v) => Some(json_from_value(&v)),
        Err(_) => None,
    }
}

/// The `json` crate's document type, carried opaquely from `json::parse` to
/// its conversion.
#[verifier::external_type_specification]
#[verifier::external_body]
pub struct ExJsonValue(json::JsonValue);

/// Converts a `json::JsonValue`, variant for variant, into a `Json`: short
/// and long strings both become `Str`, a number keeps the parts that
/// `Number::as_parts` gives. Only `parse_json_text` calls it; nothing is
/// claimed of it beyond what that function's contract states.
#[verifier::external_body]
fn json_from_value(v: &json::JsonValue) -> Json {
    match v {
        json::JsonValue::Null => Json::Null,
        json::JsonValue::Short(s) => Json::Str(s.as_str().to_string()),
        json::JsonValue::String(s) => Json::Str(s.clone()),
        json::JsonValue::Number(n) => {
            let (positive, mantissa, exponent) = n.as_parts();
            Json::Number(JsonNumber { positive, mantissa, exponent })
        },
        json::JsonValue::Boolean(b) => Json::Boolean(*b),
        json::JsonValue::Object(o) => Json::Object(o.iter().map(|(k, x)| (k.to_string(), json_from_value(x))).collect()),
        json::JsonValue::Array(a) => Json::Array(a.iter().map(json_from_value).collect()),
    }
}

impl Json {
    /// The value of member `key` of an object, if present.
    pub fn get(&self, key: &str) -> (r: Option<&Json>)
        ensures
            r is Some == self.spec_has_key(key@),
            r is Some ==> *r->0 == self.at_key(key@),
            r is None ==> self.at_key(key@) == Json::Null,
    {
        match self {
            Json::Object(entries) => {
                let key_s = key.to_owned();
                let mut i: usize = 0;
                proof {
                    assert(entries@.skip(0) =~= entries@);
                }
                while i < entries.len()
                    invariant
                        i <= entries.len(),
                        key_s@ == key@,
                        self is Object && self->Object_0@ == entries@,
                        member(entries@, key@) == member(entries@.skip(i as int), key@),
                    decreases entries.len() - i,
                {
                    proof {
                        assert(entries@.skip(i as int).drop_first() =~= entries@.skip(i + 1));
                    }
                    if entries[i].0 == key_s {
                        assert(entries@.skip(i as int)[0] == entries@[i as int]);
                        assert(member(entries@.skip(i as int), key@) == Some(entries@[i as int].1));
                        return Some(&entries[i].1);
                    }
                    i = i + 1;
                }
                None
            },
            _ => None,
        }
    }

    /// Whether the value is an object with member `key`.
    pub fn has_key(&self, key: &str) -> (r: bool)
        ensures
            r == self.spec_has_key(key@),
    {
        self.get(key).is_some()
    }

    /// The text of a string value.
    pub fn as_str(&self) -> (r: Option<&str>)
        ensures
            match r {
                Some(s) => self.spec_as_str() == Some(s@),
                None => self.spec_as_str() is None,
            },
    {
        match self {
            Json::Str(s) => Some(s.as_str()),
            _ => None,
        }
    }

    /// The `json` crate's `as_u32`.
    pub fn as_u32(&self) -> (r: Option<u32>)
        ensures
            r == self.spec_as_u32(),
    {
        match self {
            Json::Number(n) => {
                if n.positive && n.exponent == 0 && n.mantissa <= 0xffff_ffffu64 {
                    Some(n.mantissa as u32)
                } else {
                    None
                }
            },
            _ => None,
        }
    }

    /// Whether the value is an array.
    pub fn is_array(&self) -> (r: bool)
        ensures
            r == (self is Array),
    {
        match self {
            Json::Array(_) => true,
            _ => false,
        }
    }

    /// The element `i` of an array, if present.
    pub fn index(&self, i: usize) -> (r: Option<&Json>)
        ensures
            r is Some == (self is Array && i < self->Array_0@.len()),
            r is Some ==> *r->0 == self.at_index(i as int),
            r is None ==> self.at_index(i as int) == Json::Null,
    {
        match self {
            Json::Array(items) => {
                if i < items.len() {
                    Some(&items[i])
                } else {
                    None
                }
            },
            _ => None,
        }
    }

    /// The members of an object; none for any other value.
    pub fn members(&self) -> (r: &[(String, Json)])
        ensures
            r@ == self.entries(),
    {
        match self {
            Json::Object(entries) => entries.as_slice(),
            _ => &[],
        }
    }
}

} // verus!
