//! JSON values as the engine's protocol messages carry them, holding what the
//! device-state logic reads: objects, strings, and numbers by their value as a
//! `u64` where they have one.
use vstd::prelude::*;

verus! {

/// A JSON value. A number holds its value where it is a whole number that fits
/// in a `u64`, and `None` otherwise (negative or fractional numbers). An object
/// holds its members in order.
#[derive(Debug)]
pub enum JsonValue {
    Null,
    Bool(bool),
    Number(Option<u64>),
    String(String),
    Array(Vec<JsonValue>),
    Object(Vec<(String, JsonValue)>),
}

/// The value of the first member named `key` among `fields`.
pub open spec fn first_field(fields: Seq<(String, JsonValue)>, key: Seq<char>) -> Option<
    JsonValue,
>
    decreases fields.len(),
{
    if fields.len() == 0 {
        None
    } else if fields[0].0@ == key {
        Some(fields[0].1)
    } else {
        first_field(fields.drop_first(), key)
    }
}

/// The member `key` of `v`, where `v` is an object that has one.
pub open spec fn json_get(v: JsonValue, key: Seq<char>) -> Option<JsonValue> {
    match v {
        JsonValue::Object(fields) => first_field(fields@, key),
        _ => None,
    }
}

/// The number that `v` holds, where it is a number that fits in a `u64`.
pub open spec fn json_u64(v: Option<JsonValue>) -> Option<u64> {
    match v {
        Some(JsonValue::Number(n)) => n,
        _ => None,
    }
}

/// The text that `v` holds, where it is a string.
pub open spec fn json_str(v: Option<JsonValue>) -> Option<Seq<char>> {
    match v {
        Some(JsonValue::String(s)) => Some(s@),
        _ => None,
    }
}

impl JsonValue {
    /// The member `key` of this value, where it is an object that has one.
    pub fn get(&self, key: &str) -> (r: Option<&JsonValue>)
        ensures
            match r {
                Some(x) => json_get(*self, key@) == Some(*x),
                None => json_get(*self, key@) is None,
            },
    {
        match self {
            JsonValue::Object(fields) => {
                let wanted = key.to_owned();
                let n = fields.len();
                let mut i: usize = 0;
                assert(fields@.subrange(0, n as int) =~= fields@);
                while i < n
                    invariant
                        n == fields@.len(),
                        i <= n,
                        wanted@ == key@,
                        json_get(*self, key@) == first_field(fields@, key@),
                        first_field(fields@, key@) == first_field(
                            fields@.subrange(i as int, n as int),
                            key@,
                        ),
                    decreases n - i,
                {
                    let ghost rest = fields@.subrange(i as int, n as int);
                    assert(rest.drop_first() =~= fields@.subrange(i + 1, n as int));
                    assert(rest[0] == fields@[i as int]);
                    if fields[i].0 == wanted {
                        return Some(&fields[i].1);
                    }
                    i = i + 1;
                }
                None
            },
            _ => None,
        }
    }

    /// The elements of this value, where it is an array.
    pub fn as_array(&self) -> (r: Option<&Vec<JsonValue>>)
        ensures
            match r {
                Some(items) => *self == JsonValue::Array(*items),
                None => !(*self is Array),
            },
    {
        match self {
            JsonValue::Array(items) => Some(items),
            _ => None,
        }
    }

    /// Whether this value is an object.
    pub fn is_object(&self) -> (r: bool)
        ensures
            r == (*self is Object),
    {
        match self {
            JsonValue::Object(_) => true,
            _ => false,
        }
    }

    /// Whether this value is `null`.
    pub fn is_null(&self) -> (r: bool)
        ensures
            r == (*self is Null),
    {
        match self {
            JsonValue::Null => true,
            _ => false,
        }
    }

    /// The number this value holds, where it is a number that fits in a `u64`.
    pub fn as_u64(&self) -> (r: Option<u64>)
        ensures
            r == json_u64(Some(*self)),
    {
        match self {
            JsonValue::Number(n) => *n,
            _ => None,
        }
    }

    /// The text this value holds, where it is a string.
    pub fn as_str(&self) -> (r: Option<&String>)
        ensures
            match r {
                Some(s) => json_str(Some(*self)) == Some(s@),
                None => json_str(Some(*self)) is None,
            },
    {
        match self {
            JsonValue::String(s) => Some(s),
            _ => None,
        }
    }
}

#[verifier::external_type_specification]
#[verifier::external_body]
pub struct ExSerdeJsonValue(serde_json::Value);

/// What `serde_json::from_str::<Vec<serde_json::Value>>` makes of a text, taken
/// value by value into `JsonValue`: `None` where the text is not a JSON array.
pub uninterp spec fn protocol_messages(text: Seq<char>) -> Option<Seq<JsonValue>>;

/// A `serde_json::Value` taken into `JsonValue`, variant by variant, each number
/// by its `as_u64`. Nothing is stated of it here: it serves the parsing wrappers,
/// whose contracts cover the whole parse.
#[verifier::external_body]
pub(crate) fn from_serde_value(v: serde_json::Value) -> JsonValue {
    match v {
        serde_json::Value::Null => JsonValue::Null,
        serde_json::Value::Bool(b) => JsonValue::Bool(b),
        serde_json::Value::Number(n) => JsonValue::Number(n.as_u64()),
        serde_json::Value::String(s) => JsonValue::String(s),
        serde_json::Value::Array(a) => JsonValue::Array(a.into_iter().map(from_serde_value).collect()),
        serde_json::Value::Object(o) => JsonValue::Object(o.into_iter().map(|(k, x)| (k, from_serde_value(x))).collect()),
    }
}

/// `serde_json::from_str::<Vec<serde_json::Value>>` on an engine message, each
/// value taken into `JsonValue`: the result is what `protocol_messages` names for
/// the text, a function of the text alone.
#[verifier::external_body]
pub(crate) fn parse_protocol_messages(msg: &str) -> (r: Option<Vec<JsonValue>>)
    ensures
        match r {
            Some(v) => protocol_messages(msg@) == Some(v@),
            None => protocol_messages(msg@) is None,
        },
{
    serde_json::from_str::<Vec<serde_json::Value>>(msg).ok().map(|vs| vs.into_iter().map(from_serde_value).collect())
}

/// What `serde_json::from_slice::<serde_json::Value>` makes of a byte string,
/// taken into `JsonValue`: `None` where the bytes are not one JSON text.
pub uninterp spec fn json_of_bytes(bytes: Seq<u8>) -> Option<JsonValue>;

/// `serde_json::from_slice::<serde_json::Value>` on a byte string, taken into
/// `JsonValue`: the result is what `json_of_bytes` names for the bytes, a function
/// of the bytes alone.
#[verifier::external_body]
pub(crate) fn parse_json_bytes(bytes: &[u8]) -> (r: Option<JsonValue>)
    ensures
        match r {
            Some(v) => json_of_bytes(bytes@) == Some(v),
            None => json_of_bytes(bytes@) is None,
        },
{
    serde_json::from_slice::<serde_json::Value>(bytes).ok().map(from_serde_value)
}

} // verus!
