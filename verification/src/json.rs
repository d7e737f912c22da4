//! A JSON document as plain values, the shape of a parsed `serde_json::Value`:
//! numbers keep the form `serde_json` holds them in (a non-negative integer, a
//! negative integer, or a float given by the text `serde_json` prints for it),
//! and an object keeps its entries in order, each key once.
use vstd::prelude::*;

use crate::decimal::{decimal_parse, rd_parse, Dec};
use crate::text::{i64_text, int_text, nat_text, same_text, u64_text};
use serde_json::Value;

verus! {

/// A JSON number.
#[derive(Debug)]
pub enum JsonNumber {
    PosInt(u64),
    NegInt(i64),
    Float(String),
}

/// A JSON value.
#[derive(Debug)]
pub enum JsonValue {
    Null,
    Bool(bool),
    Number(JsonNumber),
    Str(String),
    Array(Vec<JsonValue>),
    Object(Vec<(String, JsonValue)>),
}

/// The first entry for `key`, if any.
pub open spec fn find_entry(entries: Seq<(String, JsonValue)>, key: Seq<char>) -> Option<JsonValue>
    decreases entries.len(),
{
    if entries.len() == 0 {
        None
    } else if entries[0].0@ == key {
        Some(entries[0].1)
    } else {
        find_entry(entries.drop_first(), key)
    }
}

/// The member `key` of an object; nothing for other values (where
/// `serde_json` indexing gives `Null`).
pub open spec fn spec_field(v: JsonValue, key: Seq<char>) -> Option<JsonValue> {
    match v {
        JsonValue::Object(entries) => find_entry(entries@, key),
        _ => None,
    }
}

/// The string a value holds (`as_str`).
pub open spec fn spec_str(v: Option<JsonValue>) -> Option<Seq<char>> {
    match v {
        Some(JsonValue::Str(s)) => Some(s@),
        _ => None,
    }
}

/// The text `serde_json` prints for a number.
pub open spec fn number_text(n: JsonNumber) -> Seq<char> {
    match n {
        JsonNumber::PosInt(u) => nat_text(u as nat),
        JsonNumber::NegInt(i) => int_text(i as int),
        JsonNumber::Float(t) => t@,
    }
}

/// The decimal read from a text, or zero where it reads none.
pub open spec fn dec_or_zero(s: Seq<char>) -> Dec {
    match decimal_parse(s) {
        Some((m, sc)) => Dec { mantissa: m, scale: sc },
        None => Dec { mantissa: 0, scale: 0 },
    }
}

/// A decimal from a JSON value: a number by the text `serde_json` prints for
/// it (a whole number is so read as itself), a string by its content, zero
/// for anything else or what does not parse.
pub open spec fn spec_parse_dec(v: Option<JsonValue>) -> Dec {
    match v {
        Some(JsonValue::Number(JsonNumber::PosInt(u))) => Dec { mantissa: u as i128, scale: 0 },
        Some(JsonValue::Number(JsonNumber::NegInt(i))) => Dec { mantissa: i as i128, scale: 0 },
        Some(JsonValue::Number(n)) => dec_or_zero(number_text(n)),
        Some(JsonValue::Str(s)) => dec_or_zero(s@),
        _ => Dec { mantissa: 0, scale: 0 },
    }
}

/// A whole JSON number is read as itself, whatever its sign: the decimal
/// has the number's value at scale 0, so it is below zero exactly where the
/// number is.
pub proof fn law_whole_numbers_read_as_themselves(v: JsonValue, n: int)
    requires
        (v matches JsonValue::Number(JsonNumber::PosInt(u)) && u == n) || (
        v matches JsonValue::Number(JsonNumber::NegInt(i)) && i == n),
    ensures
        spec_parse_dec(Some(v)).mantissa == n,
        spec_parse_dec(Some(v)).scale == 0,
        spec_parse_dec(Some(v)).mantissa < 0 <==> n < 0,
{
}

/// What is neither a number nor a string, and a missing value, reads as
/// zero.
pub proof fn law_other_values_read_as_zero(v: Option<JsonValue>)
    requires
        !(v matches Some(JsonValue::Number(_))),
        !(v matches Some(JsonValue::Str(_))),
    ensures
        spec_parse_dec(v).mantissa == 0,
        spec_parse_dec(v).scale == 0,
{
}

/// An optional reference as an optional value.
pub open spec fn deref_opt(o: Option<&JsonValue>) -> Option<JsonValue> {
    match o {
        Some(x) => Some(*x),
        None => None,
    }
}

impl JsonValue {
    /// The member `key` of an object, if present.
    pub fn field(&self, key: &str) -> (r: Option<&JsonValue>)
        ensures
            deref_opt(r) == spec_field(*self, key@),
    {
        match self {
            JsonValue::Object(entries) => {
                let mut i: usize = 0;
                assert(entries@.skip(0) =~= entries@);
                while i < entries.len()
                    invariant
                        i <= entries.len(),
                        spec_field(*self, key@) == find_entry(entries@, key@),
                        find_entry(entries@, key@) == find_entry(entries@.skip(i as int), key@),
                    decreases entries.len() - i,
                {
                    assert(entries@.skip(i as int).drop_first() =~= entries@.skip(i + 1));
                    assert(entries@.skip(i as int)[0] == entries@[i as int]);
                    if same_text(entries[i].0.as_str(), key) {
                        return Some(&entries[i].1);
                    }
                    i = i + 1;
                }
                assert(entries@.skip(i as int) =~= Seq::<(String, JsonValue)>::empty());
                None
            },
            _ => None,
        }
    }
}

/// The string held by a value, if it is one.
pub fn as_str(v: Option<&JsonValue>) -> (r: Option<String>)
    ensures
        match r {
            Some(s) => spec_str(deref_opt(v)) == Some(s@),
            None => spec_str(deref_opt(v)) is None,
        },
{
    match v {
        Some(JsonValue::Str(s)) => Some(s.clone()),
        _ => None,
    }
}

/// The text of a number.
pub fn number_to_text(n: &JsonNumber) -> (r: String)
    ensures
        r@ == number_text(*n),
{
    match n {
        JsonNumber::PosInt(u) => u64_text(*u),
        JsonNumber::NegInt(i) => i64_text(*i),
        JsonNumber::Float(t) => t.clone(),
    }
}

/// A decimal from a JSON value, zero where none can be read.
pub fn parse_dec(v: Option<&JsonValue>) -> (r: Dec)
    ensures
        r == spec_parse_dec(deref_opt(v)),
        r.wf(),
{
    match v {
        Some(JsonValue::Number(n)) => {
            let t = number_to_text(n);
            proof {
                if let JsonNumber::PosInt(u) = *n {
                    assert(int_text(u as int) == nat_text(u as nat));
                }
            }
            match rd_parse(t.as_str()) {
                Some(d) => d,
                None => Dec::zero(),
            }
        },
        Some(JsonValue::Str(s)) => match rd_parse(s.as_str()) {
            Some(d) => d,
            None => Dec::zero(),
        },
        _ => Dec::zero(),
    }
}

/// The integer a value holds, if it is an integer that fits in `i64`
/// (`as_i64`).
pub open spec fn spec_as_i64(v: Option<JsonValue>) -> Option<i64> {
    match v {
        Some(JsonValue::Number(JsonNumber::PosInt(u))) => if u <= i64::MAX {
            Some(u as i64)
        } else {
            None
        },
        Some(JsonValue::Number(JsonNumber::NegInt(i))) => Some(i),
        _ => None,
    }
}

/// The integer a value holds, if it is an integer that fits in `i64`.
pub fn as_i64(v: Option<&JsonValue>) -> (r: Option<i64>)
    ensures
        r == spec_as_i64(deref_opt(v)),
{
    match v {
        Some(JsonValue::Number(JsonNumber::PosInt(u))) => {
            if *u <= 9223372036854775807u64 {
                Some(*u as i64)
            } else {
                None
            }
        },
        Some(JsonValue::Number(JsonNumber::NegInt(i))) => Some(*i),
        _ => None,
    }
}

/// What `serde_json::from_str` reads from a text as a `serde_json::Value`:
/// the document, or the text of its error.
pub uninterp spec fn json_value_of_text(s: Seq<char>) -> Result<JsonValue, Seq<char>>;

/// What `serde_json::from_str` reads from a text as a list of values: the
/// items, or the text of its error.
pub uninterp spec fn json_items_of_text(s: Seq<char>) -> Result<Seq<JsonValue>, Seq<char>>;

/// What `serde_json::from_slice` reads from bytes as a `serde_json::Value`,
/// if anything.
pub uninterp spec fn json_value_of_bytes(b: Seq<u8>) -> Option<JsonValue>;

/// A `serde_json` value as a JSON value, member for member: an integer by
/// its value, another number by the text `serde_json` prints for it.
#[verifier::external_body]
fn json_of(v: &Value) -> JsonValue {
    match v {
        Value::Null => JsonValue::Null,
        Value::Bool(b) => JsonValue::Bool(*b),
        Value::Number(n) => JsonValue::Number(match (n.as_u64(), n.as_i64()) {
            (Some(u), _) => JsonNumber::PosInt(u),
            (None, Some(i)) => JsonNumber::NegInt(i),
            (None, None) => JsonNumber::Float(n.to_string()),
        }),
        Value::String(s) => JsonValue::Str(s.clone()),
        Value::Array(items) => JsonValue::Array(items.iter().map(json_of).collect()),
        Value::Object(m) => JsonValue::Object(m.iter().map(|(k, x)| (k.clone(), json_of(x))).collect()),
    }
}

/// A text read as JSON by `serde_json::from_str` (into a `serde_json::Value`,
/// converted by `json_of`); the error as its text.
#[verifier::external_body]
pub(crate) fn parse_json_text(s: &str) -> (r: Result<JsonValue, String>)
    ensures
        match r {
            Ok(v) => json_value_of_text(s@) == Ok::<JsonValue, Seq<char>>(v),
            Err(e) => json_value_of_text(s@) == Err::<JsonValue, Seq<char>>(e@),
        },
{
    match serde_json::from_str::<Value>(s) {
        Ok(v) => Ok(json_of(&v)),
        Err(e) => Err(e.to_string()),
    }
}

/// A text read by `serde_json::from_str` as a list of `serde_json::Value`s,
/// each converted by `json_of`; the error as its text.
#[verifier::external_body]
pub(crate) fn parse_json_items(s: &str) -> (r: Result<Vec<JsonValue>, String>)
    ensures
        match r {
            Ok(v) => json_items_of_text(s@) == Ok::<Seq<JsonValue>, Seq<char>>(v@),
            Err(e) => json_items_of_text(s@) == Err::<Seq<JsonValue>, Seq<char>>(e@),
        },
{
    match serde_json::from_str::<Vec<Value>>(s) {
        Ok(v) => Ok(v.iter().map(json_of).collect()),
        Err(e) => Err(e.to_string()),
    }
}

/// Bytes read as JSON by `serde_json::from_slice` (into a
/// `serde_json::Value`, converted by `json_of`), if they are JSON.
#[verifier::external_body]
pub(crate) fn parse_json_bytes(b: &[u8]) -> (r: Option<JsonValue>)
    ensures
        r == json_value_of_bytes(b@),
{
    match serde_json::from_slice::<Value>(b) {
        Ok(v) => Some(json_of(&v)),
        Err(_) => None,
    }
}

} // verus!
