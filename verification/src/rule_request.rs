//! The grammar of a request to create a trade rule: a JSON object with
//! exactly the members `symbol` (a string of 1 to 10 bytes), `buy_below`,
//! `sell_above` and `stop_loss` (numbers above zero) and `max_lot` (a whole
//! number from 1 to 2^32 - 1). The request is checked with a `zod_rs` schema
//! and its lot limit is then read as a `u32`; the texts of their refusals
//! come from those crates.
use vstd::prelude::*;

use crate::json::{JsonNumber, JsonValue};
use serde_json::Value;
use zod_rs::prelude::{number, object, string, Schema};

verus! {

/// The members a rule request has, and no others.
pub open spec fn rule_key(k: Seq<char>) -> bool {
    k == "symbol"@ || k == "buy_below"@ || k == "sell_above"@ || k == "stop_loss"@ || k
        == "max_lot"@
}

/// The bytes a character takes in UTF-8.
pub open spec fn utf8_width(c: char) -> nat {
    if (c as u32) < 0x80 {
        1
    } else if (c as u32) < 0x800 {
        2
    } else if (c as u32) < 0x10000 {
        3
    } else {
        4
    }
}

/// The bytes a text takes in UTF-8 (what `str::len` counts).
pub open spec fn utf8_len(s: Seq<char>) -> nat
    decreases s.len(),
{
    if s.len() == 0 {
        0
    } else {
        utf8_len(s.drop_last()) + utf8_width(s.last())
    }
}

/// The last entry for `key`: the member a `serde_json` map built from the
/// entries holds, a later entry replacing an earlier one.
pub open spec fn find_last_entry(entries: Seq<(String, JsonValue)>, key: Seq<char>) -> Option<
    JsonValue,
>
    decreases entries.len(),
{
    if entries.len() == 0 {
        None
    } else if entries.last().0@ == key {
        Some(entries.last().1)
    } else {
        find_last_entry(entries.drop_last(), key)
    }
}

/// The member `key` of the request as its `serde_json` document holds it.
pub open spec fn member(body: JsonValue, key: Seq<char>) -> Option<JsonValue> {
    match body {
        JsonValue::Object(entries) => find_last_entry(entries@, key),
        _ => None,
    }
}

/// `zod_rs`'s `number().positive()` accepts the number that
/// `serde_json::Number`'s `FromStr` reads from this text (a text that reads
/// as no number becomes `null` in the document, which no number schema
/// accepts).
pub uninterp spec fn float_text_positive(t: Seq<char>) -> bool;

/// `zod_rs`'s `number().int()` accepts the number that
/// `serde_json::Number`'s `FromStr` reads from this text: it has no
/// fractional part.
pub uninterp spec fn float_text_whole(t: Seq<char>) -> bool;

/// `u32`'s `Deserialize` accepts the number that `serde_json::Number`'s
/// `FromStr` reads from this text.
pub uninterp spec fn float_text_u32(t: Seq<char>) -> bool;

/// A JSON number above zero, as `zod_rs` compares its value.
pub open spec fn number_positive(n: JsonNumber) -> bool {
    match n {
        JsonNumber::PosInt(u) => u > 0,
        JsonNumber::NegInt(i) => i > 0,
        JsonNumber::Float(t) => float_text_positive(t@),
    }
}

/// A member that is a string of 1 to 10 bytes.
pub open spec fn symbol_ok(v: Option<JsonValue>) -> bool {
    v matches Some(JsonValue::Str(s)) && 1 <= utf8_len(s@) <= 10
}

/// A member that is a number above zero.
pub open spec fn price_ok(v: Option<JsonValue>) -> bool {
    v matches Some(JsonValue::Number(n)) && number_positive(n)
}

/// A member that is a whole number above zero.
pub open spec fn count_ok(v: Option<JsonValue>) -> bool {
    v matches Some(JsonValue::Number(n)) && number_positive(n) && (n matches JsonNumber::Float(t)
        ==> float_text_whole(t@))
}

/// What the rule schema accepts: an object with no members but the five,
/// each of them present; `symbol` a string of 1 to 10 bytes; the three
/// prices numbers above zero; `max_lot` a whole number above zero.
pub open spec fn schema_accepts(body: JsonValue) -> bool {
    &&& body matches JsonValue::Object(entries) && forall|i: int|
        0 <= i < entries.len() ==> rule_key(#[trigger] entries@[i].0@)
    &&& symbol_ok(member(body, "symbol"@))
    &&& price_ok(member(body, "buy_below"@))
    &&& price_ok(member(body, "sell_above"@))
    &&& price_ok(member(body, "stop_loss"@))
    &&& count_ok(member(body, "max_lot"@))
}

/// A member that `u32`'s `Deserialize` reads from a `serde_json` document:
/// an integer from 0 to 2^32 - 1.
pub open spec fn lot_readable(v: Option<JsonValue>) -> bool {
    ||| v matches Some(JsonValue::Number(JsonNumber::PosInt(u))) && u <= u32::MAX
    ||| v matches Some(JsonValue::Number(JsonNumber::NegInt(i))) && 0 <= i <= u32::MAX
    ||| v matches Some(JsonValue::Number(JsonNumber::Float(t))) && float_text_u32(t@)
}

/// The request is an acceptable rule: the schema accepts it and its lot
/// limit reads as a `u32`.
pub open spec fn rule_body_ok(body: JsonValue) -> bool {
    schema_accepts(body) && lot_readable(member(body, "max_lot"@))
}

/// The refusal text of reading the member `max_lot` as a `u32` with
/// `serde_json`, if it cannot be read so.
pub uninterp spec fn lot_refusal(body: JsonValue) -> Option<Seq<char>>;

#[verifier::external_type_specification]
#[verifier::external_body]
pub struct ExJsonDocument(Value);

/// The request as a `serde_json` document, member for member; a float is
/// read from its text by `serde_json::Number`'s `FromStr`.
#[verifier::external_body]
fn document_of(v: &JsonValue) -> Value {
    match v {
        JsonValue::Null => Value::Null,
        JsonValue::Bool(b) => Value::Bool(*b),
        JsonValue::Number(JsonNumber::PosInt(u)) => Value::from(*u),
        JsonValue::Number(JsonNumber::NegInt(i)) => Value::from(*i),
        JsonValue::Number(JsonNumber::Float(t)) => {
            t.parse::<serde_json::Number>().map_or(Value::Null, Value::Number)
        },
        JsonValue::Str(s) => Value::String(s.clone()),
        JsonValue::Array(items) => Value::Array(items.iter().map(document_of).collect()),
        JsonValue::Object(es) => Value::Object(es.iter().map(|(k, x)| (k.clone(), document_of(x))).collect()),
    }
}

/// The rule schema of `zod_rs` (`object().field(..)..strict()`, then
/// `safe_parse`) on the request: none where it accepts it, else its error
/// as text. The error lists the failing members in the order in which the
/// schema's hash map is walked, which varies from one schema to the next;
/// so only acceptance is stated, not the text.
#[verifier::external_body]
fn schema_check(body: &JsonValue) -> (r: Option<String>)
    ensures
        r is None <==> schema_accepts(*body),
        r is None ==> (member(*body, "max_lot"@) matches Some(JsonValue::Number(JsonNumber::Float(t)))
            ==> float_text_positive(t@) && float_text_whole(t@)),
{
    let schema = object()
        .field("symbol", string().min(1).max(10))
        .field("buy_below", number().positive())
        .field("sell_above", number().positive())
        .field("stop_loss", number().positive())
        .field("max_lot", number().positive().int())
        .strict();
    match schema.safe_parse(&document_of(body)) {
        Ok(_) => None,
        Err(e) => Some(e.to_string()),
    }
}

/// Reading the member `max_lot` (`null` where it is missing) as a `u32`
/// with `serde_json`'s deserializer: none where it reads, else the error as
/// text.
#[verifier::external_body]
fn lot_check(body: &JsonValue) -> (r: Option<String>)
    ensures
        r is None <==> lot_readable(member(*body, "max_lot"@)),
        member(*body, "max_lot"@) matches Some(JsonValue::Number(JsonNumber::Float(t))) ==> (r is None
            <==> float_text_u32(t@)),
        match r {
            Some(t) => lot_refusal(*body) == Some(t@),
            None => lot_refusal(*body) is None,
        },
{
    let doc = document_of(body);
    match <u32 as serde::Deserialize>::deserialize(&doc["max_lot"]) {
        Ok(_) => None,
        Err(e) => Some(e.to_string()),
    }
}

/// Checks a request to create a rule: accepted exactly where `rule_body_ok`
/// holds; otherwise refused with the schema's message (whose wording is
/// not stated), or, where the schema accepts the request, with the lot
/// reader's.
pub fn check_rule_body(body: &JsonValue) -> (r: Result<(), String>)
    ensures
        r is Ok <==> rule_body_ok(*body),
        schema_accepts(*body) ==> (r matches Err(m) ==> lot_refusal(*body) == Some(m@)),
{
    match schema_check(body) {
        Some(t) => Err(t),
        None => match lot_check(body) {
            Some(t) => Err(t),
            None => Ok(()),
        },
    }
}

} // verus!
