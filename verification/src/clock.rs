//! Order ids and the clock: UUIDs and UTC time from the `uuid` and `chrono`
//! crates.
use vstd::prelude::*;

use crate::domain::Timestamp;
use crate::text::digit_char;

verus! {

/// The lower-case hexadecimal digit of a value below 16.
pub open spec fn hex_digit(n: int) -> char {
    if n < 10 {
        digit_char(n as nat)
    } else {
        (('a' as int) + n - 10) as char
    }
}

/// Hexadecimal digit `k` of a 128-bit value, 0 being the most significant
/// of its 32 digits.
pub open spec fn uuid_hex_digit(id: u128, k: int) -> char {
    hex_digit((id as int / vstd::arithmetic::power2::pow2((124 - 4 * k) as nat) as int) % 16)
}

/// The text of a UUID (its `Display`): the 32 lower-case hexadecimal digits
/// of its value, most significant first, in groups of 8, 4, 4, 4 and 12
/// joined by `-`.
pub open spec fn uuid_text(id: u128) -> Seq<char> {
    Seq::new(
        36,
        |i: int|
            if i == 8 || i == 13 || i == 18 || i == 23 {
                '-'
            } else if i < 8 {
                uuid_hex_digit(id, i)
            } else if i < 13 {
                uuid_hex_digit(id, i - 1)
            } else if i < 18 {
                uuid_hex_digit(id, i - 2)
            } else if i < 23 {
                uuid_hex_digit(id, i - 3)
            } else {
                uuid_hex_digit(id, i - 4)
            },
    )
}

/// The UUID that `Uuid::parse_str` reads from a text, if any.
pub uninterp spec fn uuid_parse(s: Seq<char>) -> Option<u128>;

/// The `YYYY-MM-DD` text of a UTC time (`format("%Y-%m-%d")`).
pub uninterp spec fn ymd_text(secs: i64, nanos: u32) -> Seq<char>;

/// Seconds since the epoch that `DateTime::from_timestamp` accepts as a
/// time: those from January 1 of the year -262143 (262144 BCE) to the last
/// second of December 31, 262142, the range of chrono's dates.
pub open spec fn utc_seconds_ok(secs: i64) -> bool {
    -8_334_601_228_800 <= secs <= 8_210_266_876_799
}

/// The `YYYY-MM-DD HH:MM:SS UTC` text of the time `secs` seconds after the
/// epoch (`format("%Y-%m-%d %H:%M:%S UTC")`).
pub uninterp spec fn utc_datetime_text(secs: i64) -> Seq<char>;

/// A fresh random (version 4) UUID, by `Uuid::new_v4`. Nothing is stated of
/// its value: it is random.
#[verifier::external_body]
pub(crate) fn new_uuid() -> u128 {
    uuid::Uuid::new_v4().as_u128()
}

/// The text of a UUID, by its `Display`: the value's big-endian bytes
/// (`Uuid::from_u128`) written as lower-case hexadecimal in the hyphenated
/// groups that `uuid_text` describes.
#[verifier::external_body]
pub(crate) fn uuid_to_text(id: u128) -> (r: String)
    ensures
        r@ == uuid_text(id),
{
    uuid::Uuid::from_u128(id).to_string()
}

/// A UUID read from text, by `Uuid::parse_str`.
#[verifier::external_body]
pub(crate) fn parse_uuid(s: &str) -> (r: Option<u128>)
    ensures
        r == uuid_parse(s@),
{
    match uuid::Uuid::parse_str(s) {
        Ok(u) => Some(u.as_u128()),
        Err(_) => None,
    }
}

/// The current UTC time, by `Utc::now`. Nothing is stated of it: it is the
/// machine's clock.
#[verifier::external_body]
pub(crate) fn now() -> Timestamp {
    let t = chrono::Utc::now();
    Timestamp { secs: t.timestamp(), nanos: t.timestamp_subsec_nanos() }
}

/// The `YYYY-MM-DD` text of a time, by `chrono`'s formatting.
#[verifier::external_body]
pub(crate) fn date_text(t: Timestamp) -> (r: String)
    requires
        t.wf(),
    ensures
        r@ == ymd_text(t.secs, t.nanos),
{
    match chrono::DateTime::from_timestamp(t.secs, t.nanos) {
        Some(d) => d.format("%Y-%m-%d").to_string(),
        None => String::new(),
    }
}

/// The text of the UTC time `secs` seconds after the epoch, by
/// `DateTime::from_timestamp` and `format`; none where that time cannot be
/// represented.
#[verifier::external_body]
pub(crate) fn datetime_text(secs: i64) -> (r: Option<String>)
    ensures
        r is Some == utc_seconds_ok(secs),
        r matches Some(s) ==> s@ == utc_datetime_text(secs),
{
    match chrono::DateTime::from_timestamp(secs, 0) {
        Some(d) => Some(d.format("%Y-%m-%d %H:%M:%S UTC").to_string()),
        None => None,
    }
}

} // verus!
