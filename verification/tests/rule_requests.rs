use autotrade::json::{JsonNumber, JsonValue};
use autotrade::rule_request::check_rule_body;

fn s(t: &str) -> JsonValue {
    JsonValue::Str(t.to_string())
}

fn whole(u: u64) -> JsonValue {
    JsonValue::Number(JsonNumber::PosInt(u))
}

fn float(t: &str) -> JsonValue {
    JsonValue::Number(JsonNumber::Float(t.to_string()))
}

fn body(entries: Vec<(&str, JsonValue)>) -> JsonValue {
    JsonValue::Object(entries.into_iter().map(|(k, v)| (k.to_string(), v)).collect())
}

fn good() -> Vec<(&'static str, JsonValue)> {
    vec![
        ("symbol", s("bbca")),
        ("buy_below", whole(9000)),
        ("sell_above", float("10000.5")),
        ("stop_loss", float("8e3")),
        ("max_lot", whole(5)),
    ]
}

#[test]
fn a_complete_rule_is_accepted() {
    assert!(check_rule_body(&body(good())).is_ok());
}

#[test]
fn a_missing_member_is_refused() {
    let mut e = good();
    e.remove(4);
    assert!(check_rule_body(&body(e)).is_err());
}

#[test]
fn an_unknown_member_is_refused() {
    let mut e = good();
    e.push(("note", s("x")));
    assert!(check_rule_body(&body(e)).is_err());
}

#[test]
fn symbols_take_one_to_ten_bytes() {
    let mut e = good();
    e[0] = ("symbol", s(""));
    assert!(check_rule_body(&body(e)).is_err());
    let mut e = good();
    e[0] = ("symbol", s("ABCDEFGHIJ"));
    assert!(check_rule_body(&body(e)).is_ok());
    let mut e = good();
    e[0] = ("symbol", s("ABCDEFGHIJK"));
    assert!(check_rule_body(&body(e)).is_err());
    let mut e = good();
    e[0] = ("symbol", s("ÉÉÉÉÉÉ"));
    assert!(check_rule_body(&body(e)).is_err());
}

#[test]
fn prices_must_be_above_zero() {
    for bad in [whole(0), float("0.0"), float("-1.5"), JsonValue::Number(JsonNumber::NegInt(-3)), s("9000")] {
        let mut e = good();
        e[1] = ("buy_below", bad);
        assert!(check_rule_body(&body(e)).is_err());
    }
    let mut e = good();
    e[1] = ("buy_below", float("1e-7"));
    assert!(check_rule_body(&body(e)).is_ok());
}

#[test]
fn lots_must_be_a_positive_u32() {
    for bad in [whole(0), float("3.0"), float("2.5"), whole(5_000_000_000)] {
        let mut e = good();
        e[4] = ("max_lot", bad);
        assert!(check_rule_body(&body(e)).is_err());
    }
}

#[test]
fn the_refusal_carries_a_message() {
    let mut e = good();
    e[4] = ("max_lot", float("3.0"));
    let m = check_rule_body(&body(e)).unwrap_err();
    assert!(m.contains("u32"), "{}", m);
    assert!(!check_rule_body(&JsonValue::Null).unwrap_err().is_empty());
}

#[test]
fn a_request_with_several_bad_members_is_refused() {
    let mut e = good();
    e[0] = ("symbol", s(""));
    e[4] = ("max_lot", whole(0));
    e.push(("extra", whole(1)));
    assert!(check_rule_body(&body(e)).is_err());
}

#[test]
fn a_repeated_member_counts_with_its_last_value() {
    let mut e = good();
    e.insert(0, ("symbol", s("")));
    assert!(check_rule_body(&body(e)).is_ok());
    let mut e = good();
    e.push(("max_lot", whole(0)));
    assert!(check_rule_body(&body(e)).is_err());
}

#[test]
fn a_whole_float_lot_passes_the_schema_but_not_the_u32_reader() {
    let mut e = good();
    e[4] = ("max_lot", float("7"));
    assert!(check_rule_body(&body(e)).is_ok());
    let mut e = good();
    e[4] = ("max_lot", float("7.0"));
    assert!(check_rule_body(&body(e)).unwrap_err().contains("u32"));
}
