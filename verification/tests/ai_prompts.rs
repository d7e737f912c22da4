use autotrade::decimal::Dec;
use autotrade::domain::{DomainError, Signal, StockFundamental, StockPrice, Timestamp, Trend};
use autotrade::json::{JsonNumber, JsonValue};
use autotrade::prompt::{
    analysis_from_json, build_analysis_prompt, build_suggest_prompt, chat_rejected, chat_url,
    extract_json, first_choice, fmt_opt, parse_analysis, parse_signal, parse_suggestions, parse_trend,
    analysis_of_parsed, suggestions_of_parsed,
    try_extract_json, ANALYSIS_SYSTEM, SUGGEST_SYSTEM,
};

fn s(t: &str) -> JsonValue {
    JsonValue::Str(t.to_string())
}

fn num(u: u64) -> JsonValue {
    JsonValue::Number(JsonNumber::PosInt(u))
}

fn float(t: &str) -> JsonValue {
    JsonValue::Number(JsonNumber::Float(t.to_string()))
}

fn obj(entries: Vec<(&str, JsonValue)>) -> JsonValue {
    JsonValue::Object(entries.into_iter().map(|(k, v)| (k.to_string(), v)).collect())
}

#[test]
fn signals_parse_by_name_and_default_to_hold() {
    assert_eq!(parse_signal("StrongBuy"), Signal::StrongBuy);
    assert_eq!(parse_signal("Buy"), Signal::Buy);
    assert_eq!(parse_signal("Hold"), Signal::Hold);
    assert_eq!(parse_signal("Sell"), Signal::Sell);
    assert_eq!(parse_signal("StrongSell"), Signal::StrongSell);
    assert_eq!(parse_signal("buy"), Signal::Hold);
    assert_eq!(parse_signal(""), Signal::Hold);
}

#[test]
fn trends_parse_by_name_and_default_to_sideways() {
    assert_eq!(parse_trend("Bullish"), Trend::Bullish);
    assert_eq!(parse_trend("Bearish"), Trend::Bearish);
    assert_eq!(parse_trend("Sideways"), Trend::Sideways);
    assert_eq!(parse_trend("up"), Trend::Sideways);
}

#[test]
fn names_parse_back() {
    for sig in [Signal::StrongBuy, Signal::Buy, Signal::Hold, Signal::Sell, Signal::StrongSell] {
        assert_eq!(parse_signal(sig.name()), sig);
    }
    for t in [Trend::Bullish, Trend::Bearish, Trend::Sideways] {
        assert_eq!(parse_trend(t.name()), t);
    }
}

#[test]
fn json_is_cut_out_of_a_chatty_reply() {
    assert_eq!(extract_json("Sure! Here it is: {\"a\": 1} hope it helps"), "{\"a\": 1}");
    assert_eq!(extract_json("  ```json\n[{\"a\":1},{\"b\":2}]\n```  "), "[{\"a\":1},{\"b\":2}]");
    assert_eq!(extract_json("x {\"a\": [1]} y"), "{\"a\": [1]}");
}

#[test]
fn extract_json_keeps_the_trimmed_text_without_brackets() {
    assert_eq!(extract_json("  no json here  "), "no json here");
    assert_eq!(extract_json("{ unclosed"), "{ unclosed");
}

#[test]
fn extract_json_prefers_the_earlier_opening_bracket() {
    assert_eq!(extract_json("[1, {\"a\": 2}] tail }"), "[1, {\"a\": 2}]");
}

#[test]
fn try_extract_json_refuses_a_closing_bracket_before_the_opening_one() {
    assert_eq!(try_extract_json("} x {"), None);
    assert_eq!(try_extract_json("a {b} c"), Some("{b}"));
}

#[test]
fn suggest_prompt_asks_for_the_limit() {
    assert_eq!(
        build_suggest_prompt(5),
        "Suggest the top 5 IDX stocks right now (mix of potential risers and fallers). Use current market knowledge. Respond as JSON array."
    );
}

#[test]
fn system_messages_ask_for_json() {
    assert!(ANALYSIS_SYSTEM.contains("Respond ONLY in valid JSON"));
    assert!(SUGGEST_SYSTEM.contains("Respond ONLY as a JSON array"));
}

#[test]
fn optional_ratios_print_or_say_na() {
    assert_eq!(fmt_opt(Some(Dec::new(125, 1))), "12.5");
    assert_eq!(fmt_opt(None), "N/A");
}

fn price(day: i64, close: i128) -> StockPrice {
    StockPrice {
        symbol: "BBCA".to_string(),
        open: Dec::new(100, 0),
        high: Dec::new(110, 0),
        low: Dec::new(90, 0),
        close: Dec::new(close, 0),
        volume: 1000,
        date: Timestamp { secs: 1_700_000_000 + day * 86_400, nanos: 0 },
    }
}

#[test]
fn analysis_prompt_lists_newest_first_and_the_ratios() {
    let prices = vec![price(0, 101), price(1, 102)];
    let fund = StockFundamental {
        symbol: "BBCA".to_string(),
        pe_ratio: Some(Dec::new(25, 0)),
        pb_ratio: None,
        roe: Some(Dec::new(185, 1)),
        der: None,
        eps: None,
        dividend_yield: None,
    };
    let p = build_analysis_prompt("BBCA", &prices, &fund);
    let expected_start = "Analyze BBCA on IDX.\n\nRecent prices (newest first):\n2023-11-15: O=100 H=110 L=90 C=102 V=1000\n2023-11-14: O=100 H=110 L=90 C=101 V=1000\n\nFundamentals:\nPE=25 PB=N/A ROE=18.5 DER=N/A EPS=N/A DivYield=N/A\n\nBased on your knowledge";
    assert!(p.starts_with(expected_start), "{}", p);
    assert!(p.ends_with("Provide your comprehensive analysis as JSON."));
}

#[test]
fn analysis_prompt_lists_at_most_thirty_days() {
    let prices: Vec<StockPrice> = (0..40).map(|i| price(i, 100 + i as i128)).collect();
    let fund = StockFundamental {
        symbol: "BBCA".to_string(),
        pe_ratio: None,
        pb_ratio: None,
        roe: None,
        der: None,
        eps: None,
        dividend_yield: None,
    };
    let p = build_analysis_prompt("BBCA", &prices, &fund);
    assert_eq!(p.matches(": O=").count(), 30);
    assert!(p.contains("C=139"));
    assert!(!p.contains("C=109 "));
}

#[test]
fn analysis_is_read_from_the_answer() {
    let v = obj(vec![
        ("signal", s("Buy")),
        ("trend", s("Bullish")),
        ("confidence", num(78)),
        ("entry", float("9100.5")),
        ("take_profit", s("9800")),
        ("stop_loss", s("not a number")),
        ("risk_factors", JsonValue::Array(vec![s("governance"), num(3), s("market")])),
        ("reasoning", s("Solid bank.")),
    ]);
    let a = analysis_from_json("BBCA", &v, 42, Timestamp { secs: 9, nanos: 0 });
    assert_eq!(a.id, 42);
    assert_eq!(a.symbol, "BBCA");
    assert_eq!(a.signal, Signal::Buy);
    assert_eq!(a.trend, Trend::Bullish);
    assert_eq!(a.confidence.to_text(), "78");
    assert_eq!(a.price_target.entry.to_text(), "9100.5");
    assert_eq!(a.price_target.take_profit.to_text(), "9800");
    assert!(a.price_target.stop_loss.is_zero());
    assert_eq!(a.risk_factors, vec!["governance".to_string(), "market".to_string()]);
    assert_eq!(a.reasoning, "Solid bank.");
}

#[test]
fn missing_members_give_defaults() {
    let a = analysis_from_json("TLKM", &obj(vec![]), 1, Timestamp { secs: 0, nanos: 0 });
    assert_eq!(a.signal, Signal::Hold);
    assert_eq!(a.trend, Trend::Sideways);
    assert!(a.confidence.is_zero());
    assert!(a.risk_factors.is_empty());
    assert_eq!(a.reasoning, "");
}

#[test]
fn an_unparsable_answer_is_an_analysis_failure() {
    match analysis_of_parsed("BBCA", Err("expected value at line 1".to_string())) {
        Err(DomainError::AnalysisFailed(m)) => assert_eq!(m, "parse: expected value at line 1"),
        other => panic!("unexpected {:?}", other),
    }
    let ok = analysis_of_parsed("BBCA", Ok(obj(vec![("signal", s("Sell"))]))).unwrap();
    assert_eq!(ok.signal, Signal::Sell);
}

#[test]
fn suggestions_are_read_one_per_item() {
    let items = vec![
        obj(vec![
            ("symbol", s("BBRI")),
            ("name", s("Bank Rakyat Indonesia")),
            ("signal", s("StrongBuy")),
            ("trend", s("Bullish")),
            ("current_price", num(4500)),
            ("target_price", num(5200)),
            ("potential_return", float("15.5")),
            ("confidence", num(70)),
            ("reason", s("Cheap.")),
        ]),
        obj(vec![("symbol", s("GOTO"))]),
    ];
    let out = suggestions_of_parsed(Ok(items)).unwrap();
    assert_eq!(out.len(), 2);
    assert_eq!(out[0].name, "Bank Rakyat Indonesia");
    assert_eq!(out[0].signal, Signal::StrongBuy);
    assert_eq!(out[0].potential_return.to_text(), "15.5");
    assert_eq!(out[1].symbol, "GOTO");
    assert_eq!(out[1].signal, Signal::Hold);
    assert_eq!(out[1].reason, "");
    match suggestions_of_parsed(Err("oops".to_string())) {
        Err(DomainError::AnalysisFailed(m)) => assert_eq!(m, "parse: oops"),
        other => panic!("unexpected {:?}", other),
    }
}

#[test]
fn a_raw_answer_is_read_as_json() {
    let raw = "Here it is:\n```json\n{\"signal\": \"StrongSell\", \"trend\": \"Bearish\", \"confidence\": 81.5, \"risk_factors\": [\"debt\", 3]}\n```";
    let a = parse_analysis("TLKM", raw).unwrap();
    assert_eq!(a.symbol, "TLKM");
    assert_eq!(a.signal, Signal::StrongSell);
    assert_eq!(a.trend, Trend::Bearish);
    assert_eq!(a.confidence.to_text(), "81.5");
    assert_eq!(a.risk_factors, vec!["debt".to_string()]);
    match parse_analysis("TLKM", "no json here") {
        Err(DomainError::AnalysisFailed(m)) => assert!(m.starts_with("parse: "), "{}", m),
        other => panic!("unexpected {:?}", other),
    }
}

#[test]
fn a_raw_answer_lists_suggestions() {
    let raw = "[{\"symbol\": \"BBRI\", \"signal\": \"Buy\"}, {\"symbol\": \"ASII\"}]";
    let out = parse_suggestions(raw).unwrap();
    assert_eq!(out.len(), 2);
    assert_eq!(out[0].symbol, "BBRI");
    assert_eq!(out[0].signal, Signal::Buy);
    assert_eq!(out[1].signal, Signal::Hold);
    match parse_suggestions("{\"symbol\": \"BBRI\"}") {
        Err(DomainError::AnalysisFailed(m)) => assert!(m.starts_with("parse: invalid type"), "{}", m),
        other => panic!("unexpected {:?}", other),
    }
}

#[test]
fn chat_pieces() {
    assert_eq!(chat_url("https://api.deepseek.com"), "https://api.deepseek.com/v1/chat/completions");
    match chat_rejected("401 Unauthorized", "bad key") {
        DomainError::ExternalService(m) => assert_eq!(m, "DeepSeek API 401 Unauthorized: bad key"),
        other => panic!("unexpected {:?}", other),
    }
    assert_eq!(first_choice(vec!["a".into(), "b".into()]).unwrap(), "a");
    match first_choice(Vec::new()) {
        Err(DomainError::AnalysisFailed(m)) => assert_eq!(m, "empty response"),
        other => panic!("unexpected {:?}", other),
    }
}
