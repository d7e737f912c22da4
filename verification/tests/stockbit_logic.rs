use autotrade::decimal::Dec;
use autotrade::domain::{DomainError, OrderSide, OrderStatus, Timestamp};
use autotrade::json::{JsonNumber, JsonValue};
use autotrade::stockbit::{
    auth_header, expiry_from_claims, failure, find_order_list, find_stock_list, jwt_payload,
    map_sb_status, open_orders_from, order_shares, order_url, parse_order_at, placed_order_at,
    positions_from_rows, refresh_outcome, balance_field, jwt_expiry, stock_row_fields, refresh_step, token_from_refresh, RefreshOutcome,
    RefreshStep, SbOrderDetail, SbStockRow,
};

const ID_A: &str = "67e55044-10b1-426f-9247-bb680e5fe0c8";
const ID_A_U128: u128 = 0x67e5504410b1426f9247bb680e5fe0c8;

fn s(t: &str) -> JsonValue {
    JsonValue::Str(t.to_string())
}

fn obj(entries: Vec<(&str, JsonValue)>) -> JsonValue {
    JsonValue::Object(entries.into_iter().map(|(k, v)| (k.to_string(), v)).collect())
}

fn at() -> Timestamp {
    Timestamp { secs: 100, nanos: 0 }
}

fn whole_number(u: u64) -> JsonValue {
    JsonValue::Number(JsonNumber::PosInt(u))
}

fn decimal_number(t: &str) -> JsonValue {
    JsonValue::Number(JsonNumber::Float(t.to_string()))
}

#[test]
fn holding_rows_prefer_nested_fields() {
    let row = obj(vec![
        ("code", s("BBCA")),
        ("qty", obj(vec![("balance", obj(vec![("lot", whole_number(3))]))])),
        ("lot", whole_number(9)),
        ("price", obj(vec![("average", obj(vec![("price", decimal_number("9100.5"))]))])),
        ("avg_price", whole_number(1)),
        ("close", whole_number(9300)),
        ("current_price", s("not a number")),
    ]);
    let f = stock_row_fields(&row);
    assert_eq!(f.symbol.as_deref(), Some("BBCA"));
    assert_eq!(f.lot.as_deref(), Some("3"));
    assert_eq!(f.shares, None);
    assert_eq!(f.avg_price.as_deref(), Some("9100.5"));
    assert_eq!(f.current_price.as_deref(), Some("9300"));
}

#[test]
fn holding_rows_fall_back_to_flat_fields() {
    let row = obj(vec![
        ("symbol", s("TLKM")),
        ("code", s("X")),
        ("shares", whole_number(500)),
        ("average_price", whole_number(3800)),
        ("last_price", whole_number(3900)),
        ("current_price", whole_number(1)),
    ]);
    let f = stock_row_fields(&row);
    assert_eq!(f.symbol.as_deref(), Some("TLKM"));
    assert_eq!(f.lot, None);
    assert_eq!(f.shares.as_deref(), Some("500"));
    assert_eq!(f.avg_price.as_deref(), Some("3800"));
    assert_eq!(f.current_price.as_deref(), Some("3900"));
    let empty = stock_row_fields(&obj(vec![]));
    assert!(empty.symbol.is_none() && empty.avg_price.is_none() && empty.current_price.is_none());
}

#[test]
fn the_balance_is_the_trading_balance_else_the_equity() {
    let both = obj(vec![(
        "summary",
        obj(vec![("trading", obj(vec![("balance", whole_number(1_000_000))])), ("equity", whole_number(5))]),
    )]);
    assert_eq!(balance_field(Some(&both)).as_deref(), Some("1000000"));
    let equity = obj(vec![("summary", obj(vec![("equity", decimal_number("2500.5"))]))]);
    assert_eq!(balance_field(Some(&equity)).as_deref(), Some("2500.5"));
    assert_eq!(balance_field(None), None);
}

#[test]
fn token_expiry_is_read_from_the_claims() {
    // {"exp":1700000000}
    assert_eq!(jwt_expiry("eyJhbGciOiJIUzI1NiJ9.eyJleHAiOjE3MDAwMDAwMDB9.sig"), Some(1_700_000_000));
    // {"sub":"x"}
    assert_eq!(jwt_expiry("h.eyJzdWIiOiJ4In0.s"), None);
    // not JSON: "abc"
    assert_eq!(jwt_expiry("h.YWJj.s"), None);
    assert_eq!(jwt_expiry("no-dots"), None);
}

#[test]
fn bearer_prefix_is_added_once() {
    assert_eq!(auth_header("abc"), "Bearer abc");
    assert_eq!(auth_header("Bearer abc"), "Bearer abc");
}

#[test]
fn broker_statuses_map_case_insensitively() {
    assert_eq!(map_sb_status("OPEN"), OrderStatus::Pending);
    assert_eq!(map_sb_status("active"), OrderStatus::Pending);
    assert_eq!(map_sb_status("Match"), OrderStatus::Filled);
    assert_eq!(map_sb_status("done"), OrderStatus::Filled);
    assert_eq!(map_sb_status("partially_filled"), OrderStatus::PartiallyFilled);
    assert_eq!(map_sb_status("WITHDRAW"), OrderStatus::Cancelled);
    assert_eq!(map_sb_status("expired"), OrderStatus::Cancelled);
    assert_eq!(map_sb_status("Rejected"), OrderStatus::Rejected);
    assert_eq!(map_sb_status("something else"), OrderStatus::Pending);
}

fn detail(id: Option<&str>, side: &str, status: &str) -> SbOrderDetail {
    SbOrderDetail {
        order_id: id.map(String::from),
        symbol: None,
        code: Some("BBCA".into()),
        side: None,
        order_side: Some(side.into()),
        price: Dec::new(9000, 0),
        lot: 2,
        status: None,
        status_text: Some(status.into()),
    }
}

#[test]
fn order_details_are_read() {
    let o = parse_order_at(&detail(Some(ID_A), "SELL", "match"), 5, at());
    assert_eq!(o.id, ID_A_U128);
    assert_eq!(o.symbol, "BBCA");
    assert_eq!(o.side, OrderSide::Sell);
    assert_eq!(o.lot, 2);
    assert_eq!(o.status, OrderStatus::Filled);
    assert_eq!(o.filled_at, Some(at()));
    let o = parse_order_at(&detail(Some("12345"), "buy", "open"), 5, at());
    assert_eq!(o.id, 5);
    assert_eq!(o.side, OrderSide::Buy);
    assert_eq!(o.filled_at, None);
}

#[test]
fn open_orders_are_the_pending_ones() {
    let ds = vec![
        detail(None, "buy", "open"),
        detail(None, "buy", "match"),
        detail(None, "sell", "pending"),
    ];
    let os = open_orders_from(&ds);
    assert_eq!(os.len(), 2);
    assert_eq!(os[1].side, OrderSide::Sell);
}

#[test]
fn order_lists_are_found_where_the_broker_puts_them() {
    let arr = JsonValue::Array(vec![s("x")]);
    assert_eq!(find_order_list(Some(&arr)).unwrap().len(), 1);
    let nested = obj(vec![("list", JsonValue::Array(vec![s("a"), s("b")]))]);
    assert_eq!(find_order_list(Some(&nested)).unwrap().len(), 2);
    let orders = obj(vec![("orders", JsonValue::Array(vec![])), ("list", JsonValue::Array(vec![s("a")]))]);
    assert_eq!(find_order_list(Some(&orders)).unwrap().len(), 0);
    assert!(find_order_list(Some(&s("nope"))).is_none());
    assert!(find_order_list(None).is_none());
}

#[test]
fn stock_lists_are_found_where_the_broker_puts_them() {
    let results = obj(vec![("results", JsonValue::Array(vec![s("a")]))]);
    assert_eq!(find_stock_list(Some(&results)).unwrap().len(), 1);
    let stocks = obj(vec![("stocks", JsonValue::Array(vec![s("a"), s("b")]))]);
    assert_eq!(find_stock_list(Some(&stocks)).unwrap().len(), 2);
    assert!(find_stock_list(Some(&obj(vec![]))).is_none());
}

#[test]
fn positions_need_a_symbol_and_a_lot() {
    let rows = vec![
        SbStockRow { symbol: Some("BBCA".into()), lot: 3, avg_price: Dec::new(9000, 0), current_price: Dec::new(9100, 0) },
        SbStockRow { symbol: None, lot: 3, avg_price: Dec::zero(), current_price: Dec::zero() },
        SbStockRow { symbol: Some("TLKM".into()), lot: 0, avg_price: Dec::zero(), current_price: Dec::zero() },
    ];
    let ps = positions_from_rows(&rows);
    assert_eq!(ps.len(), 1);
    assert_eq!(ps[0].symbol, "BBCA");
    assert_eq!(ps[0].lot, 3);
}

#[test]
fn failures_carry_the_status_and_message() {
    let m = s("Session expired");
    match failure("Stockbit portfolio failed", "401 Unauthorized", Some(&m), "Failed to get portfolio") {
        DomainError::ExternalService(t) => assert_eq!(t, "Stockbit portfolio failed (401 Unauthorized): Session expired"),
        other => panic!("unexpected {:?}", other),
    }
    match failure("Stockbit portfolio failed", "500", None, "Failed to get portfolio") {
        DomainError::ExternalService(t) => assert_eq!(t, "Stockbit portfolio failed (500): Failed to get portfolio"),
        other => panic!("unexpected {:?}", other),
    }
}

#[test]
fn orders_go_to_the_side_endpoint() {
    assert_eq!(order_url("https://carina.stockbit.com", OrderSide::Buy), "https://carina.stockbit.com/order/v2/buy");
    assert_eq!(order_url("https://carina.stockbit.com", OrderSide::Sell), "https://carina.stockbit.com/order/v2/sell");
    assert_eq!(order_shares(3), 300);
}

#[test]
fn placed_orders_take_the_broker_id() {
    let body = obj(vec![("data", obj(vec![("order_id", s(ID_A))]))]);
    let o = placed_order_at("BBCA", OrderSide::Buy, 1, Dec::new(9000, 0), true, "200 OK", &body, 9, at()).unwrap();
    assert_eq!(o.id, ID_A_U128);
    assert_eq!(o.status, OrderStatus::Pending);
    let o = placed_order_at("BBCA", OrderSide::Buy, 1, Dec::new(9000, 0), true, "200 OK", &obj(vec![]), 9, at()).unwrap();
    assert_eq!(o.id, 9);
    let refused = obj(vec![("message", s("Market closed"))]);
    match placed_order_at("BBCA", OrderSide::Buy, 1, Dec::new(9000, 0), false, "400 Bad Request", &refused, 9, at()) {
        Err(DomainError::ExternalService(m)) => assert_eq!(m, "Stockbit order failed (400 Bad Request): Market closed"),
        other => panic!("unexpected {:?}", other),
    }
}

#[test]
fn token_expiry_and_refresh() {
    let claims = obj(vec![("exp", JsonValue::Number(JsonNumber::PosInt(1_700_000_000)))]);
    assert_eq!(expiry_from_claims(&claims), Some(1_700_000_000));
    assert_eq!(expiry_from_claims(&obj(vec![("exp", s("soon"))])), None);
    assert_eq!(refresh_step(Some(10_000), 1_000), RefreshStep::RefreshAfter(8_400));
    assert_eq!(refresh_step(Some(10_000), 9_500), RefreshStep::RefreshAfter(0));
    assert_eq!(refresh_step(None, 9_500), RefreshStep::Stop);
}

#[test]
fn refreshed_tokens_are_found_in_the_answer() {
    let body = obj(vec![("data", obj(vec![("access_token", s("t1"))]))]);
    assert_eq!(token_from_refresh(&body), Some("t1".to_string()));
    assert_eq!(token_from_refresh(&obj(vec![("token", s("t2"))])), Some("t2".to_string()));
    assert_eq!(token_from_refresh(&obj(vec![("access_token", s("t3"))])), Some("t3".to_string()));
    assert_eq!(token_from_refresh(&obj(vec![])), None);
}

#[test]
fn a_refresh_answer_replaces_the_token_or_is_retried() {
    let good = || obj(vec![("data", obj(vec![("token", s("fresh"))]))]);
    assert!(matches!(refresh_outcome(Some((true, good()))), RefreshOutcome::Replace(t) if t == "fresh"));
    assert!(matches!(refresh_outcome(Some((false, good()))), RefreshOutcome::RetryAfter(300)));
    assert!(matches!(refresh_outcome(Some((true, obj(vec![])))), RefreshOutcome::RetryAfter(300)));
    assert!(matches!(refresh_outcome(None), RefreshOutcome::RetryAfter(300)));
}

#[test]
fn jwt_claims_are_decoded() {
    // {"exp":1700000000}
    let token = "eyJhbGciOiJIUzI1NiJ9.eyJleHAiOjE3MDAwMDAwMDB9.sig";
    assert_eq!(jwt_payload(token).unwrap(), b"{\"exp\":1700000000}".to_vec());
    assert!(jwt_payload("no-dots-here").is_none());
    assert!(jwt_payload("a.!!!.c").is_none());
}
