use autotrade::config::AppConfig;
use autotrade::decimal::Dec;
use autotrade::domain::{
    DomainError, Order, OrderSide, OrderStatus, Portfolio, Position, PriceTarget, Signal,
    StockAnalysis, StockSuggestion, Timestamp, TradeRule, Trend,
};
use autotrade::dto::{ApiResponse, AutoTradeFullResponse, SuggestQuery, UpdateToken};
use autotrade::presentation::{
    accepted_token, analysis_reply, api_outcome, autotrade_outcome, autotrade_reply, duration_words,
    order_response, portfolio_answer, portfolio_is_reportable, rules_page, suggest_limit, suggest_reply, token_status,
    updated_token_status,
};
use autotrade::web::{path_to_tab, signal_badge_class, tab_to_path, thousands, Tab};

const ID_A: &str = "67e55044-10b1-426f-9247-bb680e5fe0c8";
const ID_A_U128: u128 = 0x67e5504410b1426f9247bb680e5fe0c8;

fn d(m: i128) -> Dec {
    Dec::new(m, 0)
}

fn order(status: OrderStatus) -> Order {
    Order {
        id: ID_A_U128,
        symbol: "BBCA".to_string(),
        side: OrderSide::Sell,
        lot: 2,
        price: Dec::new(91505, 1),
        status,
        created_at: Timestamp { secs: 1, nanos: 0 },
        filled_at: None,
    }
}

#[test]
fn orders_are_reported_with_names() {
    let r = order_response(&order(OrderStatus::PartiallyFilled));
    assert_eq!(r.id, ID_A);
    assert_eq!(r.symbol, "BBCA");
    assert_eq!(r.side, "Sell");
    assert_eq!(r.lot, 2);
    assert_eq!(r.price, "9150.5");
    assert_eq!(r.status, "PartiallyFilled");
}

#[test]
fn the_portfolio_answer_reports_everything() {
    let p = Portfolio {
        balance: d(1_000_000),
        equity: Dec::zero(),
        allocated: d(10_000),
        positions: vec![Position { symbol: "BBCA".into(), lot: 2, avg_price: d(9000), current_price: d(9500) }],
    };
    let r = portfolio_answer(Ok(p), Ok(vec![order(OrderStatus::Pending)])).unwrap();
    assert_eq!(r.cash_balance, "1000000");
    assert_eq!(r.allocated, "10000");
    assert_eq!(r.positions.len(), 1);
    assert_eq!(r.positions[0].market_value, "1900000");
    assert_eq!(r.positions[0].unrealized_pnl, "100000");
    assert_eq!(r.positions[0].avg_price, "9000");
    assert_eq!(r.open_orders.len(), 1);
    assert_eq!(r.total_equity, "2910000");
}

#[test]
fn the_portfolio_answer_without_orders_still_reports() {
    let p = Portfolio { balance: d(5), equity: d(7), allocated: Dec::zero(), positions: vec![] };
    let r = portfolio_answer(Ok(p), Err(DomainError::ExternalService("down".into()))).unwrap();
    assert!(r.open_orders.is_empty());
    assert_eq!(r.total_equity, "7");
}

#[test]
fn a_portfolio_that_overflows_is_not_reportable() {
    let max = Dec::new(79_228_162_514_264_337_593_543_950_335, 0);
    let p = Portfolio { balance: max, equity: Dec::zero(), allocated: d(1), positions: vec![] };
    assert!(!portfolio_is_reportable(&p));
    let q = Portfolio { balance: max, equity: d(1), allocated: d(1), positions: vec![] };
    assert!(portfolio_is_reportable(&q));
    let huge = Position { symbol: "BBCA".into(), lot: 1, avg_price: d(1), current_price: max };
    let r = Portfolio { balance: d(1), equity: d(1), allocated: Dec::zero(), positions: vec![huge] };
    assert!(!portfolio_is_reportable(&r));
}

#[test]
fn the_portfolio_answer_passes_the_broker_error_on() {
    let e = portfolio_answer(Err(DomainError::ExternalService("down".into())), Ok(vec![])).unwrap_err();
    assert_eq!(e, "External service error: down");
}

#[test]
fn rules_are_listed_on_one_page() {
    let rules = vec![
        ("BBCA".to_string(), TradeRule { buy_below: d(9000), sell_above: d(10000), stop_loss: Dec::new(80005, 1), max_lot: 2 }),
        ("TLKM".to_string(), TradeRule { buy_below: d(3000), sell_above: d(4000), stop_loss: d(2500), max_lot: 1 }),
    ];
    let page = rules_page(&rules);
    assert_eq!(page.data.len(), 2);
    assert_eq!(page.data[0].symbol, "BBCA");
    assert_eq!(page.data[0].stop_loss, "8000.5");
    assert_eq!(page.data[1].max_lot, 1);
    assert_eq!(page.meta.page, 1);
    assert_eq!(page.meta.per_page, 2);
    assert_eq!(page.meta.total, 2);
    assert_eq!(page.meta.total_pages, 1);
    assert!(!page.meta.has_next);
    assert!(!page.meta.has_prev);
}

#[test]
fn an_empty_rule_list_has_no_pages() {
    let page = rules_page(&Vec::new());
    assert!(page.data.is_empty());
    assert_eq!(page.meta.per_page, 1);
    assert_eq!(page.meta.total, 0);
    assert_eq!(page.meta.total_pages, 0);
    assert!(!page.meta.has_next);
}

#[test]
fn durations_in_words() {
    assert_eq!(duration_words(3 * 3600 + 25 * 60 + 59), "3h 25m");
    assert_eq!(duration_words(59), "0h 0m");
    assert_eq!(duration_words(-100), "0h -1m");
    assert_eq!(duration_words(-3700), "-1h -1m");
    assert_eq!(duration_words(i64::MIN), "-2562047788015215h -30m");
}

#[test]
fn token_status_of_a_live_token() {
    let s = token_status("tok", Some(1_700_007_200), 1_700_000_000);
    assert!(s.valid);
    assert_eq!(s.ttl_seconds, Some(7200));
    assert_eq!(s.ttl_human.as_deref(), Some("2h 0m"));
    assert_eq!(s.expires_at.as_deref(), Some("2023-11-15 00:13:20 UTC"));
}

#[test]
fn token_status_of_an_expired_token() {
    let s = token_status("tok", Some(1_699_999_000), 1_700_000_000);
    assert!(!s.valid);
    assert_eq!(s.ttl_seconds, Some(-1000));
    assert_eq!(s.ttl_human.as_deref(), Some("expired"));
}

#[test]
fn expiry_text_only_within_the_calendar() {
    let last = 8_210_266_876_799;
    let s = token_status("tok", Some(last), 0);
    assert_eq!(s.expires_at.as_deref(), Some("+262142-12-31 23:59:59 UTC"));
    assert!(token_status("tok", Some(last + 1), 0).expires_at.is_none());
    assert!(token_status("tok", Some(-8_334_601_228_800), 0).expires_at.is_some());
    assert!(token_status("tok", Some(-8_334_601_228_801), 0).expires_at.is_none());
}

#[test]
fn token_status_without_token_or_expiry() {
    let s = token_status("", Some(1_700_007_200), 1_700_000_000);
    assert!(!s.valid && s.expires_at.is_none() && s.ttl_seconds.is_none() && s.ttl_human.is_none());
    let s = token_status("tok", None, 1_700_000_000);
    assert!(!s.valid && s.ttl_human.is_none());
}

#[test]
fn replacing_the_token() {
    assert_eq!(accepted_token(&UpdateToken { token: "  abc \n".into() }), Some("abc".to_string()));
    assert_eq!(accepted_token(&UpdateToken { token: "   ".into() }), None);
    assert_eq!(accepted_token(&UpdateToken { token: "\u{3000}abc\u{a0}\u{85}".into() }), Some("abc".to_string()));
    let s = updated_token_status(Some(1_699_999_000), 1_700_000_000);
    assert!(!s.valid);
    assert_eq!(s.ttl_human.as_deref(), Some("0h -16m"));
    assert!(updated_token_status(None, 0).ttl_human.is_none());
}

fn analysis() -> StockAnalysis {
    StockAnalysis {
        id: 1,
        symbol: "BBCA".into(),
        signal: Signal::StrongBuy,
        trend: Trend::Bearish,
        confidence: d(75),
        price_target: PriceTarget { entry: d(9000), take_profit: d(9900), stop_loss: Dec::new(85005, 1) },
        risk_factors: vec!["rates".into()],
        reasoning: "ok".into(),
        analyzed_at: Timestamp { secs: 0, nanos: 0 },
    }
}

#[test]
fn the_client_reads_back_an_analysis() {
    let reply = analysis_reply(Ok(analysis()));
    assert!(reply.success);
    let a = api_outcome(reply).unwrap();
    assert_eq!(a.signal, "StrongBuy");
    assert_eq!(a.trend, "Bearish");
    assert_eq!(a.confidence, "75");
    assert_eq!(a.stop_loss, "8500.5");
    assert_eq!(a.risk_factors, Some(vec!["rates".to_string()]));
    let reply = analysis_reply(Err(DomainError::AnalysisFailed("parse: x".into())));
    assert_eq!(api_outcome(reply).unwrap_err(), "Analysis failed: parse: x");
}

#[test]
fn the_client_reads_odd_answers() {
    let r: ApiResponse<u8> = ApiResponse { success: true, data: None, error: None };
    assert_eq!(api_outcome(r).unwrap_err(), "no data");
    let r: ApiResponse<u8> = ApiResponse { success: false, data: Some(1), error: None };
    assert_eq!(api_outcome(r).unwrap_err(), "unknown error");
}

#[test]
fn suggestions_are_answered() {
    let sug = StockSuggestion {
        symbol: "BBRI".into(),
        name: "BRI".into(),
        signal: Signal::Buy,
        trend: Trend::Bullish,
        current_price: d(4500),
        target_price: d(5000),
        potential_return: Dec::new(111, 1),
        confidence: d(60),
        reason: "cheap".into(),
    };
    let reply = suggest_reply(Ok(vec![sug]));
    let v = api_outcome(reply).unwrap();
    assert_eq!(v.len(), 1);
    assert_eq!(v[0].potential_return, "11.1");
    assert_eq!(v[0].signal, "Buy");
    assert_eq!(suggest_limit(&SuggestQuery { limit: None }), 10);
    assert_eq!(suggest_limit(&SuggestQuery { limit: Some(3) }), 3);
}

#[test]
fn auto_trade_answers() {
    let reply = autotrade_reply(Ok(vec![order(OrderStatus::Filled), order(OrderStatus::Filled)]));
    assert!(reply.success);
    assert_eq!(reply.executed, Some(2));
    let ok = autotrade_outcome(reply).unwrap();
    assert_eq!(ok.orders.unwrap()[1].status, "Filled");
    let reply = autotrade_reply(Err(DomainError::StockNotFound("XX".into())));
    assert!(reply.executed.is_none() && reply.orders.is_none());
    assert_eq!(autotrade_outcome(reply).unwrap_err(), "Stock not found: XX");
    let odd = AutoTradeFullResponse { success: false, executed: None, orders: None, error: None };
    assert_eq!(autotrade_outcome(odd).unwrap_err(), "unknown error");
}

#[test]
fn settings_from_the_environment() {
    let c = AppConfig::from_vars(Some("tok".into()), None, None, None, None);
    assert_eq!(c.stockbit_token, "tok");
    assert_eq!(c.ai_api_url, "https://api.deepseek.com");
    assert_eq!(c.ai_api_key, "");
    assert_eq!(c.ai_model, "deepseek-chat");
    assert_eq!(c.server_port, 3000);
    let c = AppConfig::from_vars(None, Some("http://x".into()), Some("k".into()), Some("m".into()), Some("8080".into()));
    assert_eq!(c.ai_api_url, "http://x");
    assert_eq!(c.ai_model, "m");
    assert_eq!(c.server_port, 8080);
    assert_eq!(AppConfig::from_vars(None, None, None, None, Some("+80".into())).server_port, 80);
    assert_eq!(AppConfig::from_vars(None, None, None, None, Some("70000".into())).server_port, 3000);
    assert_eq!(AppConfig::from_vars(None, None, None, None, Some(" 80".into())).server_port, 3000);
    assert_eq!(AppConfig::from_vars(None, None, None, None, Some("-1".into())).server_port, 3000);
    assert_eq!(AppConfig::from_vars(None, None, None, None, Some("65535".into())).server_port, 65535);
    assert_eq!(AppConfig::from_vars(None, None, None, None, Some("65536".into())).server_port, 3000);
    assert_eq!(AppConfig::from_vars(None, None, None, None, Some("0080".into())).server_port, 80);
    assert_eq!(AppConfig::from_vars(None, None, None, None, Some("+".into())).server_port, 3000);
    assert_eq!(AppConfig::from_vars(None, None, None, None, Some("".into())).server_port, 3000);
    assert_eq!(AppConfig::from_vars(None, None, None, None, Some("99999999999".into())).server_port, 3000);
}

#[test]
fn tabs_and_paths() {
    assert_eq!(path_to_tab("/analysis"), Tab::Analysis);
    assert_eq!(path_to_tab("//trades"), Tab::Trades);
    assert_eq!(path_to_tab("rules"), Tab::Rules);
    assert_eq!(path_to_tab("/"), Tab::Dashboard);
    assert_eq!(path_to_tab("/rules/x"), Tab::Dashboard);
    for t in [Tab::Dashboard, Tab::Analysis, Tab::Trades, Tab::Rules] {
        assert_eq!(path_to_tab(tab_to_path(t)), t);
    }
    assert_eq!(tab_to_path(Tab::Trades), "/trades");
}

#[test]
fn amounts_are_grouped_by_thousands() {
    assert_eq!(thousands(0), "0");
    assert_eq!(thousands(999), "999");
    assert_eq!(thousands(1000), "1.000");
    assert_eq!(thousands(1234567), "1.234.567");
    assert_eq!(thousands(100000), "100.000");
    assert_eq!(thousands(u64::MAX), "18.446.744.073.709.551.615");
}

#[test]
fn badges_by_signal() {
    assert_eq!(signal_badge_class("StrongBuy"), "badge badge-strong-buy");
    assert_eq!(signal_badge_class("Buy"), "badge badge-buy");
    assert_eq!(signal_badge_class("Hold"), "badge badge-hold");
    assert_eq!(signal_badge_class("Sell"), "badge badge-sell");
    assert_eq!(signal_badge_class("StrongSell"), "badge badge-strong-sell");
    assert_eq!(signal_badge_class("?"), "badge");
}

#[test]
fn grouping_only_adds_dots() {
    for n in [0u64, 7, 12_345, 1_000_000, 987_654_321_012] {
        assert_eq!(thousands(n).replace('.', ""), n.to_string());
    }
}
