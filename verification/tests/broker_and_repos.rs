use autotrade::decimal::Dec;
use autotrade::domain::{DomainError, Order, OrderSide, OrderStatus, PriceTarget, Signal, StockAnalysis, Timestamp, TradeRule, Trend};
use autotrade::repository::{InMemoryAnalysisRepo, InMemoryOrderRepo, InMemoryTradeRuleRepo};
use autotrade::simulated::SimulatedBroker;

const ID_A: &str = "67e55044-10b1-426f-9247-bb680e5fe0c8";
const ID_A_U128: u128 = 0x67e5504410b1426f9247bb680e5fe0c8;

fn d(m: i128) -> Dec {
    Dec::new(m, 0)
}

fn at(secs: i64) -> Timestamp {
    Timestamp { secs, nanos: 0 }
}

fn message(e: DomainError) -> String {
    e.message()
}

#[test]
fn buying_takes_the_cost_from_the_balance() {
    let mut b = SimulatedBroker::new(d(10_000_000));
    let o = b.place_order_at("BBCA", OrderSide::Buy, 2, d(9000), 1, at(5)).unwrap();
    assert_eq!(o.status, OrderStatus::Filled);
    assert_eq!(o.filled_at, Some(at(5)));
    assert_eq!(b.balance.to_text(), "8200000");
    assert_eq!(b.positions.len(), 1);
    assert_eq!(b.positions[0].symbol, "BBCA");
    assert_eq!(b.positions[0].lot, 2);
    assert_eq!(b.positions[0].avg_price.to_text(), "9000");
}

#[test]
fn buying_more_averages_the_price() {
    let mut b = SimulatedBroker::new(d(10_000_000));
    b.place_order_at("BBCA", OrderSide::Buy, 1, d(9000), 1, at(5)).unwrap();
    b.place_order_at("BBCA", OrderSide::Buy, 1, d(10000), 2, at(6)).unwrap();
    assert_eq!(b.positions.len(), 1);
    assert_eq!(b.positions[0].lot, 2);
    assert_eq!(b.positions[0].avg_price.to_text(), "9500");
    assert_eq!(b.positions[0].current_price.to_text(), "10000");
    assert_eq!(b.balance.to_text(), "8100000");
}

#[test]
fn buying_beyond_the_balance_is_refused() {
    let mut b = SimulatedBroker::new(d(100_000));
    let e = b.place_order_at("BBCA", OrderSide::Buy, 1, d(9000), 1, at(5)).unwrap_err();
    assert_eq!(message(e), "External service error: Insufficient balance: need 900000 but have 100000");
    assert_eq!(b.balance.to_text(), "100000");
    assert!(b.positions.is_empty());
    assert!(b.orders.is_empty());
}

#[test]
fn buy_then_sell_restores_the_balance() {
    let mut b = SimulatedBroker::new(d(5_000_000));
    b.place_order_at("TLKM", OrderSide::Buy, 3, d(4000), 1, at(5)).unwrap();
    b.place_order_at("TLKM", OrderSide::Sell, 3, d(4000), 2, at(6)).unwrap();
    assert_eq!(b.balance.to_text(), "5000000");
    assert!(b.positions.is_empty());
    assert_eq!(b.orders.len(), 2);
}

#[test]
fn selling_part_keeps_the_rest() {
    let mut b = SimulatedBroker::new(d(5_000_000));
    b.place_order_at("TLKM", OrderSide::Buy, 3, d(4000), 1, at(5)).unwrap();
    b.place_order_at("TLKM", OrderSide::Sell, 1, d(4500), 2, at(6)).unwrap();
    assert_eq!(b.positions[0].lot, 2);
    assert_eq!(b.balance.to_text(), "4250000");
}

#[test]
fn selling_without_a_position_is_refused() {
    let mut b = SimulatedBroker::new(d(5_000_000));
    let e = b.place_order_at("ASII", OrderSide::Sell, 1, d(4000), 1, at(5)).unwrap_err();
    assert_eq!(message(e), "External service error: No position in ASII to sell");
}

#[test]
fn selling_more_than_held_is_refused() {
    let mut b = SimulatedBroker::new(d(5_000_000));
    b.place_order_at("TLKM", OrderSide::Buy, 1, d(4000), 1, at(5)).unwrap();
    let e = b.place_order_at("TLKM", OrderSide::Sell, 2, d(4000), 2, at(6)).unwrap_err();
    assert_eq!(message(e), "External service error: Insufficient lots: have 1 but want to sell 2");
    assert_eq!(b.positions[0].lot, 1);
}

#[test]
fn place_order_gives_a_fresh_id_each_time() {
    let mut b = SimulatedBroker::new(d(5_000_000));
    let o1 = b.place_order("TLKM", OrderSide::Buy, 1, d(4000)).unwrap();
    let o2 = b.place_order("TLKM", OrderSide::Buy, 1, d(4000)).unwrap();
    assert_ne!(o1.id, o2.id);
}

#[test]
fn orders_are_found_by_their_uuid_text() {
    let mut b = SimulatedBroker::new(d(5_000_000));
    b.place_order_at("TLKM", OrderSide::Buy, 1, d(4000), ID_A_U128, at(5)).unwrap();
    let o = b.get_order(ID_A).unwrap();
    assert_eq!(o.symbol, "TLKM");
    let e = b.get_order("00000000-0000-0000-0000-000000000001").unwrap_err();
    assert_eq!(message(e), "External service error: Order not found");
    let e = b.get_order("not-a-uuid").unwrap_err();
    assert_eq!(message(e), "External service error: Invalid order ID");
}

#[test]
fn filled_orders_are_not_open_and_cancel_is_accepted() {
    let mut b = SimulatedBroker::new(d(5_000_000));
    b.place_order_at("TLKM", OrderSide::Buy, 1, d(4000), 1, at(5)).unwrap();
    assert!(b.get_open_orders().unwrap().is_empty());
    assert!(b.cancel_order(ID_A).is_ok());
}

#[test]
fn the_portfolio_has_cash_and_positions() {
    let mut b = SimulatedBroker::new(d(5_000_000));
    b.place_order_at("TLKM", OrderSide::Buy, 1, d(4000), 1, at(5)).unwrap();
    let p = b.get_portfolio().unwrap();
    assert_eq!(p.balance.to_text(), "4600000");
    assert!(p.equity.is_zero());
    assert!(p.allocated.is_zero());
    assert_eq!(p.positions.len(), 1);
    assert_eq!(p.total_equity().to_text(), "5000000");
}

fn order(id: u128, status: OrderStatus) -> Order {
    Order {
        id,
        symbol: "BBRI".to_string(),
        side: OrderSide::Buy,
        lot: 1,
        price: d(5000),
        status,
        created_at: at(1),
        filled_at: None,
    }
}

#[test]
fn order_repo_saves_and_finds() {
    let mut r = InMemoryOrderRepo::new();
    assert!(r.find_by_id(ID_A).unwrap().is_none());
    r.save(&order(ID_A_U128, OrderStatus::Pending)).unwrap();
    r.save(&order(2, OrderStatus::Filled)).unwrap();
    let found = r.find_by_id(ID_A).unwrap().unwrap();
    assert_eq!(found.id, ID_A_U128);
    assert_eq!(r.find_open_orders().unwrap().len(), 1);
}

#[test]
fn order_repo_replaces_an_order_with_the_same_id() {
    let mut r = InMemoryOrderRepo::new();
    r.save(&order(ID_A_U128, OrderStatus::Pending)).unwrap();
    r.save(&order(ID_A_U128, OrderStatus::Filled)).unwrap();
    assert_eq!(r.find_by_id(ID_A).unwrap().unwrap().status, OrderStatus::Filled);
    assert!(r.find_open_orders().unwrap().is_empty());
}

fn rule(max_lot: u32) -> TradeRule {
    TradeRule { buy_below: d(9000), sell_above: d(10000), stop_loss: d(8000), max_lot }
}

#[test]
fn rule_repo_saves_finds_and_deletes() {
    let mut r = InMemoryTradeRuleRepo::new();
    r.save("BBCA", &rule(1)).unwrap();
    r.save("TLKM", &rule(2)).unwrap();
    r.save("BBCA", &rule(3)).unwrap();
    assert_eq!(r.find("BBCA").unwrap().unwrap().max_lot, 3);
    assert_eq!(r.find_all().unwrap().len(), 2);
    r.delete("BBCA").unwrap();
    assert!(r.find("BBCA").unwrap().is_none());
    assert_eq!(r.find_all().unwrap().len(), 1);
    assert!(r.delete("NONE").is_ok());
}

fn analysis(symbol: &str, secs: i64, reasoning: &str) -> StockAnalysis {
    StockAnalysis {
        id: secs as u128,
        symbol: symbol.to_string(),
        signal: Signal::Buy,
        trend: Trend::Bullish,
        confidence: d(80),
        price_target: PriceTarget { entry: d(1), take_profit: d(2), stop_loss: d(0) },
        risk_factors: vec!["risk".to_string()],
        reasoning: reasoning.to_string(),
        analyzed_at: at(secs),
    }
}

#[test]
fn analysis_repo_finds_the_latest() {
    let mut r = InMemoryAnalysisRepo::new();
    r.save(&analysis("BBCA", 10, "old")).unwrap();
    r.save(&analysis("BBCA", 30, "new")).unwrap();
    r.save(&analysis("TLKM", 40, "other")).unwrap();
    r.save(&analysis("BBCA", 20, "middle")).unwrap();
    assert_eq!(r.find_latest("BBCA").unwrap().unwrap().reasoning, "new");
    assert!(r.find_latest("ASII").unwrap().is_none());
}

#[test]
fn analysis_repo_takes_the_last_of_equally_late_ones() {
    let mut r = InMemoryAnalysisRepo::new();
    r.save(&analysis("BBCA", 10, "first")).unwrap();
    r.save(&analysis("BBCA", 10, "second")).unwrap();
    assert_eq!(r.find_latest("BBCA").unwrap().unwrap().reasoning, "second");
}

#[test]
fn analysis_repo_lists_latest_first() {
    let mut r = InMemoryAnalysisRepo::new();
    r.save(&analysis("A", 10, "a")).unwrap();
    r.save(&analysis("B", 30, "b")).unwrap();
    r.save(&analysis("C", 20, "c")).unwrap();
    r.save(&analysis("D", 30, "d")).unwrap();
    let all = r.find_all_latest(10).unwrap();
    let names: Vec<&str> = all.iter().map(|a| a.reasoning.as_str()).collect();
    assert_eq!(names, vec!["b", "d", "c", "a"]);
    let two = r.find_all_latest(2).unwrap();
    assert_eq!(two.len(), 2);
    assert_eq!(two[1].reasoning, "d");
}

#[test]
fn a_huge_buy_is_simply_refused() {
    let mut b = SimulatedBroker::new(d(5));
    let e = b.place_order_at("BBCA", OrderSide::Buy, 50_000_000, d(1), 1, at(5)).unwrap_err();
    assert_eq!(message(e), "External service error: Insufficient balance: need 5000000000 but have 5");
    assert!(b.positions.is_empty());
}

#[test]
fn buying_again_after_a_rounded_average_is_placed() {
    let mut b = SimulatedBroker::new(d(100_000_000));
    b.place_order_at("BBCA", OrderSide::Buy, 1, d(50000), 1, at(5)).unwrap();
    b.place_order_at("BBCA", OrderSide::Buy, 2, d(0), 2, at(6)).unwrap();
    assert_eq!(b.positions[0].lot, 3);
    assert_eq!(b.positions[0].avg_price.to_text(), "16666.666666666666666666666667");
    b.place_order_at("BBCA", OrderSide::Buy, 1, d(1000), 3, at(7)).unwrap();
    assert_eq!(b.positions[0].lot, 4);
    assert_eq!(b.orders.len(), 3);
}

#[test]
fn try_place_order_refuses_what_would_overflow() {
    let mut b = SimulatedBroker::new(d(5));
    let huge = Dec::new(79_228_162_514_264_337_593_543_950_335, 0);
    assert!(b.try_place_order_at("BBCA", OrderSide::Buy, 2, huge, 1, at(5)).is_none());
    assert!(b.orders.is_empty());
    let r = b.try_place_order_at("BBCA", OrderSide::Buy, 1, d(5), 1, at(5));
    assert!(matches!(r, Some(Err(_))));
    let r = b.try_place_order("BBCA", OrderSide::Sell, 1, d(5));
    assert!(matches!(r, Some(Err(_))));
}

#[test]
fn checked_decimal_operations() {
    let max = Dec::new(79_228_162_514_264_337_593_543_950_335, 0);
    assert!(max.checked_plus(d(1)).is_none());
    assert_eq!(max.checked_minus(d(1)).unwrap().to_text(), "79228162514264337593543950334");
    assert!(max.checked_times(d(2)).is_none());
    assert!(d(1).checked_divided_by(Dec::zero()).is_none());
    assert_eq!(d(7).checked_divided_by(d(2)).unwrap().to_text(), "3.50");
}
