use autotrade::autotrade::{decide, AutoTradeAction, AutoTradeEvent, AutoTradePhase, AutoTradeRun, TradeDecision};
use autotrade::decimal::Dec;
use autotrade::domain::{DomainError, Order, OrderSide, OrderStatus, Position, Timestamp, TradeRule};

fn d(m: i128) -> Dec {
    Dec::new(m, 0)
}

fn rule(buy_below: i128, sell_above: i128, stop_loss: i128, max_lot: u32) -> TradeRule {
    TradeRule { buy_below: d(buy_below), sell_above: d(sell_above), stop_loss: d(stop_loss), max_lot }
}

fn order(symbol: &str, side: OrderSide, lot: u32, price: Dec) -> Order {
    Order {
        id: 7,
        symbol: symbol.to_string(),
        side,
        lot,
        price,
        status: OrderStatus::Filled,
        created_at: Timestamp { secs: 1, nanos: 0 },
        filled_at: Some(Timestamp { secs: 1, nanos: 0 }),
    }
}

#[test]
fn buys_max_lot_at_or_below_buy_below_without_a_position() {
    let r = rule(9000, 10000, 8000, 5);
    assert_eq!(decide(&r, d(9000), None), TradeDecision::Buy { lot: 5 });
    assert_eq!(decide(&r, d(8500), None), TradeDecision::Buy { lot: 5 });
    assert_eq!(decide(&r, d(9001), None), TradeDecision::Hold);
}

#[test]
fn takes_profit_with_the_whole_position() {
    let r = rule(9000, 10000, 8000, 5);
    assert_eq!(decide(&r, d(10000), Some(3)), TradeDecision::TakeProfit { lot: 3 });
    assert_eq!(decide(&r, d(12000), Some(3)), TradeDecision::TakeProfit { lot: 3 });
}

#[test]
fn stops_the_loss_with_the_whole_position() {
    let r = rule(9000, 10000, 8000, 5);
    assert_eq!(decide(&r, d(8000), Some(4)), TradeDecision::StopLoss { lot: 4 });
    assert_eq!(decide(&r, d(7000), Some(4)), TradeDecision::StopLoss { lot: 4 });
}

#[test]
fn holds_between_stop_loss_and_take_profit() {
    let r = rule(9000, 10000, 8000, 5);
    assert_eq!(decide(&r, d(9000), Some(4)), TradeDecision::Hold);
}

#[test]
fn compares_prices_by_value() {
    let r = TradeRule { buy_below: Dec::new(90000, 1), sell_above: d(10000), stop_loss: d(8000), max_lot: 1 };
    assert_eq!(decide(&r, Dec::new(900000, 2), None), TradeDecision::Buy { lot: 1 });
}

#[test]
fn a_run_buys_and_sells_by_the_rules() {
    let rules = vec![
        ("BBCA".to_string(), rule(9000, 10000, 8000, 5)),
        ("TLKM".to_string(), rule(3000, 4800, 3500, 2)),
        ("ASII".to_string(), rule(4000, 6000, 3000, 1)),
    ];
    let positions = vec![Position {
        symbol: "TLKM".to_string(),
        lot: 3,
        avg_price: d(4000),
        current_price: d(4500),
    }];
    let (run, action) = AutoTradeRun::start(rules, positions);
    assert!(matches!(action, AutoTradeAction::FetchStock { ref symbol } if symbol == "BBCA"));

    let (run, action) = run.on_event(AutoTradeEvent::StockPrice(d(8900)));
    match &action {
        AutoTradeAction::PlaceOrder { symbol, side, lot, price } => {
            assert_eq!(symbol, "BBCA");
            assert_eq!(*side, OrderSide::Buy);
            assert_eq!(*lot, 5);
            assert_eq!(price.to_text(), "8900");
        },
        other => panic!("unexpected {:?}", other),
    }
    let (run, action) = run.on_event(AutoTradeEvent::OrderPlaced(order("BBCA", OrderSide::Buy, 5, d(8900))));
    assert!(matches!(action, AutoTradeAction::FetchStock { ref symbol } if symbol == "TLKM"));

    let (run, action) = run.on_event(AutoTradeEvent::StockPrice(d(5000)));
    match &action {
        AutoTradeAction::PlaceOrder { symbol, side, lot, .. } => {
            assert_eq!(symbol, "TLKM");
            assert_eq!(*side, OrderSide::Sell);
            assert_eq!(*lot, 3);
        },
        other => panic!("unexpected {:?}", other),
    }
    let (run, action) = run.on_event(AutoTradeEvent::OrderPlaced(order("TLKM", OrderSide::Sell, 3, d(5000))));
    assert!(matches!(action, AutoTradeAction::FetchStock { ref symbol } if symbol == "ASII"));

    let (run, action) = run.on_event(AutoTradeEvent::StockPrice(d(5000)));
    assert!(matches!(action, AutoTradeAction::Done));
    assert_eq!(run.phase, AutoTradePhase::Finished);
    assert_eq!(run.executed.len(), 2);
    assert_eq!(run.executed[0].symbol, "BBCA");
    assert_eq!(run.executed[1].symbol, "TLKM");
}

#[test]
fn a_run_with_no_rules_is_done_at_once() {
    let (run, action) = AutoTradeRun::start(Vec::new(), Vec::new());
    assert!(matches!(action, AutoTradeAction::Done));
    assert_eq!(run.phase, AutoTradePhase::Finished);
    assert!(run.executed.is_empty());
}

#[test]
fn a_failed_price_stops_the_run() {
    let rules = vec![("BBCA".to_string(), rule(9000, 10000, 8000, 5))];
    let (run, _) = AutoTradeRun::start(rules, Vec::new());
    let (run, action) = run.on_event(AutoTradeEvent::Failed(DomainError::StockNotFound("BBCA".into())));
    assert_eq!(run.phase, AutoTradePhase::Failed);
    match action {
        AutoTradeAction::Fail(e) => assert_eq!(e.message(), "Stock not found: BBCA"),
        other => panic!("unexpected {:?}", other),
    }
}
