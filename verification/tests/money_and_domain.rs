use autotrade::decimal::Dec;
use autotrade::domain::{
    DomainError, Order, OrderSide, OrderStatus, Portfolio, Position, Signal, Timestamp, Trend,
};

fn d(m: i128, s: u32) -> Dec {
    Dec::new(m, s)
}

fn text(x: Dec) -> String {
    x.to_text()
}

fn position(symbol: &str, lot: u32, avg: Dec, cur: Dec) -> Position {
    Position { symbol: symbol.to_string(), lot, avg_price: avg, current_price: cur }
}

#[test]
fn decimal_sum_keeps_the_larger_scale() {
    assert_eq!(text(d(15, 1).plus(d(225, 2))), "3.75");
}

#[test]
fn decimal_difference_can_be_negative() {
    assert_eq!(text(d(1000, 0).minus(d(1250, 0))), "-250");
}

#[test]
fn decimal_product_adds_scales() {
    assert_eq!(text(d(15, 1).times(d(200, 0))), "300.0");
}

#[test]
fn decimal_product_with_zero_is_plain_zero() {
    assert_eq!(text(d(0, 3).times(d(25, 1))), "0");
}

#[test]
fn decimal_quotient_divides() {
    assert_eq!(text(d(10, 0).divided_by(d(4, 0))), "2.50");
}

#[test]
fn whole_quotients_keep_the_dividends_scale() {
    assert_eq!(text(d(70000, 0).divided_by(d(400, 0))), "175");
    assert_eq!(text(d(12000, 2).divided_by(d(3, 0))), "40.00");
    assert_eq!(text(d(0, 2).divided_by(d(5, 0))), "0");
    assert_eq!(text(d(-900, 1).divided_by(d(3, 1))), "-300");
}

#[test]
fn decimal_comparisons_go_by_value() {
    assert!(d(150, 2).le(d(15, 1)));
    assert!(!d(150, 2).lt(d(15, 1)));
    assert!(d(149, 2).lt(d(15, 1)));
}

#[test]
fn decimal_text_keeps_trailing_zeros() {
    assert_eq!(text(d(150, 2)), "1.50");
    assert_eq!(text(Dec::zero()), "0");
    assert_eq!(text(Dec::from_u32(4200)), "4200");
}

#[test]
fn position_values() {
    let p = position("BBCA", 2, d(9000, 0), d(9500, 0));
    assert_eq!(p.total_shares(), 200);
    assert_eq!(text(p.market_value()), "1900000");
    assert_eq!(text(p.unrealized_pnl()), "100000");
}

#[test]
fn position_loss_is_negative() {
    let p = position("TLKM", 1, d(4000, 0), d(3800, 0));
    assert_eq!(text(p.unrealized_pnl()), "-20000");
}

#[test]
fn pnl_percent_of_the_average_price() {
    let p = position("BBCA", 1, d(1000, 0), d(1100, 0));
    let pct = p.pnl_percent();
    assert_eq!(pct.mantissa * 100 / 10i128.pow(pct.scale), 1000);
}

#[test]
fn pnl_percent_is_zero_without_an_average_price() {
    let p = position("BBCA", 1, Dec::zero(), d(1100, 0));
    let pct = p.pnl_percent();
    assert_eq!(pct.mantissa, 0);
    assert_eq!(pct.scale, 0);
}

#[test]
fn total_equity_adds_cash_positions_and_allocated_cash() {
    let pf = Portfolio {
        balance: d(1_000_000, 0),
        equity: Dec::zero(),
        allocated: d(50_000, 0),
        positions: vec![
            position("BBCA", 1, d(9000, 0), d(9500, 0)),
            position("TLKM", 2, d(4000, 0), d(3800, 0)),
        ],
    };
    assert_eq!(text(pf.total_equity()), "2760000");
}

#[test]
fn gain_on_an_average_price_that_was_rounded() {
    let avg = d(16_666_666_666_666_666_666_666_666_667, 26);
    let p = position("BBCA", 3, avg, d(200, 0));
    assert_eq!(text(p.unrealized_pnl()), "9999.999999999999999999999999");
    assert_eq!(text(p.market_value()), "60000");
}

#[test]
fn total_equity_is_none_where_it_would_overflow() {
    let max = d(79_228_162_514_264_337_593_543_950_335, 0);
    let pf = Portfolio { balance: max, equity: Dec::zero(), allocated: d(1, 0), positions: vec![] };
    assert!(pf.checked_total_equity().is_none());
    let ok = Portfolio { balance: max, equity: Dec::zero(), allocated: Dec::zero(), positions: vec![] };
    assert_eq!(text(ok.checked_total_equity().unwrap()), "79228162514264337593543950335");
}

#[test]
fn total_equity_prefers_the_reported_equity() {
    let pf = Portfolio {
        balance: d(1_000_000, 0),
        equity: d(7_777, 0),
        allocated: Dec::zero(),
        positions: vec![position("BBCA", 1, d(9000, 0), d(9500, 0))],
    };
    assert_eq!(text(pf.total_equity()), "7777");
}

#[test]
fn terminal_statuses() {
    let mut o = Order {
        id: 1,
        symbol: "BBCA".to_string(),
        side: OrderSide::Buy,
        lot: 1,
        price: d(9000, 0),
        status: OrderStatus::Pending,
        created_at: Timestamp { secs: 0, nanos: 0 },
        filled_at: None,
    };
    assert!(!o.is_terminal());
    o.status = OrderStatus::PartiallyFilled;
    assert!(!o.is_terminal());
    for s in [OrderStatus::Filled, OrderStatus::Cancelled, OrderStatus::Rejected] {
        o.status = s;
        assert!(o.is_terminal());
    }
}

#[test]
fn variant_names() {
    assert_eq!(Signal::StrongBuy.name(), "StrongBuy");
    assert_eq!(Signal::StrongSell.name(), "StrongSell");
    assert_eq!(Trend::Sideways.name(), "Sideways");
    assert_eq!(OrderSide::Sell.name(), "Sell");
    assert_eq!(OrderStatus::PartiallyFilled.name(), "PartiallyFilled");
}

#[test]
fn domain_error_messages() {
    assert_eq!(DomainError::StockNotFound("XYZ".into()).message(), "Stock not found: XYZ");
    assert_eq!(
        DomainError::InsufficientBalance { need: d(150, 1), have: d(3, 0) }.message(),
        "Insufficient balance: need 15.0, have 3"
    );
    assert_eq!(
        DomainError::TradeExecutionFailed("x".into()).message(),
        "Trade execution failed: x"
    );
    assert_eq!(DomainError::AnalysisFailed("y".into()).message(), "Analysis failed: y");
    assert_eq!(
        DomainError::ExternalService("z".into()).message(),
        "External service error: z"
    );
    assert_eq!(DomainError::Validation("w".into()).message(), "Validation error: w");
}

#[test]
fn timestamps_compare_by_seconds_then_nanoseconds() {
    let a = Timestamp { secs: 10, nanos: 5 };
    let b = Timestamp { secs: 10, nanos: 7 };
    let c = Timestamp { secs: 9, nanos: 999 };
    assert!(a.not_after(&b));
    assert!(!b.not_after(&a));
    assert!(c.not_after(&a));
    assert!(a.not_after(&a));
}
