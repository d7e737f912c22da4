//! Domain values and entities: signals, orders, trade rules, positions and
//! portfolios, stocks and analyses, and the domain error.
use vstd::prelude::*;

use crate::text::same_text;
use crate::decimal::{
    add_exact, ddiff, diff_fits, dprod, dquot, dsum, dtext, mul_exact, prod_fits, quot_fits,
    spec_add, spec_mul, spec_sub, sub_exact, sum_fits, Dec,
};

verus! {

/// A recommendation on a stock.
#[derive(Clone, Copy, Debug, PartialEq, Eq, Structural)]
pub enum Signal {
    StrongBuy,
    Buy,
    Hold,
    Sell,
    StrongSell,
}

/// The direction a stock's price is taking.
#[derive(Clone, Copy, Debug, PartialEq, Eq, Structural)]
pub enum Trend {
    Bullish,
    Bearish,
    Sideways,
}

/// Buying or selling.
#[derive(Clone, Copy, Debug, PartialEq, Eq, Structural)]
pub enum OrderSide {
    Buy,
    Sell,
}

/// Where an order stands at the broker.
#[derive(Clone, Copy, Debug, PartialEq, Eq, Structural)]
pub enum OrderStatus {
    Pending,
    Filled,
    PartiallyFilled,
    Cancelled,
    Rejected,
}

/// The name of a signal, as its variant is spelled.
pub open spec fn signal_name(s: Signal) -> Seq<char> {
    match s {
        Signal::StrongBuy => "StrongBuy"@,
        Signal::Buy => "Buy"@,
        Signal::Hold => "Hold"@,
        Signal::Sell => "Sell"@,
        Signal::StrongSell => "StrongSell"@,
    }
}

/// The name of a trend.
pub open spec fn trend_name(t: Trend) -> Seq<char> {
    match t {
        Trend::Bullish => "Bullish"@,
        Trend::Bearish => "Bearish"@,
        Trend::Sideways => "Sideways"@,
    }
}

/// The name of an order side.
pub open spec fn side_name(s: OrderSide) -> Seq<char> {
    match s {
        OrderSide::Buy => "Buy"@,
        OrderSide::Sell => "Sell"@,
    }
}

/// The name of an order status.
pub open spec fn status_name(s: OrderStatus) -> Seq<char> {
    match s {
        OrderStatus::Pending => "Pending"@,
        OrderStatus::Filled => "Filled"@,
        OrderStatus::PartiallyFilled => "PartiallyFilled"@,
        OrderStatus::Cancelled => "Cancelled"@,
        OrderStatus::Rejected => "Rejected"@,
    }
}

impl Signal {
    /// The variant's name, as it is printed and serialized.
    pub fn name(&self) -> (r: &'static str)
        ensures
            r@ == signal_name(*self),
    {
        match self {
            Signal::StrongBuy => "StrongBuy",
            Signal::Buy => "Buy",
            Signal::Hold => "Hold",
            Signal::Sell => "Sell",
            Signal::StrongSell => "StrongSell",
        }
    }
}

impl Trend {
    /// The variant's name, as it is printed and serialized.
    pub fn name(&self) -> (r: &'static str)
        ensures
            r@ == trend_name(*self),
    {
        match self {
            Trend::Bullish => "Bullish",
            Trend::Bearish => "Bearish",
            Trend::Sideways => "Sideways",
        }
    }
}

impl OrderSide {
    /// The variant's name, as it is printed and serialized.
    pub fn name(&self) -> (r: &'static str)
        ensures
            r@ == side_name(*self),
    {
        match self {
            OrderSide::Buy => "Buy",
            OrderSide::Sell => "Sell",
        }
    }
}

impl OrderStatus {
    /// The variant's name, as it is printed and serialized.
    pub fn name(&self) -> (r: &'static str)
        ensures
            r@ == status_name(*self),
    {
        match self {
            OrderStatus::Pending => "Pending",
            OrderStatus::Filled => "Filled",
            OrderStatus::PartiallyFilled => "PartiallyFilled",
            OrderStatus::Cancelled => "Cancelled",
            OrderStatus::Rejected => "Rejected",
        }
    }
}

/// A point in time: whole seconds since the Unix epoch and the nanoseconds
/// past them (UTC).
#[derive(Clone, Copy, Debug, PartialEq, Eq, Structural)]
pub struct Timestamp {
    pub secs: i64,
    pub nanos: u32,
}

impl Timestamp {
    /// A time that the calendar library can represent: nanoseconds below one
    /// second and seconds within about 250,000 years of the epoch.
    pub open spec fn wf(self) -> bool {
        &&& self.nanos < 1_000_000_000
        &&& -8_000_000_000_000 <= self.secs <= 8_000_000_000_000
    }

    /// `self` is not later than `other`.
    pub open spec fn le(self, other: Timestamp) -> bool {
        self.secs < other.secs || (self.secs == other.secs && self.nanos <= other.nanos)
    }

    /// `self` is not later than `other` (the order of `DateTime<Utc>`).
    pub fn not_after(&self, other: &Timestamp) -> (r: bool)
        ensures
            r == self.le(*other),
    {
        self.secs < other.secs || (self.secs == other.secs && self.nanos <= other.nanos)
    }
}

/// Entry, take-profit and stop-loss prices suggested by an analysis.
#[derive(Clone, Copy, Debug)]
pub struct PriceTarget {
    pub entry: Dec,
    pub take_profit: Dec,
    pub stop_loss: Dec,
}

impl PriceTarget {
    /// Its prices are representable decimals.
    pub open spec fn wf(self) -> bool {
        self.entry.wf() && self.take_profit.wf() && self.stop_loss.wf()
    }
}

/// When to buy and sell one stock automatically.
#[derive(Clone, Copy, Debug)]
pub struct TradeRule {
    pub buy_below: Dec,
    pub sell_above: Dec,
    pub stop_loss: Dec,
    pub max_lot: u32,
}

impl TradeRule {
    /// Its prices are representable decimals.
    pub open spec fn wf(self) -> bool {
        self.buy_below.wf() && self.sell_above.wf() && self.stop_loss.wf()
    }
}

/// A holding of one stock, in lots of 100 shares.
#[derive(Debug)]
pub struct Position {
    pub symbol: String,
    pub lot: u32,
    pub avg_price: Dec,
    pub current_price: Dec,
}

impl Clone for Position {
    fn clone(&self) -> (r: Self)
        ensures
            r == *self,
    {
        Position {
            symbol: self.symbol.clone(),
            lot: self.lot,
            avg_price: self.avg_price,
            current_price: self.current_price,
        }
    }
}

/// The number of shares in `lot` lots.
pub open spec fn shares_of(lot: u32) -> Dec {
    Dec { mantissa: (lot * 100) as i128, scale: 0 }
}

/// A decimal of the whole number 100.
pub open spec fn hundred() -> Dec {
    Dec { mantissa: 100, scale: 0 }
}

impl Position {
    /// Representable prices, and a share count that fits in a `u32`.
    pub open spec fn wf(self) -> bool {
        &&& self.avg_price.wf()
        &&& self.current_price.wf()
        &&& self.lot * 100 <= u32::MAX
    }

    /// The market value as the exact product of price and shares.
    pub open spec fn spec_market_value(self) -> Dec {
        spec_mul(self.current_price, shares_of(self.lot))
    }

    /// The number of shares held.
    pub fn total_shares(&self) -> (r: u32)
        requires
            self.lot * 100 <= u32::MAX,
        ensures
            r == self.lot * 100,
    {
        self.lot * 100
    }

    /// Current price times shares held.
    pub fn market_value(&self) -> (r: Dec)
        requires
            self.wf(),
            prod_fits(self.current_price, shares_of(self.lot)),
        ensures
            r == dprod(self.current_price, shares_of(self.lot)),
            mul_exact(self.current_price, shares_of(self.lot)) ==> r == self.spec_market_value(),
            r.wf(),
    {
        let shares = Dec::from_u32(self.total_shares());
        self.current_price.times(shares)
    }

    /// (Current price - average price) times shares held.
    pub fn unrealized_pnl(&self) -> (r: Dec)
        requires
            self.wf(),
            diff_fits(self.current_price, self.avg_price),
            prod_fits(ddiff(self.current_price, self.avg_price), shares_of(self.lot)),
        ensures
            r == dprod(ddiff(self.current_price, self.avg_price), shares_of(self.lot)),
            sub_exact(self.current_price, self.avg_price) ==> r == dprod(
                spec_sub(self.current_price, self.avg_price),
                shares_of(self.lot),
            ),
            sub_exact(self.current_price, self.avg_price) && mul_exact(
                spec_sub(self.current_price, self.avg_price),
                shares_of(self.lot),
            ) ==> r == spec_mul(spec_sub(self.current_price, self.avg_price), shares_of(self.lot)),
            r.wf(),
    {
        let diff = self.current_price.minus(self.avg_price);
        let shares = Dec::from_u32(self.total_shares());
        diff.times(shares)
    }

    /// The gain in percent of the average price: zero when the average price
    /// is zero, else `(current - average) / average * 100`.
    pub fn pnl_percent(&self) -> (r: Dec)
        requires
            self.wf(),
            self.avg_price.mantissa != 0 ==> {
                let d = ddiff(self.current_price, self.avg_price);
                &&& diff_fits(self.current_price, self.avg_price)
                &&& quot_fits(d, self.avg_price)
                &&& prod_fits(dquot(d, self.avg_price), hundred())
            },
        ensures
            self.avg_price.mantissa == 0 ==> (r.mantissa == 0 && r.scale == 0),
            self.avg_price.mantissa != 0 ==> r == dprod(
                dquot(ddiff(self.current_price, self.avg_price), self.avg_price),
                hundred(),
            ),
            r.wf(),
    {
        if self.avg_price.is_zero() {
            return Dec::zero();
        }
        let diff = self.current_price.minus(self.avg_price);
        let q = diff.divided_by(self.avg_price);
        q.times(Dec::from_u32(100))
    }
}

} // verus!

verus! {

/// The sum of the positions' market values, added left to right from zero
/// without rounding.
pub open spec fn sum_market_values(ps: Seq<Position>) -> Dec
    decreases ps.len(),
{
    if ps.len() == 0 {
        Dec { mantissa: 0, scale: 0 }
    } else {
        spec_add(sum_market_values(ps.drop_last()), ps.last().spec_market_value())
    }
}

/// The positions' market values as `rust_decimal` adds them up, left to
/// right from zero.
pub open spec fn market_value_total(ps: Seq<Position>) -> Dec
    decreases ps.len(),
{
    if ps.len() == 0 {
        Dec { mantissa: 0, scale: 0 }
    } else {
        dsum(
            market_value_total(ps.drop_last()),
            dprod(ps.last().current_price, shares_of(ps.last().lot)),
        )
    }
}

/// Cash, equity reported by the broker, cash allocated to open orders, and
/// positions.
#[derive(Debug)]
pub struct Portfolio {
    pub balance: Dec,
    pub equity: Dec,
    pub allocated: Dec,
    pub positions: Vec<Position>,
}

impl Portfolio {
    /// Representable amounts, and well-formed positions.
    pub open spec fn wf(self) -> bool {
        &&& self.balance.wf()
        &&& self.equity.wf()
        &&& self.allocated.wf()
        &&& forall|i: int| 0 <= i < self.positions.len() ==> (#[trigger] self.positions@[i]).wf()
    }

    /// Adding up balance, market values and allocated cash needs no rounding.
    pub open spec fn sums_exact(self) -> bool {
        let ps = self.positions@;
        let total = sum_market_values(ps);
        &&& forall|i: int|
            0 <= i < ps.len() ==> mul_exact(
                (#[trigger] ps[i]).current_price,
                shares_of(ps[i].lot),
            )
        &&& forall|i: int|
            0 <= i < ps.len() ==> add_exact(
                sum_market_values(#[trigger] ps.take(i)),
                ps[i].spec_market_value(),
            )
        &&& add_exact(self.balance, total)
        &&& add_exact(spec_add(self.balance, total), self.allocated)
    }

    /// The equity the broker reports, or, where it reports zero, balance plus
    /// the positions' market values plus allocated cash, computed exactly.
    pub open spec fn spec_total_equity(self) -> Dec {
        if self.equity.mantissa != 0 {
            self.equity
        } else {
            spec_add(spec_add(self.balance, sum_market_values(self.positions@)), self.allocated)
        }
    }

    /// Valuing the portfolio overflows nowhere: each market value, each
    /// running sum of them, and the additions of balance and allocated cash
    /// stay within range, taken as `rust_decimal` computes them.
    pub open spec fn valuation_fits(self) -> bool {
        let ps = self.positions@;
        let total = market_value_total(ps);
        &&& forall|i: int|
            0 <= i < ps.len() ==> prod_fits((#[trigger] ps[i]).current_price, shares_of(ps[i].lot))
        &&& forall|i: int|
            0 <= i < ps.len() ==> sum_fits(
                market_value_total(#[trigger] ps.take(i)),
                dprod(ps[i].current_price, shares_of(ps[i].lot)),
            )
        &&& sum_fits(self.balance, total)
        &&& sum_fits(dsum(self.balance, total), self.allocated)
    }

    /// The total equity as `rust_decimal` computes it: the equity the broker
    /// reports, or, where it reports zero, balance plus the positions' market
    /// values plus allocated cash.
    pub open spec fn valued_total_equity(self) -> Dec {
        if self.equity.mantissa != 0 {
            self.equity
        } else {
            dsum(dsum(self.balance, market_value_total(self.positions@)), self.allocated)
        }
    }

    /// The total equity, or none where computing it would overflow.
    pub fn checked_total_equity(&self) -> (r: Option<Dec>)
        requires
            self.wf(),
        ensures
            r is Some <==> (self.equity.mantissa != 0 || self.valuation_fits()),
            r matches Some(z) ==> z == self.valued_total_equity() && z.wf(),
            self.equity.mantissa == 0 && self.sums_exact() ==> r == Some(self.spec_total_equity()),
    {
        if !self.equity.is_zero() {
            return Some(self.equity);
        }
        let ghost ps = self.positions@;
        let mut acc = Dec::zero();
        let mut i: usize = 0;
        assert(ps.take(0) =~= Seq::<Position>::empty());
        while i < self.positions.len()
            invariant
                self.wf(),
                self.equity.mantissa == 0,
                ps == self.positions@,
                0 <= i <= ps.len(),
                acc == market_value_total(ps.take(i as int)),
                acc.wf(),
                self.sums_exact() ==> acc == sum_market_values(ps.take(i as int)),
                forall|k: int|
                    0 <= k < i ==> prod_fits(
                        (#[trigger] ps[k]).current_price,
                        shares_of(ps[k].lot),
                    ),
                forall|k: int|
                    0 <= k < i ==> sum_fits(
                        market_value_total(#[trigger] ps.take(k)),
                        dprod(ps[k].current_price, shares_of(ps[k].lot)),
                    ),
            decreases ps.len() - i,
        {
            let p = &self.positions[i];
            assert(p.wf());
            let shares = Dec::from_u32(p.total_shares());
            proof {
                if self.sums_exact() {
                    assert(mul_exact(ps[i as int].current_price, shares_of(ps[i as int].lot)));
                }
            }
            let mv = match p.current_price.checked_times(shares) {
                Some(v) => v,
                None => {
                    assert(!prod_fits(ps[i as int].current_price, shares_of(ps[i as int].lot)));
                    return None;
                },
            };
            proof {
                if self.sums_exact() {
                    assert(add_exact(
                        sum_market_values(ps.take(i as int)),
                        ps[i as int].spec_market_value(),
                    ));
                }
            }
            acc = match acc.checked_plus(mv) {
                Some(v) => v,
                None => {
                    assert(!sum_fits(
                        market_value_total(ps.take(i as int)),
                        dprod(ps[i as int].current_price, shares_of(ps[i as int].lot)),
                    ));
                    return None;
                },
            };
            assert(ps.take(i + 1).drop_last() =~= ps.take(i as int));
            i = i + 1;
        }
        assert(ps.take(ps.len() as int) =~= ps);
        let with_balance = match self.balance.checked_plus(acc) {
            Some(v) => v,
            None => return None,
        };
        with_balance.checked_plus(self.allocated)
    }

    /// The total equity: the equity the broker reports, or, where it reports
    /// zero, balance plus the positions' market values plus allocated cash.
    pub fn total_equity(&self) -> (r: Dec)
        requires
            self.wf(),
            self.equity.mantissa == 0 ==> self.valuation_fits(),
        ensures
            r == self.valued_total_equity(),
            self.equity.mantissa == 0 && self.sums_exact() ==> r == self.spec_total_equity(),
            r.wf(),
    {
        match self.checked_total_equity() {
            Some(z) => z,
            // Not reached: the valuation fits wherever it is computed.
            None => self.equity,
        }
    }
}

/// An order placed at a broker. The id is the 128-bit value of its UUID.
#[derive(Debug)]
pub struct Order {
    pub id: u128,
    pub symbol: String,
    pub side: OrderSide,
    pub lot: u32,
    pub price: Dec,
    pub status: OrderStatus,
    pub created_at: Timestamp,
    pub filled_at: Option<Timestamp>,
}

impl Clone for Order {
    fn clone(&self) -> (r: Self)
        ensures
            r == *self,
    {
        Order {
            id: self.id,
            symbol: self.symbol.clone(),
            side: self.side,
            lot: self.lot,
            price: self.price,
            status: self.status,
            created_at: self.created_at,
            filled_at: self.filled_at,
        }
    }
}

/// A status after which an order no longer changes.
pub open spec fn is_terminal_status(s: OrderStatus) -> bool {
    s == OrderStatus::Filled || s == OrderStatus::Cancelled || s == OrderStatus::Rejected
}

impl Order {
    /// Its price is a representable decimal.
    pub open spec fn wf(self) -> bool {
        self.price.wf()
    }

    /// The order is filled, cancelled or rejected.
    pub fn is_terminal(&self) -> (r: bool)
        ensures
            r == is_terminal_status(self.status),
    {
        match self.status {
            OrderStatus::Filled | OrderStatus::Cancelled | OrderStatus::Rejected => true,
            OrderStatus::Pending | OrderStatus::PartiallyFilled => false,
        }
    }
}

/// A listed stock and its latest market data.
#[derive(Debug)]
pub struct Stock {
    pub symbol: String,
    pub name: String,
    pub sector: String,
    pub last_price: Dec,
    pub volume: u64,
    pub market_cap: Dec,
    pub updated_at: Timestamp,
}

/// One day of price data.
#[derive(Debug)]
pub struct StockPrice {
    pub symbol: String,
    pub open: Dec,
    pub high: Dec,
    pub low: Dec,
    pub close: Dec,
    pub volume: u64,
    pub date: Timestamp,
}

impl StockPrice {
    /// Its prices are representable decimals.
    pub open spec fn wf(self) -> bool {
        &&& self.open.wf()
        &&& self.high.wf()
        &&& self.low.wf()
        &&& self.close.wf()
        &&& self.date.wf()
    }
}

/// Financial ratios of a company; each may be unknown.
#[derive(Debug)]
pub struct StockFundamental {
    pub symbol: String,
    pub pe_ratio: Option<Dec>,
    pub pb_ratio: Option<Dec>,
    pub roe: Option<Dec>,
    pub der: Option<Dec>,
    pub eps: Option<Dec>,
    pub dividend_yield: Option<Dec>,
}

/// An option of a decimal holds a representable one, if any.
pub open spec fn opt_wf(o: Option<Dec>) -> bool {
    o matches Some(d) ==> d.wf()
}

impl StockFundamental {
    /// Its ratios are representable decimals.
    pub open spec fn wf(self) -> bool {
        &&& opt_wf(self.pe_ratio)
        &&& opt_wf(self.pb_ratio)
        &&& opt_wf(self.roe)
        &&& opt_wf(self.der)
        &&& opt_wf(self.eps)
        &&& opt_wf(self.dividend_yield)
    }
}

/// The AI analyst's view of one stock.
#[derive(Debug)]
pub struct StockAnalysis {
    pub id: u128,
    pub symbol: String,
    pub signal: Signal,
    pub trend: Trend,
    pub confidence: Dec,
    pub price_target: PriceTarget,
    pub risk_factors: Vec<String>,
    pub reasoning: String,
    pub analyzed_at: Timestamp,
}

impl StockAnalysis {
    /// Two analyses hold the same values.
    pub open spec fn same_as(self, other: StockAnalysis) -> bool {
        &&& self.id == other.id
        &&& self.symbol@ == other.symbol@
        &&& self.signal == other.signal
        &&& self.trend == other.trend
        &&& self.confidence == other.confidence
        &&& self.price_target == other.price_target
        &&& self.risk_factors@ == other.risk_factors@
        &&& self.reasoning@ == other.reasoning@
        &&& self.analyzed_at == other.analyzed_at
    }
}

impl Clone for StockAnalysis {
    fn clone(&self) -> (r: Self)
        ensures
            r.same_as(*self),
    {
        let risk_factors = clone_strings(&self.risk_factors);
        StockAnalysis {
            id: self.id,
            symbol: self.symbol.clone(),
            signal: self.signal,
            trend: self.trend,
            confidence: self.confidence,
            price_target: self.price_target,
            risk_factors,
            reasoning: self.reasoning.clone(),
            analyzed_at: self.analyzed_at,
        }
    }
}

/// A copy of a list of strings.
pub fn clone_strings(v: &Vec<String>) -> (r: Vec<String>)
    ensures
        r@ == v@,
{
    let mut r: Vec<String> = Vec::new();
    let mut i: usize = 0;
    while i < v.len()
        invariant
            i <= v.len(),
            r@ == v@.take(i as int),
        decreases v.len() - i,
    {
        r.push(v[i].clone());
        assert(v@.take(i + 1) =~= v@.take(i as int).push(v@[i as int]));
        i = i + 1;
    }
    assert(v@.take(v.len() as int) =~= v@);
    r
}

/// A stock the AI analyst suggests.
#[derive(Debug)]
pub struct StockSuggestion {
    pub symbol: String,
    pub name: String,
    pub signal: Signal,
    pub trend: Trend,
    pub current_price: Dec,
    pub target_price: Dec,
    pub potential_return: Dec,
    pub confidence: Dec,
    pub reason: String,
}

/// What can go wrong in the domain.
#[derive(Debug)]
pub enum DomainError {
    StockNotFound(String),
    InsufficientBalance { need: Dec, have: Dec },
    TradeExecutionFailed(String),
    AnalysisFailed(String),
    ExternalService(String),
    Validation(String),
}

/// The message of a domain error.
pub open spec fn error_text(e: DomainError) -> Seq<char> {
    match e {
        DomainError::StockNotFound(s) => "Stock not found: "@ + s@,
        DomainError::InsufficientBalance { need, have } => "Insufficient balance: need "@ + dtext(
            need,
        ) + ", have "@ + dtext(have),
        DomainError::TradeExecutionFailed(s) => "Trade execution failed: "@ + s@,
        DomainError::AnalysisFailed(s) => "Analysis failed: "@ + s@,
        DomainError::ExternalService(s) => "External service error: "@ + s@,
        DomainError::Validation(s) => "Validation error: "@ + s@,
    }
}

impl DomainError {
    /// The amounts it carries are representable decimals.
    pub open spec fn wf(self) -> bool {
        match self {
            DomainError::InsufficientBalance { need, have } => need.wf() && have.wf(),
            _ => true,
        }
    }

    /// The error's message.
    pub fn message(&self) -> (r: String)
        requires
            self.wf(),
        ensures
            r@ == error_text(*self),
    {
        match self {
            DomainError::StockNotFound(s) => {
                let r = String::from_str("Stock not found: ");
                r.concat(s.as_str())
            },
            DomainError::InsufficientBalance { need, have } => {
                let mut r = String::from_str("Insufficient balance: need ");
                r.append(need.to_text().as_str());
                r.append(", have ");
                r.append(have.to_text().as_str());
                r
            },
            DomainError::TradeExecutionFailed(s) => {
                let r = String::from_str("Trade execution failed: ");
                r.concat(s.as_str())
            },
            DomainError::AnalysisFailed(s) => {
                let r = String::from_str("Analysis failed: ");
                r.concat(s.as_str())
            },
            DomainError::ExternalService(s) => {
                let r = String::from_str("External service error: ");
                r.concat(s.as_str())
            },
            DomainError::Validation(s) => {
                let r = String::from_str("Validation error: ");
                r.concat(s.as_str())
            },
        }
    }
}

/// `i` is the first position in `ps` that holds `symbol`.
pub open spec fn is_first_holding(ps: Seq<Position>, symbol: Seq<char>, i: int) -> bool {
    &&& 0 <= i < ps.len()
    &&& ps[i].symbol@ == symbol
    &&& forall|j: int| 0 <= j < i ==> (#[trigger] ps[j]).symbol@ != symbol
}

/// The lots of the first position holding `symbol`, if any.
pub open spec fn held_lot(ps: Seq<Position>, symbol: Seq<char>) -> Option<u32> {
    if exists|i: int| 0 <= i < ps.len() && (#[trigger] ps[i]).symbol@ == symbol {
        Some(ps[choose|i: int| is_first_holding(ps, symbol, i)].lot)
    } else {
        None
    }
}

/// No two positions are each the first to hold a symbol.
pub proof fn lemma_first_holding_unique(ps: Seq<Position>, symbol: Seq<char>, i: int, k: int)
    requires
        is_first_holding(ps, symbol, i),
        is_first_holding(ps, symbol, k),
    ensures
        i == k,
{
    if i < k {
        assert(ps[i].symbol@ != symbol);
    } else if k < i {
        assert(ps[k].symbol@ != symbol);
    }
}

/// The lots held of `symbol`: those of the first position holding it.
pub fn find_held_lot(positions: &Vec<Position>, symbol: &String) -> (r: Option<u32>)
    ensures
        r == held_lot(positions@, symbol@),
{
    let ghost ps = positions@;
    let mut i: usize = 0;
    while i < positions.len()
        invariant
            ps == positions@,
            i <= ps.len(),
            forall|j: int| 0 <= j < i ==> (#[trigger] ps[j]).symbol@ != symbol@,
        decreases ps.len() - i,
    {
        if positions[i].symbol == *symbol {
            proof {
                assert(is_first_holding(ps, symbol@, i as int));
                let c = choose|c: int| is_first_holding(ps, symbol@, c);
                lemma_first_holding_unique(ps, symbol@, i as int, c);
            }
            return Some(positions[i].lot);
        }
        i = i + 1;
    }
    None
}

/// The index of the first position holding `symbol`, if any.
pub open spec fn holding_index(ps: Seq<Position>, symbol: Seq<char>) -> Option<int> {
    if exists|i: int| 0 <= i < ps.len() && (#[trigger] ps[i]).symbol@ == symbol {
        Some(choose|i: int| is_first_holding(ps, symbol, i))
    } else {
        None
    }
}

/// Where some position holds a symbol, a first one does.
pub proof fn lemma_first_holding_exists(ps: Seq<Position>, symbol: Seq<char>, i: int)
    requires
        0 <= i < ps.len(),
        ps[i].symbol@ == symbol,
    ensures
        exists|k: int| is_first_holding(ps, symbol, k),
    decreases i,
{
    if forall|j: int| 0 <= j < i ==> (#[trigger] ps[j]).symbol@ != symbol {
        assert(is_first_holding(ps, symbol, i));
    } else {
        let j = choose|j: int| 0 <= j < i && (#[trigger] ps[j]).symbol@ == symbol;
        lemma_first_holding_exists(ps, symbol, j);
    }
}

/// `holding_index` names a first holding position, if there is any.
pub proof fn lemma_holding_index_some(ps: Seq<Position>, symbol: Seq<char>)
    ensures
        holding_index(ps, symbol) matches Some(k) ==> is_first_holding(ps, symbol, k),
{
    if exists|i: int| 0 <= i < ps.len() && (#[trigger] ps[i]).symbol@ == symbol {
        let i = choose|i: int| 0 <= i < ps.len() && (#[trigger] ps[i]).symbol@ == symbol;
        lemma_first_holding_exists(ps, symbol, i);
    }
}

/// The first index holding a symbol is the one `holding_index` names.
pub proof fn lemma_holding_index(ps: Seq<Position>, symbol: Seq<char>, k: int)
    requires
        is_first_holding(ps, symbol, k),
    ensures
        holding_index(ps, symbol) == Some(k),
{
    let c = choose|i: int| is_first_holding(ps, symbol, i);
    assert(is_first_holding(ps, symbol, k));
    lemma_first_holding_unique(ps, symbol, k, c);
}

/// With no position holding a symbol, there is no index for it.
pub proof fn lemma_no_holding_index(ps: Seq<Position>, symbol: Seq<char>)
    requires
        forall|j: int| 0 <= j < ps.len() ==> (#[trigger] ps[j]).symbol@ != symbol,
    ensures
        holding_index(ps, symbol) is None,
{
}

/// The index of the first position holding `symbol`, if any.
pub fn find_holding(positions: &Vec<Position>, symbol: &str) -> (r: Option<usize>)
    ensures
        match r {
            Some(k) => is_first_holding(positions@, symbol@, k as int),
            None => forall|j: int| 0 <= j < positions.len() ==> (#[trigger] positions@[j]).symbol@ != symbol@,
        },
{
    let ghost ps = positions@;
    let mut i: usize = 0;
    while i < positions.len()
        invariant
            ps == positions@,
            i <= ps.len(),
            forall|j: int| 0 <= j < i ==> (#[trigger] ps[j]).symbol@ != symbol@,
        decreases ps.len() - i,
    {
        if same_text(positions[i].symbol.as_str(), symbol) {
            return Some(i);
        }
        i = i + 1;
    }
    None
}

} // verus!
