//! The auto-trade engine.
//!
//! For each rule, in order, the engine asks for the stock's last price and
//! decides: with no position and a price at or below `buy_below` it buys
//! `max_lot` lots; holding the stock, it sells the whole position when the
//! price reaches `sell_above` (take-profit) or falls to `stop_loss`
//! (stop-loss). The engine is a state machine: the caller performs each
//! action (fetch a price, place an order) and hands back what came of it.
use vstd::prelude::*;

use crate::decimal::{dec_le, Dec};
use crate::domain::{find_held_lot, held_lot, DomainError, Order, OrderSide, Position, TradeRule};

verus! {

/// What to do about one rule at the current price.
#[derive(Clone, Copy, Debug, PartialEq, Eq, Structural)]
pub enum TradeDecision {
    Hold,
    Buy { lot: u32 },
    TakeProfit { lot: u32 },
    StopLoss { lot: u32 },
}

/// The rule's decision at `price`, given the lots held (`None`: no position).
pub open spec fn spec_decide(rule: TradeRule, price: Dec, held: Option<u32>) -> TradeDecision {
    match held {
        None => if dec_le(price, rule.buy_below) {
            TradeDecision::Buy { lot: rule.max_lot }
        } else {
            TradeDecision::Hold
        },
        Some(lot) => if dec_le(rule.sell_above, price) {
            TradeDecision::TakeProfit { lot }
        } else if dec_le(price, rule.stop_loss) {
            TradeDecision::StopLoss { lot }
        } else {
            TradeDecision::Hold
        },
    }
}

/// Decides what to do about one rule: buy `max_lot` lots when nothing is held
/// and the price is at or below `buy_below`; sell every held lot when the
/// price is at or above `sell_above`, or else at or below `stop_loss`.
pub fn decide(rule: &TradeRule, price: Dec, held: Option<u32>) -> (r: TradeDecision)
    requires
        rule.wf(),
        price.wf(),
    ensures
        r == spec_decide(*rule, price, held),
{
    match held {
        None => {
            if price.le(rule.buy_below) {
                TradeDecision::Buy { lot: rule.max_lot }
            } else {
                TradeDecision::Hold
            }
        },
        Some(lot) => {
            if rule.sell_above.le(price) {
                TradeDecision::TakeProfit { lot }
            } else if price.le(rule.stop_loss) {
                TradeDecision::StopLoss { lot }
            } else {
                TradeDecision::Hold
            }
        },
    }
}

/// An order the engine asks for: symbol, side, lots and limit price.
pub type OrderRequest = (Seq<char>, OrderSide, u32, Dec);

/// The order that a rule's decision calls for, if any.
pub open spec fn request_for(
    rule: (String, TradeRule),
    positions: Seq<Position>,
    price: Dec,
) -> Option<OrderRequest> {
    match spec_decide(rule.1, price, held_lot(positions, rule.0@)) {
        TradeDecision::Hold => None,
        TradeDecision::Buy { lot } => Some((rule.0@, OrderSide::Buy, lot, price)),
        TradeDecision::TakeProfit { lot } => Some((rule.0@, OrderSide::Sell, lot, price)),
        TradeDecision::StopLoss { lot } => Some((rule.0@, OrderSide::Sell, lot, price)),
    }
}

/// The orders called for by the first `prices.len()` rules, where
/// `prices[i]` is the last price of the stock of rule `i`, in rule order.
pub open spec fn plan(
    rules: Seq<(String, TradeRule)>,
    positions: Seq<Position>,
    prices: Seq<Dec>,
) -> Seq<OrderRequest>
    decreases prices.len(),
{
    if prices.len() == 0 {
        Seq::empty()
    } else {
        let i = prices.len() - 1;
        let before = plan(rules, positions, prices.drop_last());
        match request_for(rules[i], positions, prices[i]) {
            Some(req) => before.push(req),
            None => before,
        }
    }
}

/// Where a run of the engine stands.
#[derive(Clone, Copy, Debug, PartialEq, Eq, Structural)]
pub enum AutoTradePhase {
    /// Waiting for the last price of the current rule's stock.
    AwaitingPrice,
    /// Waiting for the order placed for the current rule.
    AwaitingOrder,
    /// Every rule was handled.
    Finished,
    /// A price or an order failed; the run stopped.
    Failed,
}

/// What the engine asks the caller to do next.
#[derive(Debug)]
pub enum AutoTradeAction {
    /// Fetch the stock and answer with its last price.
    FetchStock { symbol: String },
    /// Place this order and answer with the order the broker returns.
    PlaceOrder { symbol: String, side: OrderSide, lot: u32, price: Dec },
    /// The run is over; the executed orders are in the run.
    Done,
    /// The run stopped on this error.
    Fail(DomainError),
}

/// What the caller hands back.
#[derive(Debug)]
pub enum AutoTradeEvent {
    /// The last price of the stock asked for.
    StockPrice(Dec),
    /// The order the broker placed.
    OrderPlaced(Order),
    /// Fetching the stock or placing the order failed.
    Failed(DomainError),
}

/// One run of the engine over a snapshot of the rules and of the portfolio's
/// positions (taken once, before the first rule).
pub struct AutoTradeRun {
    pub rules: Vec<(String, TradeRule)>,
    pub positions: Vec<Position>,
    pub index: usize,
    pub phase: AutoTradePhase,
    pub executed: Vec<Order>,
    /// The prices handed back so far, one per rule handled or being handled.
    pub prices_seen: Ghost<Seq<Dec>>,
    /// The orders asked for so far.
    pub requested: Ghost<Seq<OrderRequest>>,
}

impl AutoTradeRun {
    /// The rules' decimals are representable.
    pub open spec fn inputs_wf(self) -> bool {
        forall|i: int| 0 <= i < self.rules.len() ==> (#[trigger] self.rules@[i]).1.wf()
    }

    /// The run is waiting for an answer.
    pub open spec fn awaiting(self) -> bool {
        self.phase == AutoTradePhase::AwaitingPrice || self.phase == AutoTradePhase::AwaitingOrder
    }

    /// The run's bookkeeping: the orders asked for are exactly those the plan
    /// calls for at the prices seen; every one of them but the one being
    /// placed was executed.
    pub open spec fn inv(self) -> bool {
        let seen = self.prices_seen@;
        &&& self.inputs_wf()
        &&& self.requested@ == plan(self.rules@, self.positions@, seen)
        &&& forall|i: int| 0 <= i < seen.len() ==> (#[trigger] seen[i]).wf()
        &&& match self.phase {
            AutoTradePhase::AwaitingPrice => {
                &&& self.index < self.rules.len()
                &&& seen.len() == self.index
                &&& self.executed.len() == self.requested@.len()
            },
            AutoTradePhase::AwaitingOrder => {
                &&& self.index < self.rules.len()
                &&& seen.len() == self.index + 1
                &&& request_for(self.rules@[self.index as int], self.positions@, seen.last()) is Some
                &&& self.executed.len() + 1 == self.requested@.len()
            },
            AutoTradePhase::Finished => {
                &&& self.index == self.rules.len()
                &&& seen.len() == self.rules.len()
                &&& self.executed.len() == self.requested@.len()
            },
            AutoTradePhase::Failed => true,
        }
    }

    /// The answer fits the question asked.
    pub open spec fn expects(self, e: AutoTradeEvent) -> bool {
        match e {
            AutoTradeEvent::StockPrice(p) => self.phase == AutoTradePhase::AwaitingPrice && p.wf(),
            AutoTradeEvent::OrderPlaced(_) => self.phase == AutoTradePhase::AwaitingOrder,
            AutoTradeEvent::Failed(_) => self.awaiting(),
        }
    }

    /// Moving on to rule `j`: asks for its price, or finishes after the last.
    pub open spec fn moved_to(self, j: int, a: AutoTradeAction) -> bool {
        &&& self.index == j
        &&& if j == self.rules.len() {
            self.phase == AutoTradePhase::Finished && a is Done
        } else {
            &&& self.phase == AutoTradePhase::AwaitingPrice
            &&& a matches AutoTradeAction::FetchStock { symbol } && symbol@ == self.rules@[j].0@
        }
    }

    /// Starts a run over the rules and the positions held.
    pub fn start(rules: Vec<(String, TradeRule)>, positions: Vec<Position>) -> (r: (
        AutoTradeRun,
        AutoTradeAction,
    ))
        requires
            forall|i: int| 0 <= i < rules.len() ==> (#[trigger] rules@[i]).1.wf(),
        ensures
            r.0.rules@ == rules@,
            r.0.positions@ == positions@,
            r.0.executed@.len() == 0,
            r.0.prices_seen@.len() == 0,
            r.0.moved_to(0, r.1),
            r.0.inv(),
    {
        let run = AutoTradeRun {
            rules,
            positions,
            index: 0,
            phase: AutoTradePhase::AwaitingPrice,
            executed: Vec::new(),
            prices_seen: Ghost(Seq::empty()),
            requested: Ghost(Seq::empty()),
        };
        run.advance(0)
    }

    /// Asks for the price of rule `j`, or finishes when there is none.
    fn advance(self, j: usize) -> (r: (AutoTradeRun, AutoTradeAction))
        requires
            j <= self.rules.len(),
        ensures
            r.0.rules == self.rules,
            r.0.positions == self.positions,
            r.0.executed == self.executed,
            r.0.prices_seen == self.prices_seen,
            r.0.requested == self.requested,
            r.0.moved_to(j as int, r.1),
    {
        let mut run = self;
        run.index = j;
        if j == run.rules.len() {
            run.phase = AutoTradePhase::Finished;
            (run, AutoTradeAction::Done)
        } else {
            run.phase = AutoTradePhase::AwaitingPrice;
            let symbol = run.rules[j].0.clone();
            (run, AutoTradeAction::FetchStock { symbol })
        }
    }

    /// Takes in the answer to the last action and returns the next action.
    pub fn on_event(self, event: AutoTradeEvent) -> (r: (AutoTradeRun, AutoTradeAction))
        requires
            self.inv(),
            self.expects(event),
        ensures
            r.0.inv(),
            r.0.rules@ == self.rules@,
            r.0.positions@ == self.positions@,
            match event {
                AutoTradeEvent::StockPrice(price) => {
                    let rule = self.rules@[self.index as int];
                    &&& r.0.prices_seen@ == self.prices_seen@.push(price)
                    &&& r.0.executed@ == self.executed@
                    &&& match request_for(rule, self.positions@, price) {
                        None => r.0.moved_to(self.index + 1, r.1),
                        Some(req) => {
                            &&& r.0.index == self.index
                            &&& r.0.phase == AutoTradePhase::AwaitingOrder
                            &&& r.1 matches AutoTradeAction::PlaceOrder { symbol, side, lot, price: p }
                                && symbol@ == req.0 && side == req.1 && lot == req.2 && p == req.3
                        },
                    }
                },
                AutoTradeEvent::OrderPlaced(order) => {
                    &&& r.0.prices_seen@ == self.prices_seen@
                    &&& r.0.executed@ == self.executed@.push(order)
                    &&& r.0.moved_to(self.index + 1, r.1)
                },
                AutoTradeEvent::Failed(e) => {
                    &&& r.0.phase == AutoTradePhase::Failed
                    &&& r.1 == AutoTradeAction::Fail(e)
                },
            },
    {
        let mut run = self;
        match event {
            AutoTradeEvent::StockPrice(price) => {
                let i = run.index;
                let held = find_held_lot(&run.positions, &run.rules[i].0);
                assert(run.rules@[i as int].1.wf());
                let decision = decide(&run.rules[i].1, price, held);
                let ghost old_seen = run.prices_seen@;
                run.prices_seen = Ghost(old_seen.push(price));
                assert(run.prices_seen@.drop_last() =~= old_seen);
                match decision {
                    TradeDecision::Hold => {
                        run.advance(i + 1)
                    },
                    TradeDecision::Buy { lot } => {
                        let ghost req = request_for(run.rules@[i as int], run.positions@, price);
                        run.requested = Ghost(run.requested@.push(req.unwrap()));
                        run.phase = AutoTradePhase::AwaitingOrder;
                        let symbol = run.rules[i].0.clone();
                        (run, AutoTradeAction::PlaceOrder { symbol, side: OrderSide::Buy, lot, price })
                    },
                    TradeDecision::TakeProfit { lot } | TradeDecision::StopLoss { lot } => {
                        let ghost req = request_for(run.rules@[i as int], run.positions@, price);
                        run.requested = Ghost(run.requested@.push(req.unwrap()));
                        run.phase = AutoTradePhase::AwaitingOrder;
                        let symbol = run.rules[i].0.clone();
                        (run, AutoTradeAction::PlaceOrder { symbol, side: OrderSide::Sell, lot, price })
                    },
                }
            },
            AutoTradeEvent::OrderPlaced(order) => {
                run.executed.push(order);
                let i = run.index;
                run.advance(i + 1)
            },
            AutoTradeEvent::Failed(e) => {
                run.phase = AutoTradePhase::Failed;
                (run, AutoTradeAction::Fail(e))
            },
        }
    }
}

/// The trading rules: with no position, a price at or below `buy_below`
/// buys `max_lot` lots; holding the stock, a price at or above `sell_above`
/// sells the whole position (take-profit), and otherwise a price at or below
/// `stop_loss` sells it (stop-loss); in every other case nothing is done.
pub proof fn law_rule_decisions(rule: TradeRule, price: Dec, held: Option<u32>)
    ensures
        held is None && dec_le(price, rule.buy_below) ==> spec_decide(rule, price, held)
            == (TradeDecision::Buy { lot: rule.max_lot }),
        held is None && !dec_le(price, rule.buy_below) ==> spec_decide(rule, price, held)
            == TradeDecision::Hold,
        held matches Some(l) ==> (dec_le(rule.sell_above, price) ==> spec_decide(
            rule,
            price,
            held,
        ) == (TradeDecision::TakeProfit { lot: l })),
        held matches Some(l) ==> (!dec_le(rule.sell_above, price) && dec_le(price, rule.stop_loss)
            ==> spec_decide(rule, price, held) == (TradeDecision::StopLoss { lot: l })),
        held is Some && !dec_le(rule.sell_above, price) && !dec_le(price, rule.stop_loss)
            ==> spec_decide(rule, price, held) == TradeDecision::Hold,
{
}

/// A finished run has seen one price per rule, asked for exactly the orders
/// the plan calls for at those prices, and executed every one of them.
pub proof fn law_finished_run_follows_plan(run: AutoTradeRun)
    requires
        run.inv(),
        run.phase == AutoTradePhase::Finished,
    ensures
        run.prices_seen@.len() == run.rules.len(),
        run.requested@ == plan(run.rules@, run.positions@, run.prices_seen@),
        run.executed.len() == run.requested@.len(),
{
}

} // verus!
