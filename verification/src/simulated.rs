//! A simulated broker: a cash balance, positions and an order book kept in
//! memory. Every order fills at once at its limit price.
use vstd::prelude::*;

use crate::clock::{new_uuid, now, parse_uuid, uuid_parse};
use crate::decimal::{
    add_exact, dec_eq, dec_lt, decimal_text, ddiff, diff_fits, dprod, dquot, dsum,
    lemma_exact_in_range, lemma_exact_wf, lemma_sub_add_cancel, mul_exact, prod_fits, quot_fits,
    spec_add, spec_mul, spec_sub, sub_exact, sum_fits, Dec,
};
use crate::domain::{
    find_holding, holding_index, hundred, lemma_holding_index_some, is_first_holding, lemma_holding_index,
    lemma_no_holding_index, DomainError, Order, OrderSide, OrderStatus, Portfolio, Position,
    Timestamp,
};
use crate::text::{nat_text, u64_text};

verus! {

/// `lot` as a decimal whole number.
pub open spec fn lot_dec(lot: u32) -> Dec {
    Dec { mantissa: lot as i128, scale: 0 }
}

/// What `lot` lots cost at `price`: price times lots times 100, multiplied
/// in that order.
pub open spec fn order_cost(price: Dec, lot: u32) -> Dec {
    spec_mul(spec_mul(price, lot_dec(lot)), hundred())
}

/// Working out the cost needs no rounding.
pub open spec fn cost_exact(price: Dec, lot: u32) -> bool {
    mul_exact(price, lot_dec(lot)) && mul_exact(spec_mul(price, lot_dec(lot)), hundred())
}

/// A position as plain values: symbol, lots, average price, current price.
pub type PositionView = (Seq<char>, u32, Dec, Dec);

/// A position as plain values.
pub open spec fn position_view(p: Position) -> PositionView {
    (p.symbol@, p.lot, p.avg_price, p.current_price)
}

/// Positions as plain values, in order.
pub open spec fn positions_view(ps: Seq<Position>) -> Seq<PositionView> {
    ps.map_values(|p: Position| position_view(p))
}

/// No two positions hold the same symbol.
pub open spec fn distinct_symbols(ps: Seq<Position>) -> bool {
    forall|i: int, j: int|
        0 <= i < ps.len() && 0 <= j < ps.len() && i != j ==> (#[trigger] ps[i]).symbol@ != (
        #[trigger] ps[j]).symbol@
}

/// What `lot` lots cost at `price` as `rust_decimal` works it out: price
/// times lots, then times 100 (each product possibly rounded).
pub open spec fn named_cost(price: Dec, lot: u32) -> Dec {
    dprod(dprod(price, lot_dec(lot)), hundred())
}

/// The shares in `n` lots, as a decimal whole number.
pub open spec fn shares_dec(n: u32) -> Dec {
    spec_mul(lot_dec(n), hundred())
}

/// The average price after buying `lot` more lots at `price` into a
/// position of `old_lot` lots at `avg`: old cost plus new cost, divided by
/// the shares now held, as `rust_decimal` works it out.
pub open spec fn averaged(avg: Dec, old_lot: u32, lot: u32, price: Dec) -> Dec {
    dquot(
        dsum(named_cost(avg, old_lot), named_cost(price, lot)),
        shares_dec((old_lot + lot) as u32),
    )
}

/// The positions after buying `lot` lots of `symbol` at `price`.
pub open spec fn bought(ps: Seq<Position>, symbol: Seq<char>, lot: u32, price: Dec) -> Seq<
    PositionView,
> {
    match holding_index(ps, symbol) {
        Some(k) => positions_view(ps).update(
            k,
            (
                symbol,
                (ps[k].lot + lot) as u32,
                averaged(ps[k].avg_price, ps[k].lot, lot, price),
                price,
            ),
        ),
        None => positions_view(ps).push((symbol, lot, price, price)),
    }
}

/// The positions after selling `lot` lots from position `k`: the position
/// goes when no lot is left.
pub open spec fn sold(ps: Seq<Position>, k: int, lot: u32) -> Seq<PositionView> {
    if ps[k].lot == lot {
        positions_view(ps).remove(k)
    } else {
        positions_view(ps).update(
            k,
            (ps[k].symbol@, (ps[k].lot - lot) as u32, ps[k].avg_price, ps[k].current_price),
        )
    }
}

/// Every position holds at least one lot.
pub open spec fn lots_positive(ps: Seq<Position>) -> bool {
    forall|i: int| 0 <= i < ps.len() ==> (#[trigger] ps[i]).lot >= 1
}

/// The refusal of a buy the balance cannot pay for.
pub open spec fn insufficient_balance_text(need: Dec, have: Dec) -> Seq<char> {
    "Insufficient balance: need "@ + decimal_text(need.mantissa, need.scale) + " but have "@
        + decimal_text(have.mantissa, have.scale)
}

/// The refusal of a sale of a stock not held.
pub open spec fn no_position_text(symbol: Seq<char>) -> Seq<char> {
    "No position in "@ + symbol + " to sell"@
}

/// The refusal of a sale of more lots than held.
pub open spec fn insufficient_lots_text(have: u32, want: u32) -> Seq<char> {
    "Insufficient lots: have "@ + nat_text(have as nat) + " but want to sell "@ + nat_text(
        want as nat,
    )
}

/// The broker's cash, positions and filled orders.
pub struct SimulatedBroker {
    pub balance: Dec,
    pub positions: Vec<Position>,
    pub orders: Vec<Order>,
}

impl SimulatedBroker {
    /// Representable values, at most one position per symbol, and every
    /// recorded order filled.
    pub open spec fn inv(self) -> bool {
        &&& self.balance.wf()
        &&& forall|i: int|
            0 <= i < self.positions.len() ==> (#[trigger] self.positions@[i]).avg_price.wf()
                && self.positions@[i].current_price.wf()
        &&& distinct_symbols(self.positions@)
        &&& forall|i: int|
            0 <= i < self.orders.len() ==> (#[trigger] self.orders@[i]).wf()
                && self.orders@[i].status == OrderStatus::Filled
    }

    /// Placing the order overflows neither `rust_decimal` nor a lot count:
    /// the cost can be worked out; a buy the balance pays for can take the
    /// cost from the balance and, into a held position, add the lots and
    /// work out the new average; a sale of held lots can add the cost to
    /// the balance. Refused orders need nothing beyond the cost.
    pub open spec fn fits(self, symbol: Seq<char>, side: OrderSide, lot: u32, price: Dec) -> bool {
        let c = named_cost(price, lot);
        &&& prod_fits(price, lot_dec(lot))
        &&& prod_fits(dprod(price, lot_dec(lot)), hundred())
        &&& match side {
            OrderSide::Buy => !dec_lt(self.balance, c) ==> {
                &&& diff_fits(self.balance, c)
                &&& match holding_index(self.positions@, symbol) {
                    Some(k) => {
                        let p = self.positions@[k];
                        let old_cost = named_cost(p.avg_price, p.lot);
                        &&& p.lot + lot <= u32::MAX
                        &&& prod_fits(p.avg_price, lot_dec(p.lot))
                        &&& prod_fits(dprod(p.avg_price, lot_dec(p.lot)), hundred())
                        &&& sum_fits(old_cost, c)
                        &&& quot_fits(dsum(old_cost, c), shares_dec((p.lot + lot) as u32))
                    },
                    None => true,
                }
            },
            OrderSide::Sell => match holding_index(self.positions@, symbol) {
                Some(k) => lot <= self.positions@[k].lot ==> sum_fits(self.balance, c),
                None => true,
            },
        }
    }

    /// A broker fit to go on trading: its invariant holds, every position has
    /// at least one lot, and the balance is not negative.
    pub open spec fn sound(self) -> bool {
        &&& self.inv()
        &&& lots_positive(self.positions@)
        &&& self.balance.mantissa >= 0
    }

    /// `new` is `old` with nothing changed.
    pub open spec fn unchanged(old: SimulatedBroker, new: SimulatedBroker) -> bool {
        &&& new.balance == old.balance
        &&& new.positions@ == old.positions@
        &&& new.orders@ == old.orders@
    }

    /// The order was filled: it is returned and recorded.
    pub open spec fn filled(
        old: SimulatedBroker,
        new: SimulatedBroker,
        symbol: Seq<char>,
        side: OrderSide,
        lot: u32,
        price: Dec,
        id: u128,
        at: Timestamp,
        r: Result<Order, DomainError>,
    ) -> bool {
        &&& r matches Ok(o)
        &&& o.id == id
        &&& o.symbol@ == symbol
        &&& o.side == side
        &&& o.lot == lot
        &&& o.price == price
        &&& o.status == OrderStatus::Filled
        &&& o.created_at == at
        &&& o.filled_at == Some(at)
        &&& new.orders@ == old.orders@.push(o)
    }

    /// What placing an order does, for an order id `id` and a time `at`:
    /// the cost is `named_cost` (the exact `order_cost` where nothing
    /// rounds); a buy the balance does not cover, a sale of a stock not held
    /// and a sale of more lots than held are refused and change nothing;
    /// otherwise the balance loses (buy) or gains (sale) the cost, the
    /// positions change as `bought` or `sold` says, and the order is recorded
    /// as filled.
    pub open spec fn placed(
        old: SimulatedBroker,
        new: SimulatedBroker,
        symbol: Seq<char>,
        side: OrderSide,
        lot: u32,
        price: Dec,
        id: u128,
        at: Timestamp,
        r: Result<Order, DomainError>,
    ) -> bool {
        let cost = named_cost(price, lot);
        &&& (cost_exact(price, lot) ==> cost == order_cost(price, lot))
        &&& match side {
            OrderSide::Buy => if dec_lt(old.balance, cost) {
                &&& r matches Err(DomainError::ExternalService(m))
                    && m@ == insufficient_balance_text(cost, old.balance)
                &&& Self::unchanged(old, new)
            } else {
                &&& new.balance == ddiff(old.balance, cost)
                &&& (sub_exact(old.balance, cost) ==> new.balance == spec_sub(old.balance, cost))
                &&& new.balance.mantissa >= 0
                &&& (holding_index(old.positions@, symbol) matches Some(k) ==> old.positions@[k].lot
                    + lot <= u32::MAX)
                &&& positions_view(new.positions@) == bought(old.positions@, symbol, lot, price)
                &&& Self::filled(old, new, symbol, side, lot, price, id, at, r)
            },
            OrderSide::Sell => match holding_index(old.positions@, symbol) {
                None => {
                    &&& r matches Err(DomainError::ExternalService(m)) && m@ == no_position_text(
                        symbol,
                    )
                    &&& Self::unchanged(old, new)
                },
                Some(k) => if old.positions@[k].lot < lot {
                    &&& r matches Err(DomainError::ExternalService(m))
                        && m@ == insufficient_lots_text(old.positions@[k].lot, lot)
                    &&& Self::unchanged(old, new)
                } else {
                    &&& new.balance == dsum(old.balance, cost)
                    &&& (add_exact(old.balance, cost) ==> new.balance == spec_add(old.balance, cost))
                    &&& (old.balance.mantissa >= 0 && price.mantissa >= 0
                        ==> new.balance.mantissa >= 0)
                    &&& positions_view(new.positions@) == sold(old.positions@, k, lot)
                    &&& Self::filled(old, new, symbol, side, lot, price, id, at, r)
                },
            },
        }
    }

    /// A broker holding `initial_balance` in cash and nothing else.
    pub fn new(initial_balance: Dec) -> (r: SimulatedBroker)
        requires
            initial_balance.wf(),
        ensures
            r.balance == initial_balance,
            r.positions@.len() == 0,
            r.orders@.len() == 0,
            r.inv(),
            initial_balance.mantissa >= 0 ==> r.sound(),
    {
        SimulatedBroker { balance: initial_balance, positions: Vec::new(), orders: Vec::new() }
    }

    /// Places and at once fills an order, with a fresh random id and the
    /// current time.
    pub fn place_order(&mut self, symbol: &str, side: OrderSide, lot: u32, price: Dec) -> (r: Result<
        Order,
        DomainError,
    >)
        requires
            old(self).inv(),
            price.wf(),
            old(self).fits(symbol@, side, lot, price),
        ensures
            final(self).inv(),
            lots_positive(old(self).positions@) && (side == OrderSide::Buy ==> lot >= 1)
                ==> lots_positive(final(self).positions@),
            old(self).sound() && (side == OrderSide::Buy ==> lot >= 1) && (side
                == OrderSide::Sell ==> price.mantissa >= 0) ==> final(self).sound(),
            match r {
                Ok(o) => Self::placed(
                    *old(self),
                    *final(self),
                    symbol@,
                    side,
                    lot,
                    price,
                    o.id,
                    o.created_at,
                    r,
                ),
                Err(_) => Self::placed(
                    *old(self),
                    *final(self),
                    symbol@,
                    side,
                    lot,
                    price,
                    0,
                    Timestamp { secs: 0, nanos: 0 },
                    r,
                ),
            },
    {
        let id = new_uuid();
        let at = now();
        self.place_order_at(symbol, side, lot, price, id, at)
    }

    /// Places an order where that overflows nothing (see `fits`); otherwise
    /// changes nothing and gives none (where `place_order` would panic).
    pub fn try_place_order(&mut self, symbol: &str, side: OrderSide, lot: u32, price: Dec) -> (r:
        Option<Result<Order, DomainError>>)
        requires
            old(self).inv(),
            price.wf(),
        ensures
            final(self).inv(),
            match r {
                None => !old(self).fits(symbol@, side, lot, price) && Self::unchanged(
                    *old(self),
                    *final(self),
                ),
                Some(res) => old(self).fits(symbol@, side, lot, price) && match res {
                    Ok(o) => Self::placed(
                        *old(self),
                        *final(self),
                        symbol@,
                        side,
                        lot,
                        price,
                        o.id,
                        o.created_at,
                        res,
                    ),
                    Err(_) => Self::placed(
                        *old(self),
                        *final(self),
                        symbol@,
                        side,
                        lot,
                        price,
                        0,
                        Timestamp { secs: 0, nanos: 0 },
                        res,
                    ),
                },
            },
    {
        if self.fits_now(symbol, side, lot, price) {
            Some(self.place_order(symbol, side, lot, price))
        } else {
            None
        }
    }

    /// Places an order with the given id and time where that overflows
    /// nothing; otherwise changes nothing and gives none.
    pub fn try_place_order_at(
        &mut self,
        symbol: &str,
        side: OrderSide,
        lot: u32,
        price: Dec,
        id: u128,
        at: Timestamp,
    ) -> (r: Option<Result<Order, DomainError>>)
        requires
            old(self).inv(),
            price.wf(),
        ensures
            final(self).inv(),
            match r {
                None => !old(self).fits(symbol@, side, lot, price) && Self::unchanged(
                    *old(self),
                    *final(self),
                ),
                Some(res) => old(self).fits(symbol@, side, lot, price) && Self::placed(
                    *old(self),
                    *final(self),
                    symbol@,
                    side,
                    lot,
                    price,
                    id,
                    at,
                    res,
                ),
            },
    {
        if self.fits_now(symbol, side, lot, price) {
            Some(self.place_order_at(symbol, side, lot, price, id, at))
        } else {
            None
        }
    }

    /// Whether placing the order overflows nothing, tried with the checked
    /// operations of `rust_decimal`.
    fn fits_now(&self, symbol: &str, side: OrderSide, lot: u32, price: Dec) -> (r: bool)
        requires
            self.inv(),
            price.wf(),
        ensures
            r == self.fits(symbol@, side, lot, price),
    {
        let by_lot = match price.checked_times(Dec::from_u32(lot)) {
            Some(v) => v,
            None => return false,
        };
        let cost = match by_lot.checked_times(Dec::from_u32(100)) {
            Some(v) => v,
            None => return false,
        };
        match side {
            OrderSide::Buy => {
                if self.balance.lt(cost) {
                    return true;
                }
                if self.balance.checked_minus(cost).is_none() {
                    return false;
                }
                match find_holding(&self.positions, symbol) {
                    None => {
                        proof {
                            lemma_no_holding_index(self.positions@, symbol@);
                        }
                        true
                    },
                    Some(k) => {
                        proof {
                            lemma_holding_index(self.positions@, symbol@, k as int);
                        }
                        let held = self.positions[k].lot;
                        let avg = self.positions[k].avg_price;
                        if held as u64 + lot as u64 > 4294967295u64 {
                            return false;
                        }
                        let t1 = match avg.checked_times(Dec::from_u32(held)) {
                            Some(v) => v,
                            None => return false,
                        };
                        let old_cost = match t1.checked_times(Dec::from_u32(100)) {
                            Some(v) => v,
                            None => return false,
                        };
                        let numerator = match old_cost.checked_plus(cost) {
                            Some(v) => v,
                            None => return false,
                        };
                        let new_lot = held + lot;
                        let divisor = Dec::new(new_lot as i128 * 100, 0);
                        proof {
                            assert(divisor == shares_dec(new_lot)) by (nonlinear_arith)
                                requires
                                    divisor.mantissa == new_lot * 100,
                                    divisor.scale == 0,
                            {
                            }
                        }
                        numerator.checked_divided_by(divisor).is_some()
                    },
                }
            },
            OrderSide::Sell => {
                match find_holding(&self.positions, symbol) {
                    None => {
                        proof {
                            lemma_no_holding_index(self.positions@, symbol@);
                        }
                        true
                    },
                    Some(k) => {
                        proof {
                            lemma_holding_index(self.positions@, symbol@, k as int);
                        }
                        if self.positions[k].lot < lot {
                            return true;
                        }
                        self.balance.checked_plus(cost).is_some()
                    },
                }
            },
        }
    }

    /// Places and at once fills an order, with the given id and time.
    pub fn place_order_at(
        &mut self,
        symbol: &str,
        side: OrderSide,
        lot: u32,
        price: Dec,
        id: u128,
        at: Timestamp,
    ) -> (r: Result<Order, DomainError>)
        requires
            old(self).inv(),
            price.wf(),
            old(self).fits(symbol@, side, lot, price),
        ensures
            final(self).inv(),
            lots_positive(old(self).positions@) && (side == OrderSide::Buy ==> lot >= 1)
                ==> lots_positive(final(self).positions@),
            old(self).sound() && (side == OrderSide::Buy ==> lot >= 1) && (side
                == OrderSide::Sell ==> price.mantissa >= 0) ==> final(self).sound(),
            Self::placed(*old(self), *final(self), symbol@, side, lot, price, id, at, r),
            r is Err ==> Self::placed(
                *old(self),
                *final(self),
                symbol@,
                side,
                lot,
                price,
                0,
                Timestamp { secs: 0, nanos: 0 },
                r,
            ),
    {
        let by_lot = price.times(Dec::from_u32(lot));
        let cost = by_lot.times(Dec::from_u32(100));
        let ghost old_ps = self.positions@;
        match side {
            OrderSide::Buy => {
                if self.balance.lt(cost) {
                    let mut m = String::from_str("Insufficient balance: need ");
                    m.append(cost.to_text().as_str());
                    m.append(" but have ");
                    m.append(self.balance.to_text().as_str());
                    return Err(DomainError::ExternalService(m));
                }
                self.balance = self.balance.minus(cost);
                match find_holding(&self.positions, symbol) {
                    Some(k) => {
                        proof {
                            lemma_holding_index(old_ps, symbol@, k as int);
                        }
                        let old_pos = self.positions[k].clone();
                        let t1 = old_pos.avg_price.times(Dec::from_u32(old_pos.lot));
                        let total_old = t1.times(Dec::from_u32(100));
                        let new_lot = old_pos.lot + lot;
                        let numerator = total_old.plus(cost);
                        proof {
                            lemma_exact_in_range(lot_dec(new_lot), hundred());
                        }
                        let divisor = Dec::from_u32(new_lot).times(Dec::from_u32(100));
                        let avg = numerator.divided_by(divisor);
                        let new_pos = Position {
                            symbol: old_pos.symbol,
                            lot: new_lot,
                            avg_price: avg,
                            current_price: price,
                        };
                        self.positions.set(k, new_pos);
                        proof {
                            assert(positions_view(self.positions@) =~= bought(
                                old_ps,
                                symbol@,
                                lot,
                                price,
                            ));
                            assert forall|i: int, j: int|
                                0 <= i < self.positions@.len() && 0 <= j < self.positions@.len()
                                    && i != j implies (#[trigger] self.positions@[i]).symbol@ != (
                            #[trigger] self.positions@[j]).symbol@ by {
                                assert(old_ps[i].symbol@ != old_ps[j].symbol@);
                            }
                        }
                    },
                    None => {
                        proof {
                            lemma_no_holding_index(old_ps, symbol@);
                        }
                        let new_pos = Position {
                            symbol: String::from_str(symbol),
                            lot,
                            avg_price: price,
                            current_price: price,
                        };
                        self.positions.push(new_pos);
                        proof {
                            assert(positions_view(self.positions@) =~= bought(
                                old_ps,
                                symbol@,
                                lot,
                                price,
                            ));
                            assert forall|i: int, j: int|
                                0 <= i < self.positions@.len() && 0 <= j < self.positions@.len()
                                    && i != j implies (#[trigger] self.positions@[i]).symbol@ != (
                            #[trigger] self.positions@[j]).symbol@ by {
                                if i < old_ps.len() && j < old_ps.len() {
                                    assert(old_ps[i].symbol@ != old_ps[j].symbol@);
                                }
                            }
                        }
                    },
                }
            },
            OrderSide::Sell => {
                match find_holding(&self.positions, symbol) {
                    None => {
                        proof {
                            lemma_no_holding_index(old_ps, symbol@);
                        }
                        let mut m = String::from_str("No position in ");
                        m.append(symbol);
                        m.append(" to sell");
                        return Err(DomainError::ExternalService(m));
                    },
                    Some(k) => {
                        proof {
                            lemma_holding_index(old_ps, symbol@, k as int);
                        }
                        let held = self.positions[k].lot;
                        if held < lot {
                            let mut m = String::from_str("Insufficient lots: have ");
                            m.append(u64_text(held as u64).as_str());
                            m.append(" but want to sell ");
                            m.append(u64_text(lot as u64).as_str());
                            return Err(DomainError::ExternalService(m));
                        }
                        self.balance = self.balance.plus(cost);
                        if held == lot {
                            self.positions.remove(k);
                            proof {
                                assert(positions_view(self.positions@) =~= sold(old_ps, k as int, lot));
                                assert forall|i: int, j: int|
                                    0 <= i < self.positions@.len() && 0 <= j
                                        < self.positions@.len() && i != j implies (
                                #[trigger] self.positions@[i]).symbol@ != (
                                #[trigger] self.positions@[j]).symbol@ by {
                                    let oi = if i < k { i } else { i + 1 };
                                    let oj = if j < k { j } else { j + 1 };
                                    assert(self.positions@[i] == old_ps[oi]);
                                    assert(self.positions@[j] == old_ps[oj]);
                                    assert(old_ps[oi].symbol@ != old_ps[oj].symbol@);
                                }
                            }
                        } else {
                            let old_pos = self.positions[k].clone();
                            let new_pos = Position {
                                symbol: old_pos.symbol,
                                lot: held - lot,
                                avg_price: old_pos.avg_price,
                                current_price: old_pos.current_price,
                            };
                            self.positions.set(k, new_pos);
                            proof {
                                assert(positions_view(self.positions@) =~= sold(old_ps, k as int, lot));
                                assert forall|i: int, j: int|
                                    0 <= i < self.positions@.len() && 0 <= j
                                        < self.positions@.len() && i != j implies (
                                #[trigger] self.positions@[i]).symbol@ != (
                                #[trigger] self.positions@[j]).symbol@ by {
                                    assert(old_ps[i].symbol@ != old_ps[j].symbol@);
                                }
                            }
                        }
                    },
                }
            },
        }
        let order = Order {
            id,
            symbol: String::from_str(symbol),
            side,
            lot,
            price,
            status: OrderStatus::Filled,
            created_at: at,
            filled_at: Some(at),
        };
        self.orders.push(order.clone());
        Ok(order)
    }

    /// Cancelling is a no-op: every order is filled at once.
    pub fn cancel_order(&self, order_id: &str) -> (r: Result<(), DomainError>)
        ensures
            r is Ok,
    {
        Ok(())
    }

    /// The recorded order with the id that `order_id` spells.
    pub fn get_order(&self, order_id: &str) -> (r: Result<Order, DomainError>)
        ensures
            match uuid_parse(order_id@) {
                None => r matches Err(DomainError::ExternalService(m)) && m@ == "Invalid order ID"@,
                Some(id) => match first_order_with_id(self.orders@, id) {
                    None => r matches Err(DomainError::ExternalService(m)) && m@
                        == "Order not found"@,
                    Some(i) => r == Ok::<Order, DomainError>(self.orders@[i]),
                },
            },
    {
        let id = match parse_uuid(order_id) {
            Some(id) => id,
            None => {
                return Err(DomainError::ExternalService(String::from_str("Invalid order ID")));
            },
        };
        let mut i: usize = 0;
        while i < self.orders.len()
            invariant
                i <= self.orders.len(),
                uuid_parse(order_id@) == Some(id),
                forall|j: int| 0 <= j < i ==> (#[trigger] self.orders@[j]).id != id,
            decreases self.orders.len() - i,
        {
            if self.orders[i].id == id {
                proof {
                    assert(is_first_order(self.orders@, id, i as int));
                    assert(self.orders@[i as int].id == id);
                    let c = choose|c: int| is_first_order(self.orders@, id, c);
                    if c < i {
                        assert(self.orders@[c].id != id);
                    } else if i < c {
                        assert(self.orders@[i as int].id != id);
                    }
                    assert(c == i);
                    assert(first_order_with_id(self.orders@, id) == Some(i as int));
                }
                let o = self.orders[i].clone();
                return Ok(o);
            }
            i = i + 1;
        }
        Err(DomainError::ExternalService(String::from_str("Order not found")))
    }

    /// The recorded orders still pending, in the order they were placed:
    /// none, as every order is filled when placed.
    pub fn get_open_orders(&self) -> (r: Result<Vec<Order>, DomainError>)
        ensures
            r matches Ok(v) && v@ == pending_orders(self.orders@),
            self.inv() ==> (r matches Ok(v) && v@.len() == 0),
    {
        proof {
            if self.inv() {
                lemma_filled_none_pending(self.orders@);
            }
        }
        let ghost os = self.orders@;
        let mut out: Vec<Order> = Vec::new();
        let mut i: usize = 0;
        assert(os.take(0) =~= Seq::<Order>::empty());
        while i < self.orders.len()
            invariant
                os == self.orders@,
                i <= os.len(),
                out@ == pending_orders(os.take(i as int)),
            decreases os.len() - i,
        {
            assert(os.take(i + 1).drop_last() =~= os.take(i as int));
            if self.orders[i].status == OrderStatus::Pending {
                out.push(self.orders[i].clone());
            }
            i = i + 1;
        }
        assert(os.take(os.len() as int) =~= os);
        Ok(out)
    }

    /// The cash balance and positions; equity and allocated cash are zero.
    pub fn get_portfolio(&self) -> (r: Result<Portfolio, DomainError>)
        ensures
            r matches Ok(p) && p.balance == self.balance && p.equity == Dec::spec_zero()
                && p.allocated == Dec::spec_zero() && p.positions@ == self.positions@,
    {
        let positions = clone_positions(&self.positions);
        Ok(Portfolio { balance: self.balance, equity: Dec::zero(), allocated: Dec::zero(), positions })
    }
}

/// `i` is the first order with id `id`.
pub open spec fn is_first_order(os: Seq<Order>, id: u128, i: int) -> bool {
    &&& 0 <= i < os.len()
    &&& os[i].id == id
    &&& forall|j: int| 0 <= j < i ==> (#[trigger] os[j]).id != id
}

/// The index of the first order with id `id`, if any.
pub open spec fn first_order_with_id(os: Seq<Order>, id: u128) -> Option<int> {
    if exists|i: int| 0 <= i < os.len() && (#[trigger] os[i]).id == id {
        Some(choose|i: int| is_first_order(os, id, i))
    } else {
        None
    }
}

/// The pending orders of `os`, in order.
pub open spec fn pending_orders(os: Seq<Order>) -> Seq<Order>
    decreases os.len(),
{
    if os.len() == 0 {
        Seq::empty()
    } else if os.last().status == OrderStatus::Pending {
        pending_orders(os.drop_last()).push(os.last())
    } else {
        pending_orders(os.drop_last())
    }
}

proof fn lemma_filled_none_pending(os: Seq<Order>)
    requires
        forall|i: int| 0 <= i < os.len() ==> (#[trigger] os[i]).status == OrderStatus::Filled,
    ensures
        pending_orders(os).len() == 0,
    decreases os.len(),
{
    if os.len() > 0 {
        assert(os.last().status == OrderStatus::Filled);
        let d = os.drop_last();
        assert forall|i: int| 0 <= i < d.len() implies (#[trigger] d[i]).status == OrderStatus::Filled by {
            assert(d[i] == os[i]);
        }
        lemma_filled_none_pending(d);
    }
}

/// A copy of a list of positions.
pub fn clone_positions(v: &Vec<Position>) -> (r: Vec<Position>)
    ensures
        r@ == v@,
{
    let mut r: Vec<Position> = Vec::new();
    let mut i: usize = 0;
    while i < v.len()
        invariant
            i <= v.len(),
            r@ == v@.take(i as int),
        decreases v.len() - i,
    {
        r.push(v[i].clone());
        assert(v@.take(i + 1) =~= v@.take(i as int).push(v@[i as int]));
        i = i + 1;
    }
    assert(v@.take(v.len() as int) =~= v@);
    r
}

/// The cash balance never goes below zero: a filled buy leaves it
/// non-negative, and a sale at a non-negative price keeps a non-negative
/// balance so; a refused order changes nothing.
pub proof fn law_balance_stays_nonnegative(
    old: SimulatedBroker,
    new: SimulatedBroker,
    symbol: Seq<char>,
    side: OrderSide,
    lot: u32,
    price: Dec,
    id: u128,
    at: Timestamp,
    r: Result<Order, DomainError>,
)
    requires
        SimulatedBroker::placed(old, new, symbol, side, lot, price, id, at, r),
        old.balance.mantissa >= 0,
        side == OrderSide::Sell ==> price.mantissa >= 0,
    ensures
        new.balance.mantissa >= 0,
{
}

/// Buying lots of a stock and then selling the same lots at the same price
/// succeeds and, where no amount needs rounding, gives back the cash (in
/// value); where the stock was not held before, the positions are as before
/// too.
pub proof fn law_buy_then_sell_round_trip(
    s0: SimulatedBroker,
    s1: SimulatedBroker,
    s2: SimulatedBroker,
    symbol: Seq<char>,
    lot: u32,
    price: Dec,
    id1: u128,
    at1: Timestamp,
    r1: Result<Order, DomainError>,
    id2: u128,
    at2: Timestamp,
    r2: Result<Order, DomainError>,
)
    requires
        s0.inv(),
        s1.inv(),
        price.wf(),
        cost_exact(price, lot),
        sub_exact(s0.balance, order_cost(price, lot)),
        add_exact(spec_sub(s0.balance, order_cost(price, lot)), order_cost(price, lot)),
        SimulatedBroker::placed(s0, s1, symbol, OrderSide::Buy, lot, price, id1, at1, r1),
        r1 is Ok,
        SimulatedBroker::placed(s1, s2, symbol, OrderSide::Sell, lot, price, id2, at2, r2),
    ensures
        r2 is Ok,
        dec_eq(s2.balance, s0.balance),
        holding_index(s0.positions@, symbol) is None ==> positions_view(s2.positions@)
            == positions_view(s0.positions@),
{
    let cost = order_cost(price, lot);
    lemma_exact_wf(price, lot_dec(lot));
    lemma_exact_wf(spec_mul(price, lot_dec(lot)), hundred());
    let p0 = s0.positions@;
    let p1 = s1.positions@;
    let v1 = positions_view(p1);
    assert(v1.len() == p1.len());
    assert forall|j: int| 0 <= j < p1.len() implies (#[trigger] p1[j]).symbol@ == v1[j].0 by {}
    match holding_index(p0, symbol) {
        Some(k) => {
            lemma_holding_index_some(p0, symbol);
            assert(is_first_holding(p0, symbol, k));
            assert(v1[k].0 == symbol);
            assert forall|j: int| 0 <= j < k implies (#[trigger] p1[j]).symbol@ != symbol by {
                assert(v1[j] == position_view(p0[j]));
                assert(p0[j].symbol@ != symbol);
            }
            assert(is_first_holding(p1, symbol, k));
            lemma_holding_index(p1, symbol, k);
            assert(v1[k].1 == (p0[k].lot + lot) as u32);
        },
        None => {
            let n = p0.len() as int;
            assert(v1.len() == n + 1);
            assert forall|j: int| 0 <= j < n implies (#[trigger] p1[j]).symbol@ != symbol by {
                assert(v1[j] == position_view(p0[j]));
                if p0[j].symbol@ == symbol {
                    assert(exists|i: int| 0 <= i < p0.len() && (#[trigger] p0[i]).symbol@ == symbol);
                }
            }
            assert(p1[n].symbol@ == symbol);
            assert(is_first_holding(p1, symbol, n));
            lemma_holding_index(p1, symbol, n);
            assert(p1[n].lot == lot);
            assert(positions_view(s2.positions@) =~= positions_view(p0));
        },
    }
    assert(named_cost(price, lot) == cost);
    assert(s1.balance == spec_sub(s0.balance, cost));
    assert(s2.balance == spec_add(s1.balance, cost));
    lemma_sub_add_cancel(s0.balance, cost);
}

} // verus!
