//! The decisions of the Stockbit broker adapter: the authorization header,
//! reading orders, positions and refreshed tokens out of the broker's
//! answers, and the token refresh schedule.
use vstd::prelude::*;

use crate::clock::{new_uuid, now, parse_uuid, uuid_parse};
use crate::decimal::Dec;
use crate::domain::{DomainError, Order, OrderSide, OrderStatus, Position, Timestamp};
use crate::json::{
    as_i64, as_str, deref_opt, json_value_of_bytes, number_text, number_to_text, parse_json_bytes,
    spec_as_i64, spec_field, spec_str, JsonValue,
};
use crate::text::{
    chars_of, contains, contains_text, find_char, first_index_of, lemma_first_index_bounds,
    lowered_text, occurs_at, same_text, starts_with, string_of, to_lower,
};

verus! {

/// The `Authorization` header for a token: the token itself where it already
/// starts with `Bearer `, else `Bearer ` before it.
pub open spec fn auth_header_text(token: Seq<char>) -> Seq<char> {
    if occurs_at(token, "Bearer "@, 0) {
        token
    } else {
        "Bearer "@ + token
    }
}

/// The `Authorization` header for a token.
pub fn auth_header(token: &str) -> (r: String)
    ensures
        r@ == auth_header_text(token@),
{
    if starts_with(token, "Bearer ") {
        String::from_str(token)
    } else {
        let mut s = String::from_str("Bearer ");
        s.append(token);
        s
    }
}

/// The order status a Stockbit status text stands for, compared in lower
/// case; unknown texts count as pending.
pub open spec fn spec_map_sb_status(status: Seq<char>) -> OrderStatus {
    let l = lowered_text(status);
    if l == "open"@ || l == "pending"@ || l == "active"@ {
        OrderStatus::Pending
    } else if l == "match"@ || l == "filled"@ || l == "done"@ {
        OrderStatus::Filled
    } else if l == "partial"@ || l == "partially_filled"@ {
        OrderStatus::PartiallyFilled
    } else if l == "withdraw"@ || l == "cancelled"@ || l == "canceled"@ || l == "expired"@ {
        OrderStatus::Cancelled
    } else if l == "reject"@ || l == "rejected"@ {
        OrderStatus::Rejected
    } else {
        OrderStatus::Pending
    }
}

/// One of the status words Stockbit uses.
pub open spec fn known_status_word(l: Seq<char>) -> bool {
    l == "open"@ || l == "pending"@ || l == "active"@ || l == "match"@ || l == "filled"@ || l
        == "done"@ || l == "partial"@ || l == "partially_filled"@ || l == "withdraw"@ || l
        == "cancelled"@ || l == "canceled"@ || l == "expired"@ || l == "reject"@ || l
        == "rejected"@
}

/// Stockbit's status words, in any letter case, stand for these statuses:
/// `open`, `pending`, `active` for a pending order; `match`, `filled`,
/// `done` for a filled one; `partial`, `partially_filled` for a partly
/// filled one; `withdraw`, `cancelled`, `canceled`, `expired` for a
/// cancelled one; `reject`, `rejected` for a rejected one (which is so never
/// an open order); any other text counts as pending.
pub proof fn law_stockbit_status_words(status: Seq<char>)
    ensures
        lowered_text(status) == "open"@ || lowered_text(status) == "pending"@ || lowered_text(status)
            == "active"@ ==> spec_map_sb_status(status) == OrderStatus::Pending,
        lowered_text(status) == "match"@ || lowered_text(status) == "filled"@ || lowered_text(status)
            == "done"@ ==> spec_map_sb_status(status) == OrderStatus::Filled,
        lowered_text(status) == "partial"@ || lowered_text(status) == "partially_filled"@
            ==> spec_map_sb_status(status) == OrderStatus::PartiallyFilled,
        lowered_text(status) == "withdraw"@ || lowered_text(status) == "cancelled"@ || lowered_text(
            status,
        ) == "canceled"@ || lowered_text(status) == "expired"@ ==> spec_map_sb_status(status)
            == OrderStatus::Cancelled,
        lowered_text(status) == "reject"@ || lowered_text(status) == "rejected"@ ==> spec_map_sb_status(
            status,
        ) == OrderStatus::Rejected,
        lowered_text(status) == "reject"@ || lowered_text(status) == "rejected"@ ==> spec_map_sb_status(
            status,
        ) != OrderStatus::Pending,
        !known_status_word(lowered_text(status)) ==> spec_map_sb_status(status)
            == OrderStatus::Pending,
{
    reveal_strlit("open");
    reveal_strlit("pending");
    reveal_strlit("active");
    reveal_strlit("match");
    reveal_strlit("filled");
    reveal_strlit("done");
    reveal_strlit("partial");
    reveal_strlit("partially_filled");
    reveal_strlit("withdraw");
    reveal_strlit("cancelled");
    reveal_strlit("canceled");
    reveal_strlit("expired");
    reveal_strlit("reject");
    reveal_strlit("rejected");
    let l = lowered_text(status);
    assert("open"@[0] == 'o' && "pending"@[0] == 'p' && "pending"@[1] == 'e' && "active"@[0] == 'a');
    assert("match"@[0] == 'm' && "filled"@[0] == 'f' && "done"@[0] == 'd');
    assert("partial"@[0] == 'p' && "partial"@[1] == 'a' && "partially_filled"@[1] == 'a');
    assert("withdraw"@[0] == 'w' && "cancelled"@[0] == 'c' && "canceled"@[0] == 'c');
    assert("expired"@[0] == 'e' && "reject"@[0] == 'r' && "rejected"@[0] == 'r');
    if l.len() > 1 {
        assert(l[0] == l[0] && l[1] == l[1]);
    }
}

/// Maps a Stockbit status text to an order status.
pub fn map_sb_status(status: &str) -> (r: OrderStatus)
    ensures
        r == spec_map_sb_status(status@),
{
    let l = to_lower(status);
    let l = l.as_str();
    if same_text(l, "open") || same_text(l, "pending") || same_text(l, "active") {
        OrderStatus::Pending
    } else if same_text(l, "match") || same_text(l, "filled") || same_text(l, "done") {
        OrderStatus::Filled
    } else if same_text(l, "partial") || same_text(l, "partially_filled") {
        OrderStatus::PartiallyFilled
    } else if same_text(l, "withdraw") || same_text(l, "cancelled") || same_text(l, "canceled")
        || same_text(l, "expired") {
        OrderStatus::Cancelled
    } else if same_text(l, "reject") || same_text(l, "rejected") {
        OrderStatus::Rejected
    } else {
        OrderStatus::Pending
    }
}

/// An order as Stockbit describes it. The lot count and the price are
/// already worked out from the broker's floating-point numbers.
#[derive(Debug)]
pub struct SbOrderDetail {
    pub order_id: Option<String>,
    pub symbol: Option<String>,
    pub code: Option<String>,
    pub side: Option<String>,
    pub order_side: Option<String>,
    pub price: Dec,
    pub lot: u32,
    pub status: Option<String>,
    pub status_text: Option<String>,
}

/// The first text present, or the empty text.
pub open spec fn first_text(a: Option<String>, b: Option<String>) -> Seq<char> {
    match a {
        Some(x) => x@,
        None => match b {
            Some(y) => y@,
            None => Seq::empty(),
        },
    }
}

fn first_of(a: &Option<String>, b: &Option<String>) -> (r: String)
    ensures
        r@ == first_text(*a, *b),
{
    match a {
        Some(x) => x.clone(),
        None => match b {
            Some(y) => y.clone(),
            None => String::new(),
        },
    }
}

/// A side text names selling when, in lower case, it contains `sell`.
pub open spec fn side_of(text: Seq<char>) -> OrderSide {
    if contains_text(lowered_text(text), "sell"@) {
        OrderSide::Sell
    } else {
        OrderSide::Buy
    }
}

/// A side text names selling exactly where `sell` occurs anywhere in its
/// lower case (`SELL`, `ORDER_SIDE_SELL`, `limit_sell`); every other side
/// text is a buy.
pub proof fn law_side_words(text: Seq<char>, i: int)
    ensures
        occurs_at(lowered_text(text), "sell"@, i) ==> side_of(text) == OrderSide::Sell,
        (forall|j: int| !occurs_at(lowered_text(text), "sell"@, j)) ==> side_of(text)
            == OrderSide::Buy,
{
}

/// `o` is the order a detail describes, with a fresh id `fresh` (used where
/// the detail has no id that reads as a UUID) and the time `at`.
pub open spec fn order_from(o: Order, d: SbOrderDetail, fresh: u128, at: Timestamp) -> bool {
    let status = spec_map_sb_status(first_text(d.status, d.status_text));
    &&& o.symbol@ == first_text(d.symbol, d.code)
    &&& o.side == side_of(first_text(d.side, d.order_side))
    &&& o.lot == d.lot
    &&& o.price == d.price
    &&& o.status == status
    &&& o.id == match d.order_id {
        Some(t) => match uuid_parse(t@) {
            Some(u) => u,
            None => fresh,
        },
        None => fresh,
    }
    &&& o.created_at == at
    &&& o.filled_at == (if status == OrderStatus::Filled {
        Some(at)
    } else {
        None
    })
}

/// An order read from a detail is a sale exactly where its side text (`side`,
/// else `order_side`) holds `sell` in any letter case, and a buy otherwise.
pub proof fn law_order_side(o: Order, d: SbOrderDetail, fresh: u128, at: Timestamp, i: int)
    requires
        order_from(o, d, fresh, at),
    ensures
        occurs_at(lowered_text(first_text(d.side, d.order_side)), "sell"@, i) ==> o.side
            == OrderSide::Sell,
        (forall|j: int| !occurs_at(lowered_text(first_text(d.side, d.order_side)), "sell"@, j))
            ==> o.side == OrderSide::Buy,
{
}

/// An order read from a detail keeps the detail's lots and price; its
/// symbol is `symbol`, else `code`; its status is what the status words of
/// `status`, else `status_text`, stand for; it is created at the given time
/// and carries that time as its fill time exactly where it is filled; its id
/// is the detail's where that reads as a UUID.
pub proof fn law_order_fields(o: Order, d: SbOrderDetail, fresh: u128, at: Timestamp)
    requires
        order_from(o, d, fresh, at),
    ensures
        o.lot == d.lot,
        o.price == d.price,
        d.symbol matches Some(t) ==> o.symbol@ == t@,
        d.code matches Some(t) ==> (d.symbol is None ==> o.symbol@ == t@),
        d.status matches Some(t) ==> o.status == spec_map_sb_status(t@),
        d.status_text matches Some(t) ==> (d.status is None ==> o.status == spec_map_sb_status(t@)),
        o.created_at == at,
        o.filled_at is Some <==> o.status == OrderStatus::Filled,
        o.filled_at matches Some(t) ==> t == at,
        d.order_id matches Some(t) ==> (uuid_parse(t@) matches Some(u) ==> o.id == u),
{
}

/// The open orders among some details are exactly the pending ones: every
/// one kept has a status that reads as pending (a rejected, filled or
/// cancelled order is never kept), and every detail whose status reads as
/// pending is kept.
pub proof fn law_open_orders_are_the_pending_ones(ds: Seq<SbOrderDetail>)
    ensures
        pending_details(ds).len() <= ds.len(),
        forall|k: int|
            0 <= k < pending_details(ds).len() ==> spec_map_sb_status(
                first_text(#[trigger] pending_details(ds)[k].status, pending_details(ds)[k].status_text),
            ) == OrderStatus::Pending,
        forall|i: int|
            0 <= i < ds.len() && spec_map_sb_status(first_text(#[trigger] ds[i].status, ds[i].status_text))
                == OrderStatus::Pending ==> pending_details(ds).contains(ds[i]),
    decreases ds.len(),
{
    if ds.len() > 0 {
        let init = ds.drop_last();
        law_open_orders_are_the_pending_ones(init);
        let p = pending_details(init);
        assert forall|i: int|
            0 <= i < ds.len() && spec_map_sb_status(first_text(#[trigger] ds[i].status, ds[i].status_text))
                == OrderStatus::Pending implies pending_details(ds).contains(ds[i]) by {
            if i < ds.len() - 1 {
                assert(ds[i] == init[i]);
                let k = choose|k: int| 0 <= k < p.len() && p[k] == init[i];
                if spec_map_sb_status(first_text(ds.last().status, ds.last().status_text))
                    == OrderStatus::Pending {
                    assert(pending_details(ds) == p.push(ds.last()));
                    assert(pending_details(ds)[k] == ds[i]);
                } else {
                    assert(pending_details(ds) == p);
                }
            } else {
                assert(pending_details(ds) == p.push(ds.last()));
                assert(pending_details(ds)[p.len() as int] == ds[i]);
            }
        }
    }
}

/// The order a detail describes, with the given fresh id and time.
pub fn parse_order_at(d: &SbOrderDetail, fresh: u128, at: Timestamp) -> (r: Order)
    ensures
        order_from(r, *d, fresh, at),
{
    let symbol = first_of(&d.symbol, &d.code);
    let side_text = first_of(&d.side, &d.order_side);
    let lowered = to_lower(side_text.as_str());
    let side = if contains(lowered.as_str(), "sell") {
        OrderSide::Sell
    } else {
        OrderSide::Buy
    };
    let status_text = first_of(&d.status, &d.status_text);
    let status = map_sb_status(status_text.as_str());
    let id = match &d.order_id {
        Some(t) => match parse_uuid(t.as_str()) {
            Some(u) => u,
            None => fresh,
        },
        None => fresh,
    };
    Order {
        id,
        symbol,
        side,
        lot: d.lot,
        price: d.price,
        status,
        created_at: at,
        filled_at: if status == OrderStatus::Filled {
            Some(at)
        } else {
            None
        },
    }
}

/// The order a detail describes, with a fresh random id and the current
/// time.
pub fn parse_order(d: &SbOrderDetail) -> (r: Order)
    ensures
        exists|fresh: u128| #[trigger] order_from(r, *d, fresh, r.created_at),
{
    parse_order_at(d, new_uuid(), now())
}

/// The details whose status reads as pending, in order.
pub open spec fn pending_details(ds: Seq<SbOrderDetail>) -> Seq<SbOrderDetail>
    decreases ds.len(),
{
    if ds.len() == 0 {
        Seq::empty()
    } else if spec_map_sb_status(first_text(ds.last().status, ds.last().status_text))
        == OrderStatus::Pending {
        pending_details(ds.drop_last()).push(ds.last())
    } else {
        pending_details(ds.drop_last())
    }
}

/// The open orders among the details: each read as an order, the pending
/// ones kept in order.
pub fn open_orders_from(details: &Vec<SbOrderDetail>) -> (r: Vec<Order>)
    ensures
        r@.len() == pending_details(details@).len(),
        forall|k: int|
            #![trigger r@[k]]
            0 <= k < r@.len() ==> exists|fresh: u128|
                #[trigger] order_from(r@[k], pending_details(details@)[k], fresh, r@[k].created_at),
{
    let ghost ds = details@;
    let mut out: Vec<Order> = Vec::new();
    let mut i: usize = 0;
    assert(ds.take(0) =~= Seq::<SbOrderDetail>::empty());
    while i < details.len()
        invariant
            ds == details@,
            i <= ds.len(),
            out@.len() == pending_details(ds.take(i as int)).len(),
            forall|k: int|
                #![trigger out@[k]]
                0 <= k < out@.len() ==> exists|fresh: u128|
                    #[trigger] order_from(
                        out@[k],
                        pending_details(ds.take(i as int))[k],
                        fresh,
                        out@[k].created_at,
                    ),
        decreases ds.len() - i,
    {
        assert(ds.take(i + 1).drop_last() =~= ds.take(i as int));
        assert(ds.take(i + 1).last() == ds[i as int]);
        let o = parse_order(&details[i]);
        let ghost f = choose|f: u128| #[trigger] order_from(o, ds[i as int], f, o.created_at);
        assert(order_from(o, ds[i as int], f, o.created_at));
        if o.status == OrderStatus::Pending {
            let ghost before = out@;
            assert(pending_details(ds.take(i + 1)) == pending_details(ds.take(i as int)).push(ds[i as int]));
            out.push(o);
            assert forall|k: int| #![trigger out@[k]] 0 <= k < out@.len() implies exists|fresh: u128|
                #[trigger] order_from(
                    out@[k],
                    pending_details(ds.take(i + 1))[k],
                    fresh,
                    out@[k].created_at,
                ) by {
                if k < before.len() {
                    assert(out@[k] == before[k]);
                    let w = choose|w: u128| #[trigger] order_from(before[k], pending_details(ds.take(i as int))[k], w, before[k].created_at);
                    assert(order_from(out@[k], pending_details(ds.take(i + 1))[k], w, out@[k].created_at));
                } else {
                    assert(order_from(out@[k], pending_details(ds.take(i + 1))[k], f, out@[k].created_at));
                }
            }
        } else {
            assert(pending_details(ds.take(i + 1)) == pending_details(ds.take(i as int)));
        }
        i = i + 1;
    }
    assert(ds.take(ds.len() as int) =~= ds);
    out
}

/// The member holding the order list in an order-list answer's `data`: the
/// data itself when it is an array, else its `orders` or its `list`.
pub open spec fn order_list_of(data: Option<JsonValue>) -> Option<Seq<JsonValue>> {
    match data {
        Some(JsonValue::Array(items)) => Some(items@),
        Some(d) => match spec_field(d, "orders"@) {
            Some(JsonValue::Array(items)) => Some(items@),
            _ => match spec_field(d, "list"@) {
                Some(JsonValue::Array(items)) => Some(items@),
                _ => None,
            },
        },
        None => None,
    }
}

/// Finds the order list in an order-list answer's `data`.
pub fn find_order_list(data: Option<&JsonValue>) -> (r: Option<&Vec<JsonValue>>)
    ensures
        match r {
            Some(v) => order_list_of(deref_opt(data)) == Some(v@),
            None => order_list_of(deref_opt(data)) is None,
        },
{
    match data {
        Some(JsonValue::Array(items)) => Some(items),
        Some(d) => match d.field("orders") {
            Some(JsonValue::Array(items)) => Some(items),
            _ => match d.field("list") {
                Some(JsonValue::Array(items)) => Some(items),
                _ => None,
            },
        },
        None => None,
    }
}

/// The stock list in a portfolio answer's `data`: its `results` when an
/// array, else its `stocks` when an array.
pub open spec fn stock_list_of(data: Option<JsonValue>) -> Option<Seq<JsonValue>> {
    match data {
        Some(d) => match spec_field(d, "results"@) {
            Some(JsonValue::Array(items)) => Some(items@),
            _ => match spec_field(d, "stocks"@) {
                Some(JsonValue::Array(items)) => Some(items@),
                _ => None,
            },
        },
        None => None,
    }
}

/// Finds the stock list in a portfolio answer's `data`.
pub fn find_stock_list(data: Option<&JsonValue>) -> (r: Option<&Vec<JsonValue>>)
    ensures
        match r {
            Some(v) => stock_list_of(deref_opt(data)) == Some(v@),
            None => stock_list_of(deref_opt(data)) is None,
        },
{
    match data {
        Some(d) => match d.field("results") {
            Some(JsonValue::Array(items)) => Some(items),
            _ => match d.field("stocks") {
                Some(JsonValue::Array(items)) => Some(items),
                _ => None,
            },
        },
        None => None,
    }
}

/// One held stock as Stockbit lists it: its `symbol` (or else `code`) text,
/// and its lot count, average and current price already worked out from
/// the broker's floating-point numbers.
#[derive(Debug)]
pub struct SbStockRow {
    pub symbol: Option<String>,
    pub lot: u32,
    pub avg_price: Dec,
    pub current_price: Dec,
}

/// The member `key` of an optional value (nothing where there is none).
pub open spec fn sub_field(v: Option<JsonValue>, key: Seq<char>) -> Option<JsonValue> {
    match v {
        Some(x) => spec_field(x, key),
        None => None,
    }
}

/// The text of a value that is a number (`as_f64` gives a number for every
/// JSON number and for nothing else).
pub open spec fn number_in(v: Option<JsonValue>) -> Option<Seq<char>> {
    match v {
        Some(JsonValue::Number(n)) => Some(number_text(n)),
        _ => None,
    }
}

/// The first of two choices that is present.
pub open spec fn preferred(a: Option<Seq<char>>, b: Option<Seq<char>>) -> Option<Seq<char>> {
    if a is Some {
        a
    } else {
        b
    }
}

/// The view of an optional text.
pub open spec fn opt_text(o: Option<String>) -> Option<Seq<char>> {
    match o {
        Some(s) => Some(s@),
        None => None,
    }
}

/// The fields a holding row gives, numbers as their JSON text: the v2 API
/// nests values, and flat fields are read where the nested ones are
/// missing.
#[derive(Debug)]
pub struct SbStockFields {
    /// `symbol`, else `code`.
    pub symbol: Option<String>,
    /// `qty.balance.lot`, else `lot`.
    pub lot: Option<String>,
    /// `shares`, for a row that gives no lot count.
    pub shares: Option<String>,
    /// `price.average.price`, else `avg_price`, else `average_price`.
    pub avg_price: Option<String>,
    /// `last_price`, else `current_price`, else `close`.
    pub current_price: Option<String>,
}

/// `r` holds the fields that holding row `row` gives, in the order of
/// preference above.
pub open spec fn stock_fields_of(r: SbStockFields, row: JsonValue) -> bool {
    let f = |k: Seq<char>| spec_field(row, k);
    &&& opt_text(r.symbol) == preferred(spec_str(f("symbol"@)), spec_str(f("code"@)))
    &&& opt_text(r.lot) == preferred(
        number_in(sub_field(sub_field(f("qty"@), "balance"@), "lot"@)),
        number_in(f("lot"@)),
    )
    &&& opt_text(r.shares) == number_in(f("shares"@))
    &&& opt_text(r.avg_price) == preferred(
        number_in(sub_field(sub_field(f("price"@), "average"@), "price"@)),
        preferred(number_in(f("avg_price"@)), number_in(f("average_price"@))),
    )
    &&& opt_text(r.current_price) == preferred(
        number_in(f("last_price"@)),
        preferred(number_in(f("current_price"@)), number_in(f("close"@))),
    )
}

/// The fields a holding row gives, by preference: the symbol from `symbol`,
/// else `code`; the lots from `qty.balance.lot`, else `lot`; the average
/// price from `price.average.price`, else `avg_price`, else
/// `average_price`; the current price from `last_price`, else
/// `current_price`, else `close`; each taken where it is of the right kind
/// (a string, a number), whatever the later fields hold; a field none of
/// whose sources is of that kind is absent.
pub proof fn law_holding_row_preferences(r: SbStockFields, row: JsonValue)
    requires
        stock_fields_of(r, row),
    ensures
        spec_field(row, "symbol"@) matches Some(JsonValue::Str(t)) ==> opt_text(r.symbol) == Some(
            t@,
        ),
        spec_field(row, "code"@) matches Some(JsonValue::Str(t)) ==> (!(spec_field(
            row,
            "symbol"@,
        ) matches Some(JsonValue::Str(_))) ==> opt_text(r.symbol) == Some(t@)),
        sub_field(sub_field(spec_field(row, "qty"@), "balance"@), "lot"@) matches Some(
            JsonValue::Number(n),
        ) ==> opt_text(r.lot) == Some(number_text(n)),
        spec_field(row, "lot"@) matches Some(JsonValue::Number(n)) ==> (!(sub_field(
            sub_field(spec_field(row, "qty"@), "balance"@),
            "lot"@,
        ) matches Some(JsonValue::Number(_))) ==> opt_text(r.lot) == Some(number_text(n))),
        spec_field(row, "shares"@) matches Some(JsonValue::Number(n)) ==> opt_text(r.shares) == Some(
            number_text(n),
        ),
        sub_field(sub_field(spec_field(row, "price"@), "average"@), "price"@) matches Some(
            JsonValue::Number(n),
        ) ==> opt_text(r.avg_price) == Some(number_text(n)),
        spec_field(row, "avg_price"@) matches Some(JsonValue::Number(n)) ==> (!(sub_field(
            sub_field(spec_field(row, "price"@), "average"@),
            "price"@,
        ) matches Some(JsonValue::Number(_))) ==> opt_text(r.avg_price) == Some(number_text(n))),
        spec_field(row, "average_price"@) matches Some(JsonValue::Number(n)) ==> (!(sub_field(
            sub_field(spec_field(row, "price"@), "average"@),
            "price"@,
        ) matches Some(JsonValue::Number(_))) && !(spec_field(row, "avg_price"@) matches Some(
            JsonValue::Number(_),
        )) ==> opt_text(r.avg_price) == Some(number_text(n))),
        spec_field(row, "last_price"@) matches Some(JsonValue::Number(n)) ==> opt_text(
            r.current_price,
        ) == Some(number_text(n)),
        spec_field(row, "current_price"@) matches Some(JsonValue::Number(n)) ==> (!(spec_field(
            row,
            "last_price"@,
        ) matches Some(JsonValue::Number(_))) ==> opt_text(r.current_price) == Some(
            number_text(n),
        )),
        spec_field(row, "close"@) matches Some(JsonValue::Number(n)) ==> (!(spec_field(
            row,
            "last_price"@,
        ) matches Some(JsonValue::Number(_))) && !(spec_field(row, "current_price"@) matches Some(
            JsonValue::Number(_),
        )) ==> opt_text(r.current_price) == Some(number_text(n))),
        !(spec_field(row, "last_price"@) matches Some(JsonValue::Number(_))) && !(spec_field(
            row,
            "current_price"@,
        ) matches Some(JsonValue::Number(_))) && !(spec_field(row, "close"@) matches Some(
            JsonValue::Number(_),
        )) ==> r.current_price is None,
        !(spec_field(row, "symbol"@) matches Some(JsonValue::Str(_))) && !(spec_field(
            row,
            "code"@,
        ) matches Some(JsonValue::Str(_))) ==> r.symbol is None,
        !(sub_field(sub_field(spec_field(row, "qty"@), "balance"@), "lot"@) matches Some(
            JsonValue::Number(_),
        )) && !(spec_field(row, "lot"@) matches Some(JsonValue::Number(_))) ==> r.lot is None,
        !(spec_field(row, "shares"@) matches Some(JsonValue::Number(_))) ==> r.shares is None,
        !(sub_field(sub_field(spec_field(row, "price"@), "average"@), "price"@) matches Some(
            JsonValue::Number(_),
        )) && !(spec_field(row, "avg_price"@) matches Some(JsonValue::Number(_))) && !(spec_field(
            row,
            "average_price"@,
        ) matches Some(JsonValue::Number(_))) ==> r.avg_price is None,
{
}

/// The member `key` of an optional value.
fn member_of<'a>(v: Option<&'a JsonValue>, key: &str) -> (r: Option<&'a JsonValue>)
    ensures
        deref_opt(r) == sub_field(deref_opt(v), key@),
{
    match v {
        Some(x) => x.field(key),
        None => None,
    }
}

/// The text of a value that is a number.
fn number_at(v: Option<&JsonValue>) -> (r: Option<String>)
    ensures
        opt_text(r) == number_in(deref_opt(v)),
{
    match v {
        Some(JsonValue::Number(n)) => Some(number_to_text(n)),
        _ => None,
    }
}

/// The first of two choices that is present.
fn first_present(a: Option<String>, b: Option<String>) -> (r: Option<String>)
    ensures
        opt_text(r) == preferred(opt_text(a), opt_text(b)),
{
    match a {
        Some(x) => Some(x),
        None => b,
    }
}

/// The fields of a holding row, as `stock_fields_of` chooses them.
pub fn stock_row_fields(row: &JsonValue) -> (r: SbStockFields)
    ensures
        stock_fields_of(r, *row),
{
    let symbol = first_present(as_str(row.field("symbol")), as_str(row.field("code")));
    let nested_lot = number_at(member_of(member_of(row.field("qty"), "balance"), "lot"));
    let lot = first_present(nested_lot, number_at(row.field("lot")));
    let shares = number_at(row.field("shares"));
    let nested_avg = number_at(member_of(member_of(row.field("price"), "average"), "price"));
    let flat_avg = first_present(number_at(row.field("avg_price")), number_at(row.field("average_price")));
    let avg_price = first_present(nested_avg, flat_avg);
    let later = first_present(number_at(row.field("current_price")), number_at(row.field("close")));
    let current_price = first_present(number_at(row.field("last_price")), later);
    SbStockFields { symbol, lot, shares, avg_price, current_price }
}

/// The cash balance a portfolio answer's `data` gives, as its JSON text:
/// `summary.trading.balance`, else `summary.equity`.
pub open spec fn spec_balance_field(data: Option<JsonValue>) -> Option<Seq<char>> {
    let summary = sub_field(data, "summary"@);
    preferred(
        number_in(sub_field(sub_field(summary, "trading"@), "balance"@)),
        number_in(sub_field(summary, "equity"@)),
    )
}

/// The cash balance is the trading balance where that is a number, whatever
/// the equity holds; the equity only where it is not; nothing where neither
/// is a number.
pub proof fn law_balance_preference(data: Option<JsonValue>)
    ensures
        sub_field(sub_field(sub_field(data, "summary"@), "trading"@), "balance"@) matches Some(
            JsonValue::Number(n),
        ) ==> spec_balance_field(data) == Some(number_text(n)),
        sub_field(sub_field(data, "summary"@), "equity"@) matches Some(JsonValue::Number(n)) ==> (!(
        sub_field(sub_field(sub_field(data, "summary"@), "trading"@), "balance"@) matches Some(
            JsonValue::Number(_),
        )) ==> spec_balance_field(data) == Some(number_text(n))),
        !(sub_field(sub_field(sub_field(data, "summary"@), "trading"@), "balance"@) matches Some(
            JsonValue::Number(_),
        )) && !(sub_field(sub_field(data, "summary"@), "equity"@) matches Some(
            JsonValue::Number(_),
        )) ==> spec_balance_field(data) is None,
{
}

/// The cash balance field of a portfolio answer's `data`.
pub fn balance_field(data: Option<&JsonValue>) -> (r: Option<String>)
    ensures
        opt_text(r) == spec_balance_field(deref_opt(data)),
{
    let summary = member_of(data, "summary");
    let trading = number_at(member_of(member_of(summary, "trading"), "balance"));
    first_present(trading, number_at(member_of(summary, "equity")))
}

/// The rows that give a position: those with a symbol and at least one lot.
pub open spec fn kept_rows(rows: Seq<SbStockRow>) -> Seq<SbStockRow>
    decreases rows.len(),
{
    if rows.len() == 0 {
        Seq::empty()
    } else if rows.last().symbol is Some && rows.last().lot != 0 {
        kept_rows(rows.drop_last()).push(rows.last())
    } else {
        kept_rows(rows.drop_last())
    }
}

/// `p` is the position a row gives.
pub open spec fn position_from(p: Position, row: SbStockRow) -> bool {
    &&& row.symbol matches Some(s) && p.symbol@ == s@
    &&& p.lot == row.lot
    &&& p.avg_price == row.avg_price
    &&& p.current_price == row.current_price
}

/// The positions the rows give, in order: rows without a symbol or without
/// lots are skipped.
pub fn positions_from_rows(rows: &Vec<SbStockRow>) -> (r: Vec<Position>)
    ensures
        r@.len() == kept_rows(rows@).len(),
        forall|k: int| 0 <= k < r@.len() ==> position_from(#[trigger] r@[k], kept_rows(rows@)[k]),
{
    let ghost rs = rows@;
    let mut out: Vec<Position> = Vec::new();
    let mut i: usize = 0;
    assert(rs.take(0) =~= Seq::<SbStockRow>::empty());
    while i < rows.len()
        invariant
            rs == rows@,
            i <= rs.len(),
            out@.len() == kept_rows(rs.take(i as int)).len(),
            forall|k: int|
                0 <= k < out@.len() ==> position_from(#[trigger] out@[k], kept_rows(rs.take(i as int))[k]),
        decreases rs.len() - i,
    {
        assert(rs.take(i + 1).drop_last() =~= rs.take(i as int));
        assert(rs.take(i + 1).last() == rs[i as int]);
        let row = &rows[i];
        match &row.symbol {
            Some(s) => {
                if row.lot != 0 {
                    out.push(
                        Position {
                            symbol: s.clone(),
                            lot: row.lot,
                            avg_price: row.avg_price,
                            current_price: row.current_price,
                        },
                    );
                }
            },
            None => {},
        }
        i = i + 1;
    }
    assert(rs.take(rs.len() as int) =~= rs);
    out
}

/// The refusal text for a failed call: `what (status): message`, with
/// `fallback` where the broker gave no message.
pub open spec fn failure_text(what: Seq<char>, status: Seq<char>, message: Option<Seq<char>>, fallback: Seq<char>) -> Seq<char> {
    what + " ("@ + status + "): "@ + match message {
        Some(m) => m,
        None => fallback,
    }
}

/// The refusal of a call the broker answered with a failure status.
pub fn failure(what: &str, status: &str, message: Option<&JsonValue>, fallback: &str) -> (r: DomainError)
    ensures
        r matches DomainError::ExternalService(m) && m@ == failure_text(what@, status@, spec_str(deref_opt(message)), fallback@),
{
    let mut m = String::from_str(what);
    m.append(" (");
    m.append(status);
    m.append("): ");
    match as_str(message) {
        Some(t) => m.append(t.as_str()),
        None => m.append(fallback),
    }
    DomainError::ExternalService(m)
}

/// The path of the endpoint that places an order on `side`.
pub open spec fn order_path(base: Seq<char>, side: OrderSide) -> Seq<char> {
    base + "/order/v2/"@ + match side {
        OrderSide::Buy => "buy"@,
        OrderSide::Sell => "sell"@,
    }
}

/// The URL that places an order on `side`.
pub fn order_url(base: &str, side: OrderSide) -> (r: String)
    ensures
        r@ == order_path(base@, side),
{
    let mut s = String::from_str(base);
    s.append("/order/v2/");
    match side {
        OrderSide::Buy => s.append("buy"),
        OrderSide::Sell => s.append("sell"),
    }
    s
}

/// The shares in `lot` lots, as sent to the broker.
pub fn order_shares(lot: u32) -> (r: u32)
    requires
        lot * 100 <= u32::MAX,
    ensures
        r == lot * 100,
{
    lot * 100
}

/// The order placed, from the broker's answer: a failure status gives the
/// refusal `Stockbit order failed (status): message`; otherwise a pending
/// order with the broker's id where it reads as a UUID, else `fresh`.
pub open spec fn placed_from(
    r: Result<Order, DomainError>,
    symbol: Seq<char>,
    side: OrderSide,
    lot: u32,
    price: Dec,
    success: bool,
    status: Seq<char>,
    body: JsonValue,
    fresh: u128,
    at: Timestamp,
) -> bool {
    if !success {
        r matches Err(DomainError::ExternalService(m)) && m@ == failure_text(
            "Stockbit order failed"@,
            status,
            spec_str(spec_field(body, "message"@)),
            "Order failed"@,
        )
    } else {
        let id_text = match spec_field(body, "data"@) {
            Some(d) => spec_str(spec_field(d, "order_id"@)),
            None => None,
        };
        &&& r matches Ok(o)
        &&& o.id == match uuid_parse(match id_text { Some(t) => t, None => Seq::empty() }) {
            Some(u) => u,
            None => fresh,
        }
        &&& o.symbol@ == symbol
        &&& o.side == side
        &&& o.lot == lot
        &&& o.price == price
        &&& o.status == OrderStatus::Pending
        &&& o.created_at == at
        &&& o.filled_at is None
    }
}

/// Reads the broker's answer to an order.
pub fn placed_order_at(
    symbol: &str,
    side: OrderSide,
    lot: u32,
    price: Dec,
    success: bool,
    status: &str,
    body: &JsonValue,
    fresh: u128,
    at: Timestamp,
) -> (r: Result<Order, DomainError>)
    ensures
        placed_from(r, symbol@, side, lot, price, success, status@, *body, fresh, at),
{
    if !success {
        return Err(failure("Stockbit order failed", status, body.field("message"), "Order failed"));
    }
    let id_text = match body.field("data") {
        Some(d) => as_str(d.field("order_id")),
        None => None,
    };
    let id_text = match id_text {
        Some(t) => t,
        None => String::new(),
    };
    let id = match parse_uuid(id_text.as_str()) {
        Some(u) => u,
        None => fresh,
    };
    Ok(
        Order {
            id,
            symbol: String::from_str(symbol),
            side,
            lot,
            price,
            status: OrderStatus::Pending,
            created_at: at,
            filled_at: None,
        },
    )
}

/// Reads the broker's answer to an order, with a fresh random id and the
/// current time.
pub fn placed_order(
    symbol: &str,
    side: OrderSide,
    lot: u32,
    price: Dec,
    success: bool,
    status: &str,
    body: &JsonValue,
) -> (r: Result<Order, DomainError>)
    ensures
        exists|fresh: u128, at: Timestamp|
            #[trigger] placed_from(r, symbol@, side, lot, price, success, status@, *body, fresh, at),
{
    placed_order_at(symbol, side, lot, price, success, status, body, new_uuid(), now())
}

/// The expiry (`exp`) in a token's claims, if an integer.
pub open spec fn spec_expiry(claims: JsonValue) -> Option<i64> {
    spec_as_i64(spec_field(claims, "exp"@))
}

/// The expiry in a token's claims.
pub fn expiry_from_claims(claims: &JsonValue) -> (r: Option<i64>)
    ensures
        r == spec_expiry(*claims),
{
    as_i64(claims.field("exp"))
}

/// The new token in a refresh answer: `data.token`, else
/// `data.access_token`, else `token`, else `access_token`.
pub open spec fn refreshed_token(body: JsonValue) -> Option<Seq<char>> {
    let data = spec_field(body, "data"@);
    let a = match data {
        Some(d) => spec_str(spec_field(d, "token"@)),
        None => None,
    };
    let b = match data {
        Some(d) => spec_str(spec_field(d, "access_token"@)),
        None => None,
    };
    if a is Some {
        a
    } else if b is Some {
        b
    } else if spec_str(spec_field(body, "token"@)) is Some {
        spec_str(spec_field(body, "token"@))
    } else {
        spec_str(spec_field(body, "access_token"@))
    }
}

/// Finds the new token in a refresh answer.
pub fn token_from_refresh(body: &JsonValue) -> (r: Option<String>)
    ensures
        match r {
            Some(t) => refreshed_token(*body) == Some(t@),
            None => refreshed_token(*body) is None,
        },
{
    let (a, b) = match body.field("data") {
        Some(d) => (as_str(d.field("token")), as_str(d.field("access_token"))),
        None => (None, None),
    };
    if a.is_some() {
        return a;
    }
    if b.is_some() {
        return b;
    }
    let c = as_str(body.field("token"));
    if c.is_some() {
        return c;
    }
    as_str(body.field("access_token"))
}

/// What the refresh task does next.
#[derive(Debug, PartialEq, Eq)]
pub enum RefreshStep {
    /// The token's expiry cannot be read: the task stops.
    Stop,
    /// Wait this many seconds (possibly zero), then ask for a new token.
    RefreshAfter(u64),
}

/// The task refreshes ten minutes before expiry: it waits until then, or not
/// at all when that time has passed.
pub open spec fn spec_refresh_step(expiry: Option<i64>, now: i64) -> RefreshStep {
    match expiry {
        None => RefreshStep::Stop,
        Some(exp) => {
            let wait = exp - 600 - now;
            RefreshStep::RefreshAfter(if wait > 0 { wait as u64 } else { 0 })
        },
    }
}

/// Decides when to refresh a token with expiry `expiry` at time `now`
/// (seconds); the times must not overflow.
pub fn refresh_step(expiry: Option<i64>, now: i64) -> (r: RefreshStep)
    requires
        expiry matches Some(exp) ==> i64::MIN <= exp - 600 && i64::MIN <= exp - 600 - now
            <= i64::MAX,
    ensures
        r == spec_refresh_step(expiry, now),
{
    match expiry {
        None => RefreshStep::Stop,
        Some(exp) => {
            let wait = exp - 600 - now;
            RefreshStep::RefreshAfter(if wait > 0 { wait as u64 } else { 0 })
        },
    }
}

/// What the refresh task does with the answer to a refresh request.
#[derive(Debug)]
pub enum RefreshOutcome {
    /// Keep this new token and plan the next refresh from it.
    Replace(String),
    /// Ask again after this many seconds.
    RetryAfter(u64),
}

/// A successful answer that holds a new token replaces the token; a failed
/// request, an error status, or an answer without a token is retried five
/// minutes later.
pub open spec fn spec_refresh_outcome(reply: Option<(bool, JsonValue)>, r: RefreshOutcome) -> bool {
    match reply {
        Some((true, body)) if refreshed_token(body) is Some => r matches RefreshOutcome::Replace(t)
            && refreshed_token(body) == Some(t@),
        _ => r matches RefreshOutcome::RetryAfter(w) && w == 300,
    }
}

/// Decides what follows a refresh request: `reply` is the answer's success
/// and body, or none where the request itself failed.
pub fn refresh_outcome(reply: Option<(bool, JsonValue)>) -> (r: RefreshOutcome)
    ensures
        spec_refresh_outcome(reply, r),
{
    match reply {
        Some((true, body)) => match token_from_refresh(&body) {
            Some(t) => RefreshOutcome::Replace(t),
            None => RefreshOutcome::RetryAfter(300),
        },
        _ => RefreshOutcome::RetryAfter(300),
    }
}

/// The bytes that URL-safe base64 without padding decodes from a text.
pub uninterp spec fn base64_url_decoded(s: Seq<char>) -> Option<Seq<u8>>;

/// Decodes URL-safe base64 without padding, by the `base64` crate's
/// `URL_SAFE_NO_PAD` engine.
#[verifier::external_body]
fn decode_base64_url(s: &str) -> (r: Option<Vec<u8>>)
    ensures
        match r {
            Some(b) => base64_url_decoded(s@) == Some(b@),
            None => base64_url_decoded(s@) is None,
        },
{
    base64::Engine::decode(&base64::engine::general_purpose::URL_SAFE_NO_PAD, s).ok()
}

/// The second `.`-separated part of a token, if it has one.
pub open spec fn second_segment(t: Seq<char>) -> Option<Seq<char>> {
    match first_index_of(t, '.') {
        None => None,
        Some(i) => {
            let rest = t.subrange(i + 1, t.len() as int);
            match first_index_of(rest, '.') {
                Some(j) => Some(rest.subrange(0, j)),
                None => Some(rest),
            }
        },
    }
}

/// The claims part of a JWT: its second part, decoded from URL-safe base64.
pub open spec fn jwt_claims_bytes(token: Seq<char>) -> Option<Seq<u8>> {
    match second_segment(token) {
        Some(p) => base64_url_decoded(p),
        None => None,
    }
}

/// The expiry a token carries: the `exp` integer of the JSON claims in its
/// second part.
pub open spec fn token_expiry(token: Seq<char>) -> Option<i64> {
    match jwt_claims_bytes(token) {
        Some(b) => match json_value_of_bytes(b) {
            Some(c) => spec_expiry(c),
            None => None,
        },
        None => None,
    }
}

/// The expiry of a token, where its claims can be read.
pub fn jwt_expiry(token: &str) -> (r: Option<i64>)
    ensures
        r == token_expiry(token@),
{
    let bytes = match jwt_payload(token) {
        Some(b) => b,
        None => return None,
    };
    match parse_json_bytes(bytes.as_slice()) {
        Some(claims) => expiry_from_claims(&claims),
        None => None,
    }
}

/// The decoded claims part of a JWT, if it has one that decodes.
pub fn jwt_payload(token: &str) -> (r: Option<Vec<u8>>)
    ensures
        match r {
            Some(b) => jwt_claims_bytes(token@) == Some(b@),
            None => jwt_claims_bytes(token@) is None,
        },
{
    let cs = chars_of(token);
    let i = match find_char(&cs, '.') {
        Some(i) => i,
        None => {
            return None;
        },
    };
    proof {
        lemma_first_index_bounds(cs@, '.');
    }
    assert(i < cs.len());
    let mut rest: Vec<char> = Vec::new();
    let mut k = i + 1;
    while k < cs.len()
        invariant
            i < cs.len(),
            i + 1 <= k <= cs.len(),
            rest@ == cs@.subrange(i + 1, k as int),
        decreases cs.len() - k,
    {
        rest.push(cs[k]);
        assert(cs@.subrange(i + 1, k + 1) =~= cs@.subrange(i + 1, k as int).push(cs@[k as int]));
        k = k + 1;
    }
    let seg = match find_char(&rest, '.') {
        Some(j) => {
            proof {
                lemma_first_index_bounds(rest@, '.');
            }
            let mut part: Vec<char> = Vec::new();
            let mut q: usize = 0;
            while q < j
                invariant
                    j <= rest.len(),
                    q <= j,
                    part@ == rest@.subrange(0, q as int),
                decreases j - q,
            {
                part.push(rest[q]);
                assert(rest@.subrange(0, q + 1) =~= rest@.subrange(0, q as int).push(rest@[q as int]));
                q = q + 1;
            }
            string_of(&part)
        },
        None => string_of(&rest),
    };
    decode_base64_url(seg.as_str())
}

} // verus!
