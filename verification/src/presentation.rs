//! What the HTTP handlers decide and answer: the portfolio, the list of
//! trade rules, the broker token's status, and the replies of the analysis,
//! suggestion and auto-trade endpoints; and how the web client reads them.
use vstd::prelude::*;

use crate::clock::{datetime_text, utc_datetime_text, utc_seconds_ok, uuid_text, uuid_to_text};
use crate::decimal::{ddiff, diff_fits, dprod, dtext, prod_fits, Dec};
use crate::domain::{
    error_text, shares_of, side_name, signal_name, status_name, trend_name, DomainError, Order,
    Portfolio, Position, StockAnalysis, StockSuggestion, TradeRule,
};
use crate::dto::{
    AnalysisResponse, ApiResponse, AutoTradeFullResponse, OrderResponse, PaginatorMeta,
    PortfolioResponse, PositionResponse, RuleResponse, RulesListResponse, SuggestQuery,
    SuggestionDto, TokenStatus, UpdateToken,
};
use crate::domain::clone_strings;
use crate::text::{int_text, nat_text, trim, trim_text, u64_text};

verus! {

// ----- portfolio -----

/// A position whose market value and gain can be computed without overflow.
pub open spec fn reportable(p: Position) -> bool {
    &&& p.wf()
    &&& prod_fits(p.current_price, shares_of(p.lot))
    &&& diff_fits(p.current_price, p.avg_price)
    &&& prod_fits(ddiff(p.current_price, p.avg_price), shares_of(p.lot))
}

/// Whether the position's market value and gain can be computed without
/// overflow.
pub fn position_reportable(p: &Position) -> (r: bool)
    requires
        p.wf(),
    ensures
        r == reportable(*p),
{
    let shares = Dec::from_u32(p.total_shares());
    if p.current_price.checked_times(shares).is_none() {
        return false;
    }
    match p.current_price.checked_minus(p.avg_price) {
        Some(diff) => diff.checked_times(shares).is_some(),
        None => false,
    }
}

/// `r` reports position `p`: its values, market value and unrealized gain
/// as decimal text.
pub open spec fn position_reply(r: PositionResponse, p: Position) -> bool {
    &&& r.symbol@ == p.symbol@
    &&& r.lot == p.lot
    &&& r.avg_price@ == dtext(p.avg_price)
    &&& r.current_price@ == dtext(p.current_price)
    &&& r.market_value@ == dtext(dprod(p.current_price, shares_of(p.lot)))
    &&& r.unrealized_pnl@ == dtext(dprod(ddiff(p.current_price, p.avg_price), shares_of(p.lot)))
}

/// The report of one position.
pub fn position_response(p: &Position) -> (r: PositionResponse)
    requires
        reportable(*p),
    ensures
        position_reply(r, *p),
{
    let mv = p.market_value();
    let pnl = p.unrealized_pnl();
    PositionResponse {
        symbol: p.symbol.clone(),
        lot: p.lot,
        avg_price: p.avg_price.to_text(),
        current_price: p.current_price.to_text(),
        market_value: mv.to_text(),
        unrealized_pnl: pnl.to_text(),
    }
}

/// `r` reports order `o`: its id as UUID text, side and status by name.
pub open spec fn order_reply(r: OrderResponse, o: Order) -> bool {
    &&& r.id@ == uuid_text(o.id)
    &&& r.symbol@ == o.symbol@
    &&& r.side@ == side_name(o.side)
    &&& r.lot == o.lot
    &&& r.price@ == dtext(o.price)
    &&& r.status@ == status_name(o.status)
}

/// The report of one order.
pub fn order_response(o: &Order) -> (r: OrderResponse)
    requires
        o.wf(),
    ensures
        order_reply(r, *o),
{
    OrderResponse {
        id: uuid_to_text(o.id),
        symbol: o.symbol.clone(),
        side: String::from_str(o.side.name()),
        lot: o.lot,
        price: o.price.to_text(),
        status: String::from_str(o.status.name()),
    }
}

/// `r` reports each of `orders`, in order.
pub open spec fn orders_reply(r: Seq<OrderResponse>, orders: Seq<Order>) -> bool {
    &&& r.len() == orders.len()
    &&& forall|i: int| 0 <= i < r.len() ==> order_reply(#[trigger] r[i], orders[i])
}

/// The reports of a list of orders.
pub fn order_responses(orders: &Vec<Order>) -> (r: Vec<OrderResponse>)
    requires
        forall|i: int| 0 <= i < orders.len() ==> (#[trigger] orders@[i]).wf(),
    ensures
        orders_reply(r@, orders@),
{
    let mut r: Vec<OrderResponse> = Vec::new();
    let mut i: usize = 0;
    while i < orders.len()
        invariant
            i <= orders.len(),
            forall|k: int| 0 <= k < orders.len() ==> (#[trigger] orders@[k]).wf(),
            orders_reply(r@, orders@.take(i as int)),
        decreases orders.len() - i,
    {
        let o = order_response(&orders[i]);
        r.push(o);
        i = i + 1;
    }
    assert(orders@.take(orders.len() as int) =~= orders@);
    r
}

/// The portfolio can be reported: it is well formed, and neither its total
/// equity nor any position's value or gain overflows.
pub open spec fn portfolio_reportable(p: Portfolio) -> bool {
    &&& p.wf()
    &&& p.equity.mantissa == 0 ==> p.valuation_fits()
    &&& forall|i: int| 0 <= i < p.positions.len() ==> reportable(#[trigger] p.positions@[i])
}

/// Whether the portfolio can be reported without overflow.
pub fn portfolio_is_reportable(p: &Portfolio) -> (r: bool)
    requires
        p.wf(),
    ensures
        r == portfolio_reportable(*p),
{
    if p.checked_total_equity().is_none() {
        return false;
    }
    let mut i: usize = 0;
    while i < p.positions.len()
        invariant
            p.wf(),
            i <= p.positions.len(),
            forall|k: int| 0 <= k < i ==> reportable(#[trigger] p.positions@[k]),
        decreases p.positions.len() - i,
    {
        if !position_reportable(&p.positions[i]) {
            return false;
        }
        i = i + 1;
    }
    true
}

/// `r` reports portfolio `p` and its open orders.
pub open spec fn portfolio_reply(r: PortfolioResponse, p: Portfolio, orders: Seq<Order>) -> bool {
    &&& r.cash_balance@ == dtext(p.balance)
    &&& r.allocated@ == dtext(p.allocated)
    &&& r.positions@.len() == p.positions@.len()
    &&& forall|i: int|
        0 <= i < r.positions@.len() ==> position_reply(#[trigger] r.positions@[i], p.positions@[i])
    &&& orders_reply(r.open_orders@, orders)
    &&& r.total_equity@ == dtext(p.valued_total_equity())
}

/// The report of a portfolio and its open orders.
pub fn portfolio_response(p: &Portfolio, orders: &Vec<Order>) -> (r: PortfolioResponse)
    requires
        portfolio_reportable(*p),
        forall|i: int| 0 <= i < orders.len() ==> (#[trigger] orders@[i]).wf(),
    ensures
        portfolio_reply(r, *p, orders@),
{
    let mut positions: Vec<PositionResponse> = Vec::new();
    let mut i: usize = 0;
    while i < p.positions.len()
        invariant
            i <= p.positions.len(),
            portfolio_reportable(*p),
            positions@.len() == i,
            forall|k: int| 0 <= k < i ==> position_reply(#[trigger] positions@[k], p.positions@[k]),
        decreases p.positions.len() - i,
    {
        let pr = position_response(&p.positions[i]);
        positions.push(pr);
        i = i + 1;
    }
    let open_orders = order_responses(orders);
    let equity = p.total_equity();
    PortfolioResponse {
        cash_balance: p.balance.to_text(),
        allocated: p.allocated.to_text(),
        positions,
        open_orders,
        total_equity: equity.to_text(),
    }
}

/// What the portfolio endpoint answers: the report, where the broker gave a
/// portfolio, with no open orders where it could not list them; else the
/// broker's error message.
pub fn portfolio_answer(
    portfolio: Result<Portfolio, DomainError>,
    orders: Result<Vec<Order>, DomainError>,
) -> (r: Result<PortfolioResponse, String>)
    requires
        match portfolio {
            Ok(p) => portfolio_reportable(p),
            Err(e) => e.wf(),
        },
        orders matches Ok(os) ==> forall|i: int| 0 <= i < os.len() ==> (#[trigger] os@[i]).wf(),
    ensures
        match portfolio {
            Ok(p) => r matches Ok(resp) && portfolio_reply(
                resp,
                p,
                match orders {
                    Ok(os) => os@,
                    Err(_) => Seq::empty(),
                },
            ),
            Err(e) => r matches Err(m) && m@ == error_text(e),
        },
{
    match portfolio {
        Ok(p) => {
            let os = match orders {
                Ok(os) => os,
                Err(_) => Vec::new(),
            };
            Ok(portfolio_response(&p, &os))
        },
        Err(e) => Err(e.message()),
    }
}

// ----- trade rules -----

/// `r` reports the rule for `symbol`.
pub open spec fn rule_reply(r: RuleResponse, symbol: Seq<char>, rule: TradeRule) -> bool {
    &&& r.symbol@ == symbol
    &&& r.buy_below@ == dtext(rule.buy_below)
    &&& r.sell_above@ == dtext(rule.sell_above)
    &&& r.stop_loss@ == dtext(rule.stop_loss)
    &&& r.max_lot == rule.max_lot
}

/// The report of the rule for `symbol`.
pub fn rule_response(symbol: String, rule: &TradeRule) -> (r: RuleResponse)
    requires
        rule.wf(),
    ensures
        rule_reply(r, symbol@, *rule),
{
    RuleResponse {
        symbol,
        buy_below: rule.buy_below.to_text(),
        sell_above: rule.sell_above.to_text(),
        stop_loss: rule.stop_loss.to_text(),
        max_lot: rule.max_lot,
    }
}

/// `PaginatorResponseMeta::new(page, per_page, total)` of `paginator_rs`,
/// its fields moved into a tuple: page, rows per page, total, total pages,
/// whether a next and a previous page exist. The crate computes the total
/// pages as `ceil(total / per_page)` in `f32`; that value is stated only
/// where all rows fit on one page, where rounding cannot change it.
#[verifier::external_body]
fn paginator_meta(page: u32, per_page: u32, total: u32) -> (r: (
    u32,
    u32,
    Option<u32>,
    Option<u32>,
    bool,
    bool,
))
    ensures
        r.0 == page,
        r.1 == per_page,
        r.2 == Some(total),
        r.3 matches Some(pages) && r.4 == (page < pages),
        r.5 == (page > 1),
        0 < per_page && total <= per_page ==> r.3 == Some(if total == 0 { 0u32 } else { 1u32 }),
{
    let m = paginator_rs::PaginatorResponseMeta::new(page, per_page, total);
    (m.page, m.per_page, m.total, m.total_pages, m.has_next, m.has_prev)
}

/// The page information of a listing that shows all `total` rows on its
/// one page.
pub open spec fn single_page_meta(total: u32) -> PaginatorMeta {
    PaginatorMeta {
        page: 1,
        per_page: if total > 1 { total } else { 1 },
        total,
        total_pages: if total == 0 { 0 } else { 1 },
        has_next: false,
        has_prev: false,
    }
}

/// The list of rules, all on one page. The count is taken modulo 2^32, as
/// the `u32` field holds it.
pub fn rules_page(rules: &Vec<(String, TradeRule)>) -> (r: RulesListResponse)
    requires
        forall|i: int| 0 <= i < rules.len() ==> (#[trigger] rules@[i]).1.wf(),
    ensures
        r.data@.len() == rules@.len(),
        forall|i: int|
            0 <= i < rules@.len() ==> rule_reply(#[trigger] r.data@[i], rules@[i].0@, rules@[i].1),
        r.meta == single_page_meta(rules@.len() as u32),
{
    let total: u32 = rules.len() as u32;
    let mut data: Vec<RuleResponse> = Vec::new();
    let mut i: usize = 0;
    while i < rules.len()
        invariant
            i <= rules.len(),
            forall|k: int| 0 <= k < rules.len() ==> (#[trigger] rules@[k]).1.wf(),
            data@.len() == i,
            forall|k: int|
                0 <= k < i ==> rule_reply(#[trigger] data@[k], rules@[k].0@, rules@[k].1),
        decreases rules.len() - i,
    {
        let rr = rule_response(rules[i].0.clone(), &rules[i].1);
        data.push(rr);
        i = i + 1;
    }
    let per_page: u32 = if total > 1 { total } else { 1 };
    let m = paginator_meta(1, per_page, total);
    let total_pages: u32 = match m.3 {
        Some(t) => t,
        None => 0,
    };
    let meta = PaginatorMeta {
        page: m.0,
        per_page: m.1,
        total: match m.2 {
            Some(t) => t,
            None => total,
        },
        total_pages,
        has_next: m.4,
        has_prev: m.5,
    };
    RulesListResponse { data, meta }
}

// ----- broker token -----

/// Integer division rounding toward zero, as Rust's `/` does.
pub open spec fn trunc_div(a: int, b: int) -> int {
    if a >= 0 {
        a / b
    } else {
        -((-a) / b)
    }
}

/// The remainder that goes with `trunc_div`, as Rust's `%` gives it.
pub open spec fn trunc_rem(a: int, b: int) -> int {
    a - b * trunc_div(a, b)
}

/// `"{h}h {m}m"`: the whole hours of `ttl` seconds and the whole minutes
/// left over, each rounded toward zero.
pub open spec fn duration_text(ttl: int) -> Seq<char> {
    int_text(trunc_div(ttl, 3600)) + "h "@ + int_text(trunc_div(trunc_rem(ttl, 3600), 60)) + "m"@
}

/// The text of `-n`.
fn negated_text(n: u64) -> (r: String)
    ensures
        r@ == int_text(-(n as int)),
{
    proof {
        reveal_strlit("0");
        reveal_strlit("-");
    }
    if n == 0 {
        assert("0"@ =~= nat_text(0));
        String::from_str("0")
    } else {
        let r = String::from_str("-");
        let t = u64_text(n);
        assert("-"@ =~= seq!['-']);
        r.concat(t.as_str())
    }
}

/// `"{h}h {m}m"` for a number of seconds.
pub fn duration_words(ttl: i64) -> (r: String)
    ensures
        r@ == duration_text(ttl as int),
{
    proof {
        reveal_strlit("0");
        reveal_strlit("-");
    }
    let neg = ttl < 0;
    let a: u64 = if ttl >= 0 {
        ttl as u64
    } else if ttl == i64::MIN {
        9223372036854775808u64
    } else {
        (-ttl) as u64
    };
    let h = a / 3600;
    let m = (a % 3600) / 60;
    let (hs, ms) = if neg {
        (negated_text(h), negated_text(m))
    } else {
        (u64_text(h), u64_text(m))
    };
    let mut r = hs;
    r.append("h ");
    r.append(ms.as_str());
    r.append("m");
    proof {
        if neg {
            assert(trunc_div(ttl as int, 3600) == -(h as int));
            assert(trunc_rem(ttl as int, 3600) == -((a % 3600) as int));
            assert(trunc_div(trunc_rem(ttl as int, 3600), 60) == -(m as int));
        } else {
            assert(int_text(h as int) == nat_text(h as nat));
            assert(int_text(m as int) == nat_text(m as nat));
        }
    }
    r
}

/// The status of no usable token: not valid, nothing known.
pub open spec fn invalid_status(r: TokenStatus) -> bool {
    &&& !r.valid
    &&& r.expires_at is None
    &&& r.ttl_seconds is None
    &&& r.ttl_human is None
}

/// The status of a token that expires at `exp`, seen at `now`: valid while
/// time is left; the expiry as UTC text where it can be represented; the
/// time left in seconds, and in words (`"expired"` once none is left, unless
/// `always_words`).
pub open spec fn expiring_status(r: TokenStatus, exp: i64, now: i64, always_words: bool) -> bool {
    let ttl = exp - now;
    &&& r.valid == (ttl > 0)
    &&& r.ttl_seconds == Some(ttl as i64)
    &&& (r.expires_at is Some) == utc_seconds_ok(exp)
    &&& (r.expires_at matches Some(s) ==> s@ == utc_datetime_text(exp))
    &&& r.ttl_human matches Some(h) && h@ == (if ttl > 0 || always_words {
        duration_text(ttl)
    } else {
        "expired"@
    })
}

fn invalid_token_status() -> (r: TokenStatus)
    ensures
        invalid_status(r),
{
    TokenStatus { valid: false, expires_at: None, ttl_seconds: None, ttl_human: None }
}

fn expiring_token_status(exp: i64, now: i64, always_words: bool) -> (r: TokenStatus)
    requires
        i64::MIN <= exp - now <= i64::MAX,
    ensures
        expiring_status(r, exp, now, always_words),
{
    let ttl = exp - now;
    let ttl_human = if ttl > 0 || always_words {
        duration_words(ttl)
    } else {
        String::from_str("expired")
    };
    TokenStatus {
        valid: ttl > 0,
        expires_at: datetime_text(exp),
        ttl_seconds: Some(ttl),
        ttl_human: Some(ttl_human),
    }
}

/// The status of the stored token, given the expiry its claims carry (if
/// they could be read) and the current time in seconds: invalid when there
/// is no token or no expiry.
pub fn token_status(token: &str, expiry: Option<i64>, now: i64) -> (r: TokenStatus)
    requires
        expiry matches Some(e) ==> i64::MIN <= e - now <= i64::MAX,
    ensures
        token@.len() == 0 ==> invalid_status(r),
        token@.len() > 0 ==> match expiry {
            Some(e) => expiring_status(r, e, now, false),
            None => invalid_status(r),
        },
{
    if token.unicode_len() == 0 {
        return invalid_token_status();
    }
    match expiry {
        Some(e) => expiring_token_status(e, now, false),
        None => invalid_token_status(),
    }
}

/// The token a request to replace it carries, without surrounding white
/// space; none where nothing is left.
pub fn accepted_token(body: &UpdateToken) -> (r: Option<String>)
    ensures
        match r {
            Some(t) => t@ == trim_text(body.token@) && t@.len() > 0,
            None => trim_text(body.token@).len() == 0,
        },
{
    let t = trim(body.token.as_str());
    if t.unicode_len() == 0 {
        None
    } else {
        Some(String::from_str(t))
    }
}

/// The status answered after the token was replaced: the time left is
/// always given in words, even when it is negative.
pub fn updated_token_status(expiry: Option<i64>, now: i64) -> (r: TokenStatus)
    requires
        expiry matches Some(e) ==> i64::MIN <= e - now <= i64::MAX,
    ensures
        match expiry {
            Some(e) => expiring_status(r, e, now, true),
            None => invalid_status(r),
        },
{
    match expiry {
        Some(e) => expiring_token_status(e, now, true),
        None => invalid_token_status(),
    }
}

// ----- analysis, suggestions, auto-trade -----

/// `r` reports analysis `a`: signal and trend by name, numbers as decimal
/// text.
pub open spec fn analysis_reply_of(r: AnalysisResponse, a: StockAnalysis) -> bool {
    &&& r.symbol@ == a.symbol@
    &&& r.signal@ == signal_name(a.signal)
    &&& r.trend@ == trend_name(a.trend)
    &&& r.confidence@ == dtext(a.confidence)
    &&& r.entry@ == dtext(a.price_target.entry)
    &&& r.take_profit@ == dtext(a.price_target.take_profit)
    &&& r.stop_loss@ == dtext(a.price_target.stop_loss)
    &&& r.risk_factors matches Some(rf) && rf@ == a.risk_factors@
    &&& r.reasoning@ == a.reasoning@
}

/// The report of an analysis.
pub fn analysis_response(a: &StockAnalysis) -> (r: AnalysisResponse)
    requires
        a.confidence.wf(),
        a.price_target.wf(),
    ensures
        analysis_reply_of(r, *a),
{
    AnalysisResponse {
        symbol: a.symbol.clone(),
        signal: String::from_str(a.signal.name()),
        trend: String::from_str(a.trend.name()),
        confidence: a.confidence.to_text(),
        entry: a.price_target.entry.to_text(),
        take_profit: a.price_target.take_profit.to_text(),
        stop_loss: a.price_target.stop_loss.to_text(),
        risk_factors: Some(clone_strings(&a.risk_factors)),
        reasoning: a.reasoning.clone(),
    }
}

/// `r` answers `result`: on success the data that `reply_of` relates to the
/// value, else the error's message.
pub open spec fn analysis_replied(
    r: ApiResponse<AnalysisResponse>,
    result: Result<StockAnalysis, DomainError>,
) -> bool {
    match result {
        Ok(a) => {
            &&& r.success
            &&& r.error is None
            &&& r.data matches Some(d)
            &&& analysis_reply_of(d, a)
        },
        Err(e) => {
            &&& !r.success
            &&& r.data is None
            &&& r.error matches Some(m)
            &&& m@ == error_text(e)
        },
    }
}

/// What the analysis endpoint answers for the outcome of an analysis.
pub fn analysis_reply(result: Result<StockAnalysis, DomainError>) -> (r: ApiResponse<
    AnalysisResponse,
>)
    requires
        match result {
            Ok(a) => a.confidence.wf() && a.price_target.wf(),
            Err(e) => e.wf(),
        },
    ensures
        analysis_replied(r, result),
{
    match result {
        Ok(a) => ApiResponse { success: true, data: Some(analysis_response(&a)), error: None },
        Err(e) => ApiResponse { success: false, data: None, error: Some(e.message()) },
    }
}

/// `r` reports suggestion `s`.
pub open spec fn suggestion_reply_of(r: SuggestionDto, s: StockSuggestion) -> bool {
    &&& r.symbol@ == s.symbol@
    &&& r.name@ == s.name@
    &&& r.signal@ == signal_name(s.signal)
    &&& r.trend@ == trend_name(s.trend)
    &&& r.current_price@ == dtext(s.current_price)
    &&& r.target_price@ == dtext(s.target_price)
    &&& r.potential_return@ == dtext(s.potential_return)
    &&& r.confidence@ == dtext(s.confidence)
    &&& r.reason@ == s.reason@
}

/// The numbers of a suggestion are representable decimals.
pub open spec fn suggestion_wf(s: StockSuggestion) -> bool {
    &&& s.current_price.wf()
    &&& s.target_price.wf()
    &&& s.potential_return.wf()
    &&& s.confidence.wf()
}

/// The report of a suggestion.
pub fn suggestion_dto(s: &StockSuggestion) -> (r: SuggestionDto)
    requires
        suggestion_wf(*s),
    ensures
        suggestion_reply_of(r, *s),
{
    SuggestionDto {
        symbol: s.symbol.clone(),
        name: s.name.clone(),
        signal: String::from_str(s.signal.name()),
        trend: String::from_str(s.trend.name()),
        current_price: s.current_price.to_text(),
        target_price: s.target_price.to_text(),
        potential_return: s.potential_return.to_text(),
        confidence: s.confidence.to_text(),
        reason: s.reason.clone(),
    }
}

/// What the suggestion endpoint answers for the outcome of a request.
pub fn suggest_reply(result: Result<Vec<StockSuggestion>, DomainError>) -> (r: ApiResponse<
    Vec<SuggestionDto>,
>)
    requires
        match result {
            Ok(v) => forall|i: int| 0 <= i < v.len() ==> suggestion_wf(#[trigger] v@[i]),
            Err(e) => e.wf(),
        },
    ensures
        match result {
            Ok(v) => {
                &&& r.success
                &&& r.error is None
                &&& r.data matches Some(d)
                &&& d@.len() == v@.len()
                &&& forall|i: int| 0 <= i < v@.len() ==> suggestion_reply_of(#[trigger] d@[i], v@[i])
            },
            Err(e) => {
                &&& !r.success
                &&& r.data is None
                &&& r.error matches Some(m)
                &&& m@ == error_text(e)
            },
        },
{
    match result {
        Ok(v) => {
            let mut d: Vec<SuggestionDto> = Vec::new();
            let mut i: usize = 0;
            while i < v.len()
                invariant
                    i <= v.len(),
                    forall|k: int| 0 <= k < v.len() ==> suggestion_wf(#[trigger] v@[k]),
                    d@.len() == i,
                    forall|k: int| 0 <= k < i ==> suggestion_reply_of(#[trigger] d@[k], v@[k]),
                decreases v.len() - i,
            {
                let s = suggestion_dto(&v[i]);
                d.push(s);
                i = i + 1;
            }
            ApiResponse { success: true, data: Some(d), error: None }
        },
        Err(e) => ApiResponse { success: false, data: None, error: Some(e.message()) },
    }
}

/// The number of suggestions a query asks for: ten unless it says.
pub fn suggest_limit(q: &SuggestQuery) -> (r: usize)
    ensures
        r == match q.limit {
            Some(n) => n,
            None => 10,
        },
{
    match q.limit {
        Some(n) => n,
        None => 10,
    }
}

/// `r` answers the outcome of an auto-trade run: the number and reports of
/// the orders placed, or the error's message.
pub open spec fn autotrade_replied(
    r: AutoTradeFullResponse,
    result: Result<Vec<Order>, DomainError>,
) -> bool {
    match result {
        Ok(os) => {
            &&& r.success
            &&& r.executed == Some(os@.len() as usize)
            &&& r.orders matches Some(rs) && orders_reply(rs@, os@)
            &&& r.error is None
        },
        Err(e) => {
            &&& !r.success
            &&& r.executed is None
            &&& r.orders is None
            &&& r.error matches Some(m) && m@ == error_text(e)
        },
    }
}

/// What the auto-trade endpoint answers for the outcome of a run.
pub fn autotrade_reply(result: Result<Vec<Order>, DomainError>) -> (r: AutoTradeFullResponse)
    requires
        match result {
            Ok(os) => forall|i: int| 0 <= i < os.len() ==> (#[trigger] os@[i]).wf(),
            Err(e) => e.wf(),
        },
    ensures
        autotrade_replied(r, result),
{
    match result {
        Ok(os) => {
            let rs = order_responses(&os);
            AutoTradeFullResponse {
                success: true,
                executed: Some(rs.len()),
                orders: Some(rs),
                error: None,
            }
        },
        Err(e) => AutoTradeFullResponse {
            success: false,
            executed: None,
            orders: None,
            error: Some(e.message()),
        },
    }
}

// ----- the web client's reading -----

/// What the client makes of an answer: the data of a success; `"no data"`
/// for a success without any; else the error, or `"unknown error"`.
pub open spec fn outcome_of<T>(resp: ApiResponse<T>) -> Result<T, Seq<char>> {
    if resp.success {
        match resp.data {
            Some(d) => Ok(d),
            None => Err("no data"@),
        }
    } else {
        Err(
            match resp.error {
                Some(e) => e@,
                None => "unknown error"@,
            },
        )
    }
}

/// The client's reading of an answer.
pub fn api_outcome<T>(resp: ApiResponse<T>) -> (r: Result<T, String>)
    ensures
        match r {
            Ok(d) => outcome_of(resp) == Ok::<T, Seq<char>>(d),
            Err(m) => outcome_of(resp) == Err::<T, Seq<char>>(m@),
        },
{
    if resp.success {
        match resp.data {
            Some(d) => Ok(d),
            None => Err(String::from_str("no data")),
        }
    } else {
        match resp.error {
            Some(e) => Err(e),
            None => Err(String::from_str("unknown error")),
        }
    }
}

/// What the client makes of an auto-trade answer: the answer itself on
/// success, else its error, or `"unknown error"`.
pub open spec fn autotrade_outcome_of(resp: AutoTradeFullResponse) -> Result<
    AutoTradeFullResponse,
    Seq<char>,
> {
    if resp.success {
        Ok(resp)
    } else {
        Err(
            match resp.error {
                Some(e) => e@,
                None => "unknown error"@,
            },
        )
    }
}

/// The client's reading of an auto-trade answer.
pub fn autotrade_outcome(resp: AutoTradeFullResponse) -> (r: Result<AutoTradeFullResponse, String>)
    ensures
        match r {
            Ok(a) => autotrade_outcome_of(resp) == Ok::<AutoTradeFullResponse, Seq<char>>(a),
            Err(m) => autotrade_outcome_of(resp) == Err::<AutoTradeFullResponse, Seq<char>>(m@),
        },
{
    if resp.success {
        Ok(resp)
    } else {
        match resp.error {
            Some(e) => Err(e),
            None => Err(String::from_str("unknown error")),
        }
    }
}

/// What the analysis endpoint answers, the client reads back: the report of
/// the analysis, or the message of the error.
pub proof fn law_client_reads_analysis(
    resp: ApiResponse<AnalysisResponse>,
    result: Result<StockAnalysis, DomainError>,
)
    requires
        analysis_replied(resp, result),
    ensures
        match result {
            Ok(a) => outcome_of(resp) matches Ok(d) && analysis_reply_of(d, a),
            Err(e) => outcome_of(resp) == Err::<AnalysisResponse, Seq<char>>(error_text(e)),
        },
{
}

/// What the auto-trade endpoint answers, the client reads back: the count
/// and reports of the orders placed, or the message of the error.
pub proof fn law_client_reads_autotrade(
    resp: AutoTradeFullResponse,
    result: Result<Vec<Order>, DomainError>,
)
    requires
        autotrade_replied(resp, result),
    ensures
        match result {
            Ok(os) => {
                &&& autotrade_outcome_of(resp) matches Ok(a)
                &&& a.executed == Some(os@.len() as usize)
                &&& a.orders matches Some(rs)
                &&& orders_reply(rs@, os@)
            },
            Err(e) => autotrade_outcome_of(resp) == Err::<AutoTradeFullResponse, Seq<char>>(
                error_text(e),
            ),
        },
{
}

} // verus!
