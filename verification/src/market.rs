//! The decisions of the market-data adapters: Yahoo Finance symbols, ranges
//! and price series, and the IDX site's answers, periods and searches.
use vstd::prelude::*;

use crate::clock::{now, utc_seconds_ok};
use crate::decimal::Dec;
use crate::domain::{DomainError, Stock, StockFundamental, StockPrice, Timestamp};
use crate::text::{
    contains, contains_text, eq_ignore_ascii_case, eq_ignore_ascii_case_spec, ends_with,
    i64_text, int_text, nat_text, occurs_at, starts_with, to_upper, trim, trim_text, u64_text, upper_text,
    ascii_upper_text, is_ascii_text,
};

verus! {

/// A symbol as Yahoo Finance lists IDX stocks: upper case, ending in `.JK`.
pub open spec fn jk_symbol(symbol: Seq<char>) -> Seq<char> {
    let s = upper_text(symbol);
    if occurs_at(s, ".JK"@, s.len() - 3) {
        s
    } else {
        s + ".JK"@
    }
}

/// The symbol of an ASCII ticker as Yahoo Finance lists it: its ASCII
/// upper case, ending in `.JK`.
pub open spec fn ascii_jk_symbol(symbol: Seq<char>) -> Seq<char> {
    let s = ascii_upper_text(symbol);
    if occurs_at(s, ".JK"@, s.len() - 3) {
        s
    } else {
        s + ".JK"@
    }
}

/// The Yahoo Finance symbol of an IDX stock.
pub fn to_jk(symbol: &str) -> (r: String)
    ensures
        r@ == jk_symbol(symbol@),
        is_ascii_text(symbol@) ==> r@ == ascii_jk_symbol(symbol@),
{
    let s = to_upper(symbol);
    proof {
        reveal_strlit(".JK");
    }
    if ends_with(s.as_str(), ".JK") {
        s
    } else {
        s.concat(".JK")
    }
}

/// Upper-casing ASCII text twice is upper-casing it once, and the result is
/// ASCII.
proof fn lemma_ascii_upper_twice(s: Seq<char>)
    requires
        is_ascii_text(s),
    ensures
        ascii_upper_text(ascii_upper_text(s)) == ascii_upper_text(s),
        is_ascii_text(ascii_upper_text(s)),
{
    assert forall|i: int| 0 <= i < s.len() implies (#[trigger] ascii_upper_text(s)[i] as u32) < 128 by {
        let c = s[i];
        assert((c as u32) < 128);
    }
    assert(ascii_upper_text(ascii_upper_text(s)) =~= ascii_upper_text(s));
}

/// For an ASCII ticker, the Yahoo Finance symbol ends in `.JK`, is ASCII, and
/// normalizing it again leaves it as it is: `to_jk(to_jk(s)) == to_jk(s)`.
pub proof fn law_jk_symbol_is_stable(symbol: Seq<char>)
    requires
        is_ascii_text(symbol),
    ensures
        is_ascii_text(ascii_jk_symbol(symbol)),
        occurs_at(ascii_jk_symbol(symbol), ".JK"@, ascii_jk_symbol(symbol).len() - 3),
        ascii_jk_symbol(ascii_jk_symbol(symbol)) == ascii_jk_symbol(symbol),
{
    reveal_strlit(".JK");
    lemma_ascii_upper_twice(symbol);
    let u = ascii_upper_text(symbol);
    let j = ascii_jk_symbol(symbol);
    if occurs_at(u, ".JK"@, u.len() - 3) {
        assert(j == u);
    } else {
        assert(j == u + ".JK"@);
        assert(j.subrange(j.len() - 3, j.len() as int) =~= ".JK"@);
        assert forall|i: int| 0 <= i < j.len() implies (#[trigger] j[i] as u32) < 128 by {
            if i >= u.len() {
                assert(j[i] == ".JK"@[i - u.len()]);
            }
        }
    }
    lemma_ascii_upper_twice(j);
    assert(ascii_upper_text(j) =~= j) by {
        assert forall|i: int| 0 <= i < j.len() implies ascii_upper_text(j)[i] == j[i] by {
            if i < u.len() {
                assert(j[i] == u[i]);
                assert(ascii_upper_text(u)[i] == u[i]);
            } else {
                assert(j[i] == ".JK"@[i - u.len()]);
            }
        }
    }
}

/// The chart range that covers `days` days of history.
pub open spec fn spec_range_for_days(days: u32) -> Seq<char> {
    if days <= 7 {
        "5d"@
    } else if days <= 31 {
        "1mo"@
    } else if days <= 93 {
        "3mo"@
    } else if days <= 186 {
        "6mo"@
    } else {
        "1y"@
    }
}

/// The chart range that covers `days` days of history.
pub fn range_for_days(days: u32) -> (r: &'static str)
    ensures
        r@ == spec_range_for_days(days),
{
    if days <= 7 {
        "5d"
    } else if days <= 31 {
        "1mo"
    } else if days <= 93 {
        "3mo"
    } else if days <= 186 {
        "6mo"
    } else {
        "1y"
    }
}

/// The chart URL of a stock.
pub open spec fn chart_url_text(symbol: Seq<char>, range: Seq<char>, interval: Seq<char>) -> Seq<char> {
    "https://query1.finance.yahoo.com/v8/finance/chart/"@ + jk_symbol(symbol) + "?range="@ + range
        + "&interval="@ + interval
}

/// The chart URL of a stock.
pub fn chart_url(symbol: &str, range: &str, interval: &str) -> (r: String)
    ensures
        r@ == chart_url_text(symbol@, range@, interval@),
{
    let mut s = String::from_str("https://query1.finance.yahoo.com/v8/finance/chart/");
    s.append(to_jk(symbol).as_str());
    s.append("?range=");
    s.append(range);
    s.append("&interval=");
    s.append(interval);
    s
}

/// The chart from a chart answer: the reported error, if any, refuses it;
/// otherwise it is the last result, and none means the stock is unknown.
pub fn pick_chart<T>(error: Option<String>, result: Option<Vec<T>>, symbol: &str) -> (r: Result<
    T,
    DomainError,
>)
    ensures
        match error {
            Some(e) => r matches Err(DomainError::ExternalService(m)) && m@ == "Yahoo error: "@ + e@,
            None => match result {
                Some(v) => if v@.len() > 0 {
                    r == Ok::<T, DomainError>(v@.last())
                } else {
                    r matches Err(DomainError::StockNotFound(s)) && s@ == symbol@
                },
                None => r matches Err(DomainError::StockNotFound(s)) && s@ == symbol@,
            },
        },
{
    match error {
        Some(e) => {
            let mut m = String::from_str("Yahoo error: ");
            m.append(e.as_str());
            Err(DomainError::ExternalService(m))
        },
        None => match result {
            Some(v) => {
                let mut v = v;
                match v.pop() {
                    Some(c) => Ok(c),
                    None => Err(DomainError::StockNotFound(String::from_str(symbol))),
                }
            },
            None => Err(DomainError::StockNotFound(String::from_str(symbol))),
        },
    }
}

/// The first of two names present, or else `fallback`.
pub open spec fn name_or(a: Option<String>, b: Option<String>, fallback: Seq<char>) -> Seq<char> {
    match a {
        Some(x) => x@,
        None => match b {
            Some(y) => y@,
            None => fallback,
        },
    }
}

/// A stock from its chart metadata: the long name, else the short name, else
/// the symbol; the symbol in upper case; no sector and no market cap.
pub fn stock_from_meta(
    symbol: &str,
    long_name: Option<String>,
    short_name: Option<String>,
    price: Dec,
    volume: Option<u64>,
    at: Timestamp,
) -> (r: Stock)
    ensures
        r.symbol@ == upper_text(symbol@),
        r.name@ == name_or(long_name, short_name, symbol@),
        r.sector@ == Seq::<char>::empty(),
        r.last_price == price,
        r.volume == (match volume {
            Some(v) => v,
            None => 0,
        }),
        r.market_cap == Dec::spec_zero(),
        r.updated_at == at,
{
    let name = match long_name {
        Some(n) => n,
        None => match short_name {
            Some(n) => n,
            None => String::from_str(symbol),
        },
    };
    Stock {
        symbol: to_upper(symbol),
        name,
        sector: String::new(),
        last_price: price,
        volume: match volume {
            Some(v) => v,
            None => 0,
        },
        market_cap: Dec::zero(),
        updated_at: at,
    }
}

/// The daily price series of a chart, one entry per timestamp; an entry may
/// lack a value.
#[derive(Debug)]
pub struct QuoteSeries {
    pub open: Vec<Option<Dec>>,
    pub high: Vec<Option<Dec>>,
    pub low: Vec<Option<Dec>>,
    pub close: Vec<Option<Dec>>,
    pub volume: Vec<Option<u64>>,
}

/// Entry `i` of a series, where it is there.
pub open spec fn entry<T>(v: Seq<Option<T>>, i: int) -> Option<T> {
    if 0 <= i < v.len() {
        v[i]
    } else {
        None
    }
}

fn get_entry<T: Copy>(v: &Vec<Option<T>>, i: usize) -> (r: Option<T>)
    ensures
        r == entry(v@, i as int),
{
    if i < v.len() {
        v[i]
    } else {
        None
    }
}

/// The UTC time `secs` seconds after the epoch, if representable, by
/// `DateTime::from_timestamp` (see `utc_seconds_ok`).
#[verifier::external_body]
pub(crate) fn utc_from_secs(secs: i64) -> (r: Option<Timestamp>)
    ensures
        r is Some == utc_seconds_ok(secs),
        r matches Some(t) ==> t.secs == secs && t.nanos == 0,
{
    match chrono::DateTime::from_timestamp(secs, 0) {
        Some(d) => Some(Timestamp { secs: d.timestamp(), nanos: d.timestamp_subsec_nanos() }),
        None => None,
    }
}

/// Entry `i` has an open, high, low and close price and a valid time.
pub open spec fn complete_at(q: QuoteSeries, ts: Seq<i64>, i: int) -> bool {
    &&& entry(q.open@, i) is Some
    &&& entry(q.high@, i) is Some
    &&& entry(q.low@, i) is Some
    &&& entry(q.close@, i) is Some
    &&& utc_seconds_ok(ts[i])
}

/// The indices of the complete entries among the first `n`.
pub open spec fn complete_indices(q: QuoteSeries, ts: Seq<i64>, n: nat) -> Seq<int>
    decreases n,
{
    if n == 0 {
        Seq::empty()
    } else if complete_at(q, ts, n - 1) {
        complete_indices(q, ts, (n - 1) as nat).push(n - 1)
    } else {
        complete_indices(q, ts, (n - 1) as nat)
    }
}

/// `p` is the day of prices that entry `i` gives.
pub open spec fn price_at(p: StockPrice, symbol: Seq<char>, q: QuoteSeries, ts: Seq<i64>, i: int) -> bool {
    &&& p.symbol@ == symbol
    &&& Some(p.open) == entry(q.open@, i)
    &&& Some(p.high) == entry(q.high@, i)
    &&& Some(p.low) == entry(q.low@, i)
    &&& Some(p.close) == entry(q.close@, i)
    &&& p.volume == match entry(q.volume@, i) {
        Some(v) => v,
        None => 0,
    }
    &&& p.date.secs == ts[i]
    &&& p.date.nanos == 0
}

/// The price history of `symbol` from a chart's timestamps and series: one
/// day per complete entry, in order; none at all is an error.
pub fn price_history(symbol: &str, timestamps: &Vec<i64>, q: &QuoteSeries) -> (r: Result<
    Vec<StockPrice>,
    DomainError,
>)
    ensures
        ({
            let idx = complete_indices(*q, timestamps@, timestamps@.len());
            if idx.len() == 0 {
                r matches Err(DomainError::ExternalService(m)) && m@ == "No price data for "@
                    + symbol@
            } else {
                r matches Ok(v) && v@.len() == idx.len() && forall|k: int|
                    0 <= k < v@.len() ==> price_at(
                        #[trigger] v@[k],
                        upper_text(symbol@),
                        *q,
                        timestamps@,
                        idx[k],
                    )
            }
        }),
{
    let sym = to_upper(symbol);
    let mut out: Vec<StockPrice> = Vec::new();
    let mut i: usize = 0;
    while i < timestamps.len()
        invariant
            i <= timestamps.len(),
            sym@ == upper_text(symbol@),
            out@.len() == complete_indices(*q, timestamps@, i as nat).len(),
            forall|k: int|
                0 <= k < out@.len() ==> price_at(
                    #[trigger] out@[k],
                    sym@,
                    *q,
                    timestamps@,
                    complete_indices(*q, timestamps@, i as nat)[k],
                ),
        decreases timestamps.len() - i,
    {
        let ghost before = out@;
        let o = get_entry(&q.open, i);
        let h = get_entry(&q.high, i);
        let l = get_entry(&q.low, i);
        let c = get_entry(&q.close, i);
        let v = get_entry(&q.volume, i);
        let date = utc_from_secs(timestamps[i]);
        match (o, h, l, c, date) {
            (Some(o), Some(h), Some(l), Some(c), Some(date)) => {
                out.push(
                    StockPrice {
                        symbol: sym.clone(),
                        open: o,
                        high: h,
                        low: l,
                        close: c,
                        volume: match v {
                            Some(v) => v,
                            None => 0,
                        },
                        date,
                    },
                );
                assert forall|k: int| 0 <= k < out@.len() implies price_at(
                    #[trigger] out@[k],
                    sym@,
                    *q,
                    timestamps@,
                    complete_indices(*q, timestamps@, (i + 1) as nat)[k],
                ) by {
                    if k < before.len() {
                        assert(out@[k] == before[k]);
                    }
                }
            },
            _ => {},
        }
        i = i + 1;
    }
    if out.len() == 0 {
        let mut m = String::from_str("No price data for ");
        m.append(symbol);
        return Err(DomainError::ExternalService(m));
    }
    Ok(out)
}

/// Fundamentals as Yahoo gives them: none known, the symbol in upper case.
pub fn empty_fundamentals(symbol: &str) -> (r: StockFundamental)
    ensures
        r.symbol@ == upper_text(symbol@),
        r.pe_ratio is None && r.pb_ratio is None && r.roe is None && r.der is None && r.eps is None
            && r.dividend_yield is None,
{
    StockFundamental {
        symbol: to_upper(symbol),
        pe_ratio: None,
        pb_ratio: None,
        roe: None,
        der: None,
        eps: None,
        dividend_yield: None,
    }
}

/// The IDX site's answer, trimmed, where it is JSON; an empty answer and a
/// non-JSON one (the site's bot challenge) are refused.
pub open spec fn idx_body_result(r: Result<String, DomainError>, body: Seq<char>) -> bool {
    let t = trim_text(body);
    if t.len() == 0 {
        r matches Err(DomainError::ExternalService(m)) && m@ == "IDX returned empty response"@
    } else if !occurs_at(t, "{"@, 0) && !occurs_at(t, "["@, 0) {
        r matches Err(DomainError::ExternalService(m)) && m@ == "IDX returned Cloudflare challenge"@
    } else {
        r matches Ok(s) && s@ == t
    }
}

/// Checks the IDX site's answer.
pub fn check_idx_body(body: &str) -> (r: Result<String, DomainError>)
    ensures
        idx_body_result(r, body@),
{
    let t = trim(body);
    if t.is_empty() {
        return Err(DomainError::ExternalService(String::from_str("IDX returned empty response")));
    }
    if !starts_with(t, "{") && !starts_with(t, "[") {
        return Err(
            DomainError::ExternalService(String::from_str("IDX returned Cloudflare challenge")),
        );
    }
    Ok(String::from_str(t))
}

/// The IDX client tries a request three times at most.
pub const IDX_ATTEMPTS: u32 = 3;

/// The seconds to wait before attempt `attempt` (counted from 0): none
/// before the first, then five seconds per attempt made.
pub fn idx_retry_wait(attempt: u32) -> (r: u64)
    requires
        attempt < IDX_ATTEMPTS,
    ensures
        r == 5 * attempt,
{
    5 * (attempt as u64)
}

/// Whether a failed attempt is tried again: only before the last one.
pub fn idx_retry_after_failure(attempt: u32) -> (r: bool)
    requires
        attempt < IDX_ATTEMPTS,
    ensures
        r == (attempt + 1 < IDX_ATTEMPTS),
{
    attempt < 2
}

/// The path of a stock's daily trading data on the IDX site.
pub fn idx_daily_path(symbol: &str) -> (r: String)
    ensures
        r@ == "/primary/ListedCompany/GetTradingInfoDaily?code="@ + symbol@,
{
    let mut s = String::from_str("/primary/ListedCompany/GetTradingInfoDaily?code=");
    s.append(symbol);
    s
}

/// The path of a stock's recent trading days on the IDX site.
pub fn idx_history_path(symbol: &str, days: u32) -> (r: String)
    ensures
        r@ == "/primary/ListedCompany/GetTradingInfoSS?code="@ + symbol@ + "&start=0&length="@
            + nat_text(days as nat),
{
    let mut s = String::from_str("/primary/ListedCompany/GetTradingInfoSS?code=");
    s.append(symbol);
    s.append("&start=0&length=");
    s.append(u64_text(days as u64).as_str());
    s
}

/// The reporting period the IDX site has ratios for: three months back, in
/// the previous December during the first quarter.
pub open spec fn spec_latest_period(year: i32, month: u32) -> (i32, u32) {
    if month <= 3 {
        ((year - 1) as i32, 12)
    } else {
        (year, (month - 3) as u32)
    }
}

/// The reporting period for the given year and month.
pub fn find_latest_period(year: i32, month: u32) -> (r: (i32, u32))
    requires
        year > i32::MIN,
    ensures
        r == spec_latest_period(year, month),
{
    if month <= 3 {
        (year - 1, 12)
    } else {
        (year, month - 3)
    }
}

/// The current UTC year and month, by `Utc::now`. The year is whatever
/// the clock says; the month lies between 1 and 12, as `chrono` documents.
#[verifier::external_body]
fn now_year_month() -> (r: (i32, u32))
    ensures
        1 <= r.1 <= 12,
        r.0 > i32::MIN,
{
    let t = chrono::Utc::now();
    (chrono::Datelike::year(&t), chrono::Datelike::month(&t))
}

/// The reporting period to ask the IDX site for now; its month lies between
/// 1 and 12.
pub fn current_period() -> (r: (i32, u32))
    ensures
        1 <= r.1 <= 12,
{
    let (year, month) = now_year_month();
    find_latest_period(year, month)
}

/// The path of the IDX site's financial ratios of all companies for a
/// reporting period.
pub fn idx_fundamentals_path(year: i32, month: u32) -> (r: String)
    ensures
        r@ == "/primary/DigitalStatistic/GetApiDataPaginated?urlName=LINK_FINANCIAL_DATA_RATIO&periodYear="@
            + int_text(year as int) + "&periodMonth="@ + nat_text(month as nat)
            + "&periodType=monthly&isPrint=False&cumulative=false&pageSize=1000"@,
{
    let mut s = String::from_str(
        "/primary/DigitalStatistic/GetApiDataPaginated?urlName=LINK_FINANCIAL_DATA_RATIO&periodYear=",
    );
    s.append(i64_text(year as i64).as_str());
    s.append("&periodMonth=");
    s.append(u64_text(month as u64).as_str());
    s.append("&periodType=monthly&isPrint=False&cumulative=false&pageSize=1000");
    s
}

/// A row of the IDX ratio table; the ratios are already decimals.
#[derive(Debug)]
pub struct FinancialRatioRow {
    pub code: Option<String>,
    pub stock_name: Option<String>,
    pub eps: Option<Dec>,
    pub per: Option<Dec>,
    pub price_bv: Option<Dec>,
    pub de_ratio: Option<Dec>,
    pub roe: Option<Dec>,
}

/// The row's code equals the symbol up to ASCII case.
pub open spec fn row_matches(row: FinancialRatioRow, symbol: Seq<char>) -> bool {
    row.code matches Some(c) && eq_ignore_ascii_case_spec(c@, symbol)
}

/// The fundamentals of `symbol` from the first ratio row with its code
/// (compared ignoring ASCII case); no such row means the stock is unknown.
pub fn find_fundamental(symbol: &str, rows: &Vec<FinancialRatioRow>) -> (r: Result<
    StockFundamental,
    DomainError,
>)
    ensures
        match r {
            Ok(f) => exists|i: int|
                0 <= i < rows@.len() && row_matches(#[trigger] rows@[i], symbol@) && (forall|j: int|
                    0 <= j < i ==> !row_matches(#[trigger] rows@[j], symbol@)) && f.symbol@
                    == symbol@ && f.pe_ratio == rows@[i].per && f.pb_ratio == rows@[i].price_bv
                    && f.roe == rows@[i].roe && f.der == rows@[i].de_ratio && f.eps == rows@[i].eps
                    && f.dividend_yield is None,
            Err(e) => e matches DomainError::StockNotFound(s) && s@ == symbol@ && forall|j: int|
                0 <= j < rows@.len() ==> !row_matches(#[trigger] rows@[j], symbol@),
        },
{
    let mut i: usize = 0;
    while i < rows.len()
        invariant
            i <= rows.len(),
            forall|j: int| 0 <= j < i ==> !row_matches(#[trigger] rows@[j], symbol@),
        decreases rows.len() - i,
    {
        let row = &rows[i];
        let hit = match &row.code {
            Some(c) => eq_ignore_ascii_case(c.as_str(), symbol),
            None => false,
        };
        if hit {
            assert(row_matches(rows@[i as int], symbol@));
            return Ok(
                StockFundamental {
                    symbol: String::from_str(symbol),
                    pe_ratio: row.per,
                    pb_ratio: row.price_bv,
                    roe: row.roe,
                    der: row.de_ratio,
                    eps: row.eps,
                    dividend_yield: None,
                },
            );
        }
        i = i + 1;
    }
    Err(DomainError::StockNotFound(String::from_str(symbol)))
}

/// A listed company on the IDX site: its code and its name.
#[derive(Debug)]
pub struct CompanyProfile {
    pub kode_emiten: Option<String>,
    pub nama_emiten: Option<String>,
}

/// The IDX site's list of listed companies.
#[derive(Debug)]
pub struct CompanyProfilesResponse {
    pub data: Vec<CompanyProfile>,
}

/// A company matches a query (already upper-cased) when its code contains
/// it, or its upper-cased name does.
pub open spec fn profile_matches(p: CompanyProfile, q: Seq<char>) -> bool {
    ||| p.kode_emiten matches Some(k) && contains_text(k@, q)
    ||| p.nama_emiten matches Some(n) && contains_text(upper_text(n@), q)
}

/// The matching companies among the first `n`, in order.
pub open spec fn matching_profiles(ps: Seq<CompanyProfile>, q: Seq<char>, n: nat) -> Seq<CompanyProfile>
    decreases n,
{
    if n == 0 {
        Seq::empty()
    } else if profile_matches(ps[n - 1], q) {
        matching_profiles(ps, q, (n - 1) as nat).push(ps[n - 1])
    } else {
        matching_profiles(ps, q, (n - 1) as nat)
    }
}

/// The most results a search gives.
pub const SEARCH_LIMIT: usize = 20;

/// `s` is the stock a company entry gives: its code and name (empty where
/// missing), nothing else known.
pub open spec fn stock_of_profile(s: Stock, p: CompanyProfile) -> bool {
    &&& s.symbol@ == (match p.kode_emiten {
        Some(k) => k@,
        None => Seq::empty(),
    })
    &&& s.name@ == (match p.nama_emiten {
        Some(n) => n@,
        None => Seq::empty(),
    })
    &&& s.sector@ == Seq::<char>::empty()
    &&& s.last_price == Dec::spec_zero()
    &&& s.volume == 0
    &&& s.market_cap == Dec::spec_zero()
}

/// The first twenty companies matching `query` (compared in upper case), as
/// stocks, in order.
pub fn search_profiles(profiles: &Vec<CompanyProfile>, query: &str) -> (r: Vec<Stock>)
    ensures
        ({
            let all = matching_profiles(profiles@, upper_text(query@), profiles@.len());
            let n = if all.len() < SEARCH_LIMIT { all.len() as int } else { SEARCH_LIMIT as int };
            &&& r@.len() == n
            &&& forall|k: int| 0 <= k < n ==> stock_of_profile(#[trigger] r@[k], all[k])
        }),
{
    let q = to_upper(query);
    let ghost ps = profiles@;
    let mut out: Vec<Stock> = Vec::new();
    let mut i: usize = 0;
    while i < profiles.len() && out.len() < SEARCH_LIMIT
        invariant
            ps == profiles@,
            q@ == upper_text(query@),
            i <= ps.len(),
            out@.len() <= SEARCH_LIMIT,
            out@.len() == matching_profiles(ps, q@, i as nat).len(),
            forall|k: int|
                0 <= k < out@.len() ==> stock_of_profile(
                    #[trigger] out@[k],
                    matching_profiles(ps, q@, i as nat)[k],
                ),
        decreases ps.len() - i,
    {
        let p = &profiles[i];
        let by_code = match &p.kode_emiten {
            Some(k) => contains(k.as_str(), q.as_str()),
            None => false,
        };
        let hit = by_code || match &p.nama_emiten {
            Some(n) => {
                let upper = to_upper(n.as_str());
                contains(upper.as_str(), q.as_str())
            },
            None => false,
        };
        if hit {
            let ghost before = out@;
            out.push(
                Stock {
                    symbol: match &p.kode_emiten {
                        Some(k) => k.clone(),
                        None => String::new(),
                    },
                    name: match &p.nama_emiten {
                        Some(n) => n.clone(),
                        None => String::new(),
                    },
                    sector: String::new(),
                    last_price: Dec::zero(),
                    volume: 0,
                    market_cap: Dec::zero(),
                    updated_at: now(),
                },
            );
            assert forall|k: int| 0 <= k < out@.len() implies stock_of_profile(
                #[trigger] out@[k],
                matching_profiles(ps, q@, (i + 1) as nat)[k],
            ) by {
                if k < before.len() {
                    assert(out@[k] == before[k]);
                }
            }
        }
        i = i + 1;
    }
    proof {
        let all = matching_profiles(ps, q@, ps.len());
        lemma_matching_prefix(ps, q@, i as nat, ps.len());
        if out@.len() < SEARCH_LIMIT {
            assert(i == ps.len());
        }
    }
    out
}

/// Matches among fewer companies are a prefix of matches among more.
proof fn lemma_matching_prefix(ps: Seq<CompanyProfile>, q: Seq<char>, m: nat, n: nat)
    requires
        m <= n,
    ensures
        matching_profiles(ps, q, m).len() <= matching_profiles(ps, q, n).len(),
        forall|k: int|
            0 <= k < matching_profiles(ps, q, m).len() ==> #[trigger] matching_profiles(ps, q, n)[k]
                == matching_profiles(ps, q, m)[k],
    decreases n - m,
{
    if m < n {
        lemma_matching_prefix(ps, q, m, (n - 1) as nat);
    }
}

} // verus!
