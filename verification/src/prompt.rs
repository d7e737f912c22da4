//! What the AI analyst is asked, and how its answers are read.
use vstd::prelude::*;
use vstd::string::StrSliceExecFns;

use crate::clock::{date_text, new_uuid, now, ymd_text};
use crate::decimal::{dtext, Dec};
use crate::domain::{
    signal_name, trend_name, DomainError, PriceTarget, Signal, StockAnalysis, StockFundamental, StockPrice,
    StockSuggestion, Timestamp, Trend,
};
use crate::json::{
    as_str, deref_opt, json_items_of_text, json_value_of_text, parse_dec, parse_json_items,
    parse_json_text, spec_field, spec_parse_dec, spec_str, JsonNumber, JsonValue,
};
use crate::text::{
    chars_of, find_char, first_index_of, last_index_of, lemma_first_index_bounds,
    lemma_last_index_bounds, nat_text, rfind_char, same_text, trim, trim_text, u64_text,
};

verus! {

/// The system message for an analysis.
pub const ANALYSIS_SYSTEM: &'static str = "You are an expert Indonesian stock market analyst. Analyze stocks comprehensively using: 1) Technical analysis from price data, 2) Fundamental analysis from financial ratios, 3) Corporate governance \u{2014} are executives trustworthy? Any scandals, lawsuits, or fraud? 4) Recent news and events \u{2014} regulatory actions, lawsuits, management changes, 5) Industry risks and sector outlook. If the company has known fraud, governance issues, or ongoing legal problems, lower confidence and recommend caution (Hold/Sell). Respond ONLY in valid JSON with these fields: signal (StrongBuy|Buy|Hold|Sell|StrongSell), trend (Bullish|Bearish|Sideways), confidence (0-100), entry (price), take_profit (price), stop_loss (price), risk_factors (array of strings \u{2014} fraud, governance, legal, market risks), reasoning (one paragraph in English covering technicals, fundamentals, and governance).";

/// The system message for suggestions.
pub const SUGGEST_SYSTEM: &'static str = "You are an Indonesian stock market analyst. Suggest IDX stocks likely to rise or fall. Respond ONLY as a JSON array of objects with: symbol, name, signal (StrongBuy|Buy|Hold|Sell|StrongSell), trend (Bullish|Bearish|Sideways), current_price, target_price, potential_return (percent), confidence (0-100), reason (one sentence).";

/// The signal a text names; anything unknown is `Hold`.
pub open spec fn spec_parse_signal(s: Seq<char>) -> Signal {
    if s == "StrongBuy"@ {
        Signal::StrongBuy
    } else if s == "Buy"@ {
        Signal::Buy
    } else if s == "Sell"@ {
        Signal::Sell
    } else if s == "StrongSell"@ {
        Signal::StrongSell
    } else {
        Signal::Hold
    }
}

/// The trend a text names; anything unknown is `Sideways`.
pub open spec fn spec_parse_trend(s: Seq<char>) -> Trend {
    if s == "Bullish"@ {
        Trend::Bullish
    } else if s == "Bearish"@ {
        Trend::Bearish
    } else {
        Trend::Sideways
    }
}

/// Each signal's name reads back as that signal.
pub proof fn law_signal_names_parse_back(sig: Signal)
    ensures
        spec_parse_signal(signal_name(sig)) == sig,
{
    reveal_strlit("StrongBuy");
    reveal_strlit("Buy");
    reveal_strlit("Hold");
    reveal_strlit("Sell");
    reveal_strlit("StrongSell");
    let n = signal_name(sig);
    match sig {
        Signal::StrongBuy => {},
        Signal::Buy => {
            assert(n.len() != "StrongBuy"@.len());
        },
        Signal::Hold => {
            assert(n.len() != "StrongBuy"@.len());
            assert(n[0] != "Buy"@[0]);
            assert(n[0] != "Sell"@[0]);
            assert(n.len() != "StrongSell"@.len());
        },
        Signal::Sell => {
            assert(n.len() != "StrongBuy"@.len());
            assert(n[0] != "Buy"@[0]);
        },
        Signal::StrongSell => {
            assert(n.len() != "StrongBuy"@.len());
            assert(n.len() != "Buy"@.len());
            assert(n.len() != "Sell"@.len());
        },
    }
}

/// Each trend's name reads back as that trend.
pub proof fn law_trend_names_parse_back(t: Trend)
    ensures
        spec_parse_trend(trend_name(t)) == t,
{
    reveal_strlit("Bullish");
    reveal_strlit("Bearish");
    reveal_strlit("Sideways");
    let n = trend_name(t);
    match t {
        Trend::Bullish => {},
        Trend::Bearish => {
            assert(n[1] != "Bullish"@[1]);
        },
        Trend::Sideways => {
            assert(n[0] != "Bullish"@[0]);
            assert(n[0] != "Bearish"@[0]);
        },
    }
}

/// Reads a signal.
pub fn parse_signal(s: &str) -> (r: Signal)
    ensures
        r == spec_parse_signal(s@),
{
    if same_text(s, "StrongBuy") {
        Signal::StrongBuy
    } else if same_text(s, "Buy") {
        Signal::Buy
    } else if same_text(s, "Sell") {
        Signal::Sell
    } else if same_text(s, "StrongSell") {
        Signal::StrongSell
    } else {
        Signal::Hold
    }
}

/// Reads a trend.
pub fn parse_trend(s: &str) -> (r: Trend)
    ensures
        r == spec_parse_trend(s@),
{
    if same_text(s, "Bullish") {
        Trend::Bullish
    } else if same_text(s, "Bearish") {
        Trend::Bearish
    } else {
        Trend::Sideways
    }
}

/// Where the JSON starts in a text: at the first `[` when it comes before
/// the first `{`, else at the first `{`, else at the first `[`.
pub open spec fn json_start(t: Seq<char>) -> Option<int> {
    match (first_index_of(t, '{'), first_index_of(t, '[')) {
        (Some(b), Some(k)) => if k < b {
            Some(k)
        } else {
            Some(b)
        },
        (Some(b), None) => Some(b),
        (None, Some(k)) => Some(k),
        (None, None) => None,
    }
}

/// The bracket that closes what starts at `start`.
pub open spec fn closing_of(t: Seq<char>, start: int) -> char {
    if t[start] == '[' {
        ']'
    } else {
        '}'
    }
}

/// The last closing bracket lies more than one place before the start, where
/// slicing the text panics.
pub open spec fn extract_fails(raw: Seq<char>) -> bool {
    let t = trim_text(raw);
    match json_start(t) {
        Some(start) => match last_index_of(t, closing_of(t, start)) {
            Some(end) => end + 1 < start,
            None => false,
        },
        None => false,
    }
}

/// The JSON part of a reply: the trimmed text from the first opening
/// bracket to the last matching closing bracket; the trimmed text itself
/// where there is no opening bracket or no closing one.
pub open spec fn spec_extract_json(raw: Seq<char>) -> Seq<char> {
    let t = trim_text(raw);
    match json_start(t) {
        Some(start) => match last_index_of(t, closing_of(t, start)) {
            Some(end) => t.subrange(start, end + 1),
            None => t,
        },
        None => t,
    }
}

/// The start of the JSON and its closing bracket's last position, if any.
fn locate_json(trimmed: &str) -> (r: Option<(usize, Option<usize>)>)
    ensures
        trimmed@.len() <= usize::MAX,
        match json_start(trimmed@) {
            None => r is None,
            Some(start) => r matches Some((st, end)) && st == start && start < trimmed@.len()
                && match end {
                Some(e) => last_index_of(trimmed@, closing_of(trimmed@, start)) == Some(e as int)
                    && e < trimmed@.len(),
                None => last_index_of(trimmed@, closing_of(trimmed@, start)) is None,
            },
        },
{
    let cs = chars_of(trimmed);
    assert(cs@.len() == trimmed@.len());
    let first_brace = find_char(&cs, '{');
    let first_bracket = find_char(&cs, '[');
    proof {
        lemma_first_index_bounds(cs@, '{');
        lemma_first_index_bounds(cs@, '[');
    }
    let start = match (first_brace, first_bracket) {
        (Some(b), Some(k)) => if k < b {
            k
        } else {
            b
        },
        (Some(b), None) => b,
        (None, Some(k)) => k,
        (None, None) => {
            return None;
        },
    };
    assert(cs@ == trimmed@);
    assert(json_start(trimmed@) == Some(start as int));
    let close = if cs[start] == '[' {
        ']'
    } else {
        '}'
    };
    assert(close == closing_of(trimmed@, start as int));
    proof {
        lemma_last_index_bounds(cs@, close);
    }
    let end = rfind_char(&cs, close);
    Some((start, end))
}

/// The JSON part of a reply.
pub fn extract_json(raw: &str) -> (r: &str)
    requires
        !extract_fails(raw@),
    ensures
        r@ == spec_extract_json(raw@),
{
    let trimmed = trim(raw);
    match locate_json(trimmed) {
        None => trimmed,
        Some((start, None)) => trimmed,
        Some((start, Some(end))) => trimmed.substring_char(start, end + 1),
    }
}

/// The JSON part of a reply, or nothing where taking it out would panic.
pub fn try_extract_json(raw: &str) -> (r: Option<&str>)
    ensures
        match r {
            Some(s) => !extract_fails(raw@) && s@ == spec_extract_json(raw@),
            None => extract_fails(raw@),
        },
{
    let trimmed = trim(raw);
    match locate_json(trimmed) {
        Some((start, Some(end))) => {
            if start > end && start - end > 1 {
                return None;
            }
        },
        _ => {},
    }
    Some(extract_json(raw))
}

/// The request for `limit` suggestions.
pub open spec fn suggest_prompt(limit: nat) -> Seq<char> {
    "Suggest the top "@ + nat_text(limit)
        + " IDX stocks right now (mix of potential risers and fallers). Use current market knowledge. Respond as JSON array."@
}

/// Asks for `limit` suggestions.
pub fn build_suggest_prompt(limit: usize) -> (r: String)
    ensures
        r@ == suggest_prompt(limit as nat),
{
    let mut s = String::from_str("Suggest the top ");
    s.append(u64_text(limit as u64).as_str());
    s.append(
        " IDX stocks right now (mix of potential risers and fallers). Use current market knowledge. Respond as JSON array.",
    );
    s
}

/// A decimal's text, or `N/A` for none.
pub open spec fn opt_text(o: Option<Dec>) -> Seq<char> {
    match o {
        Some(d) => dtext(d),
        None => "N/A"@,
    }
}

/// The text of an optional ratio: the decimal, or `N/A`.
pub fn fmt_opt(v: Option<Dec>) -> (r: String)
    requires
        v matches Some(d) ==> d.wf(),
    ensures
        r@ == opt_text(v),
{
    match v {
        Some(d) => d.to_text(),
        None => String::from_str("N/A"),
    }
}

/// One day of prices as the prompt lists it.
pub open spec fn price_line(p: StockPrice) -> Seq<char> {
    ymd_text(p.date.secs, p.date.nanos) + ": O="@ + dtext(p.open) + " H="@ + dtext(p.high) + " L="@
        + dtext(p.low) + " C="@ + dtext(p.close) + " V="@ + nat_text(p.volume as nat)
}

/// How many days the prompt lists: the newest 30 at most.
pub open spec fn recent_count(n: nat) -> nat {
    if n < 30 {
        n
    } else {
        30
    }
}

/// The listed days, newest first (the list of prices is oldest first).
pub open spec fn recent_lines(ps: Seq<StockPrice>) -> Seq<Seq<char>> {
    Seq::new(recent_count(ps.len()), |i: int| price_line(ps[ps.len() - 1 - i]))
}

/// Lines joined by line breaks.
pub open spec fn join_lines(ls: Seq<Seq<char>>) -> Seq<char>
    decreases ls.len(),
{
    if ls.len() == 0 {
        Seq::empty()
    } else if ls.len() == 1 {
        ls[0]
    } else {
        join_lines(ls.drop_last()) + "\n"@ + ls.last()
    }
}

/// The request for an analysis of `symbol`.
pub open spec fn analysis_prompt(symbol: Seq<char>, ps: Seq<StockPrice>, f: StockFundamental) -> Seq<
    char,
> {
    "Analyze "@ + symbol + " on IDX.\n\nRecent prices (newest first):\n"@ + join_lines(
        recent_lines(ps),
    ) + "\n\nFundamentals:\nPE="@ + opt_text(f.pe_ratio) + " PB="@ + opt_text(f.pb_ratio)
        + " ROE="@ + opt_text(f.roe) + " DER="@ + opt_text(f.der) + " EPS="@ + opt_text(f.eps)
        + " DivYield="@ + opt_text(f.dividend_yield)
        + "\n\nBased on your knowledge, also evaluate:\n- Is this company involved in any fraud, scandals, or legal issues?\n- Are the executives/management trustworthy and competent?\n- Any recent news that could impact the stock?\n- What are the key risk factors?\n\nProvide your comprehensive analysis as JSON."@
}

fn price_line_text(p: &StockPrice) -> (r: String)
    requires
        p.wf(),
    ensures
        r@ == price_line(*p),
{
    let mut s = date_text(p.date);
    s.append(": O=");
    s.append(p.open.to_text().as_str());
    s.append(" H=");
    s.append(p.high.to_text().as_str());
    s.append(" L=");
    s.append(p.low.to_text().as_str());
    s.append(" C=");
    s.append(p.close.to_text().as_str());
    s.append(" V=");
    s.append(u64_text(p.volume).as_str());
    s
}

/// Asks for an analysis of `symbol` from its prices (oldest first) and its
/// fundamentals.
pub fn build_analysis_prompt(symbol: &str, prices: &[StockPrice], fund: &StockFundamental) -> (r:
    String)
    requires
        forall|i: int| 0 <= i < prices@.len() ==> (#[trigger] prices@[i]).wf(),
        fund.wf(),
    ensures
        r@ == analysis_prompt(symbol@, prices@, *fund),
{
    let n = prices.len();
    let count = if n < 30 {
        n
    } else {
        30
    };
    let ghost lines = recent_lines(prices@);
    let mut joined = String::new();
    let mut i: usize = 0;
    assert(lines.take(0) =~= Seq::<Seq<char>>::empty());
    while i < count
        invariant
            n == prices@.len(),
            count == recent_count(n as nat),
            lines == recent_lines(prices@),
            forall|j: int| 0 <= j < prices@.len() ==> (#[trigger] prices@[j]).wf(),
            i <= count,
            joined@ == join_lines(lines.take(i as int)),
        decreases count - i,
    {
        let line = price_line_text(&prices[n - 1 - i]);
        assert(lines[i as int] == price_line(prices@[n - 1 - i]));
        if i > 0 {
            joined.append("\n");
        }
        joined.append(line.as_str());
        assert(lines.take(i + 1).drop_last() =~= lines.take(i as int));
        assert(lines.take(i + 1).last() == lines[i as int]);
        if i == 0 {
            assert(joined@ =~= join_lines(lines.take(1)));
        }
        i = i + 1;
    }
    assert(lines.take(count as int) =~= lines);
    let mut s = String::from_str("Analyze ");
    s.append(symbol);
    s.append(" on IDX.\n\nRecent prices (newest first):\n");
    s.append(joined.as_str());
    s.append("\n\nFundamentals:\nPE=");
    s.append(fmt_opt(fund.pe_ratio).as_str());
    s.append(" PB=");
    s.append(fmt_opt(fund.pb_ratio).as_str());
    s.append(" ROE=");
    s.append(fmt_opt(fund.roe).as_str());
    s.append(" DER=");
    s.append(fmt_opt(fund.der).as_str());
    s.append(" EPS=");
    s.append(fmt_opt(fund.eps).as_str());
    s.append(" DivYield=");
    s.append(fmt_opt(fund.dividend_yield).as_str());
    s.append(
        "\n\nBased on your knowledge, also evaluate:\n- Is this company involved in any fraud, scandals, or legal issues?\n- Are the executives/management trustworthy and competent?\n- Any recent news that could impact the stock?\n- What are the key risk factors?\n\nProvide your comprehensive analysis as JSON.",
    );
    s
}

/// A text, or `default` where there is none.
pub open spec fn or_text(o: Option<Seq<char>>, default: Seq<char>) -> Seq<char> {
    match o {
        Some(t) => t,
        None => default,
    }
}

/// The strings among a list of values, in order.
pub open spec fn strings_of(items: Seq<JsonValue>) -> Seq<Seq<char>>
    decreases items.len(),
{
    if items.len() == 0 {
        Seq::empty()
    } else {
        match items.last() {
            JsonValue::Str(t) => strings_of(items.drop_last()).push(t@),
            _ => strings_of(items.drop_last()),
        }
    }
}

/// The strings of a value that is an array; none otherwise.
pub open spec fn string_items(v: Option<JsonValue>) -> Seq<Seq<char>> {
    match v {
        Some(JsonValue::Array(items)) => strings_of(items@),
        _ => Seq::empty(),
    }
}

/// The member `key` of `v`, read as text.
pub open spec fn field_text(v: JsonValue, key: Seq<char>) -> Option<Seq<char>> {
    spec_str(spec_field(v, key))
}

/// The analysis that an answer `v` gives of `symbol`, with id `id` made at
/// `at`: missing members give `Hold`, `Sideways`, zero and empty text.
pub open spec fn analysis_from(
    a: StockAnalysis,
    symbol: Seq<char>,
    v: JsonValue,
    id: u128,
    at: Timestamp,
) -> bool {
    &&& a.id == id
    &&& a.symbol@ == symbol
    &&& a.signal == spec_parse_signal(or_text(field_text(v, "signal"@), "Hold"@))
    &&& a.trend == spec_parse_trend(or_text(field_text(v, "trend"@), "Sideways"@))
    &&& a.confidence == spec_parse_dec(spec_field(v, "confidence"@))
    &&& a.price_target.entry == spec_parse_dec(spec_field(v, "entry"@))
    &&& a.price_target.take_profit == spec_parse_dec(spec_field(v, "take_profit"@))
    &&& a.price_target.stop_loss == spec_parse_dec(spec_field(v, "stop_loss"@))
    &&& a.risk_factors@.map_values(|t: String| t@) == string_items(spec_field(v, "risk_factors"@))
    &&& a.reasoning@ == or_text(field_text(v, "reasoning"@), ""@)
    &&& a.analyzed_at == at
}

fn text_or(v: Option<&JsonValue>, default: &str) -> (r: String)
    ensures
        r@ == or_text(spec_str(deref_opt(v)), default@),
{
    match as_str(v) {
        Some(t) => t,
        None => String::from_str(default),
    }
}

fn strings_in(v: Option<&JsonValue>) -> (r: Vec<String>)
    ensures
        r@.map_values(|t: String| t@) == string_items(deref_opt(v)),
{
    let mut out: Vec<String> = Vec::new();
    match v {
        Some(JsonValue::Array(items)) => {
            let mut i: usize = 0;
            assert(items@.take(0) =~= Seq::<JsonValue>::empty());
            assert(out@.map_values(|t: String| t@) =~= Seq::<Seq<char>>::empty());
            while i < items.len()
                invariant
                    i <= items.len(),
                    out@.map_values(|t: String| t@) == strings_of(items@.take(i as int)),
                decreases items.len() - i,
            {
                assert(items@.take(i + 1).drop_last() =~= items@.take(i as int));
                assert(items@.take(i + 1).last() == items@[i as int]);
                match &items[i] {
                    JsonValue::Str(t) => {
                        let ghost before = out@;
                        out.push(t.clone());
                        assert(out@.map_values(|t: String| t@) =~= before.map_values(|t: String| t@).push(t@));
                    },
                    _ => {},
                }
                i = i + 1;
            }
            assert(items@.take(items.len() as int) =~= items@);
        },
        _ => {
            assert(out@.map_values(|t: String| t@) =~= Seq::<Seq<char>>::empty());
        },
    }
    out
}

/// The analysis an answer gives of `symbol`, with the given id and time.
pub fn analysis_from_json(symbol: &str, v: &JsonValue, id: u128, at: Timestamp) -> (r:
    StockAnalysis)
    ensures
        analysis_from(r, symbol@, *v, id, at),
        r.confidence.wf() && r.price_target.wf(),
{
    let signal_text = text_or(v.field("signal"), "Hold");
    let trend_text = text_or(v.field("trend"), "Sideways");
    StockAnalysis {
        id,
        symbol: String::from_str(symbol),
        signal: parse_signal(signal_text.as_str()),
        trend: parse_trend(trend_text.as_str()),
        confidence: parse_dec(v.field("confidence")),
        price_target: PriceTarget {
            entry: parse_dec(v.field("entry")),
            take_profit: parse_dec(v.field("take_profit")),
            stop_loss: parse_dec(v.field("stop_loss")),
        },
        risk_factors: strings_in(v.field("risk_factors")),
        reasoning: text_or(v.field("reasoning"), ""),
        analyzed_at: at,
    }
}

/// The refusal of an answer that is not JSON.
pub open spec fn parse_failure_text(e: Seq<char>) -> Seq<char> {
    "parse: "@ + e
}

/// The analysis of `symbol` from the parsed answer (or the parser's error),
/// with a fresh random id and the current time.
pub fn analysis_of_parsed(symbol: &str, parsed: Result<JsonValue, String>) -> (r: Result<
    StockAnalysis,
    DomainError,
>)
    ensures
        match parsed {
            Err(e) => r matches Err(DomainError::AnalysisFailed(m)) && m@ == parse_failure_text(e@),
            Ok(v) => r matches Ok(a) && analysis_from(a, symbol@, v, a.id, a.analyzed_at),
        },
{
    match parsed {
        Err(e) => {
            let mut m = String::from_str("parse: ");
            m.append(e.as_str());
            Err(DomainError::AnalysisFailed(m))
        },
        Ok(v) => Ok(analysis_from_json(symbol, &v, new_uuid(), now())),
    }
}

/// The suggestion an answer item `v` gives: missing members give empty
/// text, `Hold`, `Sideways` and zero.
pub open spec fn suggestion_from(s: StockSuggestion, v: JsonValue) -> bool {
    &&& s.symbol@ == or_text(field_text(v, "symbol"@), ""@)
    &&& s.name@ == or_text(field_text(v, "name"@), ""@)
    &&& s.signal == spec_parse_signal(or_text(field_text(v, "signal"@), "Hold"@))
    &&& s.trend == spec_parse_trend(or_text(field_text(v, "trend"@), "Sideways"@))
    &&& s.current_price == spec_parse_dec(spec_field(v, "current_price"@))
    &&& s.target_price == spec_parse_dec(spec_field(v, "target_price"@))
    &&& s.potential_return == spec_parse_dec(spec_field(v, "potential_return"@))
    &&& s.confidence == spec_parse_dec(spec_field(v, "confidence"@))
    &&& s.reason@ == or_text(field_text(v, "reason"@), ""@)
}

/// A suggestion keeps the numbers of its answer item as given: a whole
/// number, negative ones included (a falling stock's potential return),
/// becomes the decimal of that number.
pub proof fn law_suggestion_numbers_as_given(s: StockSuggestion, v: JsonValue, n: int)
    requires
        suggestion_from(s, v),
        (spec_field(v, "potential_return"@) matches Some(JsonValue::Number(JsonNumber::NegInt(i)))
            && i == n) || (spec_field(v, "potential_return"@) matches Some(
            JsonValue::Number(JsonNumber::PosInt(u)),
        ) && u == n),
    ensures
        s.potential_return.mantissa == n,
        s.potential_return.scale == 0,
{
}

/// The suggestion one answer item gives.
pub fn suggestion_from_json(v: &JsonValue) -> (r: StockSuggestion)
    ensures
        suggestion_from(r, *v),
{
    let signal_text = text_or(v.field("signal"), "Hold");
    let trend_text = text_or(v.field("trend"), "Sideways");
    StockSuggestion {
        symbol: text_or(v.field("symbol"), ""),
        name: text_or(v.field("name"), ""),
        signal: parse_signal(signal_text.as_str()),
        trend: parse_trend(trend_text.as_str()),
        current_price: parse_dec(v.field("current_price")),
        target_price: parse_dec(v.field("target_price")),
        potential_return: parse_dec(v.field("potential_return")),
        confidence: parse_dec(v.field("confidence")),
        reason: text_or(v.field("reason"), ""),
    }
}

/// The suggestions from the parsed answer array (or the parser's error), one
/// per item, in order.
pub fn suggestions_of_parsed(parsed: Result<Vec<JsonValue>, String>) -> (r: Result<
    Vec<StockSuggestion>,
    DomainError,
>)
    ensures
        match parsed {
            Err(e) => r matches Err(DomainError::AnalysisFailed(m)) && m@ == parse_failure_text(e@),
            Ok(items) => r matches Ok(out) && out@.len() == items@.len() && forall|i: int|
                0 <= i < items@.len() ==> suggestion_from(#[trigger] out@[i], items@[i]),
        },
{
    match parsed {
        Err(e) => {
            let mut m = String::from_str("parse: ");
            m.append(e.as_str());
            Err(DomainError::AnalysisFailed(m))
        },
        Ok(items) => {
            let mut out: Vec<StockSuggestion> = Vec::new();
            let mut i: usize = 0;
            while i < items.len()
                invariant
                    i <= items.len(),
                    out@.len() == i,
                    forall|j: int| 0 <= j < i ==> suggestion_from(#[trigger] out@[j], items@[j]),
                decreases items.len() - i,
            {
                out.push(suggestion_from_json(&items[i]));
                i = i + 1;
            }
            Ok(out)
        },
    }
}

/// The analysis of `symbol` in an AI answer: its JSON part read by
/// `serde_json`; where that is no JSON, an analysis failure with the
/// reader's message.
pub fn parse_analysis(symbol: &str, raw: &str) -> (r: Result<StockAnalysis, DomainError>)
    requires
        !extract_fails(raw@),
    ensures
        match json_value_of_text(spec_extract_json(raw@)) {
            Err(e) => r matches Err(DomainError::AnalysisFailed(m)) && m@ == parse_failure_text(e),
            Ok(v) => r matches Ok(a) && analysis_from(a, symbol@, v, a.id, a.analyzed_at),
        },
{
    let json = extract_json(raw);
    analysis_of_parsed(symbol, parse_json_text(json))
}

/// The suggestions in an AI answer: its JSON part read by `serde_json` as a
/// list, one suggestion per item, in order; where that is no list, an
/// analysis failure with the reader's message.
pub fn parse_suggestions(raw: &str) -> (r: Result<Vec<StockSuggestion>, DomainError>)
    requires
        !extract_fails(raw@),
    ensures
        match json_items_of_text(spec_extract_json(raw@)) {
            Err(e) => r matches Err(DomainError::AnalysisFailed(m)) && m@ == parse_failure_text(e),
            Ok(items) => r matches Ok(out) && out@.len() == items.len() && forall|i: int|
                0 <= i < items.len() ==> suggestion_from(#[trigger] out@[i], items[i]),
        },
{
    let json = extract_json(raw);
    suggestions_of_parsed(parse_json_items(json))
}

/// The chat-completions endpoint of an AI service.
pub fn chat_url(api_url: &str) -> (r: String)
    ensures
        r@ == api_url@ + "/v1/chat/completions"@,
{
    let s = String::from_str(api_url);
    s.concat("/v1/chat/completions")
}

/// The error of a chat request that the service answered with a status
/// other than success (`status` is the status line, `text` the body).
pub fn chat_rejected(status: &str, text: &str) -> (r: DomainError)
    ensures
        r == DomainError::ExternalService(r->ExternalService_0),
        r->ExternalService_0@ == "DeepSeek API "@ + status@ + ": "@ + text@,
{
    let mut m = String::from_str("DeepSeek API ");
    m.append(status);
    m.append(": ");
    m.append(text);
    DomainError::ExternalService(m)
}

/// The answer of a chat: the content of the first choice; an analysis
/// failure where there is none.
pub fn first_choice(contents: Vec<String>) -> (r: Result<String, DomainError>)
    ensures
        contents@.len() > 0 ==> (r matches Ok(c) && c@ == contents@[0]@),
        contents@.len() == 0 ==> (r matches Err(DomainError::AnalysisFailed(m)) && m@
            == "empty response"@),
{
    let mut contents = contents;
    if contents.len() == 0 {
        Err(DomainError::AnalysisFailed(String::from_str("empty response")))
    } else {
        Ok(contents.swap_remove(0))
    }
}

} // verus!
