use autotrade::decimal::Dec;
use autotrade::domain::{DomainError, Timestamp};
use autotrade::market::{
    chart_url, check_idx_body, current_period, empty_fundamentals, find_fundamental,
    find_latest_period, idx_daily_path, idx_fundamentals_path, idx_history_path, idx_retry_after_failure,
    idx_retry_wait, pick_chart, price_history, range_for_days, search_profiles, stock_from_meta, to_jk,
    CompanyProfile, FinancialRatioRow, QuoteSeries,
};

#[test]
fn yahoo_symbols_end_in_jk() {
    assert_eq!(to_jk("bbca"), "BBCA.JK");
    assert_eq!(to_jk("TLKM.JK"), "TLKM.JK");
    assert_eq!(to_jk("asii.jk"), "ASII.JK");
}

#[test]
fn normalizing_a_yahoo_symbol_again_changes_nothing() {
    for s in ["bbca", "TLKM.JK", "asii.jk", "goto", ""] {
        let once = to_jk(s);
        assert_eq!(to_jk(&once), once);
        assert!(once.ends_with(".JK"));
    }
}

#[test]
fn ranges_cover_the_days_asked_for() {
    assert_eq!(range_for_days(1), "5d");
    assert_eq!(range_for_days(7), "5d");
    assert_eq!(range_for_days(8), "1mo");
    assert_eq!(range_for_days(31), "1mo");
    assert_eq!(range_for_days(90), "3mo");
    assert_eq!(range_for_days(93), "3mo");
    assert_eq!(range_for_days(180), "6mo");
    assert_eq!(range_for_days(365), "1y");
}

#[test]
fn chart_urls() {
    assert_eq!(
        chart_url("bbca", "3mo", "1d"),
        "https://query1.finance.yahoo.com/v8/finance/chart/BBCA.JK?range=3mo&interval=1d"
    );
}

#[test]
fn a_chart_error_is_reported() {
    match pick_chart::<u8>(Some("Not Found".into()), None, "XXXX") {
        Err(DomainError::ExternalService(m)) => assert_eq!(m, "Yahoo error: Not Found"),
        other => panic!("unexpected {:?}", other),
    }
    match pick_chart::<u8>(None, Some(Vec::new()), "XXXX") {
        Err(DomainError::StockNotFound(m)) => assert_eq!(m, "XXXX"),
        other => panic!("unexpected {:?}", other),
    }
    match pick_chart::<u8>(None, None, "XXXX") {
        Err(DomainError::StockNotFound(m)) => assert_eq!(m, "XXXX"),
        other => panic!("unexpected {:?}", other),
    }
    assert_eq!(pick_chart(None, Some(vec![1u8, 2u8]), "XXXX").unwrap(), 2);
}

#[test]
fn stocks_from_chart_metadata() {
    let at = Timestamp { secs: 5, nanos: 0 };
    let s = stock_from_meta("bbca", Some("Bank Central Asia".into()), Some("BCA".into()), Dec::new(9500, 0), Some(10), at);
    assert_eq!(s.symbol, "BBCA");
    assert_eq!(s.name, "Bank Central Asia");
    assert_eq!(s.volume, 10);
    assert!(s.market_cap.is_zero());
    let s = stock_from_meta("bbca", None, Some("BCA".into()), Dec::new(9500, 0), None, at);
    assert_eq!(s.name, "BCA");
    assert_eq!(s.volume, 0);
    let s = stock_from_meta("bbca", None, None, Dec::new(9500, 0), None, at);
    assert_eq!(s.name, "bbca");
}

fn some(v: i128) -> Option<Dec> {
    Some(Dec::new(v, 0))
}

#[test]
fn price_history_keeps_complete_days() {
    let ts = vec![1_700_000_000, 1_700_086_400, 1_700_172_800];
    let q = QuoteSeries {
        open: vec![some(1), None, some(3)],
        high: vec![some(2), some(2), some(4)],
        low: vec![some(1), some(1), some(2)],
        close: vec![some(2), some(2), some(3)],
        volume: vec![Some(100), Some(5), None],
    };
    let h = price_history("bbca", &ts, &q).unwrap();
    assert_eq!(h.len(), 2);
    assert_eq!(h[0].symbol, "BBCA");
    assert_eq!(h[0].date.secs, 1_700_000_000);
    assert_eq!(h[0].volume, 100);
    assert_eq!(h[1].open.to_text(), "3");
    assert_eq!(h[1].volume, 0);
}

#[test]
fn price_history_without_data_is_an_error() {
    let q = QuoteSeries { open: vec![None], high: vec![], low: vec![], close: vec![], volume: vec![] };
    match price_history("bbca", &vec![1_700_000_000], &q) {
        Err(DomainError::ExternalService(m)) => assert_eq!(m, "No price data for bbca"),
        other => panic!("unexpected {:?}", other),
    }
}

#[test]
fn yahoo_has_no_fundamentals() {
    let f = empty_fundamentals("tlkm");
    assert_eq!(f.symbol, "TLKM");
    assert!(f.pe_ratio.is_none() && f.eps.is_none() && f.dividend_yield.is_none());
}

#[test]
fn idx_answers_are_checked() {
    assert_eq!(check_idx_body("  {\"a\":1}\n").unwrap(), "{\"a\":1}");
    assert_eq!(check_idx_body("[1]").unwrap(), "[1]");
    match check_idx_body("   ") {
        Err(DomainError::ExternalService(m)) => assert_eq!(m, "IDX returned empty response"),
        other => panic!("unexpected {:?}", other),
    }
    match check_idx_body("<html>Just a moment...</html>") {
        Err(DomainError::ExternalService(m)) => assert_eq!(m, "IDX returned Cloudflare challenge"),
        other => panic!("unexpected {:?}", other),
    }
}

#[test]
fn idx_retries() {
    assert_eq!(idx_retry_wait(0), 0);
    assert_eq!(idx_retry_wait(1), 5);
    assert_eq!(idx_retry_wait(2), 10);
    assert!(idx_retry_after_failure(0));
    assert!(idx_retry_after_failure(1));
    assert!(!idx_retry_after_failure(2));
}

#[test]
fn idx_paths() {
    assert_eq!(idx_daily_path("BBCA"), "/primary/ListedCompany/GetTradingInfoDaily?code=BBCA");
    assert_eq!(
        idx_history_path("BBCA", 90),
        "/primary/ListedCompany/GetTradingInfoSS?code=BBCA&start=0&length=90"
    );
    assert_eq!(
        idx_fundamentals_path(2024, 9),
        "/primary/DigitalStatistic/GetApiDataPaginated?urlName=LINK_FINANCIAL_DATA_RATIO&periodYear=2024&periodMonth=9&periodType=monthly&isPrint=False&cumulative=false&pageSize=1000"
    );
}

#[test]
fn the_latest_period_is_three_months_back() {
    assert_eq!(find_latest_period(2025, 1), (2024, 12));
    assert_eq!(find_latest_period(2025, 3), (2024, 12));
    assert_eq!(find_latest_period(2025, 4), (2025, 1));
    assert_eq!(find_latest_period(2025, 12), (2025, 9));
    let (_, m) = current_period();
    assert!((1..=12).contains(&m));
}

fn row(code: Option<&str>, per: i128) -> FinancialRatioRow {
    FinancialRatioRow {
        code: code.map(String::from),
        stock_name: None,
        eps: Some(Dec::new(100, 0)),
        per: Some(Dec::new(per, 0)),
        price_bv: None,
        de_ratio: None,
        roe: Some(Dec::new(15, 0)),
    }
}

#[test]
fn fundamentals_come_from_the_first_matching_row() {
    let rows = vec![row(None, 1), row(Some("tlkm"), 12), row(Some("TLKM"), 99)];
    let f = find_fundamental("TLKM", &rows).unwrap();
    assert_eq!(f.symbol, "TLKM");
    assert_eq!(f.pe_ratio.unwrap().to_text(), "12");
    assert!(f.dividend_yield.is_none());
    match find_fundamental("BBCA", &rows) {
        Err(DomainError::StockNotFound(s)) => assert_eq!(s, "BBCA"),
        other => panic!("unexpected {:?}", other),
    }
}

fn profile(code: &str, name: &str) -> CompanyProfile {
    CompanyProfile { kode_emiten: Some(code.to_string()), nama_emiten: Some(name.to_string()) }
}

#[test]
fn search_matches_codes_and_names() {
    let ps = vec![
        profile("BBCA", "Bank Central Asia Tbk."),
        profile("BBRI", "Bank Rakyat Indonesia (Persero) Tbk."),
        profile("TLKM", "Telkom Indonesia (Persero) Tbk."),
        CompanyProfile { kode_emiten: None, nama_emiten: None },
    ];
    let r = search_profiles(&ps, "indonesia");
    assert_eq!(r.len(), 2);
    assert_eq!(r[0].symbol, "BBRI");
    assert_eq!(r[1].symbol, "TLKM");
    let r = search_profiles(&ps, "bb");
    assert_eq!(r.len(), 2);
    assert_eq!(r[0].name, "Bank Central Asia Tbk.");
    assert!(r[0].last_price.is_zero());
}

#[test]
fn search_returns_at_most_twenty() {
    let ps: Vec<CompanyProfile> = (0..30).map(|i| profile(&format!("AB{:02}", i), "x")).collect();
    assert_eq!(search_profiles(&ps, "ab").len(), 20);
}
