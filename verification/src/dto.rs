//! The JSON bodies the HTTP API sends and the web client reads. Both sides
//! use the same shapes; where the client reads fewer fields than the server
//! writes, the server's shape is kept here.
use vstd::prelude::*;

verus! {

/// The envelope of the analysis and suggestion endpoints: success, and then
/// either the data or an error message.
#[derive(Debug)]
pub struct ApiResponse<T> {
    pub success: bool,
    pub data: Option<T>,
    pub error: Option<String>,
}

/// A suggested stock, every number as decimal text.
#[derive(Debug)]
pub struct SuggestionDto {
    pub symbol: String,
    pub name: String,
    pub signal: String,
    pub trend: String,
    pub current_price: String,
    pub target_price: String,
    pub potential_return: String,
    pub confidence: String,
    pub reason: String,
}

/// The analysis of one stock, every number as decimal text.
#[derive(Debug)]
pub struct AnalysisResponse {
    pub symbol: String,
    pub signal: String,
    pub trend: String,
    pub confidence: String,
    pub entry: String,
    pub take_profit: String,
    pub stop_loss: String,
    pub risk_factors: Option<Vec<String>>,
    pub reasoning: String,
}

/// One holding of the portfolio.
#[derive(Debug)]
pub struct PositionResponse {
    pub symbol: String,
    pub lot: u32,
    pub avg_price: String,
    pub current_price: String,
    pub market_value: String,
    pub unrealized_pnl: String,
}

/// One order, with its side and status by name.
#[derive(Debug)]
pub struct OrderResponse {
    pub id: String,
    pub symbol: String,
    pub side: String,
    pub lot: u32,
    pub price: String,
    pub status: String,
}

/// The portfolio: cash, holdings, open orders and total equity.
#[derive(Debug)]
pub struct PortfolioResponse {
    pub cash_balance: String,
    pub allocated: String,
    pub positions: Vec<PositionResponse>,
    pub open_orders: Vec<OrderResponse>,
    pub total_equity: String,
}

/// One trade rule, prices as decimal text.
#[derive(Debug)]
pub struct RuleResponse {
    pub symbol: String,
    pub buy_below: String,
    pub sell_above: String,
    pub stop_loss: String,
    pub max_lot: u32,
}

/// The page information of a listing.
#[derive(Clone, Copy, Debug)]
pub struct PaginatorMeta {
    pub page: u32,
    pub per_page: u32,
    pub total: u32,
    pub total_pages: u32,
    pub has_next: bool,
    pub has_prev: bool,
}

/// The list of trade rules, as one page.
#[derive(Debug)]
pub struct RulesListResponse {
    pub data: Vec<RuleResponse>,
    pub meta: PaginatorMeta,
}

/// Whether the broker token is valid, and when it expires.
#[derive(Debug)]
pub struct TokenStatus {
    pub valid: bool,
    pub expires_at: Option<String>,
    pub ttl_seconds: Option<i64>,
    pub ttl_human: Option<String>,
}

/// A new broker token.
#[derive(Debug)]
pub struct UpdateToken {
    pub token: String,
}

/// How many suggestions to ask for.
#[derive(Clone, Copy, Debug)]
pub struct SuggestQuery {
    pub limit: Option<usize>,
}

/// The answer of an auto-trade run: the orders placed, or an error.
#[derive(Debug)]
pub struct AutoTradeFullResponse {
    pub success: bool,
    pub executed: Option<usize>,
    pub orders: Option<Vec<OrderResponse>>,
    pub error: Option<String>,
}

} // verus!
