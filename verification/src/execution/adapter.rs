//! The paper trading boundary: a paper order goes to a backend, and the trade
//! the backend reports back for it becomes the data of a canonical fill.
use vstd::prelude::*;

use crate::events::{Binary64, FillReceived, FillReceivedView, FillSide, Timestamp, timestamp_lt, is_positive_finite};
use crate::materialization::{FillObservationRequest, FillObservationRequestView};
use crate::text::{blank, is_blank, opt_view, owned, same_text, strs, text_less, text_lt};

verus! {

/// The venue of the paper trading backend.
pub const POLYMARKET_PAPER_VENUE: &'static str = "polymarket-paper";

/// Where the paper trading backend keeps its data unless told otherwise.
pub const DEFAULT_POLYMARKET_PAPER_DATA_DIR: &'static str = "./var/polymarket-paper";

/// An order for the paper trading backend. The amount travels as its binary64
/// encoding; the data directory as the text of its path.
#[derive(Debug, Clone, PartialEq, Eq)]
pub struct PaperExecutionRequest {
    pub order_id: String,
    pub decision_id: String,
    pub market_slug: String,
    pub outcome: String,
    pub side: FillSide,
    pub amount_usd: Binary64,
    pub backend_account: String,
    pub backend_data_dir: String,
}

pub struct PaperExecutionRequestView {
    pub order_id: Seq<char>,
    pub decision_id: Seq<char>,
    pub market_slug: Seq<char>,
    pub outcome: Seq<char>,
    pub side: FillSide,
    pub amount_usd: Binary64,
    pub backend_account: Seq<char>,
    pub backend_data_dir: Seq<char>,
}

impl View for PaperExecutionRequest {
    type V = PaperExecutionRequestView;

    open spec fn view(&self) -> PaperExecutionRequestView {
        PaperExecutionRequestView {
            order_id: self.order_id@,
            decision_id: self.decision_id@,
            market_slug: self.market_slug@,
            outcome: self.outcome@,
            side: self.side,
            amount_usd: self.amount_usd,
            backend_account: self.backend_account@,
            backend_data_dir: self.backend_data_dir@,
        }
    }
}

/// What goes wrong at the paper trading boundary.
#[derive(Debug)]
pub enum PolymarketPaperAdapterError {
    Io(std::io::Error),
    Json(serde_json::Error),
    InvalidRequest(String),
    InvalidBackendOutput(String),
    BackendFailed(String),
}

pub enum PolymarketPaperAdapterErrorView {
    Io,
    Json,
    InvalidRequest(Seq<char>),
    InvalidBackendOutput(Seq<char>),
    BackendFailed(Seq<char>),
}

impl View for PolymarketPaperAdapterError {
    type V = PolymarketPaperAdapterErrorView;

    open spec fn view(&self) -> PolymarketPaperAdapterErrorView {
        match self {
            PolymarketPaperAdapterError::Io(_) => PolymarketPaperAdapterErrorView::Io,
            PolymarketPaperAdapterError::Json(_) => PolymarketPaperAdapterErrorView::Json,
            PolymarketPaperAdapterError::InvalidRequest(m) => PolymarketPaperAdapterErrorView::InvalidRequest(m@),
            PolymarketPaperAdapterError::InvalidBackendOutput(m) => PolymarketPaperAdapterErrorView::InvalidBackendOutput(m@),
            PolymarketPaperAdapterError::BackendFailed(m) => PolymarketPaperAdapterErrorView::BackendFailed(m@),
        }
    }
}

/// The first field of a request that the backend cannot take, with the message
/// that names it: identifiers, market, outcome and account must not be blank,
/// and the amount must be a positive finite number.
pub open spec fn request_problem(r: PaperExecutionRequestView) -> Option<Seq<char>> {
    if is_blank(r.order_id) {
        Some("order_id cannot be empty"@)
    } else if is_blank(r.decision_id) {
        Some("decision_id cannot be empty"@)
    } else if is_blank(r.market_slug) {
        Some("market_slug cannot be empty"@)
    } else if is_blank(r.outcome) {
        Some("outcome cannot be empty"@)
    } else if is_blank(r.backend_account) {
        Some("backend_account cannot be empty"@)
    } else if !is_positive_finite(r.amount_usd) {
        Some("amount_usd must be > 0"@)
    } else {
        None
    }
}

impl PaperExecutionRequest {
    pub fn validate(&self) -> (r: Result<(), PolymarketPaperAdapterError>)
        ensures
            r is Ok <==> request_problem(self@) is None,
            r matches Err(e) ==> request_problem(self@) == Some(
                match e@ {
                    PolymarketPaperAdapterErrorView::InvalidRequest(m) => m,
                    _ => Seq::empty(),
                },
            ) && e@ is InvalidRequest,
    {
        let m = if blank(self.order_id.as_str()) {
            "order_id cannot be empty"
        } else if blank(self.decision_id.as_str()) {
            "decision_id cannot be empty"
        } else if blank(self.market_slug.as_str()) {
            "market_slug cannot be empty"
        } else if blank(self.outcome.as_str()) {
            "outcome cannot be empty"
        } else if blank(self.backend_account.as_str()) {
            "backend_account cannot be empty"
        } else if !self.amount_usd.positive_finite() {
            "amount_usd must be > 0"
        } else {
            return Ok(());
        };
        Err(PolymarketPaperAdapterError::InvalidRequest(owned(m)))
    }
}

/// A trade the backend reports, with its numbers as binary64 encodings.
#[derive(Debug, Clone, PartialEq, Eq)]
pub struct PolymarketPaperTrade {
    pub backend_trade_id: String,
    pub market_slug: String,
    pub outcome: String,
    pub side: FillSide,
    pub shares: Binary64,
    pub avg_price: Binary64,
    pub fee: Option<Binary64>,
    pub slippage_bps: Option<Binary64>,
    pub executed_at: Timestamp,
}

pub struct PolymarketPaperTradeView {
    pub backend_trade_id: Seq<char>,
    pub market_slug: Seq<char>,
    pub outcome: Seq<char>,
    pub side: FillSide,
    pub shares: Binary64,
    pub avg_price: Binary64,
    pub fee: Option<Binary64>,
    pub slippage_bps: Option<Binary64>,
    pub executed_at: Timestamp,
}

impl View for PolymarketPaperTrade {
    type V = PolymarketPaperTradeView;

    open spec fn view(&self) -> PolymarketPaperTradeView {
        PolymarketPaperTradeView {
            backend_trade_id: self.backend_trade_id@,
            market_slug: self.market_slug@,
            outcome: self.outcome@,
            side: self.side,
            shares: self.shares,
            avg_price: self.avg_price,
            fee: self.fee,
            slippage_bps: self.slippage_bps,
            executed_at: self.executed_at,
        }
    }
}

/// The fill a backend trade maps to.
#[derive(Debug, Clone, PartialEq, Eq)]
pub struct PaperExecutionResult {
    pub fill_id: String,
    pub order_id: String,
    pub decision_id: String,
    pub instrument: String,
    pub side: FillSide,
    pub quantity: Binary64,
    pub avg_price: Binary64,
    pub fee: Option<Binary64>,
    pub slippage_bps: Option<Binary64>,
    pub executed_at: Timestamp,
    pub backend_trade_id: String,
}

pub struct PaperExecutionResultView {
    pub fill_id: Seq<char>,
    pub order_id: Seq<char>,
    pub decision_id: Seq<char>,
    pub instrument: Seq<char>,
    pub side: FillSide,
    pub quantity: Binary64,
    pub avg_price: Binary64,
    pub fee: Option<Binary64>,
    pub slippage_bps: Option<Binary64>,
    pub executed_at: Timestamp,
    pub backend_trade_id: Seq<char>,
}

impl View for PaperExecutionResult {
    type V = PaperExecutionResultView;

    open spec fn view(&self) -> PaperExecutionResultView {
        PaperExecutionResultView {
            fill_id: self.fill_id@,
            order_id: self.order_id@,
            decision_id: self.decision_id@,
            instrument: self.instrument@,
            side: self.side,
            quantity: self.quantity,
            avg_price: self.avg_price,
            fee: self.fee,
            slippage_bps: self.slippage_bps,
            executed_at: self.executed_at,
            backend_trade_id: self.backend_trade_id@,
        }
    }
}

impl PaperExecutionResult {
    /// The `fill.received` payload of the fill, on the paper venue.
    pub fn to_fill_received_payload(&self) -> (r: FillReceived)
        ensures
            r@ == (FillReceivedView {
                fill_id: self.fill_id@,
                decision_id: Some(self.decision_id@),
                order_id: self.order_id@,
                instrument: self.instrument@,
                side: self.side,
                quantity: self.quantity,
                price: self.avg_price,
                venue: POLYMARKET_PAPER_VENUE@,
                executed_at: self.executed_at,
            }),
    {
        FillReceived {
            fill_id: self.fill_id.clone(),
            decision_id: Some(self.decision_id.clone()),
            order_id: self.order_id.clone(),
            instrument: self.instrument.clone(),
            side: self.side,
            quantity: self.quantity,
            price: self.avg_price,
            venue: owned(POLYMARKET_PAPER_VENUE),
            executed_at: self.executed_at,
        }
    }

    /// The request that records the fill through the fill observation flow.
    pub fn to_fill_observation_request(&self) -> (r: FillObservationRequest)
        ensures
            r@ == (FillObservationRequestView {
                fill_id: self.fill_id@,
                order_id: self.order_id@,
                decision_id: Some(self.decision_id@),
                instrument: Some(self.instrument@),
                side: self.side,
                quantity: self.quantity,
                price: self.avg_price,
                venue: Some(POLYMARKET_PAPER_VENUE@),
                executed_at: self.executed_at,
            }),
    {
        FillObservationRequest {
            fill_id: self.fill_id.clone(),
            order_id: self.order_id.clone(),
            decision_id: Some(self.decision_id.clone()),
            instrument: Some(self.instrument.clone()),
            side: self.side,
            quantity: self.quantity,
            price: self.avg_price,
            venue: Some(owned(POLYMARKET_PAPER_VENUE)),
            executed_at: self.executed_at,
        }
    }
}

#[derive(Debug, Clone, Copy, PartialEq, Eq, Structural)]
pub enum PaperExecutionImportDisposition {
    Imported,
    SkippedDuplicate,
    NoMatchingTrade,
}

#[derive(Debug, Clone, PartialEq, Eq)]
pub struct PaperExecutionImportReport {
    pub disposition: PaperExecutionImportDisposition,
    pub backend_account: String,
    pub backend_data_dir: String,
    pub backend_trade_id: Option<String>,
    pub fill_result: Option<PaperExecutionResult>,
    pub notes: Vec<String>,
}

#[verifier::ext_equal]
pub struct PaperExecutionImportReportView {
    pub disposition: PaperExecutionImportDisposition,
    pub backend_account: Seq<char>,
    pub backend_data_dir: Seq<char>,
    pub backend_trade_id: Option<Seq<char>>,
    pub fill_result: Option<PaperExecutionResultView>,
    pub notes: Seq<Seq<char>>,
}

impl View for PaperExecutionImportReport {
    type V = PaperExecutionImportReportView;

    open spec fn view(&self) -> PaperExecutionImportReportView {
        PaperExecutionImportReportView {
            disposition: self.disposition,
            backend_account: self.backend_account@,
            backend_data_dir: self.backend_data_dir@,
            backend_trade_id: opt_view(self.backend_trade_id),
            fill_result: match self.fill_result {
                Some(f) => Some(f@),
                None => None,
            },
            notes: strs(self.notes@),
        }
    }
}

/// A paper trading backend: it executes an order and exports the trades of
/// the account. What it exports is tied, by `reports`, to the request it was
/// sent; nothing more is assumed of it.
pub trait PolymarketPaperBackend {
    /// The backend may export `trades` after executing `request`. A backend
    /// that says no more may export any trades for any request.
    open spec fn reports(&self, request: PaperExecutionRequestView, trades: Seq<PolymarketPaperTradeView>) -> bool {
        true
    }

    fn execute_and_export_trades(
        &self,
        request: &PaperExecutionRequest,
    ) -> (r: Result<Vec<PolymarketPaperTrade>, PolymarketPaperAdapterError>)
        ensures
            r matches Ok(t) ==> self.reports(request@, trade_views(t@)),
    ;
}

/// `char::to_ascii_lowercase` on a code point.
pub open spec fn ascii_lower(u: u32) -> u32 {
    if 0x41 <= u && u <= 0x5a {
        (u + 0x20) as u32
    } else {
        u
    }
}

/// `str::eq_ignore_ascii_case`.
pub open spec fn same_ignoring_ascii_case(a: Seq<char>, b: Seq<char>) -> bool {
    &&& a.len() == b.len()
    &&& forall|i: int| 0 <= i < a.len() ==> ascii_lower(#[trigger] a[i] as u32) == ascii_lower(b[i] as u32)
}

fn eq_ignore_ascii_case(a: &str, b: &str) -> (r: bool)
    ensures
        r == same_ignoring_ascii_case(a@, b@),
{
    let n = a.unicode_len();
    if n != b.unicode_len() {
        return false;
    }
    let mut i: usize = 0;
    while i < n
        invariant
            n == a@.len(),
            n == b@.len(),
            i <= n,
            forall|j: int| 0 <= j < i ==> ascii_lower(#[trigger] a@[j] as u32) == ascii_lower(b@[j] as u32),
        decreases n - i,
    {
        let x = a.get_char(i) as u32;
        let y = b.get_char(i) as u32;
        let lx = if 0x41 <= x && x <= 0x5a { x + 0x20 } else { x };
        let ly = if 0x41 <= y && y <= 0x5a { y + 0x20 } else { y };
        if lx != ly {
            return false;
        }
        i = i + 1;
    }
    true
}

/// A trade for the request: same market, same outcome up to ASCII case, same side.
pub open spec fn trade_matches(t: PolymarketPaperTradeView, r: PaperExecutionRequestView) -> bool {
    &&& t.market_slug == r.market_slug
    &&& same_ignoring_ascii_case(t.outcome, r.outcome)
    &&& t.side == r.side
}

/// Trades are ordered by execution time, then by backend identifier.
pub open spec fn trade_before(a: PolymarketPaperTradeView, b: PolymarketPaperTradeView) -> bool {
    timestamp_lt(a.executed_at, b.executed_at) || (a.executed_at == b.executed_at && text_lt(
        a.backend_trade_id,
        b.backend_trade_id,
    ))
}

/// The latest of the trades that match the request and were not imported yet,
/// the last such one among equals (as `Iterator::max_by` picks it).
pub open spec fn latest_fresh_trade(
    trades: Seq<PolymarketPaperTradeView>,
    r: PaperExecutionRequestView,
    imported: Seq<Seq<char>>,
) -> Option<PolymarketPaperTradeView>
    decreases trades.len(),
{
    if trades.len() == 0 {
        None
    } else {
        let t = trades.last();
        let best = latest_fresh_trade(trades.drop_last(), r, imported);
        if trade_matches(t, r) && !imported.contains(t.backend_trade_id) {
            match best {
                Some(b) => if trade_before(t, b) {
                    Some(b)
                } else {
                    Some(t)
                },
                None => Some(t),
            }
        } else {
            best
        }
    }
}

/// The first trade that matches the request and was imported already.
pub open spec fn first_imported_match(
    trades: Seq<PolymarketPaperTradeView>,
    r: PaperExecutionRequestView,
    imported: Seq<Seq<char>>,
) -> Option<Seq<char>>
    decreases trades.len(),
{
    if trades.len() == 0 {
        None
    } else {
        let t = trades[0];
        if trade_matches(t, r) && imported.contains(t.backend_trade_id) {
            Some(t.backend_trade_id)
        } else {
            first_imported_match(trades.drop_first(), r, imported)
        }
    }
}

/// `c` when it is an ASCII letter or digit, `-` or `_`; `-` otherwise.
pub open spec fn clean_char(c: char) -> char {
    let u = c as u32;
    if (0x30 <= u && u <= 0x39) || (0x41 <= u && u <= 0x5a) || (0x61 <= u && u <= 0x7a) || c == '-'
        || c == '_' {
        c
    } else {
        '-'
    }
}

pub open spec fn clean_id_text(s: Seq<char>) -> Seq<char> {
    s.map_values(|c: char| clean_char(c))
}

fn clean_id_component(value: &str) -> (r: String)
    ensures
        r@ == clean_id_text(value@),
{
    let n = value.unicode_len();
    let mut r = String::new();
    let mut i: usize = 0;
    while i < n
        invariant
            n == value@.len(),
            i <= n,
            r@ == clean_id_text(value@.take(i as int)),
        decreases n - i,
    {
        let c = value.get_char(i);
        let u = c as u32;
        if (0x30 <= u && u <= 0x39) || (0x41 <= u && u <= 0x5a) || (0x61 <= u && u <= 0x7a) || c
            == '-' || c == '_' {
            let piece = value.substring_char(i, i + 1);
            r.append(piece);
        } else {
            r.append("-");
        }
        proof {
            assert(value@.take(i as int + 1) =~= value@.take(i as int).push(c));
            assert(clean_id_text(value@.take(i as int + 1)) =~= clean_id_text(value@.take(i as int)).push(
                clean_char(c),
            ));
            reveal_strlit("-");
        }
        i = i + 1;
    }
    proof {
        assert(value@.take(n as int) =~= value@);
    }
    r
}

/// The fill a trade maps to, for the request it answers.
pub open spec fn fill_result_of(t: PolymarketPaperTradeView, r: PaperExecutionRequestView) -> PaperExecutionResultView {
    PaperExecutionResultView {
        fill_id: "pm-paper-"@ + clean_id_text(r.backend_account) + "-"@ + clean_id_text(t.backend_trade_id),
        order_id: r.order_id,
        decision_id: r.decision_id,
        instrument: t.market_slug,
        side: t.side,
        quantity: t.shares,
        avg_price: t.avg_price,
        fee: t.fee,
        slippage_bps: t.slippage_bps,
        executed_at: t.executed_at,
        backend_trade_id: t.backend_trade_id,
    }
}

pub open spec fn imported_notes() -> Seq<Seq<char>> {
    seq![
        "submitted paper order through polymarket-paper-trader boundary"@,
        "mapped backend trade into canonical fill.received-compatible data"@,
    ]
}

/// What the boundary reports for the trades a backend exported: the latest
/// fresh matching trade is imported; otherwise a matching trade imported before
/// is named; otherwise nothing matched.
pub open spec fn import_outcome(
    trades: Seq<PolymarketPaperTradeView>,
    r: PaperExecutionRequestView,
    imported: Seq<Seq<char>>,
) -> PaperExecutionImportReportView {
    match latest_fresh_trade(trades, r, imported) {
        Some(t) => PaperExecutionImportReportView {
            disposition: PaperExecutionImportDisposition::Imported,
            backend_account: r.backend_account,
            backend_data_dir: r.backend_data_dir,
            backend_trade_id: Some(t.backend_trade_id),
            fill_result: Some(fill_result_of(t, r)),
            notes: imported_notes(),
        },
        None => match first_imported_match(trades, r, imported) {
            Some(id) => PaperExecutionImportReportView {
                disposition: PaperExecutionImportDisposition::SkippedDuplicate,
                backend_account: r.backend_account,
                backend_data_dir: r.backend_data_dir,
                backend_trade_id: Some(id),
                fill_result: None,
                notes: seq!["backend trade was already imported"@],
            },
            None => PaperExecutionImportReportView {
                disposition: PaperExecutionImportDisposition::NoMatchingTrade,
                backend_account: r.backend_account,
                backend_data_dir: r.backend_data_dir,
                backend_trade_id: None,
                fill_result: None,
                notes: seq!["backend export contained no matching trade"@],
            },
        },
    }
}

pub open spec fn trade_views(v: Seq<PolymarketPaperTrade>) -> Seq<PolymarketPaperTradeView> {
    v.map_values(|t: PolymarketPaperTrade| t@)
}

fn contains_id(ids: &Vec<String>, x: &str) -> (r: bool)
    ensures
        r == strs(ids@).contains(x@),
{
    let mut i: usize = 0;
    while i < ids.len()
        invariant
            i <= ids.len(),
            forall|j: int| 0 <= j < i ==> strs(ids@)[j] != x@,
        decreases ids.len() - i,
    {
        if same_text(ids[i].as_str(), x) {
            proof {
                assert(strs(ids@)[i as int] == x@);
            }
            return true;
        }
        i = i + 1;
    }
    false
}

fn trade_is_before(a: &PolymarketPaperTrade, b: &PolymarketPaperTrade) -> (r: bool)
    ensures
        r == trade_before(a@, b@),
{
    a.executed_at.is_before(&b.executed_at) || (a.executed_at == b.executed_at && text_less(
        a.backend_trade_id.as_str(),
        b.backend_trade_id.as_str(),
    ))
}

fn map_trade_to_fill_result(trade: &PolymarketPaperTrade, request: &PaperExecutionRequest) -> (r: PaperExecutionResult)
    ensures
        r@ == fill_result_of(trade@, request@),
{
    let mut fill_id = owned("pm-paper-");
    let account = clean_id_component(request.backend_account.as_str());
    fill_id.append(account.as_str());
    fill_id.append("-");
    let trade_id = clean_id_component(trade.backend_trade_id.as_str());
    fill_id.append(trade_id.as_str());
    PaperExecutionResult {
        fill_id,
        order_id: request.order_id.clone(),
        decision_id: request.decision_id.clone(),
        instrument: trade.market_slug.clone(),
        side: trade.side,
        quantity: trade.shares,
        avg_price: trade.avg_price,
        fee: trade.fee,
        slippage_bps: trade.slippage_bps,
        executed_at: trade.executed_at,
        backend_trade_id: trade.backend_trade_id.clone(),
    }
}

/// Maps the trades a backend exported for a request to what the boundary
/// reports; `imported_backend_trade_ids` are the trades imported before.
pub fn map_backend_trades(
    trades: &Vec<PolymarketPaperTrade>,
    request: &PaperExecutionRequest,
    imported_backend_trade_ids: &Vec<String>,
) -> (r: PaperExecutionImportReport)
    ensures
        r@ == import_outcome(trade_views(trades@), request@, strs(imported_backend_trade_ids@)),
{
    let ghost tv = trade_views(trades@);
    let ghost imp = strs(imported_backend_trade_ids@);
    let mut best: Option<usize> = None;
    let mut i: usize = 0;
    proof {
        assert(tv.take(0) =~= Seq::<PolymarketPaperTradeView>::empty());
    }
    while i < trades.len()
        invariant
            i <= trades.len(),
            tv == trade_views(trades@),
            imp == strs(imported_backend_trade_ids@),
            match best {
                Some(b) => b < i && latest_fresh_trade(tv.take(i as int), request@, imp) == Some(tv[b as int]),
                None => latest_fresh_trade(tv.take(i as int), request@, imp) is None,
            },
        decreases trades.len() - i,
    {
        proof {
            assert(tv.take(i as int + 1).drop_last() =~= tv.take(i as int));
            assert(tv.take(i as int + 1).last() == tv[i as int]);
        }
        let t = &trades[i];
        if same_text(t.market_slug.as_str(), request.market_slug.as_str()) && eq_ignore_ascii_case(
            t.outcome.as_str(),
            request.outcome.as_str(),
        ) && t.side == request.side && !contains_id(imported_backend_trade_ids, t.backend_trade_id.as_str()) {
            match best {
                Some(b) => {
                    if !trade_is_before(t, &trades[b]) {
                        best = Some(i);
                    }
                },
                None => {
                    best = Some(i);
                },
            }
        }
        i = i + 1;
    }
    proof {
        assert(tv.take(trades.len() as int) =~= tv);
    }
    match best {
        Some(b) => {
            let trade = &trades[b];
            proof {
                assert(tv[b as int] == trades@[b as int]@);
            }
            let fill_result = map_trade_to_fill_result(trade, request);
            let mut notes: Vec<String> = Vec::new();
            notes.push(owned("submitted paper order through polymarket-paper-trader boundary"));
            notes.push(owned("mapped backend trade into canonical fill.received-compatible data"));
            proof {
                assert(strs(notes@) =~= imported_notes());
            }
            let rep = PaperExecutionImportReport {
                disposition: PaperExecutionImportDisposition::Imported,
                backend_account: request.backend_account.clone(),
                backend_data_dir: request.backend_data_dir.clone(),
                backend_trade_id: Some(trade.backend_trade_id.clone()),
                fill_result: Some(fill_result),
                notes,
            };
            proof {
                assert(latest_fresh_trade(tv, request@, imp) == Some(tv[b as int]));
                assert(rep@.fill_result == Some(fill_result_of(tv[b as int], request@)));
                assert(rep@.notes == imported_notes());
                assert(rep@.backend_trade_id == Some(tv[b as int].backend_trade_id));
                assert(rep@ =~= import_outcome(tv, request@, imp));
            }
            rep
        },
        None => {
            let mut k: usize = 0;
            let mut found: Option<usize> = None;
            while k < trades.len()
                invariant_except_break
                    found is None,
                    first_imported_match(tv, request@, imp) == first_imported_match(tv.skip(k as int), request@, imp),
                invariant
                    k <= trades.len(),
                    tv == trade_views(trades@),
                    imp == strs(imported_backend_trade_ids@),
                ensures
                    match found {
                        Some(j) => j < trades.len() && first_imported_match(tv, request@, imp) == Some(tv[j as int].backend_trade_id),
                        None => first_imported_match(tv, request@, imp) is None,
                    },
                decreases trades.len() - k,
            {
                proof {
                    assert(tv.skip(k as int)[0] == tv[k as int]);
                    assert(tv.skip(k as int).drop_first() =~= tv.skip(k as int + 1));
                }
                let t = &trades[k];
                if same_text(t.market_slug.as_str(), request.market_slug.as_str()) && eq_ignore_ascii_case(
                    t.outcome.as_str(),
                    request.outcome.as_str(),
                ) && t.side == request.side && contains_id(imported_backend_trade_ids, t.backend_trade_id.as_str()) {
                    found = Some(k);
                    break;
                }
                k = k + 1;
            }
            proof {
                if found is None {
                    assert(tv.skip(trades.len() as int) =~= Seq::<PolymarketPaperTradeView>::empty());
                }
            }
            match found {
                Some(j) => {
                    proof {
                        assert(tv[j as int] == trades@[j as int]@);
                    }
                    PaperExecutionImportReport {
                    disposition: PaperExecutionImportDisposition::SkippedDuplicate,
                    backend_account: request.backend_account.clone(),
                    backend_data_dir: request.backend_data_dir.clone(),
                    backend_trade_id: Some(trades[j].backend_trade_id.clone()),
                    fill_result: None,
                    notes: vec![owned("backend trade was already imported")],
                }
                },
                None => PaperExecutionImportReport {
                    disposition: PaperExecutionImportDisposition::NoMatchingTrade,
                    backend_account: request.backend_account.clone(),
                    backend_data_dir: request.backend_data_dir.clone(),
                    backend_trade_id: None,
                    fill_result: None,
                    notes: vec![owned("backend export contained no matching trade")],
                },
            }
        },
    }
}

/// Sends a paper order to the backend and maps the trade it reports back.
/// An invalid request never reaches the backend; whatever trades come back,
/// the report is what `map_backend_trades` makes of them.
pub fn submit_paper_order_and_map_fill<B: PolymarketPaperBackend>(
    backend: &B,
    request: &PaperExecutionRequest,
    imported_backend_trade_ids: &Vec<String>,
) -> (r: Result<PaperExecutionImportReport, PolymarketPaperAdapterError>)
    ensures
        request_problem(request@) matches Some(m) ==> (r matches Err(e) && e@
            == PolymarketPaperAdapterErrorView::InvalidRequest(m)),
        r matches Ok(rep) ==> request_problem(request@) is None && exists|trades: Seq<PolymarketPaperTradeView>|
            backend.reports(request@, trades) && rep@ == import_outcome(trades, request@, strs(imported_backend_trade_ids@)),
{
    match request.validate() {
        Ok(()) => {},
        Err(e) => return Err(e),
    }
    let trades = match backend.execute_and_export_trades(request) {
        Ok(t) => t,
        Err(e) => return Err(e),
    };
    let rep = map_backend_trades(&trades, request, imported_backend_trade_ids);
    proof {
        assert(rep@ == import_outcome(trade_views(trades@), request@, strs(imported_backend_trade_ids@)));
    }
    Ok(rep)
}

/// The trade a boundary imports is one the backend reported for the request
/// and that was not imported before.
pub proof fn lemma_imported_trade_is_fresh(
    trades: Seq<PolymarketPaperTradeView>,
    r: PaperExecutionRequestView,
    imported: Seq<Seq<char>>,
)
    ensures
        latest_fresh_trade(trades, r, imported) matches Some(t) ==> trades.contains(t) && trade_matches(t, r)
            && !imported.contains(t.backend_trade_id),
        import_outcome(trades, r, imported).disposition == PaperExecutionImportDisposition::Imported ==> (
        import_outcome(trades, r, imported).backend_trade_id matches Some(id) && !imported.contains(id)),
    decreases trades.len(),
{
    if trades.len() > 0 {
        lemma_imported_trade_is_fresh(trades.drop_last(), r, imported);
        let best = latest_fresh_trade(trades.drop_last(), r, imported);
        if best is Some {
            let b = best->0;
            let k = choose|k: int| 0 <= k < trades.drop_last().len() && trades.drop_last()[k] == b;
            assert(trades[k] == b);
        }
        assert(trades[trades.len() - 1] == trades.last());
    }
}

/// Mapping into canonical fill data is stable: the fill an import gives
/// depends only on the trade it matches and the request, so two exports that
/// match the same trade give the same fill, however else they differ.
pub proof fn lemma_fill_depends_on_matched_trade(
    t1: Seq<PolymarketPaperTradeView>,
    t2: Seq<PolymarketPaperTradeView>,
    r: PaperExecutionRequestView,
    imported: Seq<Seq<char>>,
)
    requires
        latest_fresh_trade(t1, r, imported) == latest_fresh_trade(t2, r, imported),
    ensures
        import_outcome(t1, r, imported).fill_result == import_outcome(t2, r, imported).fill_result,
        latest_fresh_trade(t1, r, imported) matches Some(t) ==> import_outcome(t1, r, imported).fill_result == Some(
            fill_result_of(t, r),
        ),
{
}


/// The trade an import picks is one of the exported trades, on the request's
/// market, outcome (up to ASCII case) and side, not imported before, and no
/// other such trade executed after it.
pub proof fn lemma_fresh_trade_fits_request(
    trades: Seq<PolymarketPaperTradeView>,
    r: PaperExecutionRequestView,
    imported: Seq<Seq<char>>,
)
    ensures
        latest_fresh_trade(trades, r, imported) matches Some(t) ==> {
            &&& trades.contains(t)
            &&& t.market_slug == r.market_slug
            &&& same_ignoring_ascii_case(t.outcome, r.outcome)
            &&& t.side == r.side
            &&& !imported.contains(t.backend_trade_id)
        },
        latest_fresh_trade(trades, r, imported) matches Some(t) ==> forall|i: int|
            0 <= i < trades.len() && trades[i].market_slug == r.market_slug && same_ignoring_ascii_case(
                trades[i].outcome,
                r.outcome,
            ) && trades[i].side == r.side && !imported.contains(trades[i].backend_trade_id)
                ==> !timestamp_lt(t.executed_at, #[trigger] trades[i].executed_at),
        latest_fresh_trade(trades, r, imported) is None ==> forall|i: int|
            0 <= i < trades.len() ==> !(trades[i].market_slug == r.market_slug && same_ignoring_ascii_case(
                #[trigger] trades[i].outcome,
                r.outcome,
            ) && trades[i].side == r.side && !imported.contains(trades[i].backend_trade_id)),
    decreases trades.len(),
{
    if trades.len() > 0 {
        let rest = trades.drop_last();
        let n = trades.len() - 1;
        lemma_fresh_trade_fits_request(rest, r, imported);
        assert forall|i: int| 0 <= i < rest.len() implies #[trigger] rest[i] == trades[i] by {}
        assert(trades.last() == trades[n]);
        if let Some(b) = latest_fresh_trade(rest, r, imported) {
            let k = choose|k: int| 0 <= k < rest.len() && rest[k] == b;
            assert(trades[k] == b);
        }
        if let Some(x) = latest_fresh_trade(trades, r, imported) {
            assert forall|i: int|
                0 <= i < trades.len() && trades[i].market_slug == r.market_slug && same_ignoring_ascii_case(
                    trades[i].outcome,
                    r.outcome,
                ) && trades[i].side == r.side && !imported.contains(trades[i].backend_trade_id) implies !timestamp_lt(
                x.executed_at,
                #[trigger] trades[i].executed_at,
            ) by {
                if i < n {
                    assert(rest[i] == trades[i]);
                    assert(latest_fresh_trade(rest, r, imported) is Some);
                    assert(!timestamp_lt(latest_fresh_trade(rest, r, imported)->0.executed_at, rest[i].executed_at));
                } else {
                    assert(trades[i] == trades.last());
                }
            }
        } else {
            assert forall|i: int| 0 <= i < trades.len() implies !(trades[i].market_slug == r.market_slug
                && same_ignoring_ascii_case(#[trigger] trades[i].outcome, r.outcome) && trades[i].side == r.side
                && !imported.contains(trades[i].backend_trade_id)) by {
                if i < n {
                    assert(rest[i] == trades[i]);
                    assert(!(rest[i].market_slug == r.market_slug && same_ignoring_ascii_case(rest[i].outcome, r.outcome)
                        && rest[i].side == r.side && !imported.contains(rest[i].backend_trade_id)));
                } else {
                    assert(trades[i] == trades.last());
                }
            }
        }
    }
}

/// An import fills the request with a trade on its side: the fill of an
/// imported trade has the request's order, decision, side and market.
pub proof fn lemma_import_fills_on_request_side(
    trades: Seq<PolymarketPaperTradeView>,
    r: PaperExecutionRequestView,
    imported: Seq<Seq<char>>,
)
    ensures
        import_outcome(trades, r, imported).fill_result matches Some(f) ==> f.side == r.side && f.order_id == r.order_id
            && f.decision_id == r.decision_id && f.instrument == r.market_slug,
{
    lemma_fresh_trade_fits_request(trades, r, imported);
}

} // verus!
