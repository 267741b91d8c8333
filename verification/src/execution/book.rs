//! The book of paper orders and fills: what the log says of each order on the
//! paper venue, the fills recorded for them, and the backend accounts seen.
//! Quantities and prices are carried as binary64 encodings; positions, notional
//! amounts and profit are arithmetic on them and are not computed here.
use vstd::prelude::*;

use crate::codecs::{all_decode, check_decodes, decode_error, CodecError};
use crate::events::{
    idempotency_key_of, Binary64, EventPayload, EventTyped, FillReceived, FillSide, PayloadView,
    Timestamp, timestamp_lt,
};
use crate::execution::adapter::POLYMARKET_PAPER_VENUE;
use crate::execution::candidates::{strip_prefix_text, strip_text};
use crate::queries::support::or_else;
use crate::store::{event_views, StoredEvent, StoredEventView};
use crate::text::{
    clone_opt, insert_sorted, lemma_sorted_elements_distinct, lemma_sorted_elements_of,
    lemma_text_lt_irreflexive, lemma_text_lt_total, lemma_text_lt_transitive, opt_view, owned,
    same_text, sorted_elements, strictly_sorted, strs, text_less, text_lt,
};

verus! {

#[derive(Debug, Clone, Copy, PartialEq, Eq, Structural)]
pub enum PaperOrderStatus {
    Registered,
    Submitted,
    Filled,
}

#[derive(Debug, Clone, Copy, PartialEq, Eq, Structural)]
pub enum PaperPositionLifecycle {
    Open,
    PartiallyClosed,
    Closed,
}

/// A paper order as the log shows it.
#[derive(Debug, Clone, PartialEq, Eq)]
pub struct PaperOrderView {
    pub order_id: String,
    pub decision_id: Option<String>,
    pub signal_id: Option<String>,
    pub instrument: String,
    pub venue: String,
    pub status: PaperOrderStatus,
    pub registered_at: Option<Timestamp>,
    pub submitted_at: Option<Timestamp>,
    pub fill_count: usize,
}

pub struct OrderEntry {
    pub order_id: Seq<char>,
    pub decision_id: Option<Seq<char>>,
    pub signal_id: Option<Seq<char>>,
    pub instrument: Seq<char>,
    pub venue: Seq<char>,
    pub status: PaperOrderStatus,
    pub registered_at: Option<Timestamp>,
    pub submitted_at: Option<Timestamp>,
    pub fill_count: nat,
}

impl View for PaperOrderView {
    type V = OrderEntry;

    open spec fn view(&self) -> OrderEntry {
        OrderEntry {
            order_id: self.order_id@,
            decision_id: opt_view(self.decision_id),
            signal_id: opt_view(self.signal_id),
            instrument: self.instrument@,
            venue: self.venue@,
            status: self.status,
            registered_at: self.registered_at,
            submitted_at: self.submitted_at,
            fill_count: self.fill_count as nat,
        }
    }
}

/// A fill on the paper venue, with the outcome its order was placed for.
#[derive(Debug, Clone, PartialEq, Eq)]
pub struct PaperFillRecord {
    pub fill_id: String,
    pub order_id: String,
    pub decision_id: Option<String>,
    pub signal_id: Option<String>,
    pub instrument: String,
    pub outcome: String,
    pub side: FillSide,
    pub quantity: Binary64,
    pub price: Binary64,
    pub venue: String,
    pub executed_at: Timestamp,
}

pub struct FillRecordView {
    pub fill_id: Seq<char>,
    pub order_id: Seq<char>,
    pub decision_id: Option<Seq<char>>,
    pub signal_id: Option<Seq<char>>,
    pub instrument: Seq<char>,
    pub outcome: Seq<char>,
    pub side: FillSide,
    pub quantity: Binary64,
    pub price: Binary64,
    pub venue: Seq<char>,
    pub executed_at: Timestamp,
}

impl View for PaperFillRecord {
    type V = FillRecordView;

    open spec fn view(&self) -> FillRecordView {
        FillRecordView {
            fill_id: self.fill_id@,
            order_id: self.order_id@,
            decision_id: opt_view(self.decision_id),
            signal_id: opt_view(self.signal_id),
            instrument: self.instrument@,
            outcome: self.outcome@,
            side: self.side,
            quantity: self.quantity,
            price: self.price,
            venue: self.venue@,
            executed_at: self.executed_at,
        }
    }
}

/// The paper book of a log.
#[derive(Debug, Clone, PartialEq, Eq)]
pub struct PaperBook {
    pub orders: Vec<PaperOrderView>,
    pub fills: Vec<PaperFillRecord>,
    pub backend_accounts_seen: Vec<String>,
}

// ---------------------------------------------------------------------------
// Fills
// ---------------------------------------------------------------------------

pub open spec fn is_paper_fill(e: StoredEventView) -> bool {
    e.payload matches PayloadView::FillReceived(p) && p.venue == POLYMARKET_PAPER_VENUE@
}

pub open spec fn fill_key(e: StoredEventView) -> Seq<char> {
    idempotency_key_of(e.payload)
}

/// The keys of the paper fills of a log.
pub open spec fn paper_fill_keys(s: Seq<StoredEventView>) -> Set<Seq<char>>
    decreases s.len(),
{
    if s.len() == 0 {
        Set::empty()
    } else {
        let rest = paper_fill_keys(s.drop_last());
        if is_paper_fill(s.last()) {
            rest.insert(fill_key(s.last()))
        } else {
            rest
        }
    }
}

/// The first paper fill of a log with a key: later ones repeat it.
pub open spec fn first_paper_fill(s: Seq<StoredEventView>, k: Seq<char>) -> Option<StoredEventView>
    decreases s.len(),
{
    if s.len() == 0 {
        None
    } else {
        match first_paper_fill(s.drop_last(), k) {
            Some(e) => Some(e),
            None => if is_paper_fill(s.last()) && fill_key(s.last()) == k {
                Some(s.last())
            } else {
                None
            },
        }
    }
}

/// The outcome a fill's order was placed for, read from the order's identifier.
pub open spec fn outcome_for(order_id: Seq<char>, signal_id: Option<Seq<char>>) -> Seq<char> {
    if strip_text(order_id, "pm-paper-order-yes-"@) is Some {
        "yes"@
    } else if strip_text(order_id, "pm-paper-order-no-"@) is Some {
        "no"@
    } else if signal_id is Some && order_id == "pm-paper-order-"@ + signal_id->0 {
        "signal_direction"@
    } else {
        "unknown"@
    }
}

pub open spec fn fill_record_of(e: StoredEventView) -> FillRecordView {
    match e.payload {
        PayloadView::FillReceived(p) => FillRecordView {
            fill_id: p.fill_id,
            order_id: p.order_id,
            decision_id: or_else(p.decision_id, e.linkage.decision_id),
            signal_id: e.linkage.signal_id,
            instrument: p.instrument,
            outcome: outcome_for(p.order_id, e.linkage.signal_id),
            side: p.side,
            quantity: p.quantity,
            price: p.price,
            venue: p.venue,
            executed_at: p.executed_at,
        },
        _ => arbitrary(),
    }
}

/// The fills of a log, one per key, in order of key.
pub open spec fn fills_by_key(s: Seq<StoredEventView>) -> Seq<FillRecordView> {
    sorted_elements(paper_fill_keys(s)).map_values(|k: Seq<char>| fill_record_of(first_paper_fill(s, k)->0))
}

/// Fills are listed by execution time, then order, then fill.
pub open spec fn fill_before(a: FillRecordView, b: FillRecordView) -> bool {
    ||| timestamp_lt(a.executed_at, b.executed_at)
    ||| a.executed_at == b.executed_at && text_lt(a.order_id, b.order_id)
    ||| a.executed_at == b.executed_at && a.order_id == b.order_id && text_lt(a.fill_id, b.fill_id)
}

pub open spec fn fills_sorted(q: Seq<FillRecordView>) -> bool {
    forall|i: int, j: int| 0 <= i < j < q.len() ==> fill_before(#[trigger] q[i], #[trigger] q[j])
}

// ---------------------------------------------------------------------------
// Orders
// ---------------------------------------------------------------------------

pub open spec fn earlier_of(a: Timestamp, b: Timestamp) -> Timestamp {
    if timestamp_lt(b, a) {
        b
    } else {
        a
    }
}

pub open spec fn later_of(a: Timestamp, b: Timestamp) -> Timestamp {
    if timestamp_lt(b, a) {
        a
    } else {
        b
    }
}

/// How an order event of the log changes the entry of order `o`.
pub open spec fn entry_after_event(opt: Option<OrderEntry>, e: StoredEventView, o: Seq<char>) -> Option<OrderEntry> {
    match e.payload {
        PayloadView::OrderRegistered(p) => if p.venue == POLYMARKET_PAPER_VENUE@ && p.order_id == o {
            let base = match opt {
                Some(x) => x,
                None => OrderEntry {
                    order_id: o,
                    decision_id: or_else(p.decision_id, e.linkage.decision_id),
                    signal_id: e.linkage.signal_id,
                    instrument: p.instrument,
                    venue: p.venue,
                    status: PaperOrderStatus::Registered,
                    registered_at: Some(e.occurred_at),
                    submitted_at: None,
                    fill_count: 0,
                },
            };
            Some(
                OrderEntry {
                    registered_at: Some(
                        match base.registered_at {
                            Some(c) => earlier_of(c, e.occurred_at),
                            None => e.occurred_at,
                        },
                    ),
                    ..base
                },
            )
        } else {
            opt
        },
        PayloadView::OrderSubmitted(p) => if p.venue == POLYMARKET_PAPER_VENUE@ && p.order_id == o {
            let base = match opt {
                Some(x) => x,
                None => OrderEntry {
                    order_id: o,
                    decision_id: or_else(p.decision_id, e.linkage.decision_id),
                    signal_id: e.linkage.signal_id,
                    instrument: p.instrument,
                    venue: p.venue,
                    status: PaperOrderStatus::Submitted,
                    registered_at: None,
                    submitted_at: Some(e.occurred_at),
                    fill_count: 0,
                },
            };
            Some(
                OrderEntry {
                    status: PaperOrderStatus::Submitted,
                    submitted_at: Some(
                        match base.submitted_at {
                            Some(c) => later_of(c, e.occurred_at),
                            None => e.occurred_at,
                        },
                    ),
                    decision_id: or_else(base.decision_id, p.decision_id),
                    signal_id: or_else(base.signal_id, e.linkage.signal_id),
                    ..base
                },
            )
        } else {
            opt
        },
        _ => opt,
    }
}

pub open spec fn entry_after_events(s: Seq<StoredEventView>, o: Seq<char>) -> Option<OrderEntry>
    decreases s.len(),
{
    if s.len() == 0 {
        None
    } else {
        entry_after_event(entry_after_events(s.drop_last(), o), s.last(), o)
    }
}

/// How a fill changes the entry of order `o`.
pub open spec fn entry_after_fill(opt: Option<OrderEntry>, r: FillRecordView, o: Seq<char>) -> Option<OrderEntry> {
    if r.order_id == o {
        let base = match opt {
            Some(x) => x,
            None => OrderEntry {
                order_id: o,
                decision_id: r.decision_id,
                signal_id: r.signal_id,
                instrument: r.instrument,
                venue: r.venue,
                status: PaperOrderStatus::Filled,
                registered_at: None,
                submitted_at: None,
                fill_count: 0,
            },
        };
        Some(
            OrderEntry {
                status: PaperOrderStatus::Filled,
                fill_count: base.fill_count + 1,
                decision_id: or_else(base.decision_id, r.decision_id),
                signal_id: or_else(base.signal_id, r.signal_id),
                ..base
            },
        )
    } else {
        opt
    }
}

pub open spec fn entry_after_fills(opt: Option<OrderEntry>, rs: Seq<FillRecordView>, o: Seq<char>) -> Option<OrderEntry>
    decreases rs.len(),
{
    if rs.len() == 0 {
        opt
    } else {
        entry_after_fill(entry_after_fills(opt, rs.drop_last(), o), rs.last(), o)
    }
}

/// The entry of an order: its order events in log order, then its fills in
/// order of key.
pub open spec fn order_entry(s: Seq<StoredEventView>, o: Seq<char>) -> Option<OrderEntry> {
    entry_after_fills(entry_after_events(s, o), fills_by_key(s), o)
}

/// The orders of the paper book: those with a paper order event or a fill.
pub open spec fn event_order_ids(s: Seq<StoredEventView>) -> Set<Seq<char>>
    decreases s.len(),
{
    if s.len() == 0 {
        Set::empty()
    } else {
        let rest = event_order_ids(s.drop_last());
        match s.last().payload {
            PayloadView::OrderRegistered(p) => if p.venue == POLYMARKET_PAPER_VENUE@ {
                rest.insert(p.order_id)
            } else {
                rest
            },
            PayloadView::OrderSubmitted(p) => if p.venue == POLYMARKET_PAPER_VENUE@ {
                rest.insert(p.order_id)
            } else {
                rest
            },
            _ => rest,
        }
    }
}

pub open spec fn book_order_ids(s: Seq<StoredEventView>) -> Set<Seq<char>> {
    event_order_ids(s) + fills_by_key(s).map_values(|r: FillRecordView| r.order_id).to_set()
}

/// The orders of the book, by order identifier.
pub open spec fn book_orders(s: Seq<StoredEventView>) -> Seq<OrderEntry> {
    sorted_elements(book_order_ids(s)).map_values(|o: Seq<char>| order_entry(s, o)->0)
}

// ---------------------------------------------------------------------------
// Backend accounts
// ---------------------------------------------------------------------------

/// The position of the last `-` of a text.
pub open spec fn last_dash(s: Seq<char>) -> Option<int>
    decreases s.len(),
{
    if s.len() == 0 {
        None
    } else if s.last() == '-' {
        Some(s.len() - 1)
    } else {
        last_dash(s.drop_last())
    }
}

/// The backend account a fill identifier names: `pm-paper-`, the account, `-`
/// and the trade.
pub open spec fn account_of_fill(fill_id: Seq<char>) -> Option<Seq<char>> {
    match strip_text(fill_id, "pm-paper-"@) {
        Some(rest) => match last_dash(rest) {
            Some(i) => Some(rest.take(i)),
            None => None,
        },
        None => None,
    }
}

pub open spec fn accounts_of(rs: Seq<FillRecordView>) -> Set<Seq<char>>
    decreases rs.len(),
{
    if rs.len() == 0 {
        Set::empty()
    } else {
        let rest = accounts_of(rs.drop_last());
        match account_of_fill(rs.last().fill_id) {
            Some(a) => rest.insert(a),
            None => rest,
        }
    }
}

/// The paper book of a log: its orders by identifier, its fills (one per key)
/// in order of execution, and the backend accounts they name, in order.
pub open spec fn is_paper_book_of(
    s: Seq<StoredEventView>,
    orders: Seq<OrderEntry>,
    fills: Seq<FillRecordView>,
    accounts: Seq<Seq<char>>,
) -> bool {
    &&& orders == book_orders(s)
    &&& fills_sorted(fills)
    &&& fills.to_set() == fills_by_key(s).to_set()
    &&& fills.len() == fills_by_key(s).len()
    &&& accounts == sorted_elements(accounts_of(fills_by_key(s)))
}

// ---------------------------------------------------------------------------
// Building the book
// ---------------------------------------------------------------------------

proof fn lemma_paper_fill_keys(s: Seq<StoredEventView>, k: Seq<char>)
    ensures
        paper_fill_keys(s).contains(k) <==> first_paper_fill(s, k) is Some,
        paper_fill_keys(s).finite(),
        first_paper_fill(s, k) matches Some(e) ==> is_paper_fill(e) && fill_key(e) == k,
    decreases s.len(),
{
    if s.len() > 0 {
        lemma_paper_fill_keys(s.drop_last(), k);
    }
}

fn paper_fill_key_list(events: &Vec<StoredEvent>) -> (r: Vec<String>)
    ensures
        strictly_sorted(strs(r@)),
        strs(r@) == sorted_elements(paper_fill_keys(event_views(events@))),
{
    let ghost s = event_views(events@);
    let mut keys: Vec<String> = Vec::new();
    let mut i: usize = 0;
    proof {
        assert(s.take(0) =~= Seq::<StoredEventView>::empty());
        assert(strs(keys@).to_set() =~= Set::<Seq<char>>::empty());
    }
    while i < events.len()
        invariant
            i <= events.len(),
            s == event_views(events@),
            strictly_sorted(strs(keys@)),
            strs(keys@).to_set() == paper_fill_keys(s.take(i as int)),
        decreases events.len() - i,
    {
        proof {
            assert(s.take(i as int + 1).drop_last() =~= s.take(i as int));
            assert(s.take(i as int + 1).last() == events@[i as int]@);
        }
        match &events[i].payload {
            EventPayload::FillReceived(p) => {
                if same_text(p.venue.as_str(), POLYMARKET_PAPER_VENUE) {
                    let k = p.idempotency_key();
                    insert_sorted(&mut keys, k);
                }
            },
            _ => {},
        }
        i = i + 1;
    }
    proof {
        assert(s.take(events.len() as int) =~= s);
        lemma_sorted_elements_of(strs(keys@));
    }
    keys
}

fn first_fill_index(events: &Vec<StoredEvent>, k: &str) -> (r: Option<usize>)
    ensures
        match r {
            Some(i) => i < events.len() && first_paper_fill(event_views(events@), k@) == Some(events@[i as int]@),
            None => first_paper_fill(event_views(events@), k@) is None,
        },
{
    let ghost s = event_views(events@);
    let mut found: Option<usize> = None;
    let mut i: usize = 0;
    proof {
        assert(s.take(0) =~= Seq::<StoredEventView>::empty());
    }
    while i < events.len()
        invariant
            i <= events.len(),
            s == event_views(events@),
            match found {
                Some(j) => j < i && first_paper_fill(s.take(i as int), k@) == Some(events@[j as int]@),
                None => first_paper_fill(s.take(i as int), k@) is None,
            },
        decreases events.len() - i,
    {
        proof {
            assert(s.take(i as int + 1).drop_last() =~= s.take(i as int));
            assert(s.take(i as int + 1).last() == events@[i as int]@);
        }
        if found.is_none() {
            match &events[i].payload {
                EventPayload::FillReceived(p) => {
                    if same_text(p.venue.as_str(), POLYMARKET_PAPER_VENUE) {
                        let key = p.idempotency_key();
                        if same_text(key.as_str(), k) {
                            found = Some(i);
                        }
                    }
                },
                _ => {},
            }
        }
        i = i + 1;
    }
    proof {
        assert(s.take(events.len() as int) =~= s);
    }
    found
}

fn outcome_for_fill(order_id: &str, signal_id: &Option<String>) -> (r: String)
    ensures
        r@ == outcome_for(order_id@, opt_view(*signal_id)),
{
    if strip_prefix_text(order_id, "pm-paper-order-yes-").is_some() {
        return owned("yes");
    }
    if strip_prefix_text(order_id, "pm-paper-order-no-").is_some() {
        return owned("no");
    }
    match signal_id {
        Some(x) => {
            let mut expected = owned("pm-paper-order-");
            expected.append(x.as_str());
            if same_text(order_id, expected.as_str()) {
                return owned("signal_direction");
            }
        },
        None => {},
    }
    owned("unknown")
}

fn record_of(e: &StoredEvent) -> (r: PaperFillRecord)
    requires
        e.payload is FillReceived,
    ensures
        r@ == fill_record_of(e@),
{
    match &e.payload {
        EventPayload::FillReceived(p) => PaperFillRecord {
            fill_id: p.fill_id.clone(),
            order_id: p.order_id.clone(),
            decision_id: match &p.decision_id {
                Some(d) => Some(d.clone()),
                None => clone_opt(&e.linkage.decision_id),
            },
            signal_id: clone_opt(&e.linkage.signal_id),
            instrument: p.instrument.clone(),
            outcome: outcome_for_fill(p.order_id.as_str(), &e.linkage.signal_id),
            side: p.side,
            quantity: p.quantity,
            price: p.price,
            venue: p.venue.clone(),
            executed_at: p.executed_at,
        },
        _ => {
            proof {
                assert(false);
            }
            PaperFillRecord {
                fill_id: String::new(),
                order_id: String::new(),
                decision_id: None,
                signal_id: None,
                instrument: String::new(),
                outcome: String::new(),
                side: FillSide::Buy,
                quantity: Binary64 { bits: 0 },
                price: Binary64 { bits: 0 },
                venue: String::new(),
                executed_at: e.occurred_at,
            }
        },
    }
}

pub open spec fn record_views(v: Seq<PaperFillRecord>) -> Seq<FillRecordView> {
    v.map_values(|r: PaperFillRecord| r@)
}

/// The fills of a log, one per key, in order of key.
fn fills_in_key_order(events: &Vec<StoredEvent>) -> (r: Vec<PaperFillRecord>)
    ensures
        record_views(r@) == fills_by_key(event_views(events@)),
{
    let ghost s = event_views(events@);
    let keys = paper_fill_key_list(events);
    let ghost kv = strs(keys@);
    let mut out: Vec<PaperFillRecord> = Vec::new();
    let mut i: usize = 0;
    while i < keys.len()
        invariant
            i <= keys.len(),
            s == event_views(events@),
            kv == strs(keys@),
            kv == sorted_elements(paper_fill_keys(s)),
            record_views(out@) == kv.take(i as int).map_values(|k: Seq<char>| fill_record_of(first_paper_fill(s, k)->0)),
        decreases keys.len() - i,
    {
        let ghost k = kv[i as int];
        proof {
            assert(keys@[i as int]@ == k);
            lemma_paper_fill_keys(s, k);
            crate::text::lemma_sorted_elements_exist(paper_fill_keys(s));
            assert(kv.to_set().contains(k)) by {
                assert(kv[i as int] == k);
            }
            lemma_paper_fill_keys(s, k);
        }
        let idx = first_fill_index(events, keys[i].as_str());
        let j = match idx {
            Some(j) => j,
            None => {
                proof {
                    assert(false);
                }
                0
            },
        };
        let rec = record_of(&events[j]);
        let ghost before = record_views(out@);
        out.push(rec);
        proof {
            assert(record_views(out@) =~= before.push(rec@));
            assert(kv.take(i as int + 1) =~= kv.take(i as int).push(k));
            assert(kv.take(i as int + 1).map_values(|k: Seq<char>| fill_record_of(first_paper_fill(s, k)->0))
                =~= kv.take(i as int).map_values(|k: Seq<char>| fill_record_of(first_paper_fill(s, k)->0)).push(
                fill_record_of(first_paper_fill(s, k)->0),
            ));
        }
        i = i + 1;
    }
    proof {
        assert(kv.take(keys.len() as int) =~= kv);
    }
    out
}

pub open spec fn entry_opt(o: Option<PaperOrderView>) -> Option<OrderEntry> {
    match o {
        Some(x) => Some(x@),
        None => None,
    }
}

fn apply_event(opt: Option<PaperOrderView>, e: &StoredEvent, o: &str) -> (r: Option<PaperOrderView>)
    ensures
        entry_opt(r) == entry_after_event(entry_opt(opt), e@, o@),
{
    match &e.payload {
        EventPayload::OrderRegistered(p) => {
            if same_text(p.venue.as_str(), POLYMARKET_PAPER_VENUE) && same_text(p.order_id.as_str(), o) {
                let mut base = match opt {
                    Some(x) => x,
                    None => PaperOrderView {
                        order_id: owned(o),
                        decision_id: match &p.decision_id {
                            Some(d) => Some(d.clone()),
                            None => clone_opt(&e.linkage.decision_id),
                        },
                        signal_id: clone_opt(&e.linkage.signal_id),
                        instrument: p.instrument.clone(),
                        venue: p.venue.clone(),
                        status: PaperOrderStatus::Registered,
                        registered_at: Some(e.occurred_at),
                        submitted_at: None,
                        fill_count: 0,
                    },
                };
                let t = e.occurred_at;
                base.registered_at = Some(
                    match base.registered_at {
                        Some(c) => if t.is_before(&c) {
                            t
                        } else {
                            c
                        },
                        None => t,
                    },
                );
                Some(base)
            } else {
                opt
            }
        },
        EventPayload::OrderSubmitted(p) => {
            if same_text(p.venue.as_str(), POLYMARKET_PAPER_VENUE) && same_text(p.order_id.as_str(), o) {
                let mut base = match opt {
                    Some(x) => x,
                    None => PaperOrderView {
                        order_id: owned(o),
                        decision_id: match &p.decision_id {
                            Some(d) => Some(d.clone()),
                            None => clone_opt(&e.linkage.decision_id),
                        },
                        signal_id: clone_opt(&e.linkage.signal_id),
                        instrument: p.instrument.clone(),
                        venue: p.venue.clone(),
                        status: PaperOrderStatus::Submitted,
                        registered_at: None,
                        submitted_at: Some(e.occurred_at),
                        fill_count: 0,
                    },
                };
                let t = e.occurred_at;
                base.status = PaperOrderStatus::Submitted;
                base.submitted_at = Some(
                    match base.submitted_at {
                        Some(c) => if t.is_before(&c) {
                            c
                        } else {
                            t
                        },
                        None => t,
                    },
                );
                if base.decision_id.is_none() {
                    base.decision_id = clone_opt(&p.decision_id);
                }
                if base.signal_id.is_none() {
                    base.signal_id = clone_opt(&e.linkage.signal_id);
                }
                Some(base)
            } else {
                opt
            }
        },
        _ => opt,
    }
}

fn apply_fill(opt: Option<PaperOrderView>, r: &PaperFillRecord, o: &str) -> (out: Option<PaperOrderView>)
    requires
        opt matches Some(x) ==> x.fill_count < usize::MAX,
    ensures
        entry_opt(out) == entry_after_fill(entry_opt(opt), r@, o@),
{
    if same_text(r.order_id.as_str(), o) {
        let mut base = match opt {
            Some(x) => x,
            None => PaperOrderView {
                order_id: owned(o),
                decision_id: clone_opt(&r.decision_id),
                signal_id: clone_opt(&r.signal_id),
                instrument: r.instrument.clone(),
                venue: r.venue.clone(),
                status: PaperOrderStatus::Filled,
                registered_at: None,
                submitted_at: None,
                fill_count: 0,
            },
        };
        base.status = PaperOrderStatus::Filled;
        base.fill_count = base.fill_count + 1;
        if base.decision_id.is_none() {
            base.decision_id = clone_opt(&r.decision_id);
        }
        if base.signal_id.is_none() {
            base.signal_id = clone_opt(&r.signal_id);
        }
        Some(base)
    } else {
        opt
    }
}

proof fn lemma_events_keep_no_fills(s: Seq<StoredEventView>, o: Seq<char>)
    ensures
        entry_after_events(s, o) is Some <==> event_order_ids(s).contains(o),
        entry_after_events(s, o) matches Some(x) ==> x.fill_count == 0,
        event_order_ids(s).finite(),
    decreases s.len(),
{
    if s.len() > 0 {
        lemma_events_keep_no_fills(s.drop_last(), o);
    }
}

proof fn lemma_fills_make_entries(opt: Option<OrderEntry>, rs: Seq<FillRecordView>, o: Seq<char>)
    ensures
        (opt is Some || rs.map_values(|r: FillRecordView| r.order_id).contains(o)) ==> entry_after_fills(opt, rs, o) is Some,
        opt matches Some(x) ==> (entry_after_fills(opt, rs, o) matches Some(y) && y.fill_count <= x.fill_count + rs.len()),
        opt is None ==> (entry_after_fills(opt, rs, o) matches Some(y) ==> y.fill_count <= rs.len()),
    decreases rs.len(),
{
    if rs.len() > 0 {
        lemma_fills_make_entries(opt, rs.drop_last(), o);
        let m = rs.map_values(|r: FillRecordView| r.order_id);
        if m.contains(o) && !(opt is Some) {
            let k = choose|k: int| 0 <= k < m.len() && m[k] == o;
            if k < rs.len() - 1 {
                assert(rs.drop_last().map_values(|r: FillRecordView| r.order_id)[k] == o);
            }
        }
    }
}

/// The entry of one order, from the events and the fills in order of key.
fn entry_of_order(events: &Vec<StoredEvent>, fills: &Vec<PaperFillRecord>, o: &str) -> (r: Option<PaperOrderView>)
    ensures
        entry_opt(r) == entry_after_fills(entry_after_events(event_views(events@), o@), record_views(fills@), o@),
{
    let ghost s = event_views(events@);
    let ghost rs = record_views(fills@);
    let mut cur: Option<PaperOrderView> = None;
    let mut i: usize = 0;
    proof {
        assert(s.take(0) =~= Seq::<StoredEventView>::empty());
    }
    while i < events.len()
        invariant
            i <= events.len(),
            s == event_views(events@),
            entry_opt(cur) == entry_after_events(s.take(i as int), o@),
        decreases events.len() - i,
    {
        proof {
            assert(s.take(i as int + 1).drop_last() =~= s.take(i as int));
            assert(s.take(i as int + 1).last() == events@[i as int]@);
        }
        cur = apply_event(cur, &events[i], o);
        i = i + 1;
    }
    proof {
        assert(s.take(events.len() as int) =~= s);
        lemma_events_keep_no_fills(s, o@);
    }
    let ghost start = entry_opt(cur);
    let mut j: usize = 0;
    proof {
        assert(rs.take(0) =~= Seq::<FillRecordView>::empty());
    }
    while j < fills.len()
        invariant
            j <= fills.len(),
            rs == record_views(fills@),
            start matches Some(x) ==> x.fill_count == 0,
            entry_opt(cur) == entry_after_fills(start, rs.take(j as int), o@),
            cur matches Some(x) ==> x.fill_count <= j,
        decreases fills.len() - j,
    {
        proof {
            assert(rs.take(j as int + 1).drop_last() =~= rs.take(j as int));
            assert(rs.take(j as int + 1).last() == fills@[j as int]@);
        }
        cur = apply_fill(cur, &fills[j], o);
        j = j + 1;
    }
    proof {
        assert(rs.take(fills.len() as int) =~= rs);
    }
    cur
}

fn book_order_id_list(events: &Vec<StoredEvent>, fills: &Vec<PaperFillRecord>) -> (r: Vec<String>)
    ensures
        strictly_sorted(strs(r@)),
        strs(r@).to_set() == event_order_ids(event_views(events@)) + record_views(fills@).map_values(
            |x: FillRecordView| x.order_id,
        ).to_set(),
{
    let ghost s = event_views(events@);
    let ghost rs = record_views(fills@);
    let mut ids: Vec<String> = Vec::new();
    let mut i: usize = 0;
    proof {
        assert(s.take(0) =~= Seq::<StoredEventView>::empty());
        assert(strs(ids@).to_set() =~= Set::<Seq<char>>::empty());
    }
    while i < events.len()
        invariant
            i <= events.len(),
            s == event_views(events@),
            strictly_sorted(strs(ids@)),
            strs(ids@).to_set() == event_order_ids(s.take(i as int)),
        decreases events.len() - i,
    {
        proof {
            assert(s.take(i as int + 1).drop_last() =~= s.take(i as int));
            assert(s.take(i as int + 1).last() == events@[i as int]@);
        }
        match &events[i].payload {
            EventPayload::OrderRegistered(p) => {
                if same_text(p.venue.as_str(), POLYMARKET_PAPER_VENUE) {
                    insert_sorted(&mut ids, p.order_id.clone());
                }
            },
            EventPayload::OrderSubmitted(p) => {
                if same_text(p.venue.as_str(), POLYMARKET_PAPER_VENUE) {
                    insert_sorted(&mut ids, p.order_id.clone());
                }
            },
            _ => {},
        }
        i = i + 1;
    }
    proof {
        assert(s.take(events.len() as int) =~= s);
    }
    let ghost base = strs(ids@).to_set();
    let mut j: usize = 0;
    proof {
        assert(rs.take(0).map_values(|x: FillRecordView| x.order_id).to_set() =~= Set::<Seq<char>>::empty());
        assert(base + Set::<Seq<char>>::empty() =~= base);
    }
    while j < fills.len()
        invariant
            j <= fills.len(),
            rs == record_views(fills@),
            strictly_sorted(strs(ids@)),
            strs(ids@).to_set() == base + rs.take(j as int).map_values(|x: FillRecordView| x.order_id).to_set(),
        decreases fills.len() - j,
    {
        let ghost before = rs.take(j as int).map_values(|x: FillRecordView| x.order_id);
        proof {
            assert(rs.take(j as int + 1).map_values(|x: FillRecordView| x.order_id) =~= before.push(fills@[j as int].order_id@));
            before.lemma_push_to_set_commute(fills@[j as int].order_id@);
        }
        insert_sorted(&mut ids, fills[j].order_id.clone());
        proof {
            assert(strs(ids@).to_set() =~= base + rs.take(j as int + 1).map_values(|x: FillRecordView| x.order_id).to_set());
        }
        j = j + 1;
    }
    proof {
        assert(rs.take(fills.len() as int) =~= rs);
    }
    ids
}

proof fn lemma_fill_before_transitive(a: FillRecordView, b: FillRecordView, c: FillRecordView)
    requires
        fill_before(a, b),
        fill_before(b, c),
    ensures
        fill_before(a, c),
{
    if a.executed_at == b.executed_at && b.executed_at == c.executed_at {
        lemma_text_lt_irreflexive(a.order_id);
        lemma_text_lt_irreflexive(b.order_id);
        if text_lt(a.order_id, b.order_id) && text_lt(b.order_id, c.order_id) {
            lemma_text_lt_transitive(a.order_id, b.order_id, c.order_id);
        } else if a.order_id == b.order_id && b.order_id == c.order_id {
            lemma_text_lt_transitive(a.fill_id, b.fill_id, c.fill_id);
        }
    }
}

proof fn lemma_fill_before_total(a: FillRecordView, b: FillRecordView)
    requires
        (a.order_id, a.fill_id) != (b.order_id, b.fill_id),
    ensures
        fill_before(a, b) || fill_before(b, a),
{
    lemma_text_lt_total(a.order_id, b.order_id);
    lemma_text_lt_total(a.fill_id, b.fill_id);
}

fn fill_is_before(a: &PaperFillRecord, b: &PaperFillRecord) -> (r: bool)
    ensures
        r == fill_before(a@, b@),
{
    if a.executed_at.is_before(&b.executed_at) {
        return true;
    }
    if a.executed_at != b.executed_at {
        return false;
    }
    if text_less(a.order_id.as_str(), b.order_id.as_str()) {
        return true;
    }
    same_text(a.order_id.as_str(), b.order_id.as_str()) && text_less(a.fill_id.as_str(), b.fill_id.as_str())
}

pub(crate) fn copy_record(r: &PaperFillRecord) -> (c: PaperFillRecord)
    ensures
        c@ == r@,
{
    PaperFillRecord {
        fill_id: r.fill_id.clone(),
        order_id: r.order_id.clone(),
        decision_id: clone_opt(&r.decision_id),
        signal_id: clone_opt(&r.signal_id),
        instrument: r.instrument.clone(),
        outcome: r.outcome.clone(),
        side: r.side,
        quantity: r.quantity,
        price: r.price,
        venue: r.venue.clone(),
        executed_at: r.executed_at,
    }
}

fn insert_fill(v: &mut Vec<PaperFillRecord>, x: PaperFillRecord)
    requires
        fills_sorted(record_views(old(v)@)),
        forall|i: int| 0 <= i < old(v)@.len() ==> ((#[trigger] old(v)@[i]).order_id@, old(v)@[i].fill_id@) != (
            x.order_id@,
            x.fill_id@,
        ),
    ensures
        fills_sorted(record_views(final(v)@)),
        record_views(final(v)@).to_set() == record_views(old(v)@).to_set().insert(x@),
        final(v)@.len() == old(v)@.len() + 1,
{
    let ghost old_v = record_views(v@);
    let ghost xv = x@;
    let mut k: usize = 0;
    while k < v.len()
        invariant
            k <= v.len(),
            xv == x@,
            record_views(v@) == old_v,
            fills_sorted(old_v),
            forall|i: int| 0 <= i < k ==> fill_before(#[trigger] old_v[i], xv),
        ensures
            k <= v.len(),
            record_views(v@) == old_v,
            forall|i: int| 0 <= i < k ==> fill_before(#[trigger] old_v[i], xv),
            k < v.len() ==> !fill_before(old_v[k as int], xv),
        decreases v.len() - k,
    {
        let b = fill_is_before(&v[k], &x);
        proof {
            assert(old_v[k as int] == v@[k as int]@);
        }
        if !b {
            break;
        }
        k = k + 1;
    }
    proof {
        if k < v.len() {
            assert(old_v[k as int] == v@[k as int]@);
            lemma_fill_before_total(old_v[k as int], xv);
        }
    }
    v.insert(k, x);
    proof {
        let nv = record_views(v@);
        assert(nv =~= old_v.insert(k as int, xv));
        assert forall|i: int, j: int| 0 <= i < j < nv.len() implies fill_before(#[trigger] nv[i], #[trigger] nv[j]) by {
            if j < k {
            } else if i < k && j == k {
            } else if i < k && j > k {
                assert(nv[j] == old_v[j - 1]);
                assert(fill_before(xv, old_v[k as int]));
                if j - 1 > k {
                    lemma_fill_before_transitive(xv, old_v[k as int], old_v[j - 1]);
                }
                lemma_fill_before_transitive(nv[i], xv, nv[j]);
            } else if i == k {
                assert(nv[j] == old_v[j - 1]);
                assert(fill_before(xv, old_v[k as int]));
                if j - 1 > k {
                    lemma_fill_before_transitive(xv, old_v[k as int], old_v[j - 1]);
                }
            } else {
                assert(nv[i] == old_v[i - 1]);
                assert(nv[j] == old_v[j - 1]);
            }
        }
        assert(nv.to_set() =~= old_v.to_set().insert(xv)) by {
            assert forall|y: FillRecordView| nv.to_set().contains(y) implies old_v.to_set().insert(xv).contains(y) by {
                let m = choose|m: int| 0 <= m < nv.len() && nv[m] == y;
                if m < k {
                    assert(old_v[m] == y);
                } else if m > k {
                    assert(old_v[m - 1] == y);
                }
            }
            assert forall|y: FillRecordView| old_v.to_set().insert(xv).contains(y) implies nv.to_set().contains(y) by {
                if y == xv {
                    assert(nv[k as int] == y);
                } else {
                    let m = choose|m: int| 0 <= m < old_v.len() && old_v[m] == y;
                    if m < k {
                        assert(nv[m] == y);
                    } else {
                        assert(nv[m + 1] == y);
                    }
                }
            }
        }
    }
}

/// Distinct keys of paper fills name distinct (order, fill) pairs.
proof fn lemma_fill_pairs_distinct(s: Seq<StoredEventView>)
    ensures
        forall|i: int, j: int| 0 <= i < j < fills_by_key(s).len() ==> ((#[trigger] fills_by_key(s)[i]).order_id,
            fills_by_key(s)[i].fill_id) != ((#[trigger] fills_by_key(s)[j]).order_id, fills_by_key(s)[j].fill_id),
{
    let ks = sorted_elements(paper_fill_keys(s));
    let rs = fills_by_key(s);
    lemma_paper_fill_keys(s, Seq::empty());
    crate::text::lemma_sorted_elements_exist(paper_fill_keys(s));
    lemma_sorted_elements_distinct(ks);
    assert forall|i: int, j: int| 0 <= i < j < rs.len() implies ((#[trigger] rs[i]).order_id, rs[i].fill_id) != (
        (#[trigger] rs[j]).order_id,
        rs[j].fill_id,
    ) by {
        let ki = ks[i];
        let kj = ks[j];
        assert(ks.to_set().contains(ki));
        assert(ks.to_set().contains(kj));
        lemma_paper_fill_keys(s, ki);
        lemma_paper_fill_keys(s, kj);
        let ei = first_paper_fill(s, ki)->0;
        let ej = first_paper_fill(s, kj)->0;
        assert(rs[i] == fill_record_of(ei));
        assert(rs[j] == fill_record_of(ej));
        if rs[i].order_id == rs[j].order_id && rs[i].fill_id == rs[j].fill_id {
            assert(fill_key(ei) == fill_key(ej));
            assert(ki == kj);
        }
    }
}

/// The fills of a log in order of execution.
fn fills_by_execution(fills: &Vec<PaperFillRecord>, Ghost(s): Ghost<Seq<StoredEventView>>) -> (r: Vec<PaperFillRecord>)
    requires
        record_views(fills@) == fills_by_key(s),
    ensures
        fills_sorted(record_views(r@)),
        record_views(r@).to_set() == fills_by_key(s).to_set(),
        r@.len() == fills@.len(),
{
    let ghost rs = record_views(fills@);
    proof {
        lemma_fill_pairs_distinct(s);
    }
    let mut out: Vec<PaperFillRecord> = Vec::new();
    let mut i: usize = 0;
    proof {
        assert(record_views(out@).to_set() =~= rs.take(0).to_set());
    }
    while i < fills.len()
        invariant
            i <= fills.len(),
            rs == record_views(fills@),
            rs == fills_by_key(s),
            forall|a: int, b: int| 0 <= a < b < rs.len() ==> ((#[trigger] rs[a]).order_id, rs[a].fill_id) != (
                (#[trigger] rs[b]).order_id,
                rs[b].fill_id,
            ),
            fills_sorted(record_views(out@)),
            record_views(out@).to_set() == rs.take(i as int).to_set(),
            out@.len() == i,
        decreases fills.len() - i,
    {
        let ghost ov = record_views(out@);
        proof {
            assert forall|m: int| 0 <= m < out@.len() implies ((#[trigger] out@[m]).order_id@, out@[m].fill_id@) != (
                fills@[i as int].order_id@,
                fills@[i as int].fill_id@,
            ) by {
                assert(ov[m] == out@[m]@);
                assert(ov.to_set().contains(ov[m]));
                assert(rs.take(i as int).to_set().contains(ov[m]));
                let a = choose|a: int| 0 <= a < i && rs.take(i as int)[a] == ov[m];
                assert(rs[a] == ov[m]);
                assert(rs[i as int] == fills@[i as int]@);
            }
        }
        insert_fill(&mut out, copy_record(&fills[i]));
        proof {
            assert(rs.take(i as int + 1) =~= rs.take(i as int).push(rs[i as int]));
            rs.take(i as int).lemma_push_to_set_commute(rs[i as int]);
            assert(fills[i as int]@ == rs[i as int]);
        }
        i = i + 1;
    }
    proof {
        assert(rs.take(fills.len() as int) =~= rs);
    }
    out
}

fn last_dash_index(s: &str) -> (r: Option<usize>)
    ensures
        match r {
            Some(i) => last_dash(s@) == Some(i as int),
            None => last_dash(s@) is None,
        },
{
    let n = s.unicode_len();
    let mut found: Option<usize> = None;
    let mut i: usize = 0;
    proof {
        assert(s@.take(0) =~= Seq::<char>::empty());
    }
    while i < n
        invariant
            n == s@.len(),
            i <= n,
            match found {
                Some(j) => last_dash(s@.take(i as int)) == Some(j as int),
                None => last_dash(s@.take(i as int)) is None,
            },
        decreases n - i,
    {
        proof {
            assert(s@.take(i as int + 1).drop_last() =~= s@.take(i as int));
        }
        if s.get_char(i) == '-' {
            found = Some(i);
        }
        i = i + 1;
    }
    proof {
        assert(s@.take(n as int) =~= s@);
    }
    found
}

fn backend_account_from_fill_id(fill_id: &str) -> (r: Option<String>)
    ensures
        opt_view(r) == account_of_fill(fill_id@),
{
    let rest = match strip_prefix_text(fill_id, "pm-paper-") {
        Some(r) => r,
        None => return None,
    };
    match last_dash_index(rest.as_str()) {
        Some(i) => {
            proof {
                assert(i <= rest@.len()) by {
                    lemma_last_dash_in_range(rest@);
                }
            }
            let account = rest.as_str().substring_char(0, i);
            proof {
                assert(account@ =~= rest@.take(i as int));
            }
            Some(owned(account))
        },
        None => None,
    }
}

proof fn lemma_last_dash_in_range(s: Seq<char>)
    ensures
        last_dash(s) matches Some(i) ==> 0 <= i < s.len(),
    decreases s.len(),
{
    if s.len() > 0 {
        lemma_last_dash_in_range(s.drop_last());
    }
}

fn backend_accounts(fills: &Vec<PaperFillRecord>) -> (r: Vec<String>)
    ensures
        strs(r@) == sorted_elements(accounts_of(record_views(fills@))),
{
    let ghost rs = record_views(fills@);
    let mut out: Vec<String> = Vec::new();
    let mut i: usize = 0;
    proof {
        assert(rs.take(0) =~= Seq::<FillRecordView>::empty());
        assert(strs(out@).to_set() =~= Set::<Seq<char>>::empty());
    }
    while i < fills.len()
        invariant
            i <= fills.len(),
            rs == record_views(fills@),
            strictly_sorted(strs(out@)),
            strs(out@).to_set() == accounts_of(rs.take(i as int)),
        decreases fills.len() - i,
    {
        proof {
            assert(rs.take(i as int + 1).drop_last() =~= rs.take(i as int));
            assert(rs.take(i as int + 1).last() == fills@[i as int]@);
        }
        match backend_account_from_fill_id(fills[i].fill_id.as_str()) {
            Some(a) => {
                insert_sorted(&mut out, a);
            },
            None => {},
        }
        i = i + 1;
    }
    proof {
        assert(rs.take(fills.len() as int) =~= rs);
        lemma_sorted_elements_of(strs(out@));
    }
    out
}

pub open spec fn order_views(v: Seq<PaperOrderView>) -> Seq<OrderEntry> {
    v.map_values(|o: PaperOrderView| o@)
}

/// The paper book of a log: its orders by identifier, its fills by execution,
/// the backend accounts its fills name; every event must decode.
pub fn paper_book(events: &Vec<StoredEvent>) -> (r: Result<PaperBook, CodecError>)
    ensures
        match r {
            Ok(b) => all_decode(event_views(events@)) && is_paper_book_of(
                event_views(events@),
                order_views(b.orders@),
                record_views(b.fills@),
                strs(b.backend_accounts_seen@),
            ),
            Err(e) => !all_decode(event_views(events@)) && e@ == decode_error(event_views(events@)),
        },
{
    let ghost s = event_views(events@);
    match check_decodes(events.as_slice()) {
        Err(e) => return Err(e),
        Ok(_) => {},
    }
    let by_key = fills_in_key_order(events);
    let ghost rs = record_views(by_key@);
    let ids = book_order_id_list(events, &by_key);
    let ghost idv = strs(ids@);
    proof {
        lemma_sorted_elements_of(idv);
        assert(idv.to_set() == book_order_ids(s));
    }
    let mut orders: Vec<PaperOrderView> = Vec::new();
    let mut i: usize = 0;
    while i < ids.len()
        invariant
            i <= ids.len(),
            s == event_views(events@),
            rs == record_views(by_key@),
            rs == fills_by_key(s),
            idv == strs(ids@),
            idv == sorted_elements(book_order_ids(s)),
            idv.to_set() == book_order_ids(s),
            order_views(orders@) == idv.take(i as int).map_values(|o: Seq<char>| order_entry(s, o)->0),
        decreases ids.len() - i,
    {
        let ghost o = idv[i as int];
        proof {
            assert(ids@[i as int]@ == o);
            assert(idv.to_set().contains(o));
            lemma_events_keep_no_fills(s, o);
            lemma_fills_make_entries(entry_after_events(s, o), rs, o);
        }
        let entry = entry_of_order(events, &by_key, ids[i].as_str());
        let e = match entry {
            Some(e) => e,
            None => {
                proof {
                    assert(false);
                }
                return Err(CodecError::PayloadMismatch(String::new()));
            },
        };
        let ghost before = order_views(orders@);
        orders.push(e);
        proof {
            assert(order_views(orders@) =~= before.push(e@));
            assert(idv.take(i as int + 1) =~= idv.take(i as int).push(o));
            assert(idv.take(i as int + 1).map_values(|o: Seq<char>| order_entry(s, o)->0) =~= idv.take(
                i as int,
            ).map_values(|o: Seq<char>| order_entry(s, o)->0).push(order_entry(s, o)->0));
        }
        i = i + 1;
    }
    proof {
        assert(idv.take(ids.len() as int) =~= idv);
    }
    let fills = fills_by_execution(&by_key, Ghost(s));
    let accounts = backend_accounts(&by_key);
    Ok(PaperBook { orders, fills, backend_accounts_seen: accounts })
}

proof fn lemma_events_never_fill(s: Seq<StoredEventView>, o: Seq<char>)
    ensures
        entry_after_events(s, o) matches Some(x) ==> x.status != PaperOrderStatus::Filled && x.fill_count == 0,
    decreases s.len(),
{
    if s.len() > 0 {
        lemma_events_never_fill(s.drop_last(), o);
    }
}

proof fn lemma_fills_mark_filled(opt: Option<OrderEntry>, rs: Seq<FillRecordView>, o: Seq<char>)
    requires
        opt matches Some(x) ==> (x.status == PaperOrderStatus::Filled <==> x.fill_count > 0),
    ensures
        entry_after_fills(opt, rs, o) matches Some(x) ==> (x.status == PaperOrderStatus::Filled <==> x.fill_count > 0),
    decreases rs.len(),
{
    if rs.len() > 0 {
        lemma_fills_mark_filled(opt, rs.drop_last(), o);
    }
}

/// An order of the paper book is filled exactly when fills were recorded for it.
pub proof fn lemma_filled_orders_have_fills(s: Seq<StoredEventView>, o: Seq<char>)
    ensures
        order_entry(s, o) matches Some(x) ==> (x.status == PaperOrderStatus::Filled <==> x.fill_count > 0),
{
    lemma_events_never_fill(s, o);
    lemma_fills_mark_filled(entry_after_events(s, o), fills_by_key(s), o);
}

proof fn lemma_events_name_their_order(s: Seq<StoredEventView>, o: Seq<char>)
    ensures
        entry_after_events(s, o) matches Some(x) ==> x.order_id == o,
    decreases s.len(),
{
    if s.len() > 0 {
        lemma_events_name_their_order(s.drop_last(), o);
    }
}

proof fn lemma_fills_name_their_order(opt: Option<OrderEntry>, rs: Seq<FillRecordView>, o: Seq<char>)
    requires
        opt matches Some(x) ==> x.order_id == o,
    ensures
        entry_after_fills(opt, rs, o) matches Some(x) ==> x.order_id == o,
    decreases rs.len(),
{
    if rs.len() > 0 {
        lemma_fills_name_their_order(opt, rs.drop_last(), o);
    }
}

/// The record of the first paper fill under a key is a paper fill whose
/// order, fill and venue make that key.
proof fn lemma_record_keys(s: Seq<StoredEventView>, k: Seq<char>)
    requires
        paper_fill_keys(s).contains(k),
    ensures
        fill_record_of(first_paper_fill(s, k)->0).venue == POLYMARKET_PAPER_VENUE@,
        k == "fill.received:v1:"@ + fill_record_of(first_paper_fill(s, k)->0).venue + ":"@ + fill_record_of(
            first_paper_fill(s, k)->0,
        ).order_id + ":"@ + fill_record_of(first_paper_fill(s, k)->0).fill_id,
{
    lemma_paper_fill_keys(s, k);
}

/// What the paper book of a log says of it: its orders in strictly increasing
/// order of identifier; its fills ordered by execution time, then order, then
/// fill; every fill on the paper venue; and no two fills of the same order and
/// fill identifiers.
pub proof fn lemma_paper_book_law(
    s: Seq<StoredEventView>,
    orders: Seq<OrderEntry>,
    fills: Seq<FillRecordView>,
    accounts: Seq<Seq<char>>,
)
    requires
        is_paper_book_of(s, orders, fills, accounts),
    ensures
        strictly_sorted(orders.map_values(|x: OrderEntry| x.order_id)),
        fills_sorted(fills),
        forall|i: int| 0 <= i < fills.len() ==> (#[trigger] fills[i]).venue == POLYMARKET_PAPER_VENUE@,
        forall|i: int, j: int|
            0 <= i < j < fills.len() ==> !(#[trigger] fills[i].order_id == #[trigger] fills[j].order_id
                && fills[i].fill_id == fills[j].fill_id),
{
    let keys = sorted_elements(paper_fill_keys(s));
    let fk = fills_by_key(s);
    lemma_paper_fill_keys(s, Seq::empty());
    crate::text::lemma_sorted_elements_exist(paper_fill_keys(s));
    // every fill is the record of the first paper fill under some key
    assert forall|i: int| 0 <= i < fills.len() implies exists|a: int|
        0 <= a < keys.len() && #[trigger] fills[i] == fill_record_of(first_paper_fill(s, keys[a])->0) by {
        assert(fills.to_set().contains(fills[i]));
        assert(fk.to_set().contains(fills[i]));
        let a = choose|a: int| 0 <= a < fk.len() && fk[a] == fills[i];
        assert(fk[a] == fill_record_of(first_paper_fill(s, keys[a])->0));
    }
    assert forall|i: int| 0 <= i < fills.len() implies (#[trigger] fills[i]).venue == POLYMARKET_PAPER_VENUE@ by {
        let a = choose|a: int| 0 <= a < keys.len() && #[trigger] fills[i] == fill_record_of(first_paper_fill(s, keys[a])->0);
        assert(keys.to_set().contains(keys[a]));
        lemma_record_keys(s, keys[a]);
    }
    assert forall|i: int, j: int|
        0 <= i < j < fills.len() implies !(#[trigger] fills[i].order_id == #[trigger] fills[j].order_id
            && fills[i].fill_id == fills[j].fill_id) by {
        if fills[i].order_id == fills[j].order_id && fills[i].fill_id == fills[j].fill_id {
            let a = choose|a: int| 0 <= a < keys.len() && #[trigger] fills[i] == fill_record_of(first_paper_fill(s, keys[a])->0);
            let b = choose|b: int| 0 <= b < keys.len() && #[trigger] fills[j] == fill_record_of(first_paper_fill(s, keys[b])->0);
            assert(keys.to_set().contains(keys[a]));
            assert(keys.to_set().contains(keys[b]));
            lemma_record_keys(s, keys[a]);
            lemma_record_keys(s, keys[b]);
            assert(keys[a] == keys[b]);
            assert(fills[i] == fills[j]);
            assert(fill_before(fills[i], fills[j]));
            lemma_text_lt_irreflexive(fills[i].order_id);
            lemma_text_lt_irreflexive(fills[i].fill_id);
        }
    }
    // orders
    let ids = book_order_ids(s);
    lemma_events_keep_no_fills(s, Seq::empty());
    assert(ids.finite());
    crate::text::lemma_sorted_elements_exist(ids);
    let sq = sorted_elements(ids);
    assert forall|i: int| 0 <= i < sq.len() implies (#[trigger] orders[i]).order_id == sq[i] by {
        let o = sq[i];
        assert(sq.to_set().contains(o));
        lemma_events_keep_no_fills(s, o);
        lemma_events_name_their_order(s, o);
        lemma_fills_make_entries(entry_after_events(s, o), fk, o);
        if !event_order_ids(s).contains(o) {
            let m = fk.map_values(|r: FillRecordView| r.order_id);
            assert(m.to_set().contains(o));
        }
        lemma_fills_name_their_order(entry_after_events(s, o), fk, o);
    }
    assert(orders.map_values(|x: OrderEntry| x.order_id) =~= sq);
}


/// The outcome of an order is the side its identifier names: an identifier
/// that starts with `pm-paper-order-no-` gives `no`, one that starts with
/// `pm-paper-order-yes-` gives `yes`, whatever signal the fill links.
pub proof fn lemma_outcome_named_by_order_id(order_id: Seq<char>, signal_id: Option<Seq<char>>)
    ensures
        order_id.len() >= 18 && order_id.subrange(0, 18) == "pm-paper-order-no-"@ ==> outcome_for(order_id, signal_id)
            == "no"@,
        order_id.len() >= 19 && order_id.subrange(0, 19) == "pm-paper-order-yes-"@ ==> outcome_for(order_id, signal_id)
            == "yes"@,
{
    reveal_strlit("pm-paper-order-no-");
    reveal_strlit("pm-paper-order-yes-");
    reveal_strlit("no");
    reveal_strlit("yes");
    if order_id.len() >= 18 && order_id.subrange(0, 18) == "pm-paper-order-no-"@ {
        assert(order_id.take(18) =~= order_id.subrange(0, 18));
        assert(order_id[15] == order_id.subrange(0, 18)[15]);
        assert("pm-paper-order-no-"@[15] == 'n');
        assert(order_id[15] == 'n');
        if order_id.len() >= 19 {
            assert(order_id.take(19)[15] == 'n');
            assert("pm-paper-order-yes-"@[15] == 'y');
            assert(order_id.take(19) != "pm-paper-order-yes-"@);
        }
    }
    if order_id.len() >= 19 && order_id.subrange(0, 19) == "pm-paper-order-yes-"@ {
        assert(order_id.take(19) =~= order_id.subrange(0, 19));
    }
}

/// The fills of a paper book carry the outcome their order identifier names:
/// `no` for an order `pm-paper-order-no-…`, `yes` for `pm-paper-order-yes-…`.
pub proof fn lemma_book_fill_outcomes(
    s: Seq<StoredEventView>,
    orders: Seq<OrderEntry>,
    fills: Seq<FillRecordView>,
    accounts: Seq<Seq<char>>,
)
    requires
        is_paper_book_of(s, orders, fills, accounts),
    ensures
        forall|i: int|
            0 <= i < fills.len() && fills[i].order_id.len() >= 18 && (#[trigger] fills[i]).order_id.subrange(0, 18)
                == "pm-paper-order-no-"@ ==> fills[i].outcome == "no"@,
        forall|i: int|
            0 <= i < fills.len() && fills[i].order_id.len() >= 19 && (#[trigger] fills[i]).order_id.subrange(0, 19)
                == "pm-paper-order-yes-"@ ==> fills[i].outcome == "yes"@,
{
    let keys = sorted_elements(paper_fill_keys(s));
    let fk = fills_by_key(s);
    assert forall|i: int| 0 <= i < fills.len() implies (#[trigger] fills[i]).outcome == outcome_for(
        fills[i].order_id,
        fills[i].signal_id,
    ) by {
        assert(fills.to_set().contains(fills[i]));
        assert(fk.to_set().contains(fills[i]));
        let a = choose|a: int| 0 <= a < fk.len() && fk[a] == fills[i];
        assert(fk[a] == fill_record_of(first_paper_fill(s, keys[a])->0));
        lemma_paper_fill_keys(s, Seq::empty());
        crate::text::lemma_sorted_elements_exist(paper_fill_keys(s));
        assert(keys.to_set().contains(keys[a]));
        lemma_paper_fill_keys(s, keys[a]);
    }
    assert forall|i: int| 0 <= i < fills.len() implies #[trigger] fills[i].outcome == outcome_for(
        fills[i].order_id,
        fills[i].signal_id,
    ) && (fills[i].order_id.len() >= 18 && fills[i].order_id.subrange(0, 18) == "pm-paper-order-no-"@ ==> fills[i].outcome
        == "no"@) && (fills[i].order_id.len() >= 19 && fills[i].order_id.subrange(0, 19) == "pm-paper-order-yes-"@
        ==> fills[i].outcome == "yes"@) by {
        lemma_outcome_named_by_order_id(fills[i].order_id, fills[i].signal_id);
    }
}

} // verus!
