//! The operational summary's verified parts: the pipeline recap, the most
//! recent orders and fills of the paper book, and the summary's settings.
use vstd::prelude::*;

use crate::events::{timestamp_lt, Binary64, Timestamp};
use crate::execution::book::{copy_record, FillRecordView, OrderEntry};
use crate::execution::{PaperBook, PaperFillRecord, PaperOrderStatus, PaperOrderView};
use crate::observability::OperationalSummaryFormat;
use crate::text::{clone_opt, opt_view};
use crate::text::{lemma_text_lt_asymmetric, lemma_text_lt_irreflexive, lemma_text_lt_total, lemma_text_lt_transitive, text_less, text_lt};

verus! {

/// How many orders and how many fills the recent activity lists.
pub const RECENT_ACTIVITY_LIMIT: usize = 8;

/// What orders an entry of the recent activity: the instant of its latest
/// activity, if any, and its identifier.
pub struct ActivityKey {
    pub at: Option<Timestamp>,
    pub id: String,
}

pub struct ActivityKeyView {
    pub at: Option<Timestamp>,
    pub id: Seq<char>,
}

impl View for ActivityKey {
    type V = ActivityKeyView;

    open spec fn view(&self) -> ActivityKeyView {
        ActivityKeyView { at: self.at, id: self.id@ }
    }
}

pub open spec fn key_views(v: Seq<ActivityKey>) -> Seq<ActivityKeyView> {
    v.map_values(|k: ActivityKey| k@)
}

/// `a` is listed before `b`: its activity is later (an entry with an instant
/// is later than one without), or equally late and its identifier smaller.
pub open spec fn listed_before(a: ActivityKeyView, b: ActivityKeyView) -> bool {
    match (a.at, b.at) {
        (Some(x), Some(y)) => timestamp_lt(y, x) || (x == y && text_lt(a.id, b.id)),
        (Some(_), None) => true,
        (None, Some(_)) => false,
        (None, None) => text_lt(a.id, b.id),
    }
}

pub open spec fn follows(k: ActivityKeyView, last: Option<ActivityKeyView>) -> bool {
    match last {
        Some(l) => listed_before(l, k),
        None => true,
    }
}

/// The index of the first entry of `s` to list after `last`: among the entries
/// that follow `last`, one that no other is listed before (the first such).
pub open spec fn next_pick(s: Seq<ActivityKeyView>, last: Option<ActivityKeyView>) -> Option<int>
    decreases s.len(),
{
    if s.len() == 0 {
        None
    } else {
        let rest = next_pick(s.drop_last(), last);
        let i = s.len() - 1;
        if follows(s[i], last) && (rest is None || listed_before(s[i], s[rest.unwrap()])) {
            Some(i)
        } else {
            rest
        }
    }
}

pub open spec fn last_picked(s: Seq<ActivityKeyView>, p: Seq<int>) -> Option<ActivityKeyView> {
    if p.len() == 0 {
        None
    } else {
        Some(s[p.last()])
    }
}

/// The indices of the first `k` entries of `s` in listing order.
pub open spec fn picks(s: Seq<ActivityKeyView>, k: nat) -> Seq<int>
    decreases k,
{
    if k == 0 {
        Seq::empty()
    } else {
        let p = picks(s, (k - 1) as nat);
        match next_pick(s, last_picked(s, p)) {
            Some(i) => p.push(i),
            None => p,
        }
    }
}

fn activity_before(a: &ActivityKey, b: &ActivityKey) -> (r: bool)
    ensures
        r == listed_before(a@, b@),
{
    match (&a.at, &b.at) {
        (Some(x), Some(y)) => y.is_before(x) || (*x == *y && text_less(a.id.as_str(), b.id.as_str())),
        (Some(_), None) => true,
        (None, Some(_)) => false,
        (None, None) => text_less(a.id.as_str(), b.id.as_str()),
    }
}

fn next_pick_exec(keys: &Vec<ActivityKey>, last: Option<usize>) -> (r: Option<usize>)
    requires
        last matches Some(l) ==> l < keys.len(),
    ensures
        ({
            let lv = match last {
                Some(l) => Some(key_views(keys@)[l as int]),
                None => None,
            };
            match r {
                Some(i) => next_pick(key_views(keys@), lv) == Some(i as int),
                None => next_pick(key_views(keys@), lv) is None,
            }
        }),
{
    let ghost s = key_views(keys@);
    let ghost lv = match last {
        Some(l) => Some(s[l as int]),
        None => None,
    };
    let mut best: Option<usize> = None;
    let mut i: usize = 0;
    while i < keys.len()
        invariant
            i <= keys.len(),
            s == key_views(keys@),
            lv == (match last {
                Some(l) => Some(s[l as int]),
                None => None,
            }),
            last matches Some(l) ==> l < keys.len(),
            match best {
                Some(b) => next_pick(s.take(i as int), lv) == Some(b as int) && b < i,
                None => next_pick(s.take(i as int), lv) is None,
            },
        decreases keys.len() - i,
    {
        assert(s.take(i as int + 1).drop_last() =~= s.take(i as int));
        let eligible = match last {
            Some(l) => activity_before(&keys[l], &keys[i]),
            None => true,
        };
        if eligible {
            match best {
                None => {
                    best = Some(i);
                },
                Some(b) => {
                    if activity_before(&keys[i], &keys[b]) {
                        best = Some(i);
                    }
                },
            }
        }
        i = i + 1;
    }
    assert(s.take(keys.len() as int) =~= s);
    best
}

/// The indices of the first `limit` keys in listing order: latest activity
/// first, ties by identifier.
pub fn latest_indices(keys: &Vec<ActivityKey>, limit: usize) -> (r: Vec<usize>)
    ensures
        r@.map_values(|i: usize| i as int) == picks(key_views(keys@), limit as nat),
        forall|j: int| 0 <= j < r.len() ==> r[j] < keys.len(),
{
    let ghost s = key_views(keys@);
    let mut out: Vec<usize> = Vec::new();
    let mut t: usize = 0;
    while t < limit
        invariant
            t <= limit,
            s == key_views(keys@),
            out@.map_values(|i: usize| i as int) == picks(s, t as nat),
            forall|j: int| 0 <= j < out.len() ==> out[j] < keys.len(),
        decreases limit - t,
    {
        let last: Option<usize> = if out.len() == 0 {
            None
        } else {
            Some(out[out.len() - 1])
        };
        proof {
            let p = picks(s, t as nat);
            assert(p.len() == out.len());
            if out.len() > 0 {
                assert(p.last() == out[out.len() - 1] as int);
            }
        }
        let next = next_pick_exec(keys, last);
        match next {
            Some(i) => {
                proof {
                    reveal_with_fuel(next_pick, 1);
                }
                let ghost before = out@;
                out.push(i);
                proof {
                    assert(out@.map_values(|i: usize| i as int) =~= before.map_values(
                        |i: usize| i as int,
                    ).push(i as int));
                    lemma_next_pick_in_range(s, last_picked(s, picks(s, t as nat)));
                }
            },
            None => {},
        }
        t = t + 1;
    }
    out
}

proof fn lemma_next_pick_in_range(s: Seq<ActivityKeyView>, last: Option<ActivityKeyView>)
    ensures
        next_pick(s, last) matches Some(i) ==> 0 <= i < s.len(),
    decreases s.len(),
{
    if s.len() > 0 {
        lemma_next_pick_in_range(s.drop_last(), last);
    }
}

proof fn lemma_listed_before_order(a: ActivityKeyView, b: ActivityKeyView, c: ActivityKeyView)
    ensures
        !listed_before(a, a),
        listed_before(a, b) && listed_before(b, c) ==> listed_before(a, c),
        listed_before(a, b) ==> !listed_before(b, a),
        a != b ==> listed_before(a, b) || listed_before(b, a),
{
    lemma_text_lt_irreflexive(a.id);
    if text_lt(a.id, b.id) && text_lt(b.id, c.id) {
        lemma_text_lt_transitive(a.id, b.id, c.id);
    }
    if text_lt(a.id, b.id) {
        lemma_text_lt_asymmetric(a.id, b.id);
    }
    lemma_text_lt_total(a.id, b.id);
}

/// What the next pick is: an entry that follows `last` and that no entry
/// following `last` is listed before; `None` when nothing follows `last`.
proof fn lemma_next_pick_least(s: Seq<ActivityKeyView>, last: Option<ActivityKeyView>)
    ensures
        match next_pick(s, last) {
            Some(i) => 0 <= i < s.len() && follows(s[i], last) && forall|j: int|
                0 <= j < s.len() && follows(#[trigger] s[j], last) ==> !listed_before(s[j], s[i]),
            None => forall|j: int| 0 <= j < s.len() ==> !follows(#[trigger] s[j], last),
        },
    decreases s.len(),
{
    if s.len() > 0 {
        let t = s.drop_last();
        lemma_next_pick_least(t, last);
        let n = s.len() - 1;
        assert forall|j: int| 0 <= j < n implies s[j] == #[trigger] t[j] by {}
        match next_pick(t, last) {
            Some(r) => {
                if follows(s[n], last) && listed_before(s[n], s[r]) {
                    assert forall|j: int|
                        0 <= j < s.len() && follows(#[trigger] s[j], last) implies !listed_before(
                        s[j],
                        s[n],
                    ) by {
                        lemma_listed_before_order(s[j], s[n], s[r]);
                        if j < n {
                            assert(t[j] == s[j]);
                        }
                    }
                } else {
                    assert forall|j: int|
                        0 <= j < s.len() && follows(#[trigger] s[j], last) implies !listed_before(
                        s[j],
                        s[r],
                    ) by {
                        if j < n {
                            assert(t[j] == s[j]);
                        }
                    }
                }
            },
            None => {
                assert forall|j: int|
                    0 <= j < s.len() && follows(#[trigger] s[j], last) implies !listed_before(
                    s[j],
                    s[n],
                ) by {
                    if j < n {
                        assert(t[j] == s[j]);
                    }
                    lemma_listed_before_order(s[j], s[j], s[j]);
                }
                if !follows(s[n], last) {
                    assert forall|j: int| 0 <= j < s.len() implies !follows(#[trigger] s[j], last) by {
                        if j < n {
                            assert(t[j] == s[j]);
                        }
                    }
                }
            },
        }
    }
}

pub open spec fn distinct_ids(s: Seq<ActivityKeyView>) -> bool {
    forall|i: int, j: int| 0 <= i < j < s.len() ==> #[trigger] s[i].id != #[trigger] s[j].id
}

/// The listing is the first `k` entries in order: the picks are listed in
/// order, every entry left out is listed after every pick, and fewer than `k`
/// picks means nothing was left out.
pub proof fn lemma_picks_are_latest(s: Seq<ActivityKeyView>, k: nat)
    requires
        distinct_ids(s),
    ensures
        forall|m: int| 0 <= m < picks(s, k).len() ==> 0 <= #[trigger] picks(s, k)[m] < s.len(),
        forall|a: int, b: int|
            0 <= a < b < picks(s, k).len() ==> listed_before(
                s[#[trigger] picks(s, k)[a]],
                s[#[trigger] picks(s, k)[b]],
            ),
        forall|j: int, m: int|
            0 <= j < s.len() && !picks(s, k).contains(j) && 0 <= m < picks(s, k).len()
                ==> listed_before(s[#[trigger] picks(s, k)[m]], #[trigger] s[j]),
        picks(s, k).len() < k ==> forall|j: int| 0 <= j < s.len() ==> picks(s, k).contains(j),
    decreases k,
{
    if k > 0 {
        let p = picks(s, (k - 1) as nat);
        lemma_picks_are_latest(s, (k - 1) as nat);
        let last = last_picked(s, p);
        lemma_next_pick_least(s, last);
        match next_pick(s, last) {
            Some(i) => {
                let q = p.push(i);
                assert(picks(s, k) == q);
                assert forall|m: int| 0 <= m < p.len() implies listed_before(
                    s[#[trigger] q[m]],
                    s[i],
                ) by {
                    assert(q[m] == p[m]);
                    lemma_listed_before_order(s[p[m]], s[p.last()], s[i]);
                }
                assert forall|a: int, b: int| 0 <= a < b < q.len() implies listed_before(
                    s[#[trigger] q[a]],
                    s[#[trigger] q[b]],
                ) by {
                    assert(q[a] == p[a]);
                    if b < p.len() {
                        assert(q[b] == p[b]);
                    }
                }
                assert forall|j: int, m: int|
                    0 <= j < s.len() && !q.contains(j) && 0 <= m < q.len() implies listed_before(
                    s[#[trigger] q[m]],
                    #[trigger] s[j],
                ) by {
                    assert(!p.contains(j)) by {
                        if p.contains(j) {
                            let w = choose|w: int| 0 <= w < p.len() && p[w] == j;
                            assert(q[w] == j);
                        }
                    }
                    if m < p.len() {
                        assert(q[m] == p[m]);
                    } else {
                        assert(q[m] == i);
                        assert(j != i) by {
                            assert(q[p.len() as int] == i);
                        }
                        if p.len() > 0 {
                            assert(p[p.len() - 1] == p.last());
                        }
                        assert(follows(s[j], last));
                        assert(s[j].id != s[i].id);
                        lemma_listed_before_order(s[i], s[j], s[j]);
                    }
                }
                if q.len() < k {
                    assert forall|j: int| 0 <= j < s.len() implies q.contains(j) by {
                        assert(p.contains(j));
                        let w = choose|w: int| 0 <= w < p.len() && p[w] == j;
                        assert(q[w] == j);
                    }
                }
            },
            None => {
                assert(picks(s, k) == p);
                if p.len() < k {
                    assert forall|j: int| 0 <= j < s.len() implies p.contains(j) by {
                        if !p.contains(j) {
                            if p.len() > 0 {
                                assert(p[p.len() - 1] == p.last());
                            }
                            assert(follows(s[j], last));
                        }
                    }
                }
            },
        }
    }
}

// ---------------------------------------------------------------------------
// Recent activity of the paper book
// ---------------------------------------------------------------------------

/// An order of the recent activity, with its status named.
#[derive(Debug, Clone, PartialEq, Eq)]
pub struct OperationalRecentOrder {
    pub order_id: String,
    pub decision_id: Option<String>,
    pub signal_id: Option<String>,
    pub instrument: String,
    pub venue: String,
    pub status: String,
    pub fill_count: usize,
}

pub struct RecentOrderView {
    pub order_id: Seq<char>,
    pub decision_id: Option<Seq<char>>,
    pub signal_id: Option<Seq<char>>,
    pub instrument: Seq<char>,
    pub venue: Seq<char>,
    pub status: Seq<char>,
    pub fill_count: nat,
}

impl View for OperationalRecentOrder {
    type V = RecentOrderView;

    open spec fn view(&self) -> RecentOrderView {
        RecentOrderView {
            order_id: self.order_id@,
            decision_id: opt_view(self.decision_id),
            signal_id: opt_view(self.signal_id),
            instrument: self.instrument@,
            venue: self.venue@,
            status: self.status@,
            fill_count: self.fill_count as nat,
        }
    }
}

pub open spec fn status_name(s: PaperOrderStatus) -> Seq<char> {
    match s {
        PaperOrderStatus::Registered => "Registered"@,
        PaperOrderStatus::Submitted => "Submitted"@,
        PaperOrderStatus::Filled => "Filled"@,
    }
}

/// The name of an order status.
pub fn order_status_name(s: PaperOrderStatus) -> (r: String)
    ensures
        r@ == status_name(s),
{
    let name = match s {
        PaperOrderStatus::Registered => "Registered",
        PaperOrderStatus::Submitted => "Submitted",
        PaperOrderStatus::Filled => "Filled",
    };
    proof {
        reveal_strlit("Registered");
        reveal_strlit("Submitted");
        reveal_strlit("Filled");
    }
    name.to_string()
}

pub open spec fn recent_order_of(o: OrderEntry) -> RecentOrderView {
    RecentOrderView {
        order_id: o.order_id,
        decision_id: o.decision_id,
        signal_id: o.signal_id,
        instrument: o.instrument,
        venue: o.venue,
        status: status_name(o.status),
        fill_count: o.fill_count,
    }
}

/// An order of the book as the recent activity lists it.
pub fn recent_order(o: &PaperOrderView) -> (r: OperationalRecentOrder)
    ensures
        r@ == recent_order_of(o@),
{
    OperationalRecentOrder {
        order_id: o.order_id.clone(),
        decision_id: clone_opt(&o.decision_id),
        signal_id: clone_opt(&o.signal_id),
        instrument: o.instrument.clone(),
        venue: o.venue.clone(),
        status: order_status_name(o.status),
        fill_count: o.fill_count,
    }
}

/// An order's latest activity is its submission, else its registration.
pub open spec fn order_key(o: OrderEntry) -> ActivityKeyView {
    ActivityKeyView {
        at: match o.submitted_at {
            Some(t) => Some(t),
            None => o.registered_at,
        },
        id: o.order_id,
    }
}

pub open spec fn order_keys(v: Seq<PaperOrderView>) -> Seq<ActivityKeyView> {
    v.map_values(|o: PaperOrderView| order_key(o@))
}

pub open spec fn fill_key_of(f: FillRecordView) -> ActivityKeyView {
    ActivityKeyView { at: Some(f.executed_at), id: f.fill_id }
}

pub open spec fn fill_keys(v: Seq<PaperFillRecord>) -> Seq<ActivityKeyView> {
    v.map_values(|f: PaperFillRecord| fill_key_of(f@))
}

/// The most recent orders of the book: latest submission (else
/// registration) first, ties by identifier, at most the limit.
pub fn recent_orders(book: &PaperBook) -> (r: Vec<OperationalRecentOrder>)
    ensures
        ({
            let p = picks(order_keys(book.orders@), RECENT_ACTIVITY_LIMIT as nat);
            &&& r.len() == p.len()
            &&& forall|m: int|
                0 <= m < p.len() ==> #[trigger] r@[m]@ == recent_order_of(book.orders@[p[m]]@)
        }),
{
    let mut keys: Vec<ActivityKey> = Vec::new();
    let mut i: usize = 0;
    while i < book.orders.len()
        invariant
            i <= book.orders.len(),
            key_views(keys@) == order_keys(book.orders@).take(i as int),
        decreases book.orders.len() - i,
    {
        let o = &book.orders[i];
        let at = match o.submitted_at {
            Some(t) => Some(t),
            None => o.registered_at,
        };
        let ghost before = keys@;
        keys.push(ActivityKey { at, id: o.order_id.clone() });
        proof {
            assert(key_views(keys@) =~= key_views(before).push(keys@.last()@));
            assert(order_keys(book.orders@).take(i as int + 1) =~= order_keys(book.orders@).take(
                i as int,
            ).push(order_key(book.orders@[i as int]@)));
        }
        i = i + 1;
    }
    proof {
        assert(order_keys(book.orders@).take(book.orders.len() as int) =~= order_keys(
            book.orders@,
        ));
    }
    let idx = latest_indices(&keys, RECENT_ACTIVITY_LIMIT);
    let ghost p = picks(order_keys(book.orders@), RECENT_ACTIVITY_LIMIT as nat);
    let mut out: Vec<OperationalRecentOrder> = Vec::new();
    let mut m: usize = 0;
    while m < idx.len()
        invariant
            m <= idx.len(),
            idx@.map_values(|i: usize| i as int) == p,
            forall|j: int| 0 <= j < idx.len() ==> idx[j] < book.orders.len(),
            out.len() == m,
            forall|t: int|
                0 <= t < m ==> #[trigger] out@[t]@ == recent_order_of(book.orders@[p[t]]@),
        decreases idx.len() - m,
    {
        assert(p[m as int] == idx[m as int] as int);
        out.push(recent_order(&book.orders[idx[m]]));
        m = m + 1;
    }
    out
}

/// The most recent fills of the book: latest execution first, ties by
/// identifier, at most the limit.
pub fn recent_fills(book: &PaperBook) -> (r: Vec<PaperFillRecord>)
    ensures
        ({
            let p = picks(fill_keys(book.fills@), RECENT_ACTIVITY_LIMIT as nat);
            &&& r.len() == p.len()
            &&& forall|m: int| 0 <= m < p.len() ==> #[trigger] r@[m]@ == book.fills@[p[m]]@
        }),
{
    let mut keys: Vec<ActivityKey> = Vec::new();
    let mut i: usize = 0;
    while i < book.fills.len()
        invariant
            i <= book.fills.len(),
            key_views(keys@) == fill_keys(book.fills@).take(i as int),
        decreases book.fills.len() - i,
    {
        let f = &book.fills[i];
        let ghost before = keys@;
        keys.push(ActivityKey { at: Some(f.executed_at), id: f.fill_id.clone() });
        proof {
            assert(key_views(keys@) =~= key_views(before).push(keys@.last()@));
            assert(fill_keys(book.fills@).take(i as int + 1) =~= fill_keys(book.fills@).take(
                i as int,
            ).push(fill_key_of(book.fills@[i as int]@)));
        }
        i = i + 1;
    }
    proof {
        assert(fill_keys(book.fills@).take(book.fills.len() as int) =~= fill_keys(book.fills@));
    }
    let idx = latest_indices(&keys, RECENT_ACTIVITY_LIMIT);
    let ghost p = picks(fill_keys(book.fills@), RECENT_ACTIVITY_LIMIT as nat);
    let mut out: Vec<PaperFillRecord> = Vec::new();
    let mut m: usize = 0;
    while m < idx.len()
        invariant
            m <= idx.len(),
            idx@.map_values(|i: usize| i as int) == p,
            forall|j: int| 0 <= j < idx.len() ==> idx[j] < book.fills.len(),
            out.len() == m,
            forall|t: int| 0 <= t < m ==> #[trigger] out@[t]@ == book.fills@[p[t]]@,
        decreases idx.len() - m,
    {
        assert(p[m as int] == idx[m as int] as int);
        out.push(copy_record(&book.fills[idx[m]]));
        m = m + 1;
    }
    out
}

// ---------------------------------------------------------------------------
// Pipeline recap, governance snapshot and settings
// ---------------------------------------------------------------------------

/// What a paper pipeline run reported.  The notional totals are carried as
/// their binary64 encodings.
#[derive(Debug, Clone, PartialEq, Eq)]
pub struct PaperPipelineReport {
    pub dry_run: bool,
    pub stages: Vec<String>,
    pub signals_seen: usize,
    pub signals_generated: usize,
    pub signals_confirmed: usize,
    pub execution_requests_sent: usize,
    pub fills_persisted: usize,
    pub blocked_by_risk: usize,
    pub open_positions: usize,
    pub total_notional_spent: Binary64,
    pub total_notional_received: Binary64,
    pub readiness_states_materialized: Option<usize>,
}

/// The counts of the last pipeline run, each absent when no report was found.
#[derive(Debug, Clone, Copy, PartialEq, Eq, Structural)]
pub struct OperationalPipelineRecap {
    pub report_available: bool,
    pub signals_seen: Option<usize>,
    pub signals_confirmed: Option<usize>,
    pub execution_requests_sent: Option<usize>,
    pub fills_persisted: Option<usize>,
    pub blocked_by_risk: Option<usize>,
}

pub open spec fn recap_of(pipeline: Option<PaperPipelineReport>) -> OperationalPipelineRecap {
    match pipeline {
        Some(p) => OperationalPipelineRecap {
            report_available: true,
            signals_seen: Some(p.signals_seen),
            signals_confirmed: Some(p.signals_confirmed),
            execution_requests_sent: Some(p.execution_requests_sent),
            fills_persisted: Some(p.fills_persisted),
            blocked_by_risk: Some(p.blocked_by_risk),
        },
        None => OperationalPipelineRecap {
            report_available: false,
            signals_seen: None,
            signals_confirmed: None,
            execution_requests_sent: None,
            fills_persisted: None,
            blocked_by_risk: None,
        },
    }
}

/// The recap of a pipeline report, if one was found.
pub fn pipeline_recap(pipeline: Option<&PaperPipelineReport>) -> (r: OperationalPipelineRecap)
    ensures
        r == recap_of(
            match pipeline {
                Some(p) => Some(*p),
                None => None,
            },
        ),
{
    match pipeline {
        Some(p) => OperationalPipelineRecap {
            report_available: true,
            signals_seen: Some(p.signals_seen),
            signals_confirmed: Some(p.signals_confirmed),
            execution_requests_sent: Some(p.execution_requests_sent),
            fills_persisted: Some(p.fills_persisted),
            blocked_by_risk: Some(p.blocked_by_risk),
        },
        None => OperationalPipelineRecap {
            report_available: false,
            signals_seen: None,
            signals_confirmed: None,
            execution_requests_sent: None,
            fills_persisted: None,
            blocked_by_risk: None,
        },
    }
}

/// The confirmation-readiness counts and families, and the number of policy
/// rules, each absent when its file was not found.
#[derive(Debug, Clone, PartialEq, Eq)]
pub struct OperationalGovernanceSnapshot {
    pub readiness_available: bool,
    pub experimental: Option<usize>,
    pub candidate: Option<usize>,
    pub promoted: Option<usize>,
    pub frozen: Option<usize>,
    pub promoted_families: Vec<String>,
    pub frozen_families: Vec<String>,
    pub policy_available: bool,
    pub policy_rules: Option<usize>,
}

/// Where the operational summary reads its inputs and writes its output.
#[derive(Debug, Clone, PartialEq, Eq)]
pub struct OperationalSummaryConfig {
    pub store_path: String,
    pub readiness_path: String,
    pub policy_path: Option<String>,
    pub pipeline_report_path: String,
    pub output_path: String,
    pub format: OperationalSummaryFormat,
}

} // verus!
