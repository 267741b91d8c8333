//! What the paper runner reads of the log: the confirmed signals it may trade,
//! in order of generation, and the signals that already have a paper fill.
use vstd::prelude::*;

use crate::codecs::{all_decode, check_decodes, decode_error, CodecError};
use crate::events::{EventPayload, FillSide, PayloadView, SignalSide, Timestamp, timestamp_lt};
use crate::execution::adapter::POLYMARKET_PAPER_VENUE;
use crate::queries::support::or_else;
use crate::store::{event_views, StoredEvent, StoredEventView};
use crate::text::{
    clone_opt, insert_sorted, lemma_sorted_elements_of, lemma_text_lt_total,
    lemma_text_lt_transitive, opt_view, owned, same_text, sorted_elements, strictly_sorted, strs,
    text_less, text_lt,
};

verus! {

/// A confirmed signal the runner may trade.
#[derive(Debug, Clone, PartialEq, Eq)]
pub struct ConfirmedSignalCandidate {
    pub signal_id: String,
    pub hypothesis_id: Option<String>,
    pub market_slug: String,
    pub signal_side: SignalSide,
    pub generated_at: Timestamp,
    pub confirmed_event_id: String,
    pub correlation_id: Option<String>,
}

pub struct CandidateView {
    pub signal_id: Seq<char>,
    pub hypothesis_id: Option<Seq<char>>,
    pub market_slug: Seq<char>,
    pub signal_side: SignalSide,
    pub generated_at: Timestamp,
    pub confirmed_event_id: Seq<char>,
    pub correlation_id: Option<Seq<char>>,
}

impl View for ConfirmedSignalCandidate {
    type V = CandidateView;

    open spec fn view(&self) -> CandidateView {
        CandidateView {
            signal_id: self.signal_id@,
            hypothesis_id: opt_view(self.hypothesis_id),
            market_slug: self.market_slug@,
            signal_side: self.signal_side,
            generated_at: self.generated_at,
            confirmed_event_id: self.confirmed_event_id@,
            correlation_id: opt_view(self.correlation_id),
        }
    }
}

/// The latest generation of a signal in a log.
pub open spec fn generation_of(s: Seq<StoredEventView>, id: Seq<char>) -> Option<StoredEventView>
    decreases s.len(),
{
    if s.len() == 0 {
        None
    } else {
        let e = s.last();
        if e.payload matches PayloadView::SignalGenerated(p) && p.signal_id == id {
            Some(e)
        } else {
            generation_of(s.drop_last(), id)
        }
    }
}

/// The identifier of the latest confirmation of a signal in a log.
pub open spec fn confirmation_of(s: Seq<StoredEventView>, id: Seq<char>) -> Option<Seq<char>>
    decreases s.len(),
{
    if s.len() == 0 {
        None
    } else {
        let e = s.last();
        if e.payload matches PayloadView::SignalConfirmed(p) && p.signal_id == id {
            Some(e.event_id)
        } else {
            confirmation_of(s.drop_last(), id)
        }
    }
}

/// The candidate a generation and a confirmation make: the market is the
/// event's aggregate key, else the instrument.
pub open spec fn candidate_from(e: StoredEventView, id: Seq<char>, confirmed: Seq<char>) -> CandidateView {
    match e.payload {
        PayloadView::SignalGenerated(p) => CandidateView {
            signal_id: id,
            hypothesis_id: or_else(p.hypothesis_id, e.linkage.hypothesis_id),
            market_slug: match e.aggregate_key {
                Some(k) => k,
                None => p.instrument,
            },
            signal_side: p.side,
            generated_at: e.occurred_at,
            confirmed_event_id: confirmed,
            correlation_id: e.linkage.correlation_id,
        },
        _ => CandidateView {
            signal_id: id,
            hypothesis_id: None,
            market_slug: Seq::empty(),
            signal_side: SignalSide::Flat,
            generated_at: e.occurred_at,
            confirmed_event_id: confirmed,
            correlation_id: None,
        },
    }
}

/// A signal is a candidate when it was generated and confirmed.
pub open spec fn candidate_of(s: Seq<StoredEventView>, id: Seq<char>) -> Option<CandidateView> {
    match (generation_of(s, id), confirmation_of(s, id)) {
        (Some(e), Some(c)) => Some(candidate_from(e, id, c)),
        _ => None,
    }
}

/// Candidates are ordered by generation time, then by signal.
pub open spec fn candidate_before(a: CandidateView, b: CandidateView) -> bool {
    timestamp_lt(a.generated_at, b.generated_at) || (a.generated_at == b.generated_at && text_lt(
        a.signal_id,
        b.signal_id,
    ))
}

pub open spec fn candidates_sorted(q: Seq<CandidateView>) -> bool {
    forall|i: int, j: int| 0 <= i < j < q.len() ==> candidate_before(#[trigger] q[i], #[trigger] q[j])
}

pub open spec fn candidate_views(v: Seq<ConfirmedSignalCandidate>) -> Seq<CandidateView> {
    v.map_values(|c: ConfirmedSignalCandidate| c@)
}

/// The candidates of a log, as the runner lists them: each a candidate of the
/// log, every candidate of the log present, in increasing order.
pub open spec fn lists_candidates(s: Seq<StoredEventView>, q: Seq<CandidateView>) -> bool {
    &&& candidates_sorted(q)
    &&& forall|i: int| 0 <= i < q.len() ==> candidate_of(s, (#[trigger] q[i]).signal_id) == Some(q[i])
    &&& forall|id: Seq<char>| #[trigger] candidate_of(s, id) is Some ==> exists|i: int| 0 <= i < q.len() && q[i].signal_id == id
}

proof fn lemma_candidate_before_transitive(a: CandidateView, b: CandidateView, c: CandidateView)
    requires
        candidate_before(a, b),
        candidate_before(b, c),
    ensures
        candidate_before(a, c),
{
    if a.generated_at == b.generated_at && b.generated_at == c.generated_at {
        lemma_text_lt_transitive(a.signal_id, b.signal_id, c.signal_id);
    }
}

proof fn lemma_candidate_before_total(a: CandidateView, b: CandidateView)
    requires
        a.signal_id != b.signal_id,
    ensures
        candidate_before(a, b) || candidate_before(b, a),
{
    lemma_text_lt_total(a.signal_id, b.signal_id);
}

fn is_before(a: &ConfirmedSignalCandidate, b: &ConfirmedSignalCandidate) -> (r: bool)
    ensures
        r == candidate_before(a@, b@),
{
    a.generated_at.is_before(&b.generated_at) || (a.generated_at == b.generated_at && text_less(
        a.signal_id.as_str(),
        b.signal_id.as_str(),
    ))
}

/// Inserts a candidate of a signal not listed yet, keeping the order.
fn insert_candidate(v: &mut Vec<ConfirmedSignalCandidate>, x: ConfirmedSignalCandidate)
    requires
        candidates_sorted(candidate_views(old(v)@)),
        forall|i: int| 0 <= i < old(v)@.len() ==> (#[trigger] old(v)@[i]).signal_id@ != x.signal_id@,
    ensures
        candidates_sorted(candidate_views(final(v)@)),
        candidate_views(final(v)@).to_set() == candidate_views(old(v)@).to_set().insert(x@),
        final(v)@.len() == old(v)@.len() + 1,
{
    let ghost old_v = candidate_views(v@);
    let ghost xv = x@;
    let mut k: usize = 0;
    while k < v.len()
        invariant
            k <= v.len(),
            xv == x@,
            candidate_views(v@) == old_v,
            candidates_sorted(old_v),
            forall|i: int| 0 <= i < k ==> candidate_before(#[trigger] old_v[i], xv),
        ensures
            k <= v.len(),
            candidate_views(v@) == old_v,
            forall|i: int| 0 <= i < k ==> candidate_before(#[trigger] old_v[i], xv),
            k < v.len() ==> !candidate_before(old_v[k as int], xv),
        decreases v.len() - k,
    {
        let b = is_before(&v[k], &x);
        proof {
            assert(old_v[k as int] == v@[k as int]@);
            assert(b == candidate_before(old_v[k as int], xv));
        }
        if !b {
            break;
        }
        k = k + 1;
    }
    proof {
        if k < v.len() {
            assert(old_v[k as int] == v@[k as int]@);
            lemma_candidate_before_total(old_v[k as int], xv);
        }
    }
    v.insert(k, x);
    proof {
        let nv = candidate_views(v@);
        assert(nv =~= old_v.insert(k as int, xv));
        assert forall|i: int, j: int| 0 <= i < j < nv.len() implies candidate_before(
            #[trigger] nv[i],
            #[trigger] nv[j],
        ) by {
            if j < k {
            } else if i < k && j == k {
            } else if i < k && j > k {
                assert(nv[j] == old_v[j - 1]);
                assert(candidate_before(xv, old_v[k as int]));
                if j - 1 > k {
                    lemma_candidate_before_transitive(xv, old_v[k as int], old_v[j - 1]);
                }
                lemma_candidate_before_transitive(nv[i], xv, nv[j]);
            } else if i == k {
                assert(nv[j] == old_v[j - 1]);
                assert(candidate_before(xv, old_v[k as int]));
                if j - 1 > k {
                    lemma_candidate_before_transitive(xv, old_v[k as int], old_v[j - 1]);
                }
            } else {
                assert(nv[i] == old_v[i - 1]);
                assert(nv[j] == old_v[j - 1]);
            }
        }
        assert(nv.to_set() =~= old_v.to_set().insert(xv)) by {
            assert forall|y: CandidateView| nv.to_set().contains(y) implies old_v.to_set().insert(xv).contains(y) by {
                let m = choose|m: int| 0 <= m < nv.len() && nv[m] == y;
                if m < k {
                    assert(old_v[m] == y);
                } else if m > k {
                    assert(old_v[m - 1] == y);
                }
            }
            assert forall|y: CandidateView| old_v.to_set().insert(xv).contains(y) implies nv.to_set().contains(y) by {
                if y == xv {
                    assert(nv[k as int] == y);
                } else {
                    let m = choose|m: int| 0 <= m < old_v.len() && old_v[m] == y;
                    if m < k {
                        assert(nv[m] == y);
                    } else {
                        assert(nv[m + 1] == y);
                    }
                }
            }
        }
    }
}

/// The signals generated in a log.
pub open spec fn generated_ids(s: Seq<StoredEventView>) -> Set<Seq<char>>
    decreases s.len(),
{
    if s.len() == 0 {
        Set::empty()
    } else {
        let rest = generated_ids(s.drop_last());
        match s.last().payload {
            PayloadView::SignalGenerated(p) => rest.insert(p.signal_id),
            _ => rest,
        }
    }
}

proof fn lemma_generation_is_generated(s: Seq<StoredEventView>, id: Seq<char>)
    requires
        generation_of(s, id) is Some,
    ensures
        generation_of(s, id)->0.payload matches PayloadView::SignalGenerated(p) && p.signal_id == id,
    decreases s.len(),
{
    if s.len() > 0 {
        let e = s.last();
        if !(e.payload matches PayloadView::SignalGenerated(p) && p.signal_id == id) {
            lemma_generation_is_generated(s.drop_last(), id);
        }
    }
}

proof fn lemma_generated_ids(s: Seq<StoredEventView>, id: Seq<char>)
    ensures
        generation_of(s, id) is Some <==> generated_ids(s).contains(id),
        generated_ids(s).finite(),
    decreases s.len(),
{
    if s.len() > 0 {
        lemma_generated_ids(s.drop_last(), id);
    }
}

fn generated_signal_ids(events: &Vec<StoredEvent>) -> (r: Vec<String>)
    ensures
        strictly_sorted(strs(r@)),
        strs(r@).to_set() == generated_ids(event_views(events@)),
{
    let ghost s = event_views(events@);
    let mut ids: Vec<String> = Vec::new();
    let mut i: usize = 0;
    proof {
        assert(s.take(0) =~= Seq::<StoredEventView>::empty());
        assert(strs(ids@).to_set() =~= Set::<Seq<char>>::empty());
    }
    while i < events.len()
        invariant
            i <= events.len(),
            s == event_views(events@),
            strictly_sorted(strs(ids@)),
            strs(ids@).to_set() == generated_ids(s.take(i as int)),
        decreases events.len() - i,
    {
        proof {
            assert(s.take(i as int + 1).drop_last() =~= s.take(i as int));
            assert(s.take(i as int + 1).last() == events@[i as int]@);
        }
        match &events[i].payload {
            EventPayload::SignalGenerated(p) => {
                insert_sorted(&mut ids, p.signal_id.clone());
            },
            _ => {},
        }
        i = i + 1;
    }
    proof {
        assert(s.take(events.len() as int) =~= s);
    }
    ids
}

/// The index of the latest generation of a signal.
fn latest_generation(events: &Vec<StoredEvent>, id: &str) -> (r: Option<usize>)
    ensures
        match r {
            Some(i) => i < events.len() && generation_of(event_views(events@), id@) == Some(events@[i as int]@),
            None => generation_of(event_views(events@), id@) is None,
        },
{
    let ghost s = event_views(events@);
    let mut found: Option<usize> = None;
    let mut i: usize = 0;
    proof {
        assert(s.take(0) =~= Seq::<StoredEventView>::empty());
    }
    while i < events.len()
        invariant
            i <= events.len(),
            s == event_views(events@),
            match found {
                Some(j) => j < i && generation_of(s.take(i as int), id@) == Some(events@[j as int]@),
                None => generation_of(s.take(i as int), id@) is None,
            },
        decreases events.len() - i,
    {
        proof {
            assert(s.take(i as int + 1).drop_last() =~= s.take(i as int));
            assert(s.take(i as int + 1).last() == events@[i as int]@);
        }
        match &events[i].payload {
            EventPayload::SignalGenerated(p) => {
                if same_text(p.signal_id.as_str(), id) {
                    found = Some(i);
                }
            },
            _ => {},
        }
        i = i + 1;
    }
    proof {
        assert(s.take(events.len() as int) =~= s);
    }
    found
}

/// The identifier of the latest confirmation of a signal.
fn latest_confirmation(events: &Vec<StoredEvent>, id: &str) -> (r: Option<String>)
    ensures
        opt_view(r) == confirmation_of(event_views(events@), id@),
{
    let ghost s = event_views(events@);
    let mut found: Option<String> = None;
    let mut i: usize = 0;
    proof {
        assert(s.take(0) =~= Seq::<StoredEventView>::empty());
    }
    while i < events.len()
        invariant
            i <= events.len(),
            s == event_views(events@),
            opt_view(found) == confirmation_of(s.take(i as int), id@),
        decreases events.len() - i,
    {
        proof {
            assert(s.take(i as int + 1).drop_last() =~= s.take(i as int));
            assert(s.take(i as int + 1).last() == events@[i as int]@);
        }
        match &events[i].payload {
            EventPayload::SignalConfirmed(p) => {
                if same_text(p.signal_id.as_str(), id) {
                    found = Some(events[i].event_id.clone());
                }
            },
            _ => {},
        }
        i = i + 1;
    }
    proof {
        assert(s.take(events.len() as int) =~= s);
    }
    found
}

fn candidate_at(e: &StoredEvent, id: &String, confirmed: String) -> (r: ConfirmedSignalCandidate)
    requires
        e.payload is SignalGenerated,
    ensures
        r@ == candidate_from(e@, id@, confirmed@),
{
    match &e.payload {
        EventPayload::SignalGenerated(p) => ConfirmedSignalCandidate {
            signal_id: id.clone(),
            hypothesis_id: match &p.hypothesis_id {
                Some(h) => Some(h.clone()),
                None => clone_opt(&e.linkage.hypothesis_id),
            },
            market_slug: match &e.aggregate_key {
                Some(k) => k.clone(),
                None => p.instrument.clone(),
            },
            signal_side: p.side,
            generated_at: e.occurred_at,
            confirmed_event_id: confirmed,
            correlation_id: clone_opt(&e.linkage.correlation_id),
        },
        _ => {
            proof {
                assert(false);
            }
            ConfirmedSignalCandidate {
                signal_id: id.clone(),
                hypothesis_id: None,
                market_slug: String::new(),
                signal_side: SignalSide::Flat,
                generated_at: e.occurred_at,
                confirmed_event_id: confirmed,
                correlation_id: None,
            }
        },
    }
}

/// The confirmed signals of a log, by generation time and then by signal;
/// every event must decode.
pub fn confirmed_signal_candidates(events: &Vec<StoredEvent>) -> (r: Result<Vec<ConfirmedSignalCandidate>, CodecError>)
    ensures
        match r {
            Ok(v) => all_decode(event_views(events@)) && lists_candidates(event_views(events@), candidate_views(v@)),
            Err(e) => !all_decode(event_views(events@)) && e@ == decode_error(event_views(events@)),
        },
{
    let ghost s = event_views(events@);
    match check_decodes(events.as_slice()) {
        Err(e) => return Err(e),
        Ok(_) => {},
    }
    let ids = generated_signal_ids(events);
    let ghost idv = strs(ids@);
    let mut out: Vec<ConfirmedSignalCandidate> = Vec::new();
    let mut k: usize = 0;
    proof {
        crate::text::lemma_sorted_elements_distinct(idv);
        assert(candidate_views(out@).to_set() =~= Set::<CandidateView>::empty());
    }
    while k < ids.len()
        invariant
            k <= ids.len(),
            s == event_views(events@),
            idv == strs(ids@),
            idv.no_duplicates(),
            idv.to_set() == generated_ids(s),
            candidates_sorted(candidate_views(out@)),
            forall|y: CandidateView| #[trigger] candidate_views(out@).to_set().contains(y) ==> candidate_of(s, y.signal_id)
                == Some(y) && idv.take(k as int).contains(y.signal_id),
            forall|id: Seq<char>| #[trigger] idv.take(k as int).contains(id) && candidate_of(s, id) is Some ==> exists|y: CandidateView|
                #[trigger] candidate_views(out@).to_set().contains(y) && y.signal_id == id,
        decreases ids.len() - k,
    {
        let id = &ids[k];
        let ghost ov = candidate_views(out@);
        let ghost idk = idv[k as int];
        proof {
            assert(idk == id@);
            assert(idv.take(k as int + 1) =~= idv.take(k as int).push(idk));
            assert(!idv.take(k as int).contains(idk)) by {
                if idv.take(k as int).contains(idk) {
                    let j = choose|j: int| 0 <= j < k && idv.take(k as int)[j] == idk;
                    assert(idv[j] == idv[k as int]);
                }
            }
        }
        let gen = latest_generation(events, id.as_str());
        let conf = latest_confirmation(events, id.as_str());
        match (gen, conf) {
            (Some(g), Some(c)) => {
                proof {
                    lemma_generation_is_generated(s, idk);
                    assert(events@[g as int]@.payload is SignalGenerated);
                }
                let cand = candidate_at(&events[g], id, c);
                proof {
                    assert(candidate_of(s, idk) == Some(cand@));
                    assert(idv.take(k as int + 1)[k as int] == idk);
                    assert(idv.take(k as int + 1).contains(idk));
                    assert forall|i: int| 0 <= i < out@.len() implies (#[trigger] out@[i]).signal_id@ != cand.signal_id@ by {
                        assert(ov[i] == out@[i]@);
                        assert(ov.to_set().contains(ov[i]));
                    }
                }
                insert_candidate(&mut out, cand);
                proof {
                    let nv = candidate_views(out@);
                    assert forall|y: CandidateView| #[trigger] nv.to_set().contains(y) implies candidate_of(s, y.signal_id)
                        == Some(y) && idv.take(k as int + 1).contains(y.signal_id) by {
                        if y != cand@ {
                            assert(ov.to_set().contains(y));
                            assert(idv.take(k as int).contains(y.signal_id));
                            let j = choose|j: int| 0 <= j < k && idv.take(k as int)[j] == y.signal_id;
                            assert(idv.take(k as int + 1)[j] == y.signal_id);
                        }
                    }
                    assert forall|id2: Seq<char>| #[trigger] idv.take(k as int + 1).contains(id2) && candidate_of(s, id2) is Some
                        implies exists|y: CandidateView| #[trigger] nv.to_set().contains(y) && y.signal_id == id2 by {
                        if id2 == idk {
                            assert(nv.to_set().contains(cand@));
                        } else {
                            assert(idv.take(k as int).contains(id2));
                            let y = choose|y: CandidateView| #[trigger] ov.to_set().contains(y) && y.signal_id == id2;
                            assert(nv.to_set().contains(y));
                        }
                    }
                }
            },
            _ => {
                proof {
                    assert(candidate_of(s, idk) is None);
                    assert forall|y: CandidateView| #[trigger] ov.to_set().contains(y) implies candidate_of(s, y.signal_id)
                        == Some(y) && idv.take(k as int + 1).contains(y.signal_id) by {
                        assert(idv.take(k as int).contains(y.signal_id));
                    }
                    assert forall|id2: Seq<char>| #[trigger] idv.take(k as int + 1).contains(id2) && candidate_of(s, id2) is Some
                        implies exists|y: CandidateView| #[trigger] ov.to_set().contains(y) && y.signal_id == id2 by {
                        assert(id2 != idk);
                        assert(idv.take(k as int).contains(id2));
                    }
                }
            },
        }
        k = k + 1;
    }
    proof {
        let q = candidate_views(out@);
        assert(idv.take(ids.len() as int) =~= idv);
        assert forall|i: int| 0 <= i < q.len() implies candidate_of(s, (#[trigger] q[i]).signal_id) == Some(q[i]) by {
            assert(q.to_set().contains(q[i]));
        }
        assert forall|id: Seq<char>| #[trigger] candidate_of(s, id) is Some implies exists|i: int| 0 <= i < q.len() && q[i].signal_id == id by {
            lemma_generated_ids(s, id);
            assert(idv.to_set().contains(id));
            assert(idv.contains(id));
            let y = choose|y: CandidateView| #[trigger] q.to_set().contains(y) && y.signal_id == id;
            let i = choose|i: int| 0 <= i < q.len() && q[i] == y;
        }
    }
    Ok(out)
}

/// `s` with the prefix `p` taken off, when it starts with `p`.
pub open spec fn strip_text(s: Seq<char>, p: Seq<char>) -> Option<Seq<char>> {
    if p.len() <= s.len() && s.take(p.len() as int) == p {
        Some(s.skip(p.len() as int))
    } else {
        None
    }
}

/// `str::strip_prefix`.
pub fn strip_prefix_text(s: &str, p: &str) -> (r: Option<String>)
    ensures
        opt_view(r) == strip_text(s@, p@),
{
    let n = s.unicode_len();
    let m = p.unicode_len();
    if m > n {
        return None;
    }
    let mut i: usize = 0;
    while i < m
        invariant
            n == s@.len(),
            m == p@.len(),
            m <= n,
            i <= m,
            forall|j: int| 0 <= j < i ==> s@[j] == p@[j],
        decreases m - i,
    {
        if s.get_char(i) != p.get_char(i) {
            proof {
                assert(s@.take(m as int)[i as int] != p@[i as int]);
            }
            return None;
        }
        i = i + 1;
    }
    proof {
        assert(s@.take(m as int) =~= p@);
    }
    let rest = s.substring_char(m, n);
    Some(owned(rest))
}

/// The signal a paper order of the runner was placed for, read back from the
/// order's identifier: `pm-paper-order-` then `yes-` or `no-` and the signal
/// (or the signal right after the first prefix).
pub open spec fn signal_of_paper_order(order_id: Seq<char>) -> Option<Seq<char>> {
    match strip_text(order_id, "pm-paper-order-"@) {
        None => None,
        Some(v) => match strip_text(v, "yes-"@) {
            Some(x) => Some(x),
            None => match strip_text(v, "no-"@) {
                Some(x) => Some(x),
                None => Some(v),
            },
        },
    }
}

pub fn signal_id_from_paper_order_id(order_id: &str) -> (r: Option<String>)
    ensures
        opt_view(r) == signal_of_paper_order(order_id@),
{
    let value = match strip_prefix_text(order_id, "pm-paper-order-") {
        Some(v) => v,
        None => return None,
    };
    match strip_prefix_text(value.as_str(), "yes-") {
        Some(x) => return Some(x),
        None => {},
    }
    match strip_prefix_text(value.as_str(), "no-") {
        Some(x) => return Some(x),
        None => {},
    }
    Some(value)
}

/// The signals with a fill on the paper venue: the fill's linked signal, else
/// the signal its order was placed for.
pub open spec fn executed_signals(s: Seq<StoredEventView>) -> Set<Seq<char>>
    decreases s.len(),
{
    if s.len() == 0 {
        Set::empty()
    } else {
        let rest = executed_signals(s.drop_last());
        let e = s.last();
        match e.payload {
            PayloadView::FillReceived(p) => if p.venue == POLYMARKET_PAPER_VENUE@ {
                match e.linkage.signal_id {
                    Some(x) => rest.insert(x),
                    None => match signal_of_paper_order(p.order_id) {
                        Some(x) => rest.insert(x),
                        None => rest,
                    },
                }
            } else {
                rest
            },
            _ => rest,
        }
    }
}

/// The signals that already have a paper fill, in increasing order; every
/// event must decode.
pub fn executed_signal_ids(events: &Vec<StoredEvent>) -> (r: Result<Vec<String>, CodecError>)
    ensures
        match r {
            Ok(v) => all_decode(event_views(events@)) && strictly_sorted(strs(v@)) && strs(v@).to_set()
                == executed_signals(event_views(events@)),
            Err(e) => !all_decode(event_views(events@)) && e@ == decode_error(event_views(events@)),
        },
{
    let ghost s = event_views(events@);
    match check_decodes(events.as_slice()) {
        Err(e) => return Err(e),
        Ok(_) => {},
    }
    let mut ids: Vec<String> = Vec::new();
    let mut i: usize = 0;
    proof {
        assert(s.take(0) =~= Seq::<StoredEventView>::empty());
        assert(strs(ids@).to_set() =~= Set::<Seq<char>>::empty());
    }
    while i < events.len()
        invariant
            i <= events.len(),
            s == event_views(events@),
            strictly_sorted(strs(ids@)),
            strs(ids@).to_set() == executed_signals(s.take(i as int)),
        decreases events.len() - i,
    {
        proof {
            assert(s.take(i as int + 1).drop_last() =~= s.take(i as int));
            assert(s.take(i as int + 1).last() == events@[i as int]@);
        }
        let e = &events[i];
        match &e.payload {
            EventPayload::FillReceived(p) => {
                if same_text(p.venue.as_str(), POLYMARKET_PAPER_VENUE) {
                    match &e.linkage.signal_id {
                        Some(x) => {
                            insert_sorted(&mut ids, x.clone());
                        },
                        None => match signal_id_from_paper_order_id(p.order_id.as_str()) {
                            Some(x) => {
                                insert_sorted(&mut ids, x);
                            },
                            None => {},
                        },
                    }
                }
            },
            _ => {},
        }
        i = i + 1;
    }
    proof {
        assert(s.take(events.len() as int) =~= s);
    }
    Ok(ids)
}


/// The signal a paper fill counts for: its linked signal, else the signal its
/// order was placed for; `None` for any other event.
pub open spec fn paper_fill_signal(e: StoredEventView) -> Option<Seq<char>> {
    match e.payload {
        PayloadView::FillReceived(p) => if p.venue == POLYMARKET_PAPER_VENUE@ {
            match e.linkage.signal_id {
                Some(x) => Some(x),
                None => signal_of_paper_order(p.order_id),
            }
        } else {
            None
        },
        _ => None,
    }
}

/// Every paper fill of a log makes its signal one of the log's executed
/// signals.
pub proof fn lemma_paper_fill_executes_its_signal(s: Seq<StoredEventView>, i: int)
    requires
        0 <= i < s.len(),
        paper_fill_signal(s[i]) is Some,
    ensures
        executed_signals(s).contains(paper_fill_signal(s[i])->0),
    decreases s.len(),
{
    if i < s.len() - 1 {
        assert(s.drop_last()[i] == s[i]);
        lemma_paper_fill_executes_its_signal(s.drop_last(), i);
    } else {
        assert(s.last() == s[i]);
    }
}

} // verus!
