//! The decisions a decision projection has a record for, in the order they
//! first appear in the log.
use vstd::prelude::*;

use crate::codecs::{all_decode, check_decodes, decode_error};
use crate::events::{
    Binary64, DecisionAction, EventPayload, EventType, FillSide, PayloadView, SignalSide, VetoScope,
};
use crate::queries::support::or_else;
use crate::projections::error::{ProjectionError, ProjectionErrorView};
use crate::store::{event_views, StoredEvent, StoredEventView};
use crate::text::{clone_opt, opt_view, owned, same_text, strs};

verus! {

pub open spec fn with_key(keys: Seq<Seq<char>>, k: Seq<char>) -> Seq<Seq<char>> {
    if keys.contains(k) {
        keys
    } else {
        keys.push(k)
    }
}

pub open spec fn missing_decision_text(event_id: Seq<char>) -> Seq<char> {
    "fill.received "@ + event_id + " is missing decision_id"@
}

/// The decisions of a log in order of first appearance: formed, filled or
/// vetoed; a fill that names no decision is an error.
pub open spec fn decision_keys_of(s: Seq<StoredEventView>) -> Result<Seq<Seq<char>>, Seq<char>>
    decreases s.len(),
{
    if s.len() == 0 {
        Ok(Seq::empty())
    } else {
        match decision_keys_of(s.drop_last()) {
            Err(m) => Err(m),
            Ok(keys) => {
                let e = s.last();
                match e.payload {
                    PayloadView::DecisionFormed(p) => Ok(with_key(keys, p.decision_id)),
                    PayloadView::FillReceived(p) => match p.decision_id {
                        Some(d) => Ok(with_key(keys, d)),
                        None => match e.linkage.decision_id {
                            Some(d) => Ok(with_key(keys, d)),
                            None => Err(missing_decision_text(e.event_id)),
                        },
                    },
                    PayloadView::VetoRaised(p) => if p.scope == VetoScope::Decision {
                        Ok(with_key(keys, p.target_id))
                    } else {
                        Ok(keys)
                    },
                    _ => Ok(keys),
                }
            },
        }
    }
}

fn push_key(keys: &mut Vec<String>, k: &String)
    ensures
        strs(final(keys)@) == with_key(strs(old(keys)@), k@),
{
    let ghost v = strs(keys@);
    let mut i: usize = 0;
    while i < keys.len()
        invariant
            i <= keys.len(),
            v == strs(keys@),
            forall|j: int| 0 <= j < i ==> v[j] != k@,
        decreases keys.len() - i,
    {
        if same_text(keys[i].as_str(), k.as_str()) {
            proof {
                assert(v[i as int] == k@);
                assert(v.contains(k@));
            }
            return;
        }
        i = i + 1;
    }
    proof {
        if v.contains(k@) {
            let j = choose|j: int| 0 <= j < v.len() && v[j] == k@;
            assert(v[j] != k@);
        }
    }
    let ghost before = keys@;
    keys.push(k.clone());
    proof {
        assert(strs(keys@) =~= strs(before).push(k@));
    }
}

/// The decisions a decision projection of the log has a record for, in order
/// of first appearance.
pub fn decision_projection_keys(events: &[StoredEvent]) -> (r: Result<Vec<String>, ProjectionError>)
    ensures
        match r {
            Ok(keys) => all_decode(event_views(events@)) && decision_keys_of(event_views(events@))
                == Ok::<Seq<Seq<char>>, Seq<char>>(strs(keys@)),
            Err(e) => {
                ||| !all_decode(event_views(events@)) && e@ == ProjectionErrorView::Codec(
                    decode_error(event_views(events@)),
                )
                ||| all_decode(event_views(events@)) && (decision_keys_of(event_views(events@))
                    matches Err(m) && e@ == ProjectionErrorView::InvalidState(m))
            },
        },
{
    let ghost s = event_views(events@);
    match check_decodes(events) {
        Err(e) => return Err(ProjectionError::Codec(e)),
        Ok(_) => {},
    }
    let mut keys: Vec<String> = Vec::new();
    proof {
        assert(s.take(0) =~= Seq::<StoredEventView>::empty());
        assert(strs(keys@) =~= Seq::empty());
    }
    let mut i: usize = 0;
    while i < events.len()
        invariant
            i <= events.len(),
            s == event_views(events@),
            all_decode(s),
            decision_keys_of(s.take(i as int)) == Ok::<Seq<Seq<char>>, Seq<char>>(strs(keys@)),
        decreases events.len() - i,
    {
        proof {
            assert(s.take(i as int + 1).drop_last() =~= s.take(i as int));
            assert(s.take(i as int + 1).last() == events@[i as int]@);
        }
        let e = &events[i];
        match &e.payload {
            EventPayload::DecisionFormed(p) => push_key(&mut keys, &p.decision_id),
            EventPayload::FillReceived(p) => {
                match &p.decision_id {
                    Some(d) => push_key(&mut keys, d),
                    None => match &e.linkage.decision_id {
                        Some(d) => push_key(&mut keys, d),
                        None => {
                            let mut m = owned("fill.received ");
                            m.append(e.event_id.as_str());
                            m.append(" is missing decision_id");
                            proof {
                                lemma_keys_error_persists(s, i as int + 1);
                            }
                            return Err(ProjectionError::InvalidState(m));
                        },
                    },
                }
            },
            EventPayload::VetoRaised(p) => {
                if p.scope == VetoScope::Decision {
                    push_key(&mut keys, &p.target_id);
                }
            },
            _ => {},
        }
        i = i + 1;
    }
    proof {
        assert(s.take(i as int) =~= s);
    }
    Ok(keys)
}

/// Once a prefix of the log fails, the whole log fails with the same message.
proof fn lemma_keys_error_persists(s: Seq<StoredEventView>, n: int)
    requires
        0 <= n <= s.len(),
        decision_keys_of(s.take(n)) is Err,
    ensures
        decision_keys_of(s) == decision_keys_of(s.take(n)),
    decreases s.len() - n,
{
    if n < s.len() {
        assert(s.take(n + 1).drop_last() =~= s.take(n));
        lemma_keys_error_persists(s, n + 1);
    } else {
        assert(s.take(n) =~= s);
    }
}

/// The read model of a decision. The fills' quantities and prices are kept as
/// binary64 encodings, in order; their sums and averages are arithmetic on
/// them and are not computed here.
#[derive(Debug, Clone, PartialEq, Eq)]
pub struct DecisionProjection {
    pub decision_id: String,
    pub instrument: Option<String>,
    pub action: Option<DecisionAction>,
    pub side: Option<SignalSide>,
    pub formed: bool,
    pub vetoed: bool,
    pub fills_count: u64,
    pub fill_amounts: Vec<(Binary64, Binary64)>,
    pub order_ids: Vec<String>,
    pub last_event_type: EventType,
    pub correlation_id: Option<String>,
}

#[verifier::ext_equal]
pub struct DecisionProjectionView {
    pub decision_id: Seq<char>,
    pub instrument: Option<Seq<char>>,
    pub action: Option<DecisionAction>,
    pub side: Option<SignalSide>,
    pub formed: bool,
    pub vetoed: bool,
    pub fills_count: nat,
    pub fill_amounts: Seq<(Binary64, Binary64)>,
    pub order_ids: Seq<Seq<char>>,
    pub last_event_type: EventType,
    pub correlation_id: Option<Seq<char>>,
}

impl View for DecisionProjection {
    type V = DecisionProjectionView;

    open spec fn view(&self) -> DecisionProjectionView {
        DecisionProjectionView {
            decision_id: self.decision_id@,
            instrument: opt_view(self.instrument),
            action: self.action,
            side: self.side,
            formed: self.formed,
            vetoed: self.vetoed,
            fills_count: self.fills_count as nat,
            fill_amounts: self.fill_amounts@,
            order_ids: strs(self.order_ids@),
            last_event_type: self.last_event_type,
            correlation_id: opt_view(self.correlation_id),
        }
    }
}

pub open spec fn with_unique(v: Seq<Seq<char>>, x: Seq<char>) -> Seq<Seq<char>> {
    if v.contains(x) {
        v
    } else {
        v.push(x)
    }
}

pub open spec fn fresh_projection(d: Seq<char>, t: EventType) -> DecisionProjectionView {
    DecisionProjectionView {
        decision_id: d,
        instrument: None,
        action: None,
        side: None,
        formed: false,
        vetoed: false,
        fills_count: 0,
        fill_amounts: Seq::empty(),
        order_ids: Seq::empty(),
        last_event_type: t,
        correlation_id: None,
    }
}

/// The decision a fill belongs to: its payload's, else its linkage's.
pub open spec fn fill_decision(e: StoredEventView) -> Option<Seq<char>> {
    match e.payload {
        PayloadView::FillReceived(p) => or_else(p.decision_id, e.linkage.decision_id),
        _ => None,
    }
}

/// How an event changes the projection of decision `d`.
pub open spec fn projection_step(opt: Option<DecisionProjectionView>, e: StoredEventView, d: Seq<char>) -> Option<
    DecisionProjectionView,
> {
    match e.payload {
        PayloadView::DecisionFormed(p) => if p.decision_id == d {
            let base = match opt {
                Some(x) => x,
                None => fresh_projection(d, EventType::DecisionFormed),
            };
            Some(
                DecisionProjectionView {
                    formed: true,
                    instrument: Some(p.instrument),
                    action: Some(p.action),
                    side: p.side,
                    correlation_id: or_else(base.correlation_id, e.linkage.correlation_id),
                    order_ids: match e.linkage.order_id {
                        Some(o) => with_unique(base.order_ids, o),
                        None => base.order_ids,
                    },
                    last_event_type: EventType::DecisionFormed,
                    ..base
                },
            )
        } else {
            opt
        },
        PayloadView::FillReceived(p) => if fill_decision(e) == Some(d) {
            let base = match opt {
                Some(x) => x,
                None => fresh_projection(d, EventType::FillReceived),
            };
            Some(
                DecisionProjectionView {
                    instrument: or_else(base.instrument, Some(p.instrument)),
                    side: match base.side {
                        Some(x) => Some(x),
                        None => Some(
                            match p.side {
                                FillSide::Buy => SignalSide::Long,
                                FillSide::Sell => SignalSide::Short,
                            },
                        ),
                    },
                    fills_count: base.fills_count + 1,
                    fill_amounts: base.fill_amounts.push((p.quantity, p.price)),
                    order_ids: with_unique(base.order_ids, p.order_id),
                    correlation_id: or_else(base.correlation_id, e.linkage.correlation_id),
                    last_event_type: EventType::FillReceived,
                    ..base
                },
            )
        } else {
            opt
        },
        PayloadView::VetoRaised(p) => if p.scope == VetoScope::Decision && p.target_id == d {
            let base = match opt {
                Some(x) => x,
                None => fresh_projection(d, EventType::VetoRaised),
            };
            Some(
                DecisionProjectionView {
                    vetoed: true,
                    correlation_id: or_else(base.correlation_id, e.linkage.correlation_id),
                    last_event_type: EventType::VetoRaised,
                    ..base
                },
            )
        } else {
            opt
        },
        _ => opt,
    }
}

pub open spec fn projection_of(s: Seq<StoredEventView>, d: Seq<char>) -> Option<DecisionProjectionView>
    decreases s.len(),
{
    if s.len() == 0 {
        None
    } else {
        projection_step(projection_of(s.drop_last(), d), s.last(), d)
    }
}

/// The decision projections of a log, in order of first appearance.
pub open spec fn decision_projections_of(s: Seq<StoredEventView>) -> Result<Seq<DecisionProjectionView>, Seq<char>> {
    match decision_keys_of(s) {
        Ok(keys) => Ok(keys.map_values(|d: Seq<char>| projection_of(s, d)->0)),
        Err(m) => Err(m),
    }
}

pub open spec fn projection_opt(o: Option<DecisionProjection>) -> Option<DecisionProjectionView> {
    match o {
        Some(x) => Some(x@),
        None => None,
    }
}

fn push_unique(v: &mut Vec<String>, x: &String)
    ensures
        strs(final(v)@) == with_unique(strs(old(v)@), x@),
{
    push_key(v, x);
}

fn step_projection(opt: Option<DecisionProjection>, e: &StoredEvent, d: &str) -> (r: Option<DecisionProjection>)
    requires
        opt matches Some(x) ==> x.fills_count < u64::MAX,
    ensures
        match (r, projection_step(projection_opt(opt), e@, d@)) {
            (Some(x), Some(y)) => x@ == y,
            (None, None) => true,
            _ => false,
        },
{
    let ghost expected = projection_step(projection_opt(opt), e@, d@);
    match &e.payload {
        EventPayload::DecisionFormed(p) => {
            if same_text(p.decision_id.as_str(), d) {
                let mut base = match opt {
                    Some(x) => x,
                    None => DecisionProjection {
                        decision_id: owned(d),
                        instrument: None,
                        action: None,
                        side: None,
                        formed: false,
                        vetoed: false,
                        fills_count: 0,
                        fill_amounts: Vec::new(),
                        order_ids: Vec::new(),
                        last_event_type: EventType::DecisionFormed,
                        correlation_id: None,
                    },
                };
                base.formed = true;
                base.instrument = Some(p.instrument.clone());
                base.action = Some(p.action);
                base.side = p.side;
                if base.correlation_id.is_none() {
                    base.correlation_id = clone_opt(&e.linkage.correlation_id);
                }
                match &e.linkage.order_id {
                    Some(o) => push_unique(&mut base.order_ids, o),
                    None => {},
                }
                base.last_event_type = EventType::DecisionFormed;
                proof {
                    assert(base@ =~= expected->0);
                }
                Some(base)
            } else {
                opt
            }
        },
        EventPayload::FillReceived(p) => {
            let decision = match &p.decision_id {
                Some(x) => Some(x.clone()),
                None => clone_opt(&e.linkage.decision_id),
            };
            let matches = match &decision {
                Some(x) => same_text(x.as_str(), d),
                None => false,
            };
            if matches {
                let mut base = match opt {
                    Some(x) => x,
                    None => DecisionProjection {
                        decision_id: owned(d),
                        instrument: None,
                        action: None,
                        side: None,
                        formed: false,
                        vetoed: false,
                        fills_count: 0,
                        fill_amounts: Vec::new(),
                        order_ids: Vec::new(),
                        last_event_type: EventType::FillReceived,
                        correlation_id: None,
                    },
                };
                if base.instrument.is_none() {
                    base.instrument = Some(p.instrument.clone());
                }
                if base.side.is_none() {
                    base.side = Some(
                        match p.side {
                            FillSide::Buy => SignalSide::Long,
                            FillSide::Sell => SignalSide::Short,
                        },
                    );
                }
                base.fills_count = base.fills_count + 1;
                base.fill_amounts.push((p.quantity, p.price));
                push_unique(&mut base.order_ids, &p.order_id);
                if base.correlation_id.is_none() {
                    base.correlation_id = clone_opt(&e.linkage.correlation_id);
                }
                base.last_event_type = EventType::FillReceived;
                proof {
                    assert(base@ =~= expected->0);
                }
                Some(base)
            } else {
                opt
            }
        },
        EventPayload::VetoRaised(p) => {
            if p.scope == VetoScope::Decision && same_text(p.target_id.as_str(), d) {
                let mut base = match opt {
                    Some(x) => x,
                    None => DecisionProjection {
                        decision_id: owned(d),
                        instrument: None,
                        action: None,
                        side: None,
                        formed: false,
                        vetoed: false,
                        fills_count: 0,
                        fill_amounts: Vec::new(),
                        order_ids: Vec::new(),
                        last_event_type: EventType::VetoRaised,
                        correlation_id: None,
                    },
                };
                base.vetoed = true;
                if base.correlation_id.is_none() {
                    base.correlation_id = clone_opt(&e.linkage.correlation_id);
                }
                base.last_event_type = EventType::VetoRaised;
                proof {
                    assert(base@ =~= expected->0);
                }
                Some(base)
            } else {
                opt
            }
        },
        _ => opt,
    }
}

proof fn lemma_projection_fills_bounded(s: Seq<StoredEventView>, d: Seq<char>)
    ensures
        projection_of(s, d) matches Some(x) ==> x.fills_count <= s.len(),
    decreases s.len(),
{
    if s.len() > 0 {
        lemma_projection_fills_bounded(s.drop_last(), d);
    }
}

proof fn lemma_keys_have_projections(s: Seq<StoredEventView>, d: Seq<char>)
    requires
        decision_keys_of(s) matches Ok(keys) && keys.contains(d),
    ensures
        projection_of(s, d) is Some,
    decreases s.len(),
{
    if s.len() > 0 {
        let keys = decision_keys_of(s)->Ok_0;
        match decision_keys_of(s.drop_last()) {
            Ok(prev) => {
                if prev.contains(d) {
                    lemma_keys_have_projections(s.drop_last(), d);
                }
            },
            Err(_) => {},
        }
    }
}

fn projection_for(events: &Vec<StoredEvent>, d: &str) -> (r: Option<DecisionProjection>)
    ensures
        match (r, projection_of(event_views(events@), d@)) {
            (Some(x), Some(y)) => x@ == y,
            (None, None) => true,
            _ => false,
        },
{
    let ghost s = event_views(events@);
    let mut cur: Option<DecisionProjection> = None;
    let mut i: usize = 0;
    proof {
        assert(s.take(0) =~= Seq::<StoredEventView>::empty());
    }
    while i < events.len()
        invariant
            i <= events.len(),
            s == event_views(events@),
            match (cur, projection_of(s.take(i as int), d@)) {
                (Some(x), Some(y)) => x@ == y,
                (None, None) => true,
                _ => false,
            },
        decreases events.len() - i,
    {
        proof {
            assert(s.take(i as int + 1).drop_last() =~= s.take(i as int));
            assert(s.take(i as int + 1).last() == events@[i as int]@);
            lemma_projection_fills_bounded(s.take(i as int), d@);
        }
        cur = step_projection(cur, &events[i], d);
        i = i + 1;
    }
    proof {
        assert(s.take(events.len() as int) =~= s);
    }
    cur
}

pub open spec fn projection_views(v: Seq<DecisionProjection>) -> Seq<DecisionProjectionView> {
    v.map_values(|p: DecisionProjection| p@)
}

/// The decision projections of a log, in order of first appearance; every
/// event must decode, and every fill must name its decision.
pub fn build_decision_projections(events: &Vec<StoredEvent>) -> (r: Result<Vec<DecisionProjection>, ProjectionError>)
    ensures
        match r {
            Ok(ps) => all_decode(event_views(events@)) && decision_projections_of(event_views(events@))
                == Ok::<Seq<DecisionProjectionView>, Seq<char>>(projection_views(ps@)),
            Err(e) => {
                ||| !all_decode(event_views(events@)) && e@ == ProjectionErrorView::Codec(
                    decode_error(event_views(events@)),
                )
                ||| all_decode(event_views(events@)) && (decision_keys_of(event_views(events@))
                    matches Err(m) && e@ == ProjectionErrorView::InvalidState(m))
            },
        },
{
    let ghost s = event_views(events@);
    let keys = match decision_projection_keys(events.as_slice()) {
        Ok(k) => k,
        Err(e) => return Err(e),
    };
    let ghost kv = strs(keys@);
    let mut out: Vec<DecisionProjection> = Vec::new();
    let mut i: usize = 0;
    while i < keys.len()
        invariant
            i <= keys.len(),
            s == event_views(events@),
            kv == strs(keys@),
            decision_keys_of(s) == Ok::<Seq<Seq<char>>, Seq<char>>(kv),
            projection_views(out@) == kv.take(i as int).map_values(|d: Seq<char>| projection_of(s, d)->0),
        decreases keys.len() - i,
    {
        let ghost d = kv[i as int];
        proof {
            assert(keys@[i as int]@ == d);
            assert(kv.contains(d));
            lemma_keys_have_projections(s, d);
        }
        let p = projection_for(events, keys[i].as_str());
        let p = match p {
            Some(p) => p,
            None => {
                proof {
                    assert(false);
                }
                return Err(ProjectionError::invalid_state(""));
            },
        };
        let ghost before = projection_views(out@);
        out.push(p);
        proof {
            assert(projection_views(out@) =~= before.push(p@));
            assert(kv.take(i as int + 1) =~= kv.take(i as int).push(d));
            assert(kv.take(i as int + 1).map_values(|d: Seq<char>| projection_of(s, d)->0) =~= kv.take(i as int).map_values(
                |d: Seq<char>| projection_of(s, d)->0,
            ).push(projection_of(s, d)->0));
        }
        i = i + 1;
    }
    proof {
        assert(kv.take(keys.len() as int) =~= kv);
    }
    Ok(out)
}

/// A copy of a projection.
pub fn copy_projection(p: &DecisionProjection) -> (r: DecisionProjection)
    ensures
        r@ == p@,
{
    let mut amounts: Vec<(Binary64, Binary64)> = Vec::new();
    let mut i: usize = 0;
    while i < p.fill_amounts.len()
        invariant
            i <= p.fill_amounts.len(),
            amounts@ == p.fill_amounts@.take(i as int),
        decreases p.fill_amounts.len() - i,
    {
        let a = p.fill_amounts[i];
        amounts.push(a);
        proof {
            assert(p.fill_amounts@.take(i as int + 1) =~= p.fill_amounts@.take(i as int).push(a));
        }
        i = i + 1;
    }
    proof {
        assert(p.fill_amounts@.take(i as int) =~= p.fill_amounts@);
    }
    let r = DecisionProjection {
        decision_id: p.decision_id.clone(),
        instrument: clone_opt(&p.instrument),
        action: p.action,
        side: p.side,
        formed: p.formed,
        vetoed: p.vetoed,
        fills_count: p.fills_count,
        fill_amounts: amounts,
        order_ids: crate::text::clone_strs(&p.order_ids),
        last_event_type: p.last_event_type,
        correlation_id: clone_opt(&p.correlation_id),
    };
    proof {
        assert(r@ =~= p@);
    }
    r
}

} // verus!
