//! Timelines: the events of a log that share a correlation, a signal or a decision.
use vstd::prelude::*;

use crate::events::{EventType, Linkage, LinkageView};
use crate::store::StoredEvent;
use crate::text::opt_text_is;

verus! {

/// An event that can be placed on a timeline: it has a type and a linkage.
pub trait TimelineEvent {
    spec fn timeline_type(&self) -> EventType;

    spec fn timeline_linkage(&self) -> LinkageView;

    fn event_type(&self) -> (r: EventType)
        ensures
            r == self.timeline_type(),
    ;

    fn linkage(&self) -> (r: &Linkage)
        ensures
            r@ == self.timeline_linkage(),
    ;
}

impl TimelineEvent for StoredEvent {
    open spec fn timeline_type(&self) -> EventType {
        self.event_type
    }

    open spec fn timeline_linkage(&self) -> LinkageView {
        self.linkage@
    }

    fn event_type(&self) -> (r: EventType) {
        self.event_type
    }

    fn linkage(&self) -> (r: &Linkage) {
        &self.linkage
    }
}

pub open spec fn derefs<E>(s: Seq<&E>) -> Seq<E> {
    s.map_values(|x: &E| *x)
}

/// Which link of the linkage a timeline follows: the correlation (0), the signal
/// (1) or the decision (any other).
pub open spec fn link_of(l: LinkageView, which: u8) -> Option<Seq<char>> {
    if which == 0 {
        l.correlation_id
    } else if which == 1 {
        l.signal_id
    } else {
        l.decision_id
    }
}

/// All events, in log order.
pub fn timeline<E: TimelineEvent>(events: &[E]) -> (r: Vec<&E>)
    ensures
        derefs(r@) == events@,
{
    let mut r: Vec<&E> = Vec::new();
    let mut i: usize = 0;
    while i < events.len()
        invariant
            i <= events.len(),
            derefs(r@) == events@.take(i as int),
        decreases events.len() - i,
    {
        let ghost before = r@;
        r.push(&events[i]);
        proof {
            assert(derefs(r@) =~= derefs(before).push(events@[i as int]));
            assert(events@.take(i as int + 1) =~= events@.take(i as int).push(events@[i as int]));
        }
        i = i + 1;
    }
    proof {
        assert(events@.take(i as int) =~= events@);
    }
    r
}

fn timeline_by<'a, E: TimelineEvent>(events: &'a [E], id: &str, which: u8) -> (r: Vec<&'a E>)
    ensures
        derefs(r@) == events@.filter(|e: E| link_of(e.timeline_linkage(), which) == Some(id@)),
{
    let ghost p = |e: E| link_of(e.timeline_linkage(), which) == Some(id@);
    let mut r: Vec<&E> = Vec::new();
    let mut i: usize = 0;
    while i < events.len()
        invariant
            p == (|e: E| link_of(e.timeline_linkage(), which) == Some(id@)),
            i <= events.len(),
            derefs(r@) == events@.take(i as int).filter(p),
        decreases events.len() - i,
    {
        let ghost x = events@[i as int];
        proof {
            assert(events@.take(i as int + 1) =~= events@.take(i as int).push(x));
            events@.take(i as int).lemma_filter_push(x, p);
        }
        let l = events[i].linkage();
        let hit = if which == 0 {
            opt_text_is(&l.correlation_id, id)
        } else if which == 1 {
            opt_text_is(&l.signal_id, id)
        } else {
            opt_text_is(&l.decision_id, id)
        };
        if hit {
            r.push(&events[i]);
            proof {
                assert(derefs(r@) =~= events@.take(i as int).filter(p).push(x));
            }
        }
        i = i + 1;
    }
    proof {
        assert(events@.take(i as int) =~= events@);
    }
    r
}

/// The events whose linkage carries the correlation `correlation_id`, in log order.
pub fn timeline_for_correlation_id<'a, E: TimelineEvent>(events: &'a [E], correlation_id: &str) -> (r: Vec<&'a E>)
    ensures
        derefs(r@) == events@.filter(|e: E| e.timeline_linkage().correlation_id == Some(correlation_id@)),
{
    let r = timeline_by(events, correlation_id, 0);
    proof {
        assert(events@.filter(|e: E| link_of(e.timeline_linkage(), 0) == Some(correlation_id@))
            =~= events@.filter(|e: E| e.timeline_linkage().correlation_id == Some(correlation_id@))) by {
            let p = |e: E| link_of(e.timeline_linkage(), 0) == Some(correlation_id@);
            let q = |e: E| e.timeline_linkage().correlation_id == Some(correlation_id@);
            assert(p =~= q);
        }
    }
    r
}

/// The events whose linkage carries the signal `signal_id`, in log order.
pub fn timeline_for_signal_id<'a, E: TimelineEvent>(events: &'a [E], signal_id: &str) -> (r: Vec<&'a E>)
    ensures
        derefs(r@) == events@.filter(|e: E| e.timeline_linkage().signal_id == Some(signal_id@)),
{
    let r = timeline_by(events, signal_id, 1);
    proof {
        let p = |e: E| link_of(e.timeline_linkage(), 1) == Some(signal_id@);
        let q = |e: E| e.timeline_linkage().signal_id == Some(signal_id@);
        assert(p =~= q);
    }
    r
}

/// The events whose linkage carries the decision `decision_id`, in log order.
pub fn timeline_for_decision_id<'a, E: TimelineEvent>(events: &'a [E], decision_id: &str) -> (r: Vec<&'a E>)
    ensures
        derefs(r@) == events@.filter(|e: E| e.timeline_linkage().decision_id == Some(decision_id@)),
{
    let r = timeline_by(events, decision_id, 2);
    proof {
        let p = |e: E| link_of(e.timeline_linkage(), 2) == Some(decision_id@);
        let q = |e: E| e.timeline_linkage().decision_id == Some(decision_id@);
        assert(p =~= q);
    }
    r
}

} // verus!
