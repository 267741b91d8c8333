//! Reading a stored event back as the kind it declares.  A stored payload
//! decodes when its shape is the shape of the declared event type.
use vstd::prelude::*;
use vstd::string::*;

use crate::events::{event_type_name, payload_kind};
use crate::store::{event_views, StoredEvent, StoredEventView};
use crate::text::owned;

verus! {

#[derive(Debug, Clone, PartialEq, Eq)]
pub enum CodecError {
    /// The payload of the event with this identifier is not of its declared kind.
    PayloadMismatch(String),
}

impl View for CodecError {
    type V = Seq<char>;

    open spec fn view(&self) -> Seq<char> {
        match self {
            CodecError::PayloadMismatch(m) => m@,
        }
    }
}

pub open spec fn decodes(e: StoredEventView) -> bool {
    payload_kind(e.payload) == e.event_type
}

pub open spec fn all_decode(s: Seq<StoredEventView>) -> bool {
    forall|i: int| 0 <= i < s.len() ==> decodes(#[trigger] s[i])
}

/// The first event of a log that does not decode.
pub open spec fn first_undecodable(s: Seq<StoredEventView>) -> Option<int>
    decreases s.len(),
{
    if s.len() == 0 {
        None
    } else if !decodes(s[0]) {
        Some(0)
    } else {
        match first_undecodable(s.drop_first()) {
            Some(i) => Some(i + 1),
            None => None,
        }
    }
}

pub open spec fn mismatch_text(e: StoredEventView) -> Seq<char> {
    "event "@ + e.event_id + " payload does not match "@ + event_type_name(e.event_type)
        + " schema"@
}

/// The message of the error that reading a log back gives: it names the first
/// event that does not decode.
pub open spec fn decode_error(s: Seq<StoredEventView>) -> Seq<char> {
    match first_undecodable(s) {
        Some(i) => mismatch_text(s[i]),
        None => Seq::empty(),
    }
}

proof fn lemma_first_undecodable(s: Seq<StoredEventView>, i: int)
    requires
        0 <= i <= s.len(),
        forall|j: int| 0 <= j < i ==> decodes(#[trigger] s[j]),
    ensures
        i < s.len() && !decodes(s[i]) ==> first_undecodable(s) == Some(i),
        i == s.len() ==> first_undecodable(s) is None,
    decreases i,
{
    if i > 0 {
        let rest = s.drop_first();
        assert forall|j: int| 0 <= j < i - 1 implies decodes(#[trigger] rest[j]) by {
            assert(rest[j] == s[j + 1]);
        }
        lemma_first_undecodable(rest, i - 1);
    }
}

/// Checks that every event of a log decodes; otherwise names the first that does not.
pub fn check_decodes(events: &[StoredEvent]) -> (r: Result<(), CodecError>)
    ensures
        r is Ok <==> all_decode(event_views(events@)),
        match r {
            Ok(_) => true,
            Err(e) => match first_undecodable(event_views(events@)) {
                Some(i) => e@ == mismatch_text(event_views(events@)[i]),
                None => false,
            },
        },
        r matches Err(e) ==> e@ == decode_error(event_views(events@)),
{
    let ghost s = event_views(events@);
    let mut i: usize = 0;
    while i < events.len()
        invariant
            i <= events.len(),
            s == event_views(events@),
            forall|j: int| 0 <= j < i ==> decodes(#[trigger] s[j]),
        decreases events.len() - i,
    {
        if events[i].payload.kind() != events[i].event_type {
            proof {
                assert(s[i as int] == events@[i as int]@);
                lemma_first_undecodable(s, i as int);
            }
            let mut m = owned("event ");
            m.append(events[i].event_id.as_str());
            m.append(" payload does not match ");
            m.append(events[i].event_type.as_str());
            m.append(" schema");
            return Err(CodecError::PayloadMismatch(m));
        }
        proof {
            assert(s[i as int] == events@[i as int]@);
        }
        i = i + 1;
    }
    proof {
        lemma_first_undecodable(s, i as int);
    }
    Ok(())
}

} // verus!
