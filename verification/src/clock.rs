//! The wall clock and the compact UTC stamp used in batch trace ids, both from
//! the `chrono` crate.
use vstd::prelude::*;

use chrono::{DateTime, Utc};

use crate::events::Timestamp;

verus! {

/// Calls `Utc::now`.  The result is the time of the call: nothing is promised
/// of its value but that chrono can represent it again (`Utc::now` gives a
/// `DateTime<Utc>`, whose seconds and nanoseconds `from_timestamp` accepts).
/// `Utc::now` panics when the system clock reads before 1970; that comes from
/// the machine, not from an argument, so no `requires` can exclude it.
#[verifier::external_body]
pub(crate) fn now() -> (r: Timestamp)
    ensures
        compact_utc_text(r.seconds, r.nanos) is Some,
{
    let t = Utc::now();
    Timestamp { seconds: t.timestamp(), nanos: t.timestamp_subsec_nanos() }
}

/// `DateTime::<Utc>::from_timestamp(seconds, nanos)` formatted with
/// `%Y%m%dT%H%M%S%.3fZ`, or nothing where chrono cannot represent the instant.
pub uninterp spec fn compact_utc_text(seconds: i64, nanos: u32) -> Option<Seq<char>>;

/// Calls `DateTime::<Utc>::from_timestamp` and `format("%Y%m%dT%H%M%S%.3fZ")`.
/// The text is a function of the instant alone (UTC, no local zone); it is
/// named, not restated.
#[verifier::external_body]
pub(crate) fn compact_utc(t: Timestamp) -> (r: Option<String>)
    ensures
        match r {
            Some(s) => compact_utc_text(t.seconds, t.nanos) == Some(s@),
            None => compact_utc_text(t.seconds, t.nanos) is None,
        },
{
    match DateTime::<Utc>::from_timestamp(t.seconds, t.nanos) {
        Some(dt) => Some(dt.format("%Y%m%dT%H%M%S%.3fZ").to_string()),
        None => None,
    }
}

} // verus!
