//! What a materialization flow does with one candidate: the policy's verdict,
//! before and after the write it may attempt.
use vstd::prelude::*;

use crate::clock::{compact_utc, compact_utc_text, now};
use crate::events::Timestamp;
use crate::materialization::error::MaterializationError;
use crate::queries::{PromotionNextStep, PromotionPolicyStatus};
use crate::text::{owned, strs};

verus! {

/// How a flow treats one candidate before any write.
pub enum Plan {
    /// Leave it, with a leading reason when there is one.
    Skip(Option<Seq<char>>),
    Block,
    Flag,
    /// Write the next event for it.
    Attempt,
}

/// What became of one candidate.
#[derive(Debug, Clone, Copy, PartialEq, Eq, Structural)]
pub enum Verdict {
    /// It could have been written; the run was dry.
    Eligible,
    /// Its event was written.
    Written,
    Skipped,
    Blocked,
    Inconsistent,
}

/// The plan for a candidate: `existing` is the leading reason when the candidate
/// already has what the flow would write; otherwise its policy decides.
pub open spec fn plan_for(
    existing: Option<Seq<char>>,
    status: PromotionPolicyStatus,
    next_step: Option<PromotionNextStep>,
    wanted: PromotionNextStep,
    off_step: Seq<char>,
) -> Plan {
    match existing {
        Some(l) => Plan::Skip(Some(l)),
        None => if status == PromotionPolicyStatus::Eligible && next_step == Some(wanted) {
            Plan::Attempt
        } else if status == PromotionPolicyStatus::Blocked {
            Plan::Block
        } else if status == PromotionPolicyStatus::Inconsistent {
            Plan::Flag
        } else if status == PromotionPolicyStatus::Eligible {
            Plan::Skip(Some(off_step))
        } else {
            Plan::Skip(None)
        },
    }
}

/// The verdict on a candidate, given whether the run is dry and whether its
/// event was new to the store.
pub open spec fn verdict_of(plan: Plan, dry_run: bool, appended: bool) -> Verdict {
    match plan {
        Plan::Skip(_) => Verdict::Skipped,
        Plan::Block => Verdict::Blocked,
        Plan::Flag => Verdict::Inconsistent,
        Plan::Attempt => if dry_run {
            Verdict::Eligible
        } else if appended {
            Verdict::Written
        } else {
            Verdict::Skipped
        },
    }
}

/// Whether the candidate's event was already in the store.
pub open spec fn duplicate_of(plan: Plan, dry_run: bool, appended: bool) -> bool {
    plan is Attempt && !dry_run && !appended
}

/// The reason put before the policy's reasons, if any.
pub open spec fn lead_of(plan: Plan, dry_run: bool, appended: bool, duplicate: Seq<char>) -> Option<Seq<char>> {
    match plan {
        Plan::Skip(l) => l,
        Plan::Attempt => if duplicate_of(plan, dry_run, appended) {
            Some(duplicate)
        } else {
            None
        },
        _ => None,
    }
}

pub open spec fn led_by(lead: Option<Seq<char>>, reasons: Seq<Seq<char>>) -> Seq<Seq<char>> {
    match lead {
        Some(l) => seq![l] + reasons,
        None => reasons,
    }
}

pub open spec fn promotion_status_name(s: PromotionPolicyStatus) -> Seq<char> {
    match s {
        PromotionPolicyStatus::Eligible => "Eligible"@,
        PromotionPolicyStatus::Weak => "Weak"@,
        PromotionPolicyStatus::Blocked => "Blocked"@,
        PromotionPolicyStatus::Frozen => "Frozen"@,
        PromotionPolicyStatus::Inconsistent => "Inconsistent"@,
    }
}

pub fn promotion_status_text(s: PromotionPolicyStatus) -> (r: &'static str)
    ensures
        r@ == promotion_status_name(s),
{
    match s {
        PromotionPolicyStatus::Eligible => "Eligible",
        PromotionPolicyStatus::Weak => "Weak",
        PromotionPolicyStatus::Blocked => "Blocked",
        PromotionPolicyStatus::Frozen => "Frozen",
        PromotionPolicyStatus::Inconsistent => "Inconsistent",
    }
}

/// The number of verdicts equal to `v`.
pub open spec fn count_verdicts(vs: Seq<Verdict>, v: Verdict) -> nat
    decreases vs.len(),
{
    if vs.len() == 0 {
        0
    } else {
        count_verdicts(vs.drop_last(), v) + if vs.last() == v {
            1nat
        } else {
            0nat
        }
    }
}

/// The number of duplicates among the flags.
pub open spec fn count_true(bs: Seq<bool>) -> nat
    decreases bs.len(),
{
    if bs.len() == 0 {
        0
    } else {
        count_true(bs.drop_last()) + if bs.last() {
            1nat
        } else {
            0nat
        }
    }
}

/// Running counts of the verdicts of a run.
pub struct Tally {
    pub eligible: usize,
    pub written: usize,
    pub skipped: usize,
    pub blocked: usize,
    pub inconsistent: usize,
    pub duplicates: usize,
}

impl Tally {
    pub open spec fn counts(&self, vs: Seq<Verdict>, dups: Seq<bool>) -> bool {
        &&& self.written == count_verdicts(vs, Verdict::Written)
        &&& self.skipped == count_verdicts(vs, Verdict::Skipped)
        &&& self.blocked == count_verdicts(vs, Verdict::Blocked)
        &&& self.inconsistent == count_verdicts(vs, Verdict::Inconsistent)
        &&& self.duplicates == count_true(dups)
        &&& self.eligible == count_verdicts(vs, Verdict::Eligible) + count_verdicts(vs, Verdict::Written)
            + count_true(dups)
    }

    pub fn new() -> (t: Self)
        ensures
            t.counts(Seq::empty(), Seq::empty()),
    {
        Tally { eligible: 0, written: 0, skipped: 0, blocked: 0, inconsistent: 0, duplicates: 0 }
    }

    /// Counts one more verdict.
    pub fn record(&mut self, v: Verdict, duplicate: bool, Ghost(vs): Ghost<Seq<Verdict>>, Ghost(dups): Ghost<Seq<bool>>)
        requires
            old(self).counts(vs, dups),
            vs.len() == dups.len(),
            vs.len() < usize::MAX,
            old(self).eligible <= vs.len(),
            duplicate ==> v == Verdict::Skipped,
        ensures
            final(self).counts(vs.push(v), dups.push(duplicate)),
            final(self).eligible <= vs.len() + 1,
    {
        proof {
            assert(vs.push(v).drop_last() =~= vs);
            assert(dups.push(duplicate).drop_last() =~= dups);
            lemma_counts_bounded(vs, dups);
        }
        match v {
            Verdict::Eligible => {
                self.eligible = self.eligible + 1;
            },
            Verdict::Written => {
                self.eligible = self.eligible + 1;
                self.written = self.written + 1;
            },
            Verdict::Skipped => {
                self.skipped = self.skipped + 1;
                if duplicate {
                    self.eligible = self.eligible + 1;
                    self.duplicates = self.duplicates + 1;
                }
            },
            Verdict::Blocked => {
                self.blocked = self.blocked + 1;
            },
            Verdict::Inconsistent => {
                self.inconsistent = self.inconsistent + 1;
            },
        }
    }
}

proof fn lemma_counts_bounded(vs: Seq<Verdict>, dups: Seq<bool>)
    ensures
        count_verdicts(vs, Verdict::Eligible) + count_verdicts(vs, Verdict::Written)
            + count_verdicts(vs, Verdict::Skipped) + count_verdicts(vs, Verdict::Blocked)
            + count_verdicts(vs, Verdict::Inconsistent) == vs.len(),
        count_true(dups) <= dups.len(),
    decreases vs.len() + dups.len(),
{
    if vs.len() > 0 {
        lemma_counts_bounded(vs.drop_last(), dups);
    } else if dups.len() > 0 {
        lemma_counts_bounded(vs, dups.drop_last());
    }
}

/// A batch trace id: `prefix` and the time of the call in compact UTC.
pub fn batch_trace_id(prefix: &str) -> (r: Result<String, MaterializationError>)
    ensures
        r is Ok,
        r matches Ok(s) ==> exists|t: Seq<char>| s@ == prefix@ + t,
        r matches Ok(s) ==> exists|ts: Timestamp, t: Seq<char>|
            compact_utc_text(ts.seconds, ts.nanos) == Some(t) && s@ == prefix@ + t,
{
    let t = now();
    match compact_utc(t) {
        Some(stamp) => {
            let mut s = owned(prefix);
            s.append(stamp.as_str());
            proof {
                assert(s@ == prefix@ + stamp@);
                assert(compact_utc_text(t.seconds, t.nanos) == Some(stamp@));
            }
            Ok(s)
        },
        None => Err(MaterializationError::invalid_state("the clock cannot be read as a UTC instant")),
    }
}

/// `reasons` with `lead` put first, when there is one.
pub fn lead_then(lead: Option<String>, reasons: Vec<String>) -> (r: Vec<String>)
    ensures
        strs(r@) == led_by(crate::text::opt_view(lead), strs(reasons@)),
{
    match lead {
        Some(l) => {
            let mut r: Vec<String> = Vec::new();
            r.push(l);
            let mut k: usize = 0;
            let ghost l0 = strs(r@);
            while k < reasons.len()
                invariant
                    k <= reasons.len(),
                    strs(r@) == l0 + strs(reasons@).take(k as int),
                decreases reasons.len() - k,
            {
                let ghost before = r@;
                r.push(reasons[k].clone());
                proof {
                    assert(strs(r@) =~= strs(before).push(reasons@[k as int]@));
                    assert(l0 + strs(reasons@).take(k as int + 1) =~= (l0 + strs(reasons@).take(k as int)).push(
                        reasons@[k as int]@,
                    ));
                }
                k = k + 1;
            }
            proof {
                assert(strs(reasons@).take(k as int) =~= strs(reasons@));
                assert(l0 =~= seq![l@]);
            }
            r
        },
        None => reasons,
    }
}

} // verus!
