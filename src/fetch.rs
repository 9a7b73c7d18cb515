//! The retry policy of the segment fetcher. The fetcher performs the
//! requests; after each attempt it asks `SegmentFetch::on_attempt` what to do
//! next, and reports progress with the messages built here.
use vstd::prelude::*;

use crate::text::{decimal, push_decimal};

verus! {

/// Attempts allowed for one segment, the first one included.
pub const MAX_ATTEMPTS: u32 = 3;

/// What the fetcher does after one attempt at a segment.
#[derive(Debug, Clone, Copy, PartialEq, Eq, Structural)]
pub enum FetchDecision {
    /// The body was read: keep it as the segment.
    Accept,
    /// The attempt failed: report it and try again; `attempts_left` attempts remain.
    Retry { attempts_left: u32 },
    /// The attempt failed and the budget is spent: the job fails.
    Abort,
}

/// The decision after attempt number `attempts_before + 1`.
pub open spec fn decide(attempts_before: nat, fetched: bool) -> FetchDecision {
    if fetched {
        FetchDecision::Accept
    } else if attempts_before + 1 < MAX_ATTEMPTS {
        FetchDecision::Retry { attempts_left: (MAX_ATTEMPTS - (attempts_before + 1)) as u32 }
    } else {
        FetchDecision::Abort
    }
}

/// The decisions taken when the attempts, from the `made`-th on, have the
/// outcomes `outcomes` (`true`: the body was read). One decision per request
/// made; the list ends at the first decision that is not a retry.
pub open spec fn trace_from(made: nat, outcomes: Seq<bool>) -> Seq<FetchDecision>
    decreases outcomes.len(),
{
    if outcomes.len() == 0 || made >= MAX_ATTEMPTS {
        Seq::empty()
    } else {
        let d = decide(made, outcomes[0]);
        if d is Retry {
            seq![d] + trace_from(made + 1, outcomes.drop_first())
        } else {
            seq![d]
        }
    }
}

/// The decisions taken for one segment, from its first attempt on.
pub open spec fn trace(outcomes: Seq<bool>) -> Seq<FetchDecision> {
    trace_from(0, outcomes)
}

/// `"fetching segment i/total"`
pub open spec fn progress_text(index: nat, total: nat) -> Seq<char> {
    "fetching segment "@ + decimal(index) + "/"@ + decimal(total)
}

/// `"error on segment i/total, N attempts left"`
pub open spec fn failure_text(index: nat, total: nat, left: nat) -> Seq<char> {
    "error on segment "@ + decimal(index) + "/"@ + decimal(total) + ", "@ + decimal(left)
        + " attempts left"@
}

/// The fetch of segment `index` of `total`.
pub struct SegmentFetch {
    pub index: usize,
    pub total: usize,
    /// Requests made so far.
    pub attempts: u32,
    /// The segment was accepted or given up.
    pub settled: bool,
}

impl SegmentFetch {
    /// Another request may be made.
    pub open spec fn may_attempt(&self) -> bool {
        !self.settled && self.attempts < MAX_ATTEMPTS
    }

    pub fn new(index: usize, total: usize) -> (r: SegmentFetch)
        ensures
            r.index == index,
            r.total == total,
            r.attempts == 0,
            !r.settled,
            r.may_attempt(),
    {
        SegmentFetch { index, total, attempts: 0, settled: false }
    }

    /// Records the outcome of one request and says what comes next.
    pub fn on_attempt(&mut self, fetched: bool) -> (d: FetchDecision)
        requires
            old(self).may_attempt(),
        ensures
            d == decide(old(self).attempts as nat, fetched),
            final(self).attempts == old(self).attempts + 1,
            final(self).settled == !(d is Retry),
            final(self).may_attempt() <==> d is Retry,
            final(self).index == old(self).index,
            final(self).total == old(self).total,
    {
        self.attempts = self.attempts + 1;
        if fetched {
            self.settled = true;
            FetchDecision::Accept
        } else if self.attempts < MAX_ATTEMPTS {
            FetchDecision::Retry { attempts_left: MAX_ATTEMPTS - self.attempts }
        } else {
            self.settled = true;
            FetchDecision::Abort
        }
    }

    /// The progress message shown before the segment is fetched.
    pub fn progress_message(&self) -> (r: String)
        ensures
            r@ == progress_text(self.index as nat, self.total as nat),
    {
        let mut r = "fetching segment ".to_owned();
        push_decimal(&mut r, self.index);
        r.append("/");
        push_decimal(&mut r, self.total);
        r
    }

    /// The message that reports a failed attempt.
    pub fn failure_message(&self, attempts_left: u32) -> (r: String)
        ensures
            r@ == failure_text(self.index as nat, self.total as nat, attempts_left as nat),
    {
        let mut r = "error on segment ".to_owned();
        push_decimal(&mut r, self.index);
        r.append("/");
        push_decimal(&mut r, self.total);
        r.append(", ");
        push_decimal(&mut r, attempts_left as usize);
        r.append(" attempts left");
        r
    }
}

proof fn lemma_trace_from_success(made: nat, k: nat, outcomes: Seq<bool>)
    requires
        made + k < MAX_ATTEMPTS,
        k < outcomes.len(),
        forall|j: int| 0 <= j < k ==> !outcomes[j],
        outcomes[k as int],
    ensures
        trace_from(made, outcomes).len() == k + 1,
        forall|j: int| 0 <= j < k ==> trace_from(made, outcomes)[j] is Retry,
        trace_from(made, outcomes)[k as int] == FetchDecision::Accept,
    decreases k,
{
    if k > 0 {
        let rest = outcomes.drop_first();
        lemma_trace_from_success(made + 1, (k - 1) as nat, rest);
        let d = decide(made, outcomes[0]);
        assert(d is Retry);
        let t = trace_from(made, outcomes);
        assert(t == seq![d] + trace_from(made + 1, rest));
        assert forall|j: int| 0 <= j < k implies t[j] is Retry by {
            if j > 0 {
                assert(t[j] == trace_from(made + 1, rest)[j - 1]);
            }
        }
    }
}

proof fn lemma_trace_from_exhausted(made: nat, outcomes: Seq<bool>)
    requires
        made < MAX_ATTEMPTS,
        outcomes.len() >= MAX_ATTEMPTS - made,
        forall|j: int| 0 <= j < MAX_ATTEMPTS - made ==> !outcomes[j],
    ensures
        trace_from(made, outcomes).len() == MAX_ATTEMPTS - made,
        forall|j: int|
            0 <= j < MAX_ATTEMPTS - made - 1 ==> trace_from(made, outcomes)[j] is Retry,
        trace_from(made, outcomes).last() == FetchDecision::Abort,
    decreases MAX_ATTEMPTS - made,
{
    let t = trace_from(made, outcomes);
    if made + 1 < MAX_ATTEMPTS {
        let rest = outcomes.drop_first();
        lemma_trace_from_exhausted(made + 1, rest);
        assert(t == seq![decide(made, false)] + trace_from(made + 1, rest));
        assert forall|j: int| 0 <= j < MAX_ATTEMPTS - made - 1 implies t[j] is Retry by {
            if j > 0 {
                assert(t[j] == trace_from(made + 1, rest)[j - 1]);
            }
        }
    }
}

proof fn lemma_trace_from_bounded(made: nat, outcomes: Seq<bool>)
    ensures
        made + trace_from(made, outcomes).len() <= MAX_ATTEMPTS || trace_from(
            made,
            outcomes,
        ).len() == 0,
    decreases outcomes.len(),
{
    if outcomes.len() > 0 && made < MAX_ATTEMPTS {
        lemma_trace_from_bounded(made + 1, outcomes.drop_first());
    }
}

/// A segment whose first `k < MAX_ATTEMPTS` requests fail and whose next one
/// succeeds is fetched: `k + 1` requests are made, the first `k` failures are
/// each reported and retried, and the last body is accepted.
pub proof fn lemma_retry_then_success(k: nat, outcomes: Seq<bool>)
    requires
        k < MAX_ATTEMPTS,
        k < outcomes.len(),
        forall|j: int| 0 <= j < k ==> !outcomes[j],
        outcomes[k as int],
    ensures
        trace(outcomes).len() == k + 1,
        forall|j: int| 0 <= j < k ==> trace(outcomes)[j] is Retry,
        trace(outcomes)[k as int] == FetchDecision::Accept,
{
    lemma_trace_from_success(0, k, outcomes);
}

/// A segment whose first `MAX_ATTEMPTS` requests all fail is given up after
/// exactly `MAX_ATTEMPTS` requests: no further request is made.
pub proof fn lemma_retry_exhausted(outcomes: Seq<bool>)
    requires
        outcomes.len() >= MAX_ATTEMPTS,
        forall|j: int| 0 <= j < MAX_ATTEMPTS ==> !outcomes[j],
    ensures
        trace(outcomes).len() == MAX_ATTEMPTS,
        forall|j: int| 0 <= j < MAX_ATTEMPTS - 1 ==> trace(outcomes)[j] is Retry,
        trace(outcomes).last() == FetchDecision::Abort,
{
    lemma_trace_from_exhausted(0, outcomes);
}

/// Whatever the outcomes, no segment is requested more than `MAX_ATTEMPTS` times.
pub proof fn lemma_attempts_bounded(outcomes: Seq<bool>)
    ensures
        trace(outcomes).len() <= MAX_ATTEMPTS,
{
    lemma_trace_from_bounded(0, outcomes);
}

} // verus!
