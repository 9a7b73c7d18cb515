//! The decisions of one job's segment loop: which segment to request next,
//! what to tell the requester, when to retry, and when the job has failed.
//! The caller performs each request and hands back what it got; segments are
//! requested one at a time, in ascending index order.
use vstd::prelude::*;

use crate::fetch::{decide, failure_text, progress_text, FetchDecision, SegmentFetch};
use crate::job::{segment_name, segment_url};
use crate::reassemble::{byte_views, concat_all, concat_segments};

verus! {

/// The next request of the loop.
pub struct Request {
    /// Index of the segment, from 1.
    pub index: usize,
    pub url: String,
    /// The progress message to show first; only before a segment's first attempt.
    pub notice: Option<String>,
}

/// What follows one response.
#[derive(Debug, PartialEq, Eq)]
pub enum Reply {
    /// The segment was kept; the loop goes on with the next one.
    Stored,
    /// The attempt failed; show `notice` and request the same segment again.
    Retrying { notice: String },
    /// The attempt failed and no attempt is left: the job fails.
    GaveUp,
}

/// The segment loop of one job: `count` segments under the base URL `base`.
pub struct Download {
    pub base: String,
    pub count: usize,
    /// The segment being fetched, from 1; `count + 1` once all are kept.
    pub index: usize,
    pub fetch: SegmentFetch,
    /// The segments kept so far, in index order.
    pub segments: Vec<Vec<u8>>,
    /// A segment was given up.
    pub failed: bool,
}

impl Download {
    pub open spec fn wf(&self) -> bool {
        &&& self.count < usize::MAX
        &&& 1 <= self.index <= self.count + 1
        &&& self.segments@.len() == self.index - 1
        &&& self.fetch.index == self.index
        &&& self.fetch.total == self.count
        &&& (self.index <= self.count && !self.failed) ==> self.fetch.may_attempt()
    }

    /// A request is still to be made.
    pub open spec fn pending(&self) -> bool {
        self.index <= self.count && !self.failed
    }

    /// Every segment was kept.
    pub open spec fn complete(&self) -> bool {
        self.index == self.count + 1 && !self.failed
    }

    pub fn new(base: String, count: usize) -> (r: Download)
        requires
            count < usize::MAX,
        ensures
            r.wf(),
            r.base == base,
            r.count == count,
            r.index == 1,
            r.segments@.len() == 0,
            !r.failed,
            r.fetch.attempts == 0,
    {
        Download {
            base,
            count,
            index: 1,
            fetch: SegmentFetch::new(1, count),
            segments: Vec::new(),
            failed: false,
        }
    }

    /// The request to make now; `None` once the loop is over.
    pub fn next_request(&self) -> (r: Option<Request>)
        requires
            self.wf(),
        ensures
            r is None <==> !self.pending(),
            r matches Some(q) ==> {
                &&& q.index == self.index
                &&& q.url@ == self.base@ + segment_name(self.index as nat)
                &&& self.fetch.attempts == 0 ==> (q.notice is Some && q.notice->0@ == progress_text(
                    self.index as nat,
                    self.count as nat,
                ))
                &&& self.fetch.attempts > 0 ==> q.notice is None
            },
    {
        if self.index > self.count || self.failed {
            return None;
        }
        let url = segment_url(self.base.as_str(), self.index);
        let notice = if self.fetch.attempts == 0 {
            Some(self.fetch.progress_message())
        } else {
            None
        };
        Some(Request { index: self.index, url, notice })
    }

    /// Takes the outcome of the request just made: the body, or `None` when
    /// the request or the reading of its body failed.
    pub fn on_response(&mut self, body: Option<Vec<u8>>) -> (r: Reply)
        requires
            old(self).wf(),
            old(self).pending(),
        ensures
            final(self).wf(),
            final(self).base == old(self).base,
            final(self).count == old(self).count,
            body matches Some(b) ==> {
                &&& r == Reply::Stored
                &&& final(self).index == old(self).index + 1
                &&& final(self).segments@ == old(self).segments@.push(b)
                &&& !final(self).failed
                &&& final(self).fetch.attempts == 0
            },
            decide(old(self).fetch.attempts as nat, body is Some) matches FetchDecision::Retry {
                attempts_left,
            } ==> {
                &&& r is Retrying
                &&& r->notice@ == failure_text(
                    old(self).index as nat,
                    old(self).count as nat,
                    attempts_left as nat,
                )
                &&& final(self).index == old(self).index
                &&& final(self).segments@ == old(self).segments@
                &&& !final(self).failed
                &&& final(self).fetch.attempts == old(self).fetch.attempts + 1
            },
            decide(old(self).fetch.attempts as nat, body is Some) == FetchDecision::Abort ==> {
                &&& r == Reply::GaveUp
                &&& final(self).failed
                &&& final(self).index == old(self).index
                &&& final(self).segments@ == old(self).segments@
            },
    {
        let fetched = body.is_some();
        let d = self.fetch.on_attempt(fetched);
        match d {
            FetchDecision::Accept => {
                match body {
                    Some(b) => {
                        self.segments.push(b);
                    },
                    None => {},
                }
                self.index = self.index + 1;
                self.fetch = SegmentFetch::new(self.index, self.count);
                Reply::Stored
            },
            FetchDecision::Retry { attempts_left } => {
                let notice = self.fetch.failure_message(attempts_left);
                Reply::Retrying { notice }
            },
            FetchDecision::Abort => {
                self.failed = true;
                Reply::GaveUp
            },
        }
    }

    /// The kept segments joined in index order.
    pub fn assemble(&self) -> (r: Vec<u8>)
        ensures
            r@ == concat_all(byte_views(self.segments@)),
    {
        concat_segments(&self.segments)
    }
}

} // verus!
