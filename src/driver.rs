//! The admission-bounded batch driver of a run.
//!
//! The run issues its requests in batches of at most `concurrency`, and admits
//! a batch only once every request of the batch before has reported back, so
//! no more than `concurrency` requests are ever in flight. The driver makes
//! the decisions; whoever runs the requests tells it each completion and does
//! what it answers.
use vstd::prelude::*;
use crate::executor::Failure;
use crate::result::{
    aggregate, empty_summary, lemma_class_count_bound, lemma_class_counts_sum, ExecutionResult,
    RequestResult,
};

verus! {

/// Where a run stands.
#[derive(Clone, Copy, Debug, PartialEq, Eq, Structural)]
pub enum Phase {
    /// Requests are still to be issued or to report back.
    Running,
    /// Every request was issued and reported back.
    Finished,
    /// A failure ended the run; nothing more is admitted.
    Terminated,
}

/// What one request in flight reported back.
#[derive(Clone, Debug, PartialEq, Eq)]
pub enum Event {
    /// The request resolved to this outcome.
    Completed(RequestResult),
    /// The request failed in a way that ends the run.
    Failed(Failure),
    /// The unit that ran the request stopped without reporting an outcome.
    Lost,
}

/// What the driver asks of its caller after a completion.
#[derive(Clone, Debug, PartialEq, Eq)]
pub enum Action {
    /// Go on with the run.
    Continue,
    /// Stop the run and report this failure.
    Abort(Failure),
}

/// The abstract state of a driver.
pub struct DriverView {
    pub requests: nat,
    pub concurrency: nat,
    /// Requests issued so far.
    pub launched: nat,
    /// Requests issued that have not reported back.
    pub in_flight: nat,
    /// The outcomes reported so far, in the order they came.
    pub results: Seq<RequestResult>,
    /// Requests whose unit stopped without an outcome.
    pub lost: nat,
    pub phase: Phase,
}

pub struct Driver {
    requests: usize,
    concurrency: usize,
    launched: usize,
    in_flight: usize,
    results: Vec<RequestResult>,
    lost: usize,
    phase: Phase,
}

/// How many requests the driver admits in state `v` when asked for a batch.
pub open spec fn batch_size(v: DriverView) -> nat {
    if v.phase == Phase::Running && v.in_flight == 0 && v.launched < v.requests {
        let remaining = (v.requests - v.launched) as nat;
        if v.concurrency < remaining {
            v.concurrency
        } else {
            remaining
        }
    } else {
        0
    }
}

/// The state after asking for a batch in state `v`: the batch is in flight,
/// or, when all requests were issued and reported back, the run is finished.
pub open spec fn after_admission(v: DriverView) -> DriverView {
    if v.phase == Phase::Running && v.in_flight == 0 {
        if v.launched < v.requests {
            DriverView { launched: v.launched + batch_size(v), in_flight: batch_size(v), ..v }
        } else {
            DriverView { phase: Phase::Finished, ..v }
        }
    } else {
        v
    }
}

/// The state after a request in flight reported `event` in state `v`.
pub open spec fn after_event(v: DriverView, event: Event) -> DriverView {
    let rest = DriverView { in_flight: (v.in_flight - 1) as nat, ..v };
    match event {
        Event::Completed(res) => DriverView { results: v.results.push(res), ..rest },
        Event::Lost => DriverView { lost: v.lost + 1, ..rest },
        Event::Failed(_) => DriverView { phase: Phase::Terminated, ..rest },
    }
}

impl View for Driver {
    type V = DriverView;

    closed spec fn view(&self) -> DriverView {
        DriverView {
            requests: self.requests as nat,
            concurrency: self.concurrency as nat,
            launched: self.launched as nat,
            in_flight: self.in_flight as nat,
            results: self.results@,
            lost: self.lost as nat,
            phase: self.phase,
        }
    }
}

impl Driver {
    /// The driver's invariant: the bounds of the run hold, and every request
    /// issued is in flight, reported an outcome, was lost, or is the one
    /// failure that ended the run.
    pub open spec fn wf(&self) -> bool {
        let v = self@;
        &&& 1 <= v.requests <= u32::MAX
        &&& 1 <= v.concurrency
        &&& v.in_flight <= v.concurrency
        &&& v.launched <= v.requests
        &&& v.launched == v.results.len() + v.lost + v.in_flight + if v.phase
            == Phase::Terminated {
            1nat
        } else {
            0nat
        }
        &&& v.phase == Phase::Finished ==> v.launched == v.requests && v.in_flight == 0
    }

    /// A driver for a run of `requests` requests, at most `concurrency` of
    /// them in flight at once.
    pub fn new(requests: usize, concurrency: usize) -> (r: Self)
        requires
            1 <= requests <= u32::MAX,
            1 <= concurrency,
        ensures
            r.wf(),
            r@ == (DriverView {
                requests: requests as nat,
                concurrency: concurrency as nat,
                launched: 0,
                in_flight: 0,
                results: Seq::empty(),
                lost: 0,
                phase: Phase::Running,
            }),
    {
        Driver {
            requests,
            concurrency,
            launched: 0,
            in_flight: 0,
            results: Vec::new(),
            lost: 0,
            phase: Phase::Running,
        }
    }

    /// Asks for the next batch. When the run is going and nothing is in
    /// flight, admits `min(concurrency, remaining)` requests and returns that
    /// number, which the caller then launches; when all were issued and
    /// reported back, marks the run finished. Returns 0 when it admits
    /// nothing.
    pub fn next_batch(&mut self) -> (r: usize)
        requires
            old(self).wf(),
        ensures
            final(self).wf(),
            r == batch_size(old(self)@),
            final(self)@ == after_admission(old(self)@),
    {
        if self.phase == Phase::Running && self.in_flight == 0 {
            if self.launched < self.requests {
                let remaining = self.requests - self.launched;
                let n = if self.concurrency < remaining {
                    self.concurrency
                } else {
                    remaining
                };
                self.launched = self.launched + n;
                self.in_flight = n;
                return n;
            } else {
                self.phase = Phase::Finished;
            }
        }
        0
    }

    /// Takes in what one request in flight reported. An outcome is kept, a
    /// lost request is counted, and a failure ends the run: the driver then
    /// admits nothing more and asks the caller to abort.
    pub fn record(&mut self, event: Event) -> (r: Action)
        requires
            old(self).wf(),
            old(self)@.phase == Phase::Running,
            old(self)@.in_flight > 0,
        ensures
            final(self).wf(),
            final(self)@ == after_event(old(self)@, event),
            match event {
                Event::Failed(f) => r == Action::Abort(f),
                _ => r == Action::Continue,
            },
    {
        self.in_flight = self.in_flight - 1;
        match event {
            Event::Completed(res) => {
                self.results.push(res);
                Action::Continue
            },
            Event::Lost => {
                self.lost = self.lost + 1;
                Action::Continue
            },
            Event::Failed(f) => {
                self.phase = Phase::Terminated;
                Action::Abort(f)
            },
        }
    }

    pub fn phase(&self) -> (r: Phase)
        ensures
            r == self@.phase,
    {
        self.phase
    }

    pub fn in_flight(&self) -> (r: usize)
        ensures
            r == self@.in_flight,
    {
        self.in_flight
    }

    pub fn launched(&self) -> (r: usize)
        ensures
            r == self@.launched,
    {
        self.launched
    }

    /// Summarises the outcomes reported so far.
    pub fn finish(self) -> (r: ExecutionResult)
        requires
            self.wf(),
        ensures
            r == aggregate(empty_summary(), self@.results),
    {
        ExecutionResult::new().init(self.results)
    }
}

/// In every state of a well-formed driver, at most `concurrency` requests are
/// in flight and no more than `requests` were issued.
pub proof fn lemma_admission_bound(d: &Driver)
    requires
        d.wf(),
    ensures
        d@.in_flight <= d@.concurrency,
        d@.launched <= d@.requests,
{
}

/// A run that finished without a fatal failure holds one outcome for each
/// request but those whose unit was lost (so exactly one per request when
/// none was lost), and the summary's total and class counts all add up to
/// the number of outcomes.
pub proof fn lemma_finished_run_complete(d: &Driver)
    requires
        d.wf(),
        d@.phase == Phase::Finished,
    ensures
        d@.results.len() + d@.lost == d@.requests,
        d@.lost == 0 ==> d@.results.len() == d@.requests,
        aggregate(empty_summary(), d@.results).total_requests == d@.results.len(),
        aggregate(empty_summary(), d@.results).count_1xx + aggregate(empty_summary(), d@.results).count_2xx
            + aggregate(empty_summary(), d@.results).count_3xx + aggregate(empty_summary(), d@.results).count_4xx
            + aggregate(empty_summary(), d@.results).count_5xx + aggregate(empty_summary(), d@.results).count_timeout
            == d@.results.len(),
{
    let s = d@.results;
    lemma_class_counts_sum(s);
    lemma_class_count_bound(s);
}

/// Once a request in flight reports a failure, the run is terminated and
/// the driver admits nothing more, however often it is asked; the requests
/// issued by then, at most `requests`, include every one that reported back
/// and the one that failed.
pub proof fn lemma_failure_halts_admission(d: &Driver, f: Failure)
    requires
        d.wf(),
        d@.phase == Phase::Running,
        d@.in_flight > 0,
    ensures
        after_event(d@, Event::Failed(f)).phase == Phase::Terminated,
        batch_size(after_event(d@, Event::Failed(f))) == 0,
        after_admission(after_event(d@, Event::Failed(f))) == after_event(d@, Event::Failed(f)),
        after_event(d@, Event::Failed(f)).launched == d@.results.len() + d@.lost + 1
            + after_event(d@, Event::Failed(f)).in_flight,
        after_event(d@, Event::Failed(f)).launched <= d@.requests,
{
}

} // verus!
