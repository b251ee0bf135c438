use loadstorm::driver::{Action, Driver, Event, Phase};
use loadstorm::executor::{outcome_of_reply, reply_for_failure, Failure, Reply};
use loadstorm::failure::FailureKind;
use loadstorm::result::{Classification, ExecutionResult};

/// What a run did, as seen by an instrumented transport.
struct Trace {
    attempted: usize,
    max_in_flight: usize,
    batches: Vec<usize>,
    aborted: Option<Failure>,
    summary: Option<ExecutionResult>,
}

/// Runs the driver against a mock transport: `transport(i)` is the reply to
/// the `i`-th call (from 0) and how long it took. A batch is started whole
/// and its calls report back one by one.
fn simulate(requests: usize, concurrency: usize, transport: impl Fn(usize) -> (Reply, u128)) -> Trace {
    let mut driver = Driver::new(requests, concurrency);
    let mut trace =
        Trace { attempted: 0, max_in_flight: 0, batches: Vec::new(), aborted: None, summary: None };
    loop {
        let n = driver.next_batch();
        if n == 0 {
            break;
        }
        trace.batches.push(n);
        let mut active = n;
        trace.max_in_flight = trace.max_in_flight.max(active);
        assert_eq!(driver.in_flight(), active);
        let calls: Vec<usize> = (trace.attempted..trace.attempted + n).collect();
        trace.attempted += n;
        for i in calls {
            let (reply, ms) = transport(i);
            let event = match outcome_of_reply(reply, ms) {
                Ok(res) => Event::Completed(res),
                Err(f) => Event::Failed(f),
            };
            active -= 1;
            match driver.record(event) {
                Action::Continue => {}
                Action::Abort(f) => {
                    trace.aborted = Some(f);
                    assert_eq!(driver.phase(), Phase::Terminated);
                    assert_eq!(driver.next_batch(), 0);
                    return trace;
                }
            }
            assert_eq!(driver.in_flight(), active);
        }
    }
    assert_eq!(driver.phase(), Phase::Finished);
    trace.summary = Some(driver.finish());
    trace
}

#[test]
fn fixed_success_run() {
    let t = simulate(10, 3, |_| (Reply::Status(200), 5));
    assert_eq!(t.batches, vec![3, 3, 3, 1]);
    assert_eq!(t.attempted, 10);
    let s = t.summary.unwrap();
    assert_eq!(s.total_requests, 10);
    assert_eq!(s.count_2xx, 10);
    assert_eq!(s.count_1xx + s.count_3xx + s.count_4xx + s.count_5xx + s.count_timeout, 0);
    assert_eq!((s.fastest, s.slowest, s.p95), (5, 5, 5));
}

#[test]
fn run_with_two_timeouts() {
    let t = simulate(10, 5, |i| if i == 2 || i == 7 { (Reply::TimedOut, 30) } else { (Reply::Status(204), 4) });
    let s = t.summary.unwrap();
    assert_eq!(s.total_requests, 10);
    assert_eq!(s.count_timeout, 2);
    assert_eq!(s.count_2xx, 8);
    assert_eq!(s.count_1xx + s.count_3xx + s.count_4xx + s.count_5xx, 0);
}

#[test]
fn descriptor_exhaustion_halts_run() {
    let t = simulate(20, 10, |i| {
        if i == 4 {
            (
                Reply::Failed(vec![
                    "error sending request".to_string(),
                    "client error (Connect)".to_string(),
                    "Too many open files (os error 24)".to_string(),
                ]),
                1,
            )
        } else {
            (Reply::Status(200), 3)
        }
    });
    assert!(t.attempted <= 20);
    assert_eq!(t.attempted, 10);
    assert!(t.summary.is_none());
    let f = t.aborted.unwrap();
    assert_eq!(f.kind, FailureKind::ResourceExhausted);
    assert_eq!(f.causes.len(), 3);
}

#[test]
fn ordinary_failure_ends_run() {
    let t = simulate(6, 2, |i| {
        if i == 3 {
            (Reply::Failed(vec!["connection refused".to_string()]), 1)
        } else {
            (Reply::Status(200), 3)
        }
    });
    assert_eq!(t.attempted, 4);
    assert_eq!(t.aborted.unwrap().kind, FailureKind::Ordinary);
}

#[test]
fn single_request_high_concurrency() {
    let t = simulate(1, 50, |_| (Reply::Status(200), 7));
    assert_eq!(t.attempted, 1);
    assert_eq!(t.batches, vec![1]);
    assert_eq!(t.max_in_flight, 1);
    assert_eq!(t.summary.unwrap().total_requests, 1);
}

#[test]
fn in_flight_never_exceeds_bound() {
    for (n, c) in [(1, 1), (7, 1), (7, 3), (9, 3), (10, 4), (5, 8), (100, 7)] {
        let t = simulate(n, c, |i| (Reply::Status(200 + (i % 100) as u16), i as u128));
        assert!(t.max_in_flight <= c);
        assert_eq!(t.attempted, n);
        assert_eq!(t.batches.iter().sum::<usize>(), n);
        let s = t.summary.unwrap();
        assert_eq!(s.total_requests, n);
        let sum = s.count_1xx + s.count_2xx + s.count_3xx + s.count_4xx + s.count_5xx + s.count_timeout;
        assert_eq!(sum as usize, n);
    }
}

#[test]
fn mixed_statuses_are_counted() {
    let codes = [101u16, 200, 201, 301, 404, 408, 500, 503, 200, 302];
    let t = simulate(codes.len(), 4, |i| (Reply::Status(codes[i]), 10 + i as u128));
    let s = t.summary.unwrap();
    assert_eq!(
        (s.count_1xx, s.count_2xx, s.count_3xx, s.count_4xx, s.count_5xx, s.count_timeout),
        (1, 3, 2, 2, 2, 0)
    );
    assert_eq!((s.fastest, s.slowest), (10, 19));
}

#[test]
fn lost_unit_is_excluded() {
    let mut d = Driver::new(3, 3);
    assert_eq!(d.next_batch(), 3);
    assert_eq!(d.record(Event::Lost), Action::Continue);
    let ok = outcome_of_reply(Reply::Status(200), 5).unwrap();
    assert_eq!(d.record(Event::Completed(ok)), Action::Continue);
    assert_eq!(d.record(Event::Completed(ok)), Action::Continue);
    assert_eq!(d.next_batch(), 0);
    assert_eq!(d.phase(), Phase::Finished);
    assert_eq!(d.launched(), 3);
    let s = d.finish();
    assert_eq!(s.total_requests, 2);
    assert_eq!(s.count_2xx, 2);
}

#[test]
fn no_batch_while_one_is_in_flight() {
    let mut d = Driver::new(5, 2);
    assert_eq!(d.next_batch(), 2);
    assert_eq!(d.next_batch(), 0);
    assert_eq!(d.phase(), Phase::Running);
    let ok = outcome_of_reply(Reply::Status(200), 5).unwrap();
    d.record(Event::Completed(ok));
    assert_eq!(d.next_batch(), 0);
    d.record(Event::Completed(ok));
    assert_eq!(d.next_batch(), 2);
    assert_eq!(d.launched(), 4);
}

#[test]
fn replies_resolve_to_outcomes() {
    let r = outcome_of_reply(Reply::Status(503), 12).unwrap();
    assert_eq!((r.class, r.duration_ms), (Classification::ServerError, 12));
    let r = outcome_of_reply(Reply::Status(100), 1).unwrap();
    assert_eq!(r.class, Classification::Informational);
    let r = outcome_of_reply(Reply::Status(308), 1).unwrap();
    assert_eq!(r.class, Classification::Redirection);
    let r = outcome_of_reply(Reply::Status(408), 1).unwrap();
    assert_eq!(r.class, Classification::ClientError);
    let r = outcome_of_reply(Reply::TimedOut, 30000).unwrap();
    assert_eq!((r.class, r.duration_ms), (Classification::Timeout, 30000));
    let f = outcome_of_reply(Reply::Failed(vec!["dns error".to_string()]), 3).unwrap_err();
    assert_eq!(f.kind, FailureKind::Ordinary);
    assert_eq!(f.causes, vec!["dns error".to_string()]);
}

#[test]
fn two_timeouts_anywhere() {
    for a in 0..10 {
        for b in (a + 1)..10 {
            let t = simulate(10, 5, |i| {
                if i == a || i == b { (Reply::TimedOut, 30) } else { (Reply::Status(200), 4) }
            });
            let s = t.summary.unwrap();
            assert_eq!(s.total_requests, 10);
            assert_eq!(s.count_timeout, 2);
            assert_eq!(s.count_2xx, 8);
            assert_eq!(s.count_1xx + s.count_3xx + s.count_4xx + s.count_5xx, 0);
        }
    }
}

#[test]
fn exhaustion_at_any_call_halts_run() {
    for k in 0..20 {
        let t = simulate(20, 10, |i| {
            if i == k {
                (Reply::Failed(vec!["Too many open files (os error 24)".to_string()]), 1)
            } else {
                (Reply::Status(200), 3)
            }
        });
        assert!(t.summary.is_none());
        assert_eq!(t.aborted.unwrap().kind, FailureKind::ResourceExhausted);
        assert!(t.attempted >= k + 1 && t.attempted <= 20);
        assert_eq!(t.attempted, if k < 10 { 10 } else { 20 });
    }
}

#[test]
fn timeout_comes_before_cause_chain() {
    let chain = vec!["Too many open files".to_string()];
    assert_eq!(reply_for_failure(true, chain.clone()), Reply::TimedOut);
    assert_eq!(reply_for_failure(false, chain.clone()), Reply::Failed(chain));
}
