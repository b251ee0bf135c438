use vstd::prelude::*;
use vstd::relations::{sorted_by, total_ordering};

verus! {

/// The class that one attempted request falls into.
#[derive(Clone, Copy, Debug, PartialEq, Eq, Structural)]
pub enum Classification {
    Informational,
    Success,
    Redirection,
    ClientError,
    ServerError,
    Timeout,
}

/// The class of a response with the given status code (a code always has
/// three digits: 100 to 999). Codes of 600 and above count as server errors.
pub open spec fn class_of_status(code: u16) -> Classification {
    if code < 200 {
        Classification::Informational
    } else if code < 300 {
        Classification::Success
    } else if code < 400 {
        Classification::Redirection
    } else if code < 500 {
        Classification::ClientError
    } else {
        Classification::ServerError
    }
}

/// Classifies a response by its numeric status code.
pub fn classify_status(code: u16) -> (r: Classification)
    requires
        100 <= code <= 999,
    ensures
        r == class_of_status(code),
{
    if code < 200 {
        Classification::Informational
    } else if code < 300 {
        Classification::Success
    } else if code < 400 {
        Classification::Redirection
    } else if code < 500 {
        Classification::ClientError
    } else {
        Classification::ServerError
    }
}

/// The outcome of one attempted request: its class and how long it took.
#[derive(Clone, Copy, Debug, PartialEq, Eq, Structural)]
pub struct RequestResult {
    pub class: Classification,
    pub duration_ms: u128,
}

impl RequestResult {
    pub fn new(class: Classification, duration_ms: u128) -> (r: Self)
        ensures
            r.class == class,
            r.duration_ms == duration_ms,
    {
        RequestResult { class, duration_ms }
    }
}

/// The order in which durations are sorted.
pub open spec fn duration_leq() -> spec_fn(u128, u128) -> bool {
    |a: u128, b: u128| a <= b
}

/// The classes of a sequence of outcomes, in order.
pub open spec fn classes(s: Seq<RequestResult>) -> Seq<Classification> {
    s.map_values(|r: RequestResult| r.class)
}

/// The durations of a sequence of outcomes, in order.
pub open spec fn durations(s: Seq<RequestResult>) -> Seq<u128> {
    s.map_values(|r: RequestResult| r.duration_ms)
}

/// How many outcomes of `s` have class `c`.
pub open spec fn class_count(s: Seq<RequestResult>, c: Classification) -> nat {
    classes(s).to_multiset().count(c)
}

/// The durations of `s` in ascending order.
pub open spec fn sorted_durations(s: Seq<RequestResult>) -> Seq<u128> {
    durations(s).sort_by(duration_leq())
}

/// The index of the 95th percentile among `n` sorted durations:
/// ceil(0.95 * n) - 1.
pub open spec fn p95_index(n: nat) -> int {
    (19 * n + 19) / 20 - 1
}


/// Aggregate statistics over the outcomes of a run.
#[derive(Clone, Copy, Debug, PartialEq, Eq, Structural)]
pub struct ExecutionResult {
    pub total_requests: usize,
    pub count_1xx: u32,
    pub count_2xx: u32,
    pub count_3xx: u32,
    pub count_4xx: u32,
    pub count_5xx: u32,
    pub count_timeout: u32,
    pub fastest: u128,
    pub slowest: u128,
    pub p95: u128,
}

/// A summary that has seen no outcome yet. Its latency fields hold
/// sentinels that carry no meaning.
pub open spec fn empty_summary() -> ExecutionResult {
    ExecutionResult {
        total_requests: 0,
        count_1xx: 0,
        count_2xx: 0,
        count_3xx: 0,
        count_4xx: 0,
        count_5xx: 0,
        count_timeout: 0,
        fastest: u128::MAX,
        slowest: 0,
        p95: 0,
    }
}

/// `base` with the outcomes `s` taken in: the total is the number of
/// outcomes, the class counts are added to those of `base`, and the latency
/// fields come from the sorted durations when there is at least one.
pub open spec fn aggregate(base: ExecutionResult, s: Seq<RequestResult>) -> ExecutionResult {
    let sorted = sorted_durations(s);
    ExecutionResult {
        total_requests: s.len() as usize,
        count_1xx: (base.count_1xx + class_count(s, Classification::Informational)) as u32,
        count_2xx: (base.count_2xx + class_count(s, Classification::Success)) as u32,
        count_3xx: (base.count_3xx + class_count(s, Classification::Redirection)) as u32,
        count_4xx: (base.count_4xx + class_count(s, Classification::ClientError)) as u32,
        count_5xx: (base.count_5xx + class_count(s, Classification::ServerError)) as u32,
        count_timeout: (base.count_timeout + class_count(s, Classification::Timeout)) as u32,
        fastest: if s.len() == 0 { base.fastest } else { sorted[0] },
        slowest: if s.len() == 0 { base.slowest } else { sorted[s.len() - 1] },
        p95: if s.len() == 0 { base.p95 } else { sorted[p95_index(s.len())] },
    }
}

/// The counts of `base` leave room for `n` more outcomes.
pub open spec fn counts_fit(base: ExecutionResult, n: nat) -> bool {
    &&& base.count_1xx + n <= u32::MAX
    &&& base.count_2xx + n <= u32::MAX
    &&& base.count_3xx + n <= u32::MAX
    &&& base.count_4xx + n <= u32::MAX
    &&& base.count_5xx + n <= u32::MAX
    &&& base.count_timeout + n <= u32::MAX
}

/// Relies on slice::sort_unstable: it sorts the slice in ascending order,
/// keeping its elements.
#[verifier::external_body]
fn sort_ascending(v: &mut Vec<u128>)
    ensures
        final(v)@.to_multiset() == old(v)@.to_multiset(),
        sorted_by(final(v)@, duration_leq()),
{
    v.sort_unstable();
}

pub proof fn lemma_duration_leq_total()
    ensures
        total_ordering(duration_leq()),
{
}

/// The index of the 95th percentile lies within `0..n` when `n >= 1`, and
/// equals `n - n / 20 - 1`.
pub proof fn lemma_p95_index_in_range(n: nat)
    requires
        n >= 1,
    ensures
        0 <= p95_index(n) < n,
        p95_index(n) == n - n / 20 - 1,
{
    assert(p95_index(n) == n - n / 20 - 1) by (nonlinear_arith)
        requires
            n >= 1,
    {
    }
}

impl ExecutionResult {
    pub fn new() -> (r: Self)
        ensures
            r == empty_summary(),
    {
        ExecutionResult {
            total_requests: 0,
            count_1xx: 0,
            count_2xx: 0,
            count_3xx: 0,
            count_4xx: 0,
            count_5xx: 0,
            count_timeout: 0,
            fastest: u128::MAX,
            slowest: 0,
            p95: 0,
        }
    }

    /// Takes in the outcomes of a run: sets the total, adds each outcome to
    /// the count of its class, and reads the fastest, slowest and 95th
    /// percentile durations off the sorted durations.
    pub fn init(self, results: Vec<RequestResult>) -> (r: Self)
        requires
            counts_fit(self, results@.len()),
        ensures
            r == aggregate(self, results@),
    {
        let mut summary = self;
        let n = results.len();
        summary.total_requests = n;

        let mut sorted: Vec<u128> = Vec::with_capacity(n);
        let mut i: usize = 0;
        while i < n
            invariant
                n == results@.len(),
                i <= n,
                sorted@ == durations(results@.subrange(0, i as int)),
            decreases n - i,
        {
            sorted.push(results[i].duration_ms);
            i = i + 1;
            assert(results@.subrange(0, i as int) == results@.subrange(0, i - 1).push(results@[i - 1]));
        }
        assert(results@.subrange(0, n as int) == results@);
        let ghost unsorted = sorted@;
        sort_ascending(&mut sorted);
        proof {
            broadcast use vstd::seq_lib::group_to_multiset_ensures;
            lemma_duration_leq_total();
            unsorted.lemma_sort_by_ensures(duration_leq());
            vstd::seq_lib::lemma_sorted_unique(sorted@, unsorted.sort_by(duration_leq()), duration_leq());
            assert(sorted@.len() == sorted@.to_multiset().len());
            assert(unsorted.len() == unsorted.to_multiset().len());
        }
        if n > 0 {
            summary.fastest = sorted[0];
            summary.slowest = sorted[n - 1];
            proof {
                lemma_p95_index_in_range(n as nat);
            }
            let idx = n - n / 20 - 1;
            summary.p95 = sorted[idx];
        }

        let mut j: usize = 0;
        while j < n
            invariant
                n == results@.len(),
                j <= n,
                counts_fit(self, n as nat),
                summary.total_requests == n,
                summary.fastest == aggregate(self, results@).fastest,
                summary.slowest == aggregate(self, results@).slowest,
                summary.p95 == aggregate(self, results@).p95,
                summary.count_1xx == self.count_1xx + class_count(results@.subrange(0, j as int), Classification::Informational),
                summary.count_2xx == self.count_2xx + class_count(results@.subrange(0, j as int), Classification::Success),
                summary.count_3xx == self.count_3xx + class_count(results@.subrange(0, j as int), Classification::Redirection),
                summary.count_4xx == self.count_4xx + class_count(results@.subrange(0, j as int), Classification::ClientError),
                summary.count_5xx == self.count_5xx + class_count(results@.subrange(0, j as int), Classification::ServerError),
                summary.count_timeout == self.count_timeout + class_count(results@.subrange(0, j as int), Classification::Timeout),
            decreases n - j,
        {
            let ghost prefix = results@.subrange(0, j as int);
            proof {
                lemma_class_counts_sum(prefix);
            }
            let r = results[j];
            match r.class {
                Classification::Informational => summary.count_1xx = summary.count_1xx + 1,
                Classification::Success => summary.count_2xx = summary.count_2xx + 1,
                Classification::Redirection => summary.count_3xx = summary.count_3xx + 1,
                Classification::ClientError => summary.count_4xx = summary.count_4xx + 1,
                Classification::ServerError => summary.count_5xx = summary.count_5xx + 1,
                Classification::Timeout => summary.count_timeout = summary.count_timeout + 1,
            }
            j = j + 1;
            proof {
                assert(results@.subrange(0, j as int) == prefix.push(r));
                lemma_class_count_push(prefix, r);
            }
        }
        assert(results@.subrange(0, n as int) == results@);
        summary
    }
}

/// The sum of the six class counts of `s`.
pub open spec fn class_count_sum(s: Seq<RequestResult>) -> nat {
    class_count(s, Classification::Informational) + class_count(s, Classification::Success)
        + class_count(s, Classification::Redirection) + class_count(s, Classification::ClientError)
        + class_count(s, Classification::ServerError) + class_count(s, Classification::Timeout)
}

/// Appending one outcome adds one to the count of its class and leaves the
/// others as they were.
pub proof fn lemma_class_count_push(s: Seq<RequestResult>, r: RequestResult)
    ensures
        forall|c: Classification|
            #[trigger] class_count(s.push(r), c) == class_count(s, c) + if c == r.class { 1nat } else { 0nat },
{
    broadcast use vstd::seq_lib::group_to_multiset_ensures;
    broadcast use vstd::multiset::group_multiset_axioms;
    assert(classes(s.push(r)) == classes(s).push(r.class));
}

/// Every outcome is counted in exactly one class.
pub proof fn lemma_class_counts_sum(s: Seq<RequestResult>)
    ensures
        class_count_sum(s) == s.len(),
    decreases s.len(),
{
    broadcast use vstd::multiset::group_multiset_axioms;
    broadcast use vstd::seq_lib::group_to_multiset_ensures;
    if s.len() == 0 {
        assert(classes(s).to_multiset().len() == 0);
    } else {
        let t = s.drop_last();
        lemma_class_counts_sum(t);
        assert(s == t.push(s.last()));
        lemma_class_count_push(t, s.last());
    }
}

/// Two sequences with the same elements keep the same elements under any map.
pub proof fn lemma_map_values_multiset<A, B>(s1: Seq<A>, s2: Seq<A>, f: spec_fn(A) -> B)
    requires
        s1.to_multiset() == s2.to_multiset(),
    ensures
        s1.map_values(f).to_multiset() == s2.map_values(f).to_multiset(),
    decreases s1.len(),
{
    broadcast use vstd::seq_lib::group_to_multiset_ensures;
    broadcast use vstd::multiset::group_multiset_axioms;
    if s1.len() == 0 {
        assert(s2.len() == s2.to_multiset().len());
        assert(s1.map_values(f) =~= s2.map_values(f));
    } else {
        let x = s1.last();
        let a = s1.drop_last();
        assert(s1 == a.push(x));
        assert(s2.to_multiset().count(x) > 0);
        assert(s2.contains(x));
        let j = choose|j: int| 0 <= j < s2.len() && s2[j] == x;
        let b = s2.remove(j);
        assert(b.to_multiset() =~= a.to_multiset());
        lemma_map_values_multiset(a, b, f);
        assert(s1.map_values(f) == a.map_values(f).push(f(x)));
        assert(b.map_values(f) == s2.map_values(f).remove(j));
        assert(s2.map_values(f)[j] == f(x));
        assert(s2.map_values(f).to_multiset() =~= b.map_values(f).to_multiset().insert(f(x)));
    }
}

/// Aggregation does not depend on the order of the outcomes: any two
/// arrangements of the same outcomes give the same summary.
pub proof fn lemma_aggregate_permutation(base: ExecutionResult, s1: Seq<RequestResult>, s2: Seq<RequestResult>)
    requires
        s1.to_multiset() == s2.to_multiset(),
    ensures
        aggregate(base, s1) == aggregate(base, s2),
{
    broadcast use vstd::seq_lib::group_to_multiset_ensures;
    lemma_map_values_multiset(s1, s2, |r: RequestResult| r.class);
    lemma_map_values_multiset(s1, s2, |r: RequestResult| r.duration_ms);
    lemma_duration_leq_total();
    durations(s1).lemma_sort_by_ensures(duration_leq());
    durations(s2).lemma_sort_by_ensures(duration_leq());
    vstd::seq_lib::lemma_sorted_unique(sorted_durations(s1), sorted_durations(s2), duration_leq());
    assert(s1.len() == s1.to_multiset().len());
    assert(s2.len() == s2.to_multiset().len());
}

/// With at least one outcome, the latency fields are ordered:
/// fastest <= p95 <= slowest, each of them is the duration of some outcome,
/// every duration lies between fastest and slowest, and p95 is the sorted
/// duration at index ceil(0.95 * n) - 1.
pub proof fn lemma_latency_order(base: ExecutionResult, s: Seq<RequestResult>)
    requires
        s.len() >= 1,
    ensures
        aggregate(base, s).fastest <= aggregate(base, s).p95 <= aggregate(base, s).slowest,
        aggregate(base, s).p95 == sorted_durations(s)[p95_index(s.len())],
        durations(s).contains(aggregate(base, s).fastest),
        durations(s).contains(aggregate(base, s).p95),
        durations(s).contains(aggregate(base, s).slowest),
        forall|i: int|
            0 <= i < s.len() ==> aggregate(base, s).fastest <= #[trigger] s[i].duration_ms
                <= aggregate(base, s).slowest,
{
    broadcast use vstd::seq_lib::group_to_multiset_ensures;
    let n = s.len();
    let sorted = sorted_durations(s);
    lemma_duration_leq_total();
    durations(s).lemma_sort_by_ensures(duration_leq());
    lemma_p95_index_in_range(n);
    assert(sorted.len() == sorted.to_multiset().len());
    assert(durations(s).len() == durations(s).to_multiset().len());
    let k = p95_index(n);
    assert(sorted.to_multiset().count(sorted[0]) > 0);
    assert(sorted.to_multiset().count(sorted[k]) > 0);
    assert(sorted.to_multiset().count(sorted[n - 1]) > 0);
    if 0 < k {
        assert(duration_leq()(sorted[0], sorted[k]));
    }
    if k < n - 1 {
        assert(duration_leq()(sorted[k], sorted[n - 1]));
    }
    assert forall|i: int| 0 <= i < n implies sorted[0] <= #[trigger] s[i].duration_ms <= sorted[n - 1] by {
        assert(durations(s)[i] == s[i].duration_ms);
        assert(durations(s).contains(s[i].duration_ms));
        assert(sorted.to_multiset().count(s[i].duration_ms) > 0);
        assert(sorted.contains(s[i].duration_ms));
        let j = choose|j: int| 0 <= j < n && sorted[j] == s[i].duration_ms;
        if 0 < j {
            assert(duration_leq()(sorted[0], sorted[j]));
        }
        if j < n - 1 {
            assert(duration_leq()(sorted[j], sorted[n - 1]));
        }
    }
}

/// No class count exceeds the number of outcomes.
pub proof fn lemma_class_count_bound(s: Seq<RequestResult>)
    ensures
        forall|c: Classification| #[trigger] class_count(s, c) <= s.len(),
{
    lemma_class_counts_sum(s);
    assert forall|c: Classification| #[trigger] class_count(s, c) <= s.len() by {
        match c {
            Classification::Informational => {},
            Classification::Success => {},
            Classification::Redirection => {},
            Classification::ClientError => {},
            Classification::ServerError => {},
            Classification::Timeout => {},
        }
    }
}

} // verus!
