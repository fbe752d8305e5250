//! Publishing benchmarks: how the messages are shared among threads, and
//! the latency figures reported at the end.

use vstd::prelude::*;
use crate::forms::PublishForm;
use crate::text::{owned, parse_u32, parse_unsigned};

verus! {

/// The outcome of a benchmark run.
#[derive(Debug, Clone, Copy, PartialEq, Eq)]
pub struct BenchmarkStats {
    /// Messages published.
    pub total: u32,
    /// Messages that failed.
    pub errors: u32,
    pub elapsed_ms: u64,
    pub avg_latency_ms: u64,
    pub p50_latency_ms: u64,
    pub p95_latency_ms: u64,
    pub p99_latency_ms: u64,
    /// Threads used.
    pub concurrency: u32,
}

/// The number of messages asked for: the text as a number, 1000 when it
/// is not one.
pub open spec fn bench_count_spec(text: Seq<char>) -> u32 {
    match parse_unsigned(text, 4294967295) {
        Some(v) => v as u32,
        None => 1000,
    }
}

pub fn bench_count(text: &str) -> (r: u32)
    ensures
        r == bench_count_spec(text@),
{
    match parse_u32(text) {
        Some(v) => v,
        None => 1000,
    }
}

/// The number of threads asked for: the text as a number, 1 when it is
/// not one, and at least 1.
pub open spec fn bench_concurrency_spec(text: Seq<char>) -> u32 {
    match parse_unsigned(text, 4294967295) {
        Some(v) => if v >= 1 {
            v as u32
        } else {
            1
        },
        None => 1,
    }
}

pub fn bench_concurrency(text: &str) -> (r: u32)
    ensures
        r == bench_concurrency_spec(text@),
        r >= 1,
{
    let v = match parse_u32(text) {
        Some(v) => v,
        None => 1,
    };
    if v < 1 {
        1
    } else {
        v
    }
}

/// The messages thread `t` of `threads` publishes out of `count`: an equal
/// share, and one more for the first `count % threads` threads.
pub open spec fn share_spec(count: u32, threads: u32, t: int) -> int {
    (count / threads) as int + if t < (count % threads) as int {
        1int
    } else {
        0int
    }
}

pub fn thread_share(count: u32, threads: u32, t: u32) -> (r: u32)
    requires
        threads > 0,
    ensures
        r == share_spec(count, threads, t as int),
{
    let per = count / threads;
    let rem = count % threads;
    proof {
        assert(per * threads + rem == count) by (nonlinear_arith)
            requires
                per == count / threads,
                rem == count % threads,
                threads > 0,
        ;
        assert(per <= count) by (nonlinear_arith)
            requires
                per * threads + rem == count,
                threads > 0,
                rem >= 0,
        ;
    }
    if t < rem {
        assert(per < count) by (nonlinear_arith)
            requires
                per * threads + rem == count,
                threads > 0,
                rem > 0,
        ;
        per + 1
    } else {
        per
    }
}

/// The messages the first `n` threads publish together.
pub open spec fn shares_total(count: u32, threads: u32, n: int) -> int
    decreases n,
{
    if n <= 0 {
        0
    } else {
        shares_total(count, threads, n - 1) + share_spec(count, threads, n - 1)
    }
}

proof fn lemma_shares_prefix(count: u32, threads: u32, n: int)
    requires
        threads > 0,
        0 <= n <= threads,
    ensures
        shares_total(count, threads, n) == n * ((count / threads) as int) + if n < (count
            % threads) as int {
            n
        } else {
            (count % threads) as int
        },
    decreases n,
{
    let q = (count / threads) as int;
    if n > 0 {
        lemma_shares_prefix(count, threads, n - 1);
        assert(n * q == (n - 1) * q + q) by (nonlinear_arith);
        assert(shares_total(count, threads, n) == shares_total(count, threads, n - 1) + share_spec(
            count,
            threads,
            n - 1,
        ));
    } else {
        assert(n * q == 0) by (nonlinear_arith)
            requires
                n == 0,
        ;
    }
}

/// All threads together publish exactly the messages asked for.
pub proof fn lemma_shares_cover_count(count: u32, threads: u32)
    requires
        threads > 0,
    ensures
        shares_total(count, threads, threads as int) == count,
{
    lemma_shares_prefix(count, threads, threads as int);
    let q = (count / threads) as int;
    let r = (count % threads) as int;
    assert(threads * q + r == count) by (nonlinear_arith)
        requires
            q == count / threads,
            r == count % threads,
            threads > 0,
    ;
}

// ---------------------------------------------------------------------------
// Latencies
// ---------------------------------------------------------------------------

/// Each element is at most every later one.
pub open spec fn ascending(s: Seq<u64>) -> bool {
    forall|i: int, j: int| 0 <= i < j < s.len() ==> s[i] <= s[j]
}

/// `v` in ascending order.
pub fn sort_latencies(v: &Vec<u64>) -> (r: Vec<u64>)
    ensures
        ascending(r@),
        r@.to_multiset() == v@.to_multiset(),
{
    broadcast use vstd::seq_lib::group_to_multiset_ensures;

    let mut r: Vec<u64> = Vec::new();
    let mut n: usize = 0;
    assert(v@.take(0) =~= r@);
    while n < v.len()
        invariant
            n <= v@.len(),
            ascending(r@),
            r@.to_multiset() == v@.take(n as int).to_multiset(),
        decreases v.len() - n,
    {
        let x = v[n];
        let mut p: usize = 0;
        while p < r.len() && r[p] <= x
            invariant
                p <= r@.len(),
                ascending(r@),
                forall|j: int| 0 <= j < p ==> r@[j] <= x,
            decreases r.len() - p,
        {
            p = p + 1;
        }
        let ghost before = r@;
        r.insert(p, x);
        proof {
            assert(r@ == before.insert(p as int, x));
            assert forall|a: int, b: int| 0 <= a < b < r@.len() implies r@[a] <= r@[b] by {
                if b < p {
                    assert(r@[a] == before[a] && r@[b] == before[b]);
                } else if b == p {
                    assert(r@[a] == before[a]);
                } else if a == p {
                    assert(r@[b] == before[b - 1]);
                    assert(before[p as int] > x);
                } else if a < p {
                    assert(r@[a] == before[a] && r@[b] == before[b - 1]);
                } else {
                    assert(r@[a] == before[a - 1] && r@[b] == before[b - 1]);
                }
            }
            vstd::seq_lib::to_multiset_insert(before, p as int, x);
            assert(v@.take(n + 1) =~= v@.take(n as int).push(x));
            vstd::seq_lib::to_multiset_build(v@.take(n as int), x);
            assert(r@.to_multiset() =~= v@.take(n + 1).to_multiset());
        }
        n = n + 1;
    }
    assert(v@.take(v@.len() as int) =~= v@);
    r
}

/// The position of the `p`-th percentile among `n` sorted values:
/// `p / 100 * (n - 1)`, rounded half away from zero.
pub open spec fn percentile_index(p: nat, n: nat) -> int {
    if n == 0 {
        0
    } else {
        (2 * p * (n - 1) + 100) / 200
    }
}

/// The `p`-th percentile of ascending values; 0 when there are none.
pub open spec fn percentile_spec(sorted: Seq<u64>, p: nat) -> u64 {
    if sorted.len() == 0 {
        0
    } else {
        let i = percentile_index(p, sorted.len());
        sorted[if i < sorted.len() - 1 {
            i
        } else {
            sorted.len() - 1
        }]
    }
}

pub fn percentile(sorted: &Vec<u64>, p: u64) -> (r: u64)
    requires
        p <= 100,
    ensures
        r == percentile_spec(sorted@, p as nat),
{
    if sorted.len() == 0 {
        return 0;
    }
    let n = sorted.len() as u128;
    assert(2 * (p as u128) * (n - 1) + 100 < 0x1_0000_0000_0000_0000_0000) by (nonlinear_arith)
        requires
            p <= 100,
            1 <= n <= 0xFFFF_FFFF_FFFF_FFFF,
    ;
    let i: u128 = (2 * (p as u128) * (n - 1) + 100) / 200;
    assert(i <= n - 1) by (nonlinear_arith)
        requires
            i == (2 * (p as u128) * (n - 1) + 100) / 200,
            p <= 100,
            n >= 1,
    ;
    let last = sorted.len() - 1;
    let k: usize = if i < last as u128 {
        i as usize
    } else {
        last
    };
    sorted[k]
}

/// The sum of `s`.
pub open spec fn total(s: Seq<u64>) -> int
    decreases s.len(),
{
    if s.len() == 0 {
        0
    } else {
        total(s.drop_last()) + s.last()
    }
}

/// The mean of `s`, rounded down; 0 for no values.
pub open spec fn average_spec(s: Seq<u64>) -> int {
    if s.len() == 0 {
        0
    } else {
        total(s) / (s.len() as int)
    }
}

proof fn lemma_total_prefix(s: Seq<u64>, i: int)
    requires
        0 <= i <= s.len(),
    ensures
        0 <= total(s.take(i)) <= total(s),
    decreases s.len() - i,
{
    if i < s.len() {
        lemma_total_prefix(s, i + 1);
        assert(s.take(i + 1).drop_last() =~= s.take(i));
    } else {
        assert(s.take(i) =~= s);
    }
    lemma_total_nonneg(s.take(i));
}

proof fn lemma_total_nonneg(s: Seq<u64>)
    ensures
        total(s) >= 0,
    decreases s.len(),
{
    if s.len() > 0 {
        lemma_total_nonneg(s.drop_last());
    }
}

/// The mean latency, rounded down.
pub fn average(lats: &Vec<u64>) -> (r: u64)
    requires
        total(lats@) <= u64::MAX,
    ensures
        r == average_spec(lats@),
{
    if lats.len() == 0 {
        return 0;
    }
    let mut sum: u64 = 0;
    let mut i: usize = 0;
    assert(lats@.take(0) =~= Seq::<u64>::empty());
    while i < lats.len()
        invariant
            i <= lats@.len(),
            sum == total(lats@.take(i as int)),
            total(lats@) <= u64::MAX,
        decreases lats.len() - i,
    {
        proof {
            assert(lats@.take(i + 1).drop_last() =~= lats@.take(i as int));
            lemma_total_prefix(lats@, i + 1);
        }
        sum = sum + lats[i];
        i = i + 1;
    }
    assert(lats@.take(lats@.len() as int) =~= lats@);
    sum / (lats.len() as u64)
}

/// The figures of a run: the latencies sorted, their mean and their 50th,
/// 95th and 99th percentiles.
pub fn benchmark_stats(
    total_published: u32,
    errors: u32,
    elapsed_ms: u64,
    latencies: &Vec<u64>,
    concurrency: u32,
) -> (r: BenchmarkStats)
    requires
        total(latencies@) <= u64::MAX,
    ensures
        r.total == total_published,
        r.errors == errors,
        r.elapsed_ms == elapsed_ms,
        r.concurrency == concurrency,
        r.avg_latency_ms == average_spec(latencies@),
        exists|sorted: Seq<u64>|
            ascending(sorted) && sorted.to_multiset() == latencies@.to_multiset() && r.p50_latency_ms
                == percentile_spec(sorted, 50) && r.p95_latency_ms == percentile_spec(sorted, 95)
                && r.p99_latency_ms == percentile_spec(sorted, 99),
{
    let sorted = sort_latencies(latencies);
    let avg = average(latencies);
    let stats = BenchmarkStats {
        total: total_published,
        errors,
        elapsed_ms,
        avg_latency_ms: avg,
        p50_latency_ms: percentile(&sorted, 50),
        p95_latency_ms: percentile(&sorted, 95),
        p99_latency_ms: percentile(&sorted, 99),
        concurrency,
    };
    assert(ascending(sorted@) && sorted@.to_multiset() == latencies@.to_multiset());
    stats
}

/// The body of a benchmark message when the publish form has none.
pub open spec fn default_bench_body() -> Seq<char> {
    "{\"benchmark\": true, \"timestamp\": {{timestamp}}}"@
}

/// The body, routing key and content type of every benchmark message:
/// those of the publish form, or, where the form leaves one empty, a JSON
/// body that marks the message as a benchmark, the queue's name and
/// `application/json`.
pub fn bench_message(form: &PublishForm, queue: &str) -> (r: (String, String, String))
    ensures
        r.0@ == (if form.body@.len() == 0 {
            default_bench_body()
        } else {
            form.body@
        }),
        r.1@ == (if form.routing_key@.len() == 0 {
            queue@
        } else {
            form.routing_key@
        }),
        r.2@ == (if form.content_type@.len() == 0 {
            "application/json"@
        } else {
            form.content_type@
        }),
{
    let body = if form.body.as_str().is_empty() {
        owned("{\"benchmark\": true, \"timestamp\": {{timestamp}}}")
    } else {
        form.body.clone()
    };
    let routing_key = if form.routing_key.as_str().is_empty() {
        owned(queue)
    } else {
        form.routing_key.clone()
    };
    let content_type = if form.content_type.as_str().is_empty() {
        owned("application/json")
    } else {
        form.content_type.clone()
    };
    (body, routing_key, content_type)
}

} // verus!
