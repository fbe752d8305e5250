use queuepeek::benchmark::{
    average, bench_concurrency, bench_count, bench_message, benchmark_stats, percentile, sort_latencies,
    thread_share,
};
use queuepeek::forms::PublishForm;

#[test]
fn shares_add_up_to_count() {
    let shares: Vec<u32> = (0..3).map(|t| thread_share(10, 3, t)).collect();
    assert_eq!(shares, vec![4, 3, 3]);
    assert_eq!(shares.iter().sum::<u32>(), 10);
    let shares: Vec<u32> = (0..4).map(|t| thread_share(2, 4, t)).collect();
    assert_eq!(shares, vec![1, 1, 0, 0]);
}

#[test]
fn counts_fall_back_to_defaults() {
    assert_eq!(bench_count("250"), 250);
    assert_eq!(bench_count("abc"), 1000);
    assert_eq!(bench_count(""), 1000);
    assert_eq!(bench_concurrency("8"), 8);
    assert_eq!(bench_concurrency("0"), 1);
    assert_eq!(bench_concurrency("x"), 1);
}

#[test]
fn percentiles_round_half_up() {
    let sorted = sort_latencies(&vec![5, 1, 4, 2, 3]);
    assert_eq!(sorted, vec![1, 2, 3, 4, 5]);
    assert_eq!(percentile(&sorted, 50), 3);
    assert_eq!(percentile(&sorted, 95), 5);
    assert_eq!(percentile(&sorted, 99), 5);
    let two = vec![10, 20];
    assert_eq!(percentile(&two, 50), 20);
    assert_eq!(percentile(&vec![], 50), 0);
    let eleven: Vec<u64> = (0..11).collect();
    assert_eq!(percentile(&eleven, 95), 10);
}

#[test]
fn average_rounds_down() {
    assert_eq!(average(&vec![1, 2]), 1);
    assert_eq!(average(&vec![]), 0);
    assert_eq!(average(&vec![10, 20, 31]), 20);
}

#[test]
fn stats_of_a_run() {
    let s = benchmark_stats(5, 1, 1200, &vec![30, 10, 20, 50, 40], 2);
    assert_eq!(s.total, 5);
    assert_eq!(s.errors, 1);
    assert_eq!(s.elapsed_ms, 1200);
    assert_eq!(s.avg_latency_ms, 30);
    assert_eq!(s.p50_latency_ms, 30);
    assert_eq!(s.p95_latency_ms, 50);
    assert_eq!(s.p99_latency_ms, 50);
    assert_eq!(s.concurrency, 2);
}

#[test]
fn bench_message_fills_what_the_form_leaves_empty() {
    let empty = PublishForm::default();
    let (body, key, ct) = bench_message(&empty, "orders");
    assert_eq!(body, "{\"benchmark\": true, \"timestamp\": {{timestamp}}}");
    assert_eq!(key, "orders");
    assert_eq!(ct, "application/json");

    let mut form = PublishForm::new_for_queue("q");
    form.body = "hello".to_string();
    form.routing_key = "rk".to_string();
    form.content_type = "text/plain".to_string();
    let (body, key, ct) = bench_message(&form, "orders");
    assert_eq!((body.as_str(), key.as_str(), ct.as_str()), ("hello", "rk", "text/plain"));
}
