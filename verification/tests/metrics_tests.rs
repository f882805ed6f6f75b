use hybridkv::metrics::Metrics;

#[test]
fn counters_follow_request_lifecycle() {
    let mut m = Metrics::new();
    let s = m.snapshot();
    assert_eq!(s.requests_total, 0);
    assert_eq!(s.errors_total, 0);
    assert_eq!(s.inflight, 0);
    assert_eq!(s.latency.samples, 0);

    m.record_request_start();
    m.record_request_start();
    let s = m.snapshot();
    assert_eq!(s.requests_total, 2);
    assert_eq!(s.inflight, 2);

    m.record_request_end(42);
    m.record_error();
    let s = m.snapshot();
    assert_eq!(s.requests_total, 2);
    assert_eq!(s.inflight, 1);
    assert_eq!(s.errors_total, 1);
    assert_eq!(s.latency.samples, 1);
    assert_eq!(s.latency.sum_us, 42);
}

#[test]
fn default_buckets_cover_twelve_bounds() {
    let m = Metrics::new();
    let s = m.snapshot();
    assert_eq!(
        s.latency.bounds_us,
        vec![1, 2, 5, 10, 20, 50, 100, 200, 500, 1000, 2000, 5000]
    );
    assert_eq!(s.latency.buckets.len(), 13);
}

#[test]
fn samples_land_in_the_right_bucket() {
    let mut m = Metrics::with_latency_buckets(vec![10, 100, 1000]);
    m.record_request_end(5); // <= 10: bucket 0
    m.record_request_end(10); // <= 10: bucket 0
    m.record_request_end(11); // <= 100: bucket 1
    m.record_request_end(1000); // <= 1000: bucket 2
    m.record_request_end(5000); // above every bound: overflow bucket
    let s = m.snapshot();
    assert_eq!(s.latency.buckets, vec![2, 1, 1, 1]);
    assert_eq!(s.latency.samples, 5);
    assert_eq!(s.latency.sum_us, 5 + 10 + 11 + 1000 + 5000);
}

#[test]
fn inflight_never_underflows() {
    let mut m = Metrics::new();
    m.record_request_end(1);
    assert_eq!(m.snapshot().inflight, 0);
}
