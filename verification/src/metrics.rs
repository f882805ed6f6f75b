//! Request counters and a fixed-bucket latency histogram for computing QPS,
//! error rate, and tail latency.
//!
//! Each field is updated independently and snapshots read each field
//! independently; no cross-field consistency is promised.  Latencies are in
//! microseconds.  All counters saturate instead of wrapping.

use vstd::prelude::*;

verus! {

/// One more, saturating at the top of the counter's range.
pub open spec fn sat_inc(v: u64) -> u64 {
    if v < u64::MAX {
        (v + 1) as u64
    } else {
        u64::MAX
    }
}

/// One less, stopping at zero.
pub open spec fn sat_dec(v: u64) -> u64 {
    if v > 0 {
        (v - 1) as u64
    } else {
        0
    }
}

/// A sum, saturating at the top of the counter's range.
pub open spec fn sat_sum(a: u64, b: u64) -> u64 {
    if a + b > u64::MAX {
        u64::MAX
    } else {
        (a + b) as u64
    }
}

/// The histogram bucket a sample falls into: the first bound at or above the
/// sample, or the overflow bucket one past the last bound.
pub open spec fn bucket_index(bounds: Seq<u64>, micros: u64) -> int
    decreases bounds.len(),
{
    if bounds.len() == 0 {
        0
    } else if micros <= bounds[0] {
        0
    } else {
        1 + bucket_index(bounds.skip(1), micros)
    }
}

/// Snapshot of the latency histogram.
#[derive(Debug, Clone)]
pub struct LatencySnapshot {
    /// Bucket boundaries in microseconds.
    pub bounds_us: Vec<u64>,
    /// Bucket counts, including the overflow bucket at the end.
    pub buckets: Vec<u64>,
    /// Total number of samples.
    pub samples: u64,
    /// Sum of latencies in microseconds.
    pub sum_us: u64,
}

/// Snapshot of all server metrics at a point in time.
#[derive(Debug, Clone)]
pub struct MetricsSnapshot {
    /// Total number of requests observed.
    pub requests_total: u64,
    /// Total number of error responses observed.
    pub errors_total: u64,
    /// Current in-flight requests.
    pub inflight: u64,
    /// Latency histogram snapshot.
    pub latency: LatencySnapshot,
}

/// Fixed-bucket latency histogram: a linear scan picks the first bound at or
/// above the sample; anything above every bound lands in the overflow bucket.
pub struct LatencyHistogram {
    bounds_us: Vec<u64>,
    buckets: Vec<u64>,
    sum_us: u64,
    samples: u64,
}

impl LatencyHistogram {
    /// The bucket boundaries, in microseconds.
    pub closed spec fn bounds(&self) -> Seq<u64> {
        self.bounds_us@
    }

    /// The bucket counts, overflow bucket last.
    pub closed spec fn counts(&self) -> Seq<u64> {
        self.buckets@
    }

    /// Total number of samples recorded.
    pub closed spec fn total_samples(&self) -> u64 {
        self.samples
    }

    /// Sum of all recorded latencies, saturating.
    pub closed spec fn total_sum(&self) -> u64 {
        self.sum_us
    }

    /// One count per bound plus the overflow bucket.
    pub closed spec fn wf(&self) -> bool {
        self.buckets@.len() == self.bounds_us@.len() + 1
    }

    /// Creates a histogram with explicit bucket boundaries (microseconds).
    pub fn new(bounds_us: Vec<u64>) -> (r: LatencyHistogram)
        ensures
            r.wf(),
            r.bounds() == bounds_us@,
            r.counts() =~= Seq::new(bounds_us@.len() + 1, |i: int| 0u64),
            r.total_samples() == 0,
            r.total_sum() == 0,
    {
        let n = bounds_us.len();
        let mut buckets: Vec<u64> = Vec::new();
        let mut i: usize = 0;
        while i < n
            invariant
                i <= n,
                buckets@ =~= Seq::new(i as nat, |j: int| 0u64),
            decreases n - i,
        {
            buckets.push(0);
            proof {
                assert(buckets@ =~= Seq::new(i as nat + 1, |j: int| 0u64));
            }
            i += 1;
        }
        buckets.push(0);
        proof {
            assert(buckets@ =~= Seq::new(n as nat + 1, |j: int| 0u64));
        }
        LatencyHistogram { bounds_us, buckets, sum_us: 0, samples: 0 }
    }

    /// Records a latency measurement (in microseconds) into the histogram.
    ///
    /// The sample count and latency sum grow saturating, and exactly the
    /// bucket the sample falls into is incremented.
    pub fn record(&mut self, micros: u64)
        requires
            old(self).wf(),
        ensures
            final(self).wf(),
            final(self).bounds() == old(self).bounds(),
            final(self).total_samples() == sat_inc(old(self).total_samples()),
            final(self).total_sum() == sat_sum(old(self).total_sum(), micros),
            final(self).counts() == old(self).counts().update(
                bucket_index(old(self).bounds(), micros),
                sat_inc(old(self).counts()[bucket_index(old(self).bounds(), micros)]),
            ),
    {
        self.samples = if self.samples < u64::MAX {
            self.samples + 1
        } else {
            u64::MAX
        };
        self.sum_us = if micros > u64::MAX - self.sum_us {
            u64::MAX
        } else {
            self.sum_us + micros
        };
        let n = self.bounds_us.len();
        let mut idx: usize = n;
        let mut i: usize = 0;
        let ghost bounds = self.bounds_us@;
        proof {
            assert(bounds.skip(0) =~= bounds);
        }
        while i < n
            invariant_except_break
                n == bounds.len(),
                i <= n,
                bounds == self.bounds_us@,
                idx == n,
                bucket_index(bounds, micros) == i + bucket_index(bounds.skip(i as int), micros),
                forall|j: int| 0 <= j < i ==> micros > #[trigger] bounds[j],
            ensures
                bounds == self.bounds_us@,
                idx as int == bucket_index(bounds, micros),
                idx <= n,
            decreases n - i,
        {
            proof {
                assert(bounds.skip(i as int)[0] == bounds[i as int]);
            }
            if micros <= self.bounds_us[i] {
                idx = i;
                break ;
            }
            proof {
                assert(bounds.skip(i as int).skip(1) =~= bounds.skip(i as int + 1));
            }
            i += 1;
            if i == n {
                proof {
                    assert(bounds.skip(n as int).len() == 0);
                }
            }
        }
        let cur = self.buckets[idx];
        let next = if cur < u64::MAX {
            cur + 1
        } else {
            u64::MAX
        };
        self.buckets[idx] = next;
    }

    /// Returns a point-in-time snapshot of the histogram.
    pub fn snapshot(&self) -> (r: LatencySnapshot)
        requires
            self.wf(),
        ensures
            r.bounds_us@ == self.bounds(),
            r.buckets@ == self.counts(),
            r.samples == self.total_samples(),
            r.sum_us == self.total_sum(),
    {
        LatencySnapshot {
            bounds_us: copy_u64s(&self.bounds_us),
            buckets: copy_u64s(&self.buckets),
            samples: self.samples,
            sum_us: self.sum_us,
        }
    }
}

/// Copies a vector of counters.
fn copy_u64s(src: &Vec<u64>) -> (r: Vec<u64>)
    ensures
        r@ == src@,
{
    let n = src.len();
    let mut out: Vec<u64> = Vec::new();
    let mut i: usize = 0;
    while i < n
        invariant
            n == src@.len(),
            i <= n,
            out@ =~= src@.take(i as int),
        decreases n - i,
    {
        out.push(src[i]);
        i += 1;
    }
    proof {
        assert(src@.take(n as int) =~= src@);
    }
    out
}

/// The default latency bucket boundaries, in microseconds.
///
/// Coarse on purpose, to keep bucket scans short.
pub fn default_latency_buckets() -> (r: Vec<u64>)
    ensures
        r@ == seq![
            1u64,
            2u64,
            5u64,
            10u64,
            20u64,
            50u64,
            100u64,
            200u64,
            500u64,
            1000u64,
            2000u64,
            5000u64,
        ],
{
    let mut v: Vec<u64> = Vec::new();
    v.push(1);
    v.push(2);
    v.push(5);
    v.push(10);
    v.push(20);
    v.push(50);
    v.push(100);
    v.push(200);
    v.push(500);
    v.push(1000);
    v.push(2000);
    v.push(5000);
    proof {
        assert(v@ =~= seq![
            1u64,
            2u64,
            5u64,
            10u64,
            20u64,
            50u64,
            100u64,
            200u64,
            500u64,
            1000u64,
            2000u64,
            5000u64,
        ]);
    }
    v
}

/// Metrics aggregator for the server: request counters plus the latency
/// histogram.  Record calls are cheap and fields are independent.
pub struct Metrics {
    requests_total: u64,
    errors_total: u64,
    inflight: u64,
    latency: LatencyHistogram,
}

impl Metrics {
    /// Total number of requests observed.
    pub closed spec fn requests(&self) -> u64 {
        self.requests_total
    }

    /// Total number of error responses observed.
    pub closed spec fn errors(&self) -> u64 {
        self.errors_total
    }

    /// Requests started and not yet finished.
    pub closed spec fn in_flight(&self) -> u64 {
        self.inflight
    }

    /// The latency histogram.
    pub closed spec fn histogram(&self) -> LatencyHistogram {
        self.latency
    }

    /// The histogram's internal shape holds.
    pub closed spec fn wf(&self) -> bool {
        self.latency.wf()
    }

    /// Creates a new metrics aggregator with the default latency buckets.
    pub fn new() -> (r: Metrics)
        ensures
            r.wf(),
            r.requests() == 0,
            r.errors() == 0,
            r.in_flight() == 0,
            r.histogram().total_samples() == 0,
    {
        Metrics {
            requests_total: 0,
            errors_total: 0,
            inflight: 0,
            latency: LatencyHistogram::new(default_latency_buckets()),
        }
    }

    /// Creates a new metrics aggregator with custom latency bucket
    /// boundaries, in ascending microseconds.
    pub fn with_latency_buckets(bounds_us: Vec<u64>) -> (r: Metrics)
        ensures
            r.wf(),
            r.requests() == 0,
            r.errors() == 0,
            r.in_flight() == 0,
            r.histogram().bounds() == bounds_us@,
            r.histogram().total_samples() == 0,
    {
        Metrics {
            requests_total: 0,
            errors_total: 0,
            inflight: 0,
            latency: LatencyHistogram::new(bounds_us),
        }
    }

    /// Records the start of a request: one more request, one more in flight.
    pub fn record_request_start(&mut self)
        requires
            old(self).wf(),
        ensures
            final(self).wf(),
            final(self).requests() == sat_inc(old(self).requests()),
            final(self).in_flight() == sat_inc(old(self).in_flight()),
            final(self).errors() == old(self).errors(),
            final(self).histogram() == old(self).histogram(),
    {
        self.requests_total = if self.requests_total < u64::MAX {
            self.requests_total + 1
        } else {
            u64::MAX
        };
        self.inflight = if self.inflight < u64::MAX {
            self.inflight + 1
        } else {
            u64::MAX
        };
    }

    /// Records the end of a request: one less in flight, and the request's
    /// latency (in microseconds) lands in the histogram.
    pub fn record_request_end(&mut self, latency_us: u64)
        requires
            old(self).wf(),
        ensures
            final(self).wf(),
            final(self).in_flight() == sat_dec(old(self).in_flight()),
            final(self).requests() == old(self).requests(),
            final(self).errors() == old(self).errors(),
            final(self).histogram().total_samples() == sat_inc(
                old(self).histogram().total_samples(),
            ),
            final(self).histogram().total_sum() == sat_sum(
                old(self).histogram().total_sum(),
                latency_us,
            ),
            final(self).histogram().bounds() == old(self).histogram().bounds(),
            final(self).histogram().counts() == old(self).histogram().counts().update(
                bucket_index(old(self).histogram().bounds(), latency_us),
                sat_inc(
                    old(self).histogram().counts()[bucket_index(
                        old(self).histogram().bounds(),
                        latency_us,
                    )],
                ),
            ),
    {
        self.inflight = if self.inflight > 0 {
            self.inflight - 1
        } else {
            0
        };
        self.latency.record(latency_us);
    }

    /// Records an error response.
    pub fn record_error(&mut self)
        requires
            old(self).wf(),
        ensures
            final(self).wf(),
            final(self).errors() == sat_inc(old(self).errors()),
            final(self).requests() == old(self).requests(),
            final(self).in_flight() == old(self).in_flight(),
            final(self).histogram() == old(self).histogram(),
    {
        self.errors_total = if self.errors_total < u64::MAX {
            self.errors_total + 1
        } else {
            u64::MAX
        };
    }

    /// Returns a snapshot of all counters and histogram buckets.
    pub fn snapshot(&self) -> (r: MetricsSnapshot)
        requires
            self.wf(),
        ensures
            r.requests_total == self.requests(),
            r.errors_total == self.errors(),
            r.inflight == self.in_flight(),
            r.latency.bounds_us@ == self.histogram().bounds(),
            r.latency.buckets@ == self.histogram().counts(),
            r.latency.samples == self.histogram().total_samples(),
            r.latency.sum_us == self.histogram().total_sum(),
    {
        MetricsSnapshot {
            requests_total: self.requests_total,
            errors_total: self.errors_total,
            inflight: self.inflight,
            latency: self.latency.snapshot(),
        }
    }
}

} // verus!
