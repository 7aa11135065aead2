//! Counting requests and keeping their latencies.

use vstd::multiset::*;
use vstd::prelude::*;

use crate::time::Duration;

verus! {

/// Latencies in microseconds, in a `hdrhistogram::Histogram` made for one
/// microsecond to ten seconds with three digits.
#[verifier::external_body]
pub struct LatencyHistogram {
    inner: hdrhistogram::Histogram<u64>,
}

/// `hdrhistogram::RecordError`: a value is too large for the histogram.
#[verifier::external_type_specification]
#[verifier::external_body]
pub struct ExRecordError(hdrhistogram::RecordError);

/// The values that a histogram holds, each as the smallest of those that it does
/// not tell apart from it.
pub uninterp spec fn latencies(h: LatencyHistogram) -> Multiset<u64>;

/// The smallest value that is not told apart from the given one: its eleven leading
/// binary digits, with zeros behind them.
pub open spec fn kept_as(value: u64) -> u64
    decreases value,
{
    if value < 2048 {
        value
    } else {
        (2 * kept_as((value / 2) as u64)) as u64
    }
}

/// Whether a value is the largest of those that are not told apart from it.
pub open spec fn is_last_alike(value: u64) -> bool {
    value == u64::MAX || kept_as((value + 1) as u64) != kept_as(value)
}

/// From this value on a latency is too large to be kept.
pub const LATENCY_END: u64 = 16_777_216;

/// A latency is kept to three digits: it is off by less than a thousandth.
pub proof fn lemma_kept_to_three_digits(value: u64)
    ensures
        kept_as(value) <= value,
        1000 * (value - kept_as(value)) <= value,
{
    lemma_kept_closely(value);
}

proof fn lemma_kept_closely(value: u64)
    ensures
        kept_as(value) <= value,
        value < 2048 ==> kept_as(value) == value,
        value >= 1024 ==> 1024 * (value - kept_as(value) + 1) <= value,
    decreases value,
{
    if value >= 2048 {
        lemma_kept_closely((value / 2) as u64);
    }
}

/// The shortest latency that has to be told apart, in microseconds.
pub const LOWEST_LATENCY: u64 = 1;

/// The longest latency that has to be kept: ten seconds, in microseconds.
pub const HIGHEST_LATENCY: u64 = 10_000_000;

/// To how many decimal digits latencies are kept.
pub const LATENCY_DIGITS: u8 = 3;

/// `hdrhistogram::Histogram::new_with_bounds`, which accepts these bounds and
/// digits. The histogram is empty.
#[verifier::external_body]
fn new_histogram(low: u64, high: u64, digits: u8) -> (r: LatencyHistogram)
    requires
        low == LOWEST_LATENCY,
        high == HIGHEST_LATENCY,
        digits == LATENCY_DIGITS,
    ensures
        latencies(r) == Multiset::<u64>::empty(),
{
    LatencyHistogram {
        inner: hdrhistogram::Histogram::new_with_bounds(low, high, digits).expect(
            "the bounds are valid",
        ),
    }
}

/// `hdrhistogram::Histogram::record`: counts a value, unless it is too large. The
/// histogram doubles what it can hold, from 2048 on, until ten seconds fit.
#[verifier::external_body]
fn record_value(h: &mut LatencyHistogram, value: u64) -> (r: Result<
    (),
    hdrhistogram::RecordError,
>)
    requires
        latencies(*old(h)).len() < u64::MAX,
    ensures
        r is Ok <==> value < LATENCY_END,
        r is Ok ==> latencies(*final(h)) == latencies(*old(h)).insert(kept_as(value)),
        r is Err ==> latencies(*final(h)) == latencies(*old(h)),
{
    h.inner.record(value)
}

/// `hdrhistogram::Histogram::max`: the largest of the values that are not told
/// apart from the largest one recorded, zero where there is none.
#[verifier::external_body]
fn max_value(h: &LatencyHistogram) -> (r: u64)
    ensures
        latencies(*h).len() == 0 ==> r == 0,
        latencies(*h).len() > 0 ==> latencies(*h).contains(kept_as(r)) && is_last_alike(r),
        forall|v: u64| #[trigger] latencies(*h).contains(v) ==> v <= kept_as(r),
{
    h.inner.max()
}

/// `hdrhistogram::Histogram::iter_recorded`: for each value that is told apart, in
/// ascending order, the largest of those that are not told apart from it, and how
/// often it was recorded.
#[verifier::external_body]
fn recorded_values(h: &LatencyHistogram) -> (r: Vec<(u64, u64)>)
    ensures
        forall|i: int|
            0 <= i < r@.len() ==> (#[trigger] r@[i]).1 > 0 && is_last_alike(r@[i].0)
                && r@[i].1 as nat == latencies(*h).count(kept_as(r@[i].0)),
        forall|i: int, j: int|
            0 <= i < j < r@.len() ==> kept_as((#[trigger] r@[i]).0) < kept_as((#[trigger] r@[j]).0),
        forall|v: u64| #[trigger]
            latencies(*h).contains(v) ==> exists|i: int|
                0 <= i < r@.len() && kept_as((#[trigger] r@[i]).0) == v,
{
    h.inner.iter_recorded().map(|v| (v.value_iterated_to(), v.count_at_value())).collect()
}

/// `Clone` of `hdrhistogram::Histogram`: the copy holds the same values.
#[verifier::external_body]
fn copy_histogram(h: &LatencyHistogram) -> (r: LatencyHistogram)
    ensures
        latencies(r) == latencies(*h),
{
    LatencyHistogram { inner: h.inner.clone() }
}

/// What a run gave. Rates are quotients of the counts; the percentiles are those
/// of the histogram.
pub struct BenchResult {
    pub scenario_name: String,
    pub target: String,
    pub duration: Duration,
    pub total_requests: u64,
    pub success_count: u64,
    pub failure_count: u64,
    pub timeout_count: u64,
    pub target_qps: u32,
    /// Latencies in microseconds.
    pub latency_histogram: LatencyHistogram,
}

impl BenchResult {
    /// The largest latency, as far as latencies are told apart.
    pub fn latency_max(&self) -> (r: u64)
        ensures
            latencies(self.latency_histogram).len() == 0 ==> r == 0,
            latencies(self.latency_histogram).len() > 0 ==> latencies(
                self.latency_histogram,
            ).contains(kept_as(r)) && is_last_alike(r),
            forall|v: u64| #[trigger]
                latencies(self.latency_histogram).contains(v) ==> v <= kept_as(r),
    {
        max_value(&self.latency_histogram)
    }

    /// The latencies that are told apart, ascending, each with how often it
    /// occurred. Percentiles and the mean follow from these.
    pub fn recorded_latencies(&self) -> (r: Vec<(u64, u64)>)
        ensures
            forall|i: int|
                0 <= i < r@.len() ==> (#[trigger] r@[i]).1 > 0 && is_last_alike(r@[i].0)
                    && r@[i].1 as nat == latencies(self.latency_histogram).count(
                    kept_as(r@[i].0),
                ),
            forall|i: int, j: int|
                0 <= i < j < r@.len() ==> kept_as((#[trigger] r@[i]).0) < kept_as(
                    (#[trigger] r@[j]).0,
                ),
            forall|v: u64| #[trigger]
                latencies(self.latency_histogram).contains(v) ==> exists|i: int|
                    0 <= i < r@.len() && kept_as((#[trigger] r@[i]).0) == v,
    {
        recorded_values(&self.latency_histogram)
    }
}

/// Counts requests and keeps their latencies.
pub struct MetricsCollector {
    pub total_requests: u64,
    pub success_count: u64,
    pub failure_count: u64,
    pub timeout_count: u64,
    pub histogram: LatencyHistogram,
}

/// A latency in microseconds, at least one.
pub open spec fn recorded_micros(latency: nat) -> u64 {
    let micros = (latency / 1000) as u64;
    if micros == 0 {
        1
    } else {
        micros
    }
}

/// The latencies with one more, given in nanoseconds, unless it is too large.
pub open spec fn with_latency(kept: Multiset<u64>, latency: nat) -> Multiset<u64> {
    if recorded_micros(latency) < LATENCY_END {
        kept.insert(kept_as(recorded_micros(latency)))
    } else {
        kept
    }
}

impl MetricsCollector {
    /// Every request is counted once as a success, a failure or a timeout, and no
    /// more latencies are kept than there were successes.
    pub open spec fn wf(self) -> bool {
        &&& self.total_requests == self.success_count + self.failure_count + self.timeout_count
        &&& latencies(self.histogram).len() <= self.success_count
    }

    /// Nothing was counted.
    pub fn new() -> (r: Self)
        ensures
            r.wf(),
            r.total_requests == 0,
            latencies(r.histogram) == Multiset::<u64>::empty(),
    {
        MetricsCollector {
            total_requests: 0,
            success_count: 0,
            failure_count: 0,
            timeout_count: 0,
            histogram: new_histogram(LOWEST_LATENCY, HIGHEST_LATENCY, LATENCY_DIGITS),
        }
    }

    /// Counts a success and keeps its latency, unless that is too large to be kept.
    pub fn record_success(&mut self, latency: &Duration)
        requires
            old(self).wf(),
            old(self).total_requests < u64::MAX,
        ensures
            final(self).wf(),
            final(self).total_requests == old(self).total_requests + 1,
            final(self).success_count == old(self).success_count + 1,
            final(self).failure_count == old(self).failure_count,
            final(self).timeout_count == old(self).timeout_count,
            latencies(final(self).histogram) == with_latency(
                latencies(old(self).histogram),
                latency@,
            ),
    {
        self.total_requests = self.total_requests + 1;
        self.success_count = self.success_count + 1;
        let micros: u64 = latency.as_micros() as u64;
        let value: u64 = if micros == 0 {
            1
        } else {
            micros
        };
        match record_value(&mut self.histogram, value) {
            Ok(_) => {},
            Err(_) => {},
        }
    }

    /// Counts a failure.
    pub fn record_failure(&mut self)
        requires
            old(self).wf(),
            old(self).total_requests < u64::MAX,
        ensures
            final(self).wf(),
            *final(self) == (MetricsCollector {
                total_requests: (old(self).total_requests + 1) as u64,
                failure_count: (old(self).failure_count + 1) as u64,
                ..*old(self)
            }),
    {
        self.total_requests = self.total_requests + 1;
        self.failure_count = self.failure_count + 1;
    }

    /// Counts a timeout.
    pub fn record_timeout(&mut self)
        requires
            old(self).wf(),
            old(self).total_requests < u64::MAX,
        ensures
            final(self).wf(),
            *final(self) == (MetricsCollector {
                total_requests: (old(self).total_requests + 1) as u64,
                timeout_count: (old(self).timeout_count + 1) as u64,
                ..*old(self)
            }),
    {
        self.total_requests = self.total_requests + 1;
        self.timeout_count = self.timeout_count + 1;
    }

    /// The counts: all requests, successes, failures, timeouts.
    pub fn snapshot(&self) -> (r: (u64, u64, u64, u64))
        ensures
            r == (
                self.total_requests,
                self.success_count,
                self.failure_count,
                self.timeout_count,
            ),
    {
        (self.total_requests, self.success_count, self.failure_count, self.timeout_count)
    }

    /// A copy of the latencies.
    pub fn histogram_snapshot(&self) -> (r: LatencyHistogram)
        ensures
            latencies(r) == latencies(self.histogram),
    {
        copy_histogram(&self.histogram)
    }

    /// What the run gave.
    pub fn into_result(
        self,
        scenario_name: String,
        target: String,
        duration: Duration,
        target_qps: u32,
    ) -> (r: BenchResult)
        ensures
            r == (BenchResult {
                scenario_name,
                target,
                duration,
                total_requests: self.total_requests,
                success_count: self.success_count,
                failure_count: self.failure_count,
                timeout_count: self.timeout_count,
                target_qps,
                latency_histogram: self.histogram,
            }),
    {
        BenchResult {
            scenario_name,
            target,
            duration,
            total_requests: self.total_requests,
            success_count: self.success_count,
            failure_count: self.failure_count,
            timeout_count: self.timeout_count,
            target_qps,
            latency_histogram: self.histogram,
        }
    }
}

impl Default for MetricsCollector {
    fn default() -> (r: Self)
        ensures
            r.wf(),
            r.total_requests == 0,
            latencies(r.histogram) == Multiset::<u64>::empty(),
    {
        Self::new()
    }
}

/// A latency is recorded in whole microseconds, and one below the first as one.
pub proof fn lemma_recorded_latency(latency: nat, micros: nat)
    requires
        1000 * micros <= latency < 1000 * micros + 1000,
        micros <= u64::MAX,
    ensures
        recorded_micros(latency) == if micros == 0 {
            1
        } else {
            micros
        },
        micros < 16_777_216 ==> (forall|kept: Multiset<u64>| #[trigger]
            with_latency(kept, latency).len() == kept.len() + 1),
        micros >= 16_777_216 ==> (forall|kept: Multiset<u64>| #[trigger]
            with_latency(kept, latency) == kept),
{
}

/// Small values are kept as they are, and a larger one as twice what is kept of its half.
pub proof fn lemma_what_is_kept(value: u64)
    ensures
        value < 2048 ==> kept_as(value) == value,
        value >= 2048 ==> kept_as(value) % 2 == 0 && kept_as(value) / 2 == kept_as(
            (value / 2) as u64,
        ),
{
    lemma_kept_to_three_digits((value / 2) as u64);
}

/// A success that is recorded adds what is kept of its latency, and nothing else.
pub proof fn lemma_latency_is_added(kept: Multiset<u64>, micros: u64)
    requires
        1 <= micros < 16_777_216,
    ensures
        with_latency(kept, (1000 * micros) as nat) == kept.insert(kept_as(micros)),
{
}

/// Every value up to 2047 stands for itself alone, and from there to 4095 every odd one
/// is the last that is kept as it is.
pub proof fn lemma_last_alike(value: u64)
    ensures
        value < 2047 ==> is_last_alike(value),
        2048 <= value < 4095 ==> (is_last_alike(value) <==> value % 2 == 1),
{
    reveal_with_fuel(kept_as, 3);
}

/// In a collector that is in order every request counts as one outcome, and no more
/// latencies are kept than there were successes.
pub proof fn lemma_requests_add_up(m: MetricsCollector)
    requires
        m.wf(),
    ensures
        m.total_requests == m.success_count + m.failure_count + m.timeout_count,
        latencies(m.histogram).len() <= m.success_count,
{
}

} // verus!
