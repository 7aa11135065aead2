//! Counts and latencies of the mapping operations.

use vstd::prelude::*;

use crate::sorting::{lemma_sorted_values, sort_ascending, sorted_values};
use crate::string_map::StringMap;
use crate::time::{instant_gap, is_secs_since, secs_since, time_since};
use crate::traversal::provider::MappingOperationStats;
use crate::traversal::state::NatState;

verus! {

/// The sum of all values.
pub open spec fn sum_of(s: Seq<u64>) -> nat
    decreases s.len(),
{
    if s.len() == 0 {
        0
    } else {
        sum_of(s.drop_last()) + s.last() as nat
    }
}

proof fn lemma_sum_without_first(s: Seq<u64>)
    requires
        s.len() > 0,
    ensures
        sum_of(s) == s[0] + sum_of(s.drop_first()),
    decreases s.len(),
{
    if s.len() == 1 {
        assert(s.drop_last() =~= Seq::<u64>::empty());
        assert(s.drop_first() =~= Seq::<u64>::empty());
    } else {
        let d = s.drop_last();
        lemma_sum_without_first(d);
        assert(d.drop_first() =~= s.drop_first().drop_last());
    }
}

/// The window after one more sample: the oldest goes where it is full.
pub open spec fn windowed(s: Seq<u64>, max: nat, x: u64) -> Seq<u64> {
    if s.len() >= max {
        s.drop_first().push(x)
    } else {
        s.push(x)
    }
}

/// The value below which `p` percent of the samples lie: that at position
/// `p * n / 100` in ascending order, the last one at most, zero where there is
/// no sample.
pub open spec fn percentile_of(s: Seq<u64>, p: nat) -> u64 {
    let at = p * s.len() / 100;
    if s.len() == 0 {
        0
    } else if at < s.len() {
        sorted_values(s)[at as int]
    } else {
        sorted_values(s)[s.len() - 1]
    }
}

/// Latencies of the last so many operations, in milliseconds.
#[derive(Debug, Clone)]
pub struct LatencyStats {
    pub samples: Vec<u64>,
    pub max_samples: usize,
    pub sum: u64,
}

impl LatencyStats {
    /// The window holds no more than it may, and the sum is that of its samples.
    pub open spec fn wf(self) -> bool {
        self.samples@.len() <= self.max_samples && self.sum as nat == sum_of(self.samples@)
    }

    /// An empty window of the given size.
    pub fn new(max_samples: usize) -> (r: Self)
        ensures
            r.wf(),
            r.samples@.len() == 0,
            r.max_samples == max_samples,
    {
        LatencyStats { samples: Vec::new(), max_samples, sum: 0 }
    }

    /// Takes one more sample.
    pub fn record(&mut self, latency_ms: u64)
        requires
            old(self).wf(),
            old(self).max_samples > 0,
            sum_of(windowed(old(self).samples@, old(self).max_samples as nat, latency_ms))
                <= u64::MAX,
        ensures
            final(self).wf(),
            final(self).max_samples == old(self).max_samples,
            final(self).samples@ == windowed(
                old(self).samples@,
                old(self).max_samples as nat,
                latency_ms,
            ),
    {
        let ghost s = self.samples@;
        if self.samples.len() >= self.max_samples {
            proof {
                lemma_sum_without_first(s);
            }
            let oldest: u64 = self.samples.remove(0);
            self.sum = self.sum.saturating_sub(oldest);
            proof {
                assert(self.samples@ =~= s.drop_first());
            }
        }
        let ghost t = self.samples@;
        self.samples.push(latency_ms);
        proof {
            assert(self.samples@.drop_last() =~= t);
        }
        self.sum = self.sum + latency_ms;
    }

    /// The percentile `p`, one of those that are reported.
    fn percentile(&self, p: u8) -> (r: u64)
        requires
            p == 50 || p == 95 || p == 99,
        ensures
            r == percentile_of(self.samples@, p as nat),
    {
        if self.samples.len() == 0 {
            return 0;
        }
        let sorted = sort_ascending(&self.samples);
        proof {
            lemma_sorted_values(self.samples@);
        }
        let n: usize = sorted.len();
        assert((p as u128) * (n as u128) <= 99 * 0xffff_ffff_ffff_ffff) by (nonlinear_arith)
            requires
                p <= 99,
                n <= 0xffff_ffff_ffff_ffff,
        ;
        let at: u128 = (p as u128) * (n as u128) / 100;
        assert((p as u128) * (n as u128) == (p as nat) * (n as nat)) by (nonlinear_arith);
        if at < n as u128 {
            sorted[at as usize]
        } else {
            sorted[n - 1]
        }
    }

    /// The median.
    pub fn p50(&self) -> (r: u64)
        ensures
            r == percentile_of(self.samples@, 50),
    {
        self.percentile(50)
    }

    /// The value that 95 percent stay below.
    pub fn p95(&self) -> (r: u64)
        ensures
            r == percentile_of(self.samples@, 95),
    {
        self.percentile(95)
    }

    /// The value that 99 percent stay below.
    pub fn p99(&self) -> (r: u64)
        ensures
            r == percentile_of(self.samples@, 99),
    {
        self.percentile(99)
    }

    /// How many samples the window holds.
    pub fn count(&self) -> (r: usize)
        ensures
            r == self.samples@.len(),
    {
        self.samples.len()
    }

    /// The sum of the samples, from which the average follows.
    pub fn sum(&self) -> (r: u64)
        requires
            self.wf(),
        ensures
            r as nat == sum_of(self.samples@),
    {
        self.sum
    }

    /// The smallest sample, zero where there is none.
    pub fn min(&self) -> (r: u64)
        ensures
            is_least(self.samples@, r),
            self.samples@.len() == 0 ==> r == 0,
            self.samples@.len() > 0 ==> self.samples@.contains(r) && forall|i: int|
                0 <= i < self.samples@.len() ==> r <= #[trigger] self.samples@[i],
    {
        if self.samples.len() == 0 {
            return 0;
        }
        let mut m: u64 = self.samples[0];
        let mut i: usize = 1;
        while i < self.samples.len()
            invariant
                1 <= i <= self.samples@.len(),
                self.samples@.contains(m),
                forall|j: int| 0 <= j < i ==> m <= #[trigger] self.samples@[j],
            decreases self.samples@.len() - i,
        {
            if self.samples[i] < m {
                m = self.samples[i];
            }
            i = i + 1;
        }
        m
    }

    /// The largest sample, zero where there is none.
    pub fn max(&self) -> (r: u64)
        ensures
            is_greatest(self.samples@, r),
            self.samples@.len() == 0 ==> r == 0,
            self.samples@.len() > 0 ==> self.samples@.contains(r) && forall|i: int|
                0 <= i < self.samples@.len() ==> r >= #[trigger] self.samples@[i],
    {
        if self.samples.len() == 0 {
            return 0;
        }
        let mut m: u64 = self.samples[0];
        let mut i: usize = 1;
        while i < self.samples.len()
            invariant
                1 <= i <= self.samples@.len(),
                self.samples@.contains(m),
                forall|j: int| 0 <= j < i ==> m >= #[trigger] self.samples@[j],
            decreases self.samples@.len() - i,
        {
            if self.samples[i] > m {
                m = self.samples[i];
            }
            i = i + 1;
        }
        m
    }

    /// A copy of this window.
    pub fn copied(&self) -> (r: Self)
        ensures
            r.samples@ == self.samples@,
            r.max_samples == self.max_samples,
            r.sum == self.sum,
    {
        let samples = self.samples.clone();
        proof {
            assert(samples@ =~= self.samples@);
        }
        LatencyStats { samples, max_samples: self.max_samples, sum: self.sum }
    }
}

impl Default for LatencyStats {
    fn default() -> (r: Self)
        ensures
            r.wf(),
            r.samples@.len() == 0,
            r.max_samples == 1000,
    {
        Self::new(1000)
    }
}

/// The median is no larger than the 95th percentile, that no larger than the
/// 99th, and each is one of the samples.
pub proof fn lemma_percentiles_in_order(s: Seq<u64>)
    requires
        s.len() > 0,
    ensures
        percentile_of(s, 50) <= percentile_of(s, 95) <= percentile_of(s, 99),
        s.contains(percentile_of(s, 50)),
        s.contains(percentile_of(s, 95)),
        s.contains(percentile_of(s, 99)),
{
    lemma_sorted_values(s);
    let n = s.len();
    assert(50 * n / 100 < n && 95 * n / 100 < n && 99 * n / 100 < n);
    assert(50 * n / 100 <= 95 * n / 100 <= 99 * n / 100);
}

/// The window keeps the newest samples: after one more, it ends with it, and
/// what it held before stands in front of it, without the oldest where it was
/// full.
pub proof fn lemma_window_keeps_newest(s: Seq<u64>, max: nat, x: u64)
    requires
        0 < max,
        s.len() <= max,
    ensures
        windowed(s, max, x).len() <= max,
        windowed(s, max, x).last() == x,
        windowed(s, max, x).drop_last().is_suffix_of(s),
{
    let w = windowed(s, max, x);
    if s.len() >= max {
        assert(w.drop_last() =~= s.drop_first());
    } else {
        assert(w.drop_last() =~= s);
    }
}

/// How often the operations of one protocol went well or failed.
#[derive(Debug, Clone, Copy, PartialEq, Eq, Structural)]
pub struct ProtocolStats {
    pub mapping_success: u64,
    pub mapping_failure: u64,
    pub renew_success: u64,
    pub renew_failure: u64,
    pub discover_success: u64,
    pub discover_failure: u64,
}

impl ProtocolStats {
    /// Nothing counted.
    pub open spec fn zero() -> ProtocolStats {
        ProtocolStats {
            mapping_success: 0,
            mapping_failure: 0,
            renew_success: 0,
            renew_failure: 0,
            discover_success: 0,
            discover_failure: 0,
        }
    }

    /// One more mapping.
    pub open spec fn with_mapping(self, success: bool) -> ProtocolStats {
        if success {
            ProtocolStats { mapping_success: (self.mapping_success + 1) as u64, ..self }
        } else {
            ProtocolStats { mapping_failure: (self.mapping_failure + 1) as u64, ..self }
        }
    }

    /// One more renewal.
    pub open spec fn with_renew(self, success: bool) -> ProtocolStats {
        if success {
            ProtocolStats { renew_success: (self.renew_success + 1) as u64, ..self }
        } else {
            ProtocolStats { renew_failure: (self.renew_failure + 1) as u64, ..self }
        }
    }

    /// One more search for the gateway.
    pub open spec fn with_discover(self, success: bool) -> ProtocolStats {
        if success {
            ProtocolStats { discover_success: (self.discover_success + 1) as u64, ..self }
        } else {
            ProtocolStats { discover_failure: (self.discover_failure + 1) as u64, ..self }
        }
    }

    /// How many mappings were made, of how many that were tried; the success rate
    /// is their quotient, and zero where none was tried.
    pub fn success_ratio(&self) -> (r: (u64, u64))
        requires
            self.mapping_success + self.mapping_failure <= u64::MAX,
        ensures
            r.0 == self.mapping_success,
            r.1 == self.mapping_success + self.mapping_failure,
    {
        (self.mapping_success, self.mapping_success + self.mapping_failure)
    }
}

impl Default for ProtocolStats {
    fn default() -> (r: Self)
        ensures
            r == ProtocolStats::zero(),
    {
        ProtocolStats {
            mapping_success: 0,
            mapping_failure: 0,
            renew_success: 0,
            renew_failure: 0,
            discover_success: 0,
            discover_failure: 0,
        }
    }
}

/// The counts of a protocol, zero where nothing was counted.
pub open spec fn stats_of(m: Map<Seq<char>, ProtocolStats>, protocol: Seq<char>) -> ProtocolStats {
    if m.dom().contains(protocol) {
        m[protocol]
    } else {
        ProtocolStats::zero()
    }
}

/// The sum of one count over all protocols.
pub open spec fn total_of(
    es: Seq<(String, ProtocolStats)>,
    f: spec_fn(ProtocolStats) -> u64,
) -> nat
    decreases es.len(),
{
    if es.len() == 0 {
        0
    } else {
        total_of(es.drop_last(), f) + f(es.last().1) as nat
    }
}

/// The six counts.
pub open spec fn mapping_successes() -> spec_fn(ProtocolStats) -> u64 {
    |s: ProtocolStats| s.mapping_success
}

pub open spec fn mapping_failures() -> spec_fn(ProtocolStats) -> u64 {
    |s: ProtocolStats| s.mapping_failure
}

pub open spec fn renew_successes() -> spec_fn(ProtocolStats) -> u64 {
    |s: ProtocolStats| s.renew_success
}

pub open spec fn renew_failures() -> spec_fn(ProtocolStats) -> u64 {
    |s: ProtocolStats| s.renew_failure
}

pub open spec fn discover_successes() -> spec_fn(ProtocolStats) -> u64 {
    |s: ProtocolStats| s.discover_success
}

pub open spec fn discover_failures() -> spec_fn(ProtocolStats) -> u64 {
    |s: ProtocolStats| s.discover_failure
}

proof fn lemma_total_update(
    es: Seq<(String, ProtocolStats)>,
    i: int,
    e: (String, ProtocolStats),
    f: spec_fn(ProtocolStats) -> u64,
)
    requires
        0 <= i < es.len(),
    ensures
        total_of(es.update(i, e), f) == total_of(es, f) - f(es[i].1) + f(e.1),
    decreases es.len(),
{
    let us = es.update(i, e);
    if i == es.len() - 1 {
        assert(us.drop_last() =~= es.drop_last());
    } else {
        lemma_total_update(es.drop_last(), i, e, f);
        assert(us.drop_last() =~= es.drop_last().update(i, e));
    }
}

/// Giving one protocol new counts changes each sum by what its count changed.
pub proof fn lemma_totals_follow_counts(
    m: StringMap<ProtocolStats>,
    key: String,
    value: ProtocolStats,
    f: spec_fn(ProtocolStats) -> u64,
)
    requires
        m.wf(),
        f(ProtocolStats::zero()) == 0,
    ensures
        total_of(crate::string_map::entries_with(m.entries@, key, value), f) == total_of(
            m.entries@,
            f,
        ) - f(stats_of(m@, key@)) + f(value),
{
    let es = m.entries@;
    crate::string_map::lemma_key_position(es, key@);
    let i = crate::string_map::key_position(es, key@);
    if i < es.len() {
        lemma_total_update(es, i, (key, value), f);
    } else {
        assert(es.push((key, value)).drop_last() =~= es);
    }
}

/// How many operations are remembered one by one.
pub const MAX_RECENT: usize = 100;

/// The remembered operations after one more.
pub open spec fn remembered(
    ops: Seq<MappingOperationStats>,
    op: MappingOperationStats,
) -> Seq<MappingOperationStats> {
    if ops.len() >= MAX_RECENT {
        ops.push(op).drop_first()
    } else {
        ops.push(op)
    }
}

/// All that is counted of the translator handling.
pub struct NatMetricsExt {
    pub protocol_stats: StringMap<ProtocolStats>,
    pub mapping_latency: LatencyStats,
    pub renew_latency: LatencyStats,
    pub discover_latency: LatencyStats,
    pub recent_operations: Vec<MappingOperationStats>,
    pub state_durations: StringMap<u64>,
    pub reachability_checks: u64,
    pub reachability_success: u64,
    pub start_time: std::time::Instant,
}

/// A latency can be added to a window: the sum still fits.
pub open spec fn has_room(l: LatencyStats, latency_ms: u64) -> bool {
    sum_of(windowed(l.samples@, l.max_samples as nat, latency_ms)) <= u64::MAX
}

/// The sums and percentiles that are shown; rates and averages are quotients of
/// what stands here.
#[derive(Debug, Clone, Copy, PartialEq, Eq, Structural)]
pub struct NatMetricsSummary {
    pub total_mapping_success: u64,
    pub total_mapping_failure: u64,
    pub mapping_latency_p50: u64,
    pub mapping_latency_p95: u64,
    pub mapping_latency_p99: u64,
    pub mapping_latency_sum: u64,
    pub mapping_latency_count: usize,
    pub renew_success: u64,
    pub renew_failure: u64,
    pub discover_success: u64,
    pub discover_failure: u64,
    pub reachability_checks: u64,
    pub reachability_success: u64,
    pub uptime_seconds: u64,
    pub protocol_count: usize,
}

impl NatMetricsExt {
    /// The parts are sound, and no more checks succeeded than were made.
    pub open spec fn wf(self) -> bool {
        &&& self.protocol_stats.wf()
        &&& self.state_durations.wf()
        &&& self.mapping_latency.wf() && self.mapping_latency.max_samples == 1000
        &&& self.renew_latency.wf() && self.renew_latency.max_samples == 1000
        &&& self.discover_latency.wf() && self.discover_latency.max_samples == 1000
        &&& self.recent_operations@.len() <= MAX_RECENT
        &&& self.reachability_success <= self.reachability_checks
    }

    /// Nothing counted yet.
    pub fn new() -> (r: Self)
        ensures
            r.wf(),
            r.protocol_stats@ == Map::<Seq<char>, ProtocolStats>::empty(),
            r.protocol_stats.entries@.len() == 0,
            r.state_durations@ == Map::<Seq<char>, u64>::empty(),
            r.mapping_latency.samples@.len() == 0,
            r.renew_latency.samples@.len() == 0,
            r.discover_latency.samples@.len() == 0,
            r.recent_operations@.len() == 0,
            r.reachability_checks == 0,
            r.reachability_success == 0,
    {
        NatMetricsExt {
            protocol_stats: StringMap::new(),
            mapping_latency: LatencyStats::new(1000),
            renew_latency: LatencyStats::new(1000),
            discover_latency: LatencyStats::new(1000),
            recent_operations: Vec::new(),
            state_durations: StringMap::new(),
            reachability_checks: 0,
            reachability_success: 0,
            start_time: std::time::Instant::now(),
        }
    }

    /// The counts of a protocol, zero where nothing was counted.
    fn counts(&self, protocol: &str) -> (r: ProtocolStats)
        ensures
            r == stats_of(self.protocol_stats@, protocol@),
    {
        match self.protocol_stats.get(protocol) {
            Some(s) => *s,
            None => ProtocolStats::default(),
        }
    }

    /// Counts a mapping operation and remembers it.
    pub fn record_mapping(&mut self, stats: MappingOperationStats)
        requires
            old(self).wf(),
            stats_of(old(self).protocol_stats@, stats.protocol@).mapping_success + stats_of(
                old(self).protocol_stats@,
                stats.protocol@,
            ).mapping_failure < u64::MAX,
            has_room(old(self).mapping_latency, stats.duration_ms),
        ensures
            final(self).protocol_stats@ == counted_for(
                old(self).protocol_stats@,
                stats.protocol@,
                OperationKind::Mapping,
                stats.success,
            ),
            final(self).wf(),
            final(self).protocol_stats@ == old(self).protocol_stats@.insert(
                stats.protocol@,
                stats_of(old(self).protocol_stats@, stats.protocol@).with_mapping(stats.success),
            ),
            final(self).mapping_latency.samples@ == windowed(
                old(self).mapping_latency.samples@,
                1000,
                stats.duration_ms,
            ),
            final(self).recent_operations@ == remembered(old(self).recent_operations@, stats),
            final(self).renew_latency == old(self).renew_latency,
            final(self).discover_latency == old(self).discover_latency,
            final(self).state_durations == old(self).state_durations,
            final(self).reachability_checks == old(self).reachability_checks,
            final(self).reachability_success == old(self).reachability_success,
            final(self).start_time == old(self).start_time,
    {
        let mut entry = self.counts(stats.protocol.as_str());
        if stats.success {
            entry.mapping_success = entry.mapping_success + 1;
        } else {
            entry.mapping_failure = entry.mapping_failure + 1;
        }
        self.protocol_stats.insert(stats.protocol.clone(), entry);
        self.mapping_latency.record(stats.duration_ms);
        let ghost ops = self.recent_operations@;
        self.recent_operations.push(stats);
        if self.recent_operations.len() > MAX_RECENT {
            let _oldest = self.recent_operations.remove(0);
            proof {
                assert(self.recent_operations@ =~= ops.push(stats).drop_first());
            }
        }
    }

    /// Counts a renewal.
    pub fn record_renew(&mut self, protocol: &str, success: bool, latency_ms: u64)
        requires
            old(self).wf(),
            success ==> stats_of(old(self).protocol_stats@, protocol@).renew_success < u64::MAX,
            !success ==> stats_of(old(self).protocol_stats@, protocol@).renew_failure < u64::MAX,
            has_room(old(self).renew_latency, latency_ms),
        ensures
            final(self).protocol_stats@ == counted_for(
                old(self).protocol_stats@,
                protocol@,
                OperationKind::Renewal,
                success,
            ),
            final(self).wf(),
            final(self).protocol_stats@ == old(self).protocol_stats@.insert(
                protocol@,
                stats_of(old(self).protocol_stats@, protocol@).with_renew(success),
            ),
            final(self).renew_latency.samples@ == windowed(
                old(self).renew_latency.samples@,
                1000,
                latency_ms,
            ),
            final(self).mapping_latency == old(self).mapping_latency,
            final(self).discover_latency == old(self).discover_latency,
            final(self).recent_operations == old(self).recent_operations,
            final(self).state_durations == old(self).state_durations,
            final(self).reachability_checks == old(self).reachability_checks,
            final(self).reachability_success == old(self).reachability_success,
            final(self).start_time == old(self).start_time,
    {
        let mut entry = self.counts(protocol);
        if success {
            entry.renew_success = entry.renew_success + 1;
        } else {
            entry.renew_failure = entry.renew_failure + 1;
        }
        self.protocol_stats.insert(protocol.to_owned(), entry);
        self.renew_latency.record(latency_ms);
    }

    /// Counts a search for the gateway.
    pub fn record_discover(&mut self, protocol: &str, success: bool, latency_ms: u64)
        requires
            old(self).wf(),
            success ==> stats_of(old(self).protocol_stats@, protocol@).discover_success < u64::MAX,
            !success ==> stats_of(old(self).protocol_stats@, protocol@).discover_failure < u64::MAX,
            has_room(old(self).discover_latency, latency_ms),
        ensures
            final(self).protocol_stats@ == counted_for(
                old(self).protocol_stats@,
                protocol@,
                OperationKind::Discovery,
                success,
            ),
            final(self).wf(),
            final(self).protocol_stats@ == old(self).protocol_stats@.insert(
                protocol@,
                stats_of(old(self).protocol_stats@, protocol@).with_discover(success),
            ),
            final(self).discover_latency.samples@ == windowed(
                old(self).discover_latency.samples@,
                1000,
                latency_ms,
            ),
            final(self).mapping_latency == old(self).mapping_latency,
            final(self).renew_latency == old(self).renew_latency,
            final(self).recent_operations == old(self).recent_operations,
            final(self).state_durations == old(self).state_durations,
            final(self).reachability_checks == old(self).reachability_checks,
            final(self).reachability_success == old(self).reachability_success,
            final(self).start_time == old(self).start_time,
    {
        let mut entry = self.counts(protocol);
        if success {
            entry.discover_success = entry.discover_success + 1;
        } else {
            entry.discover_failure = entry.discover_failure + 1;
        }
        self.protocol_stats.insert(protocol.to_owned(), entry);
        self.discover_latency.record(latency_ms);
    }

    /// Counts a check whether the node can be reached.
    pub fn record_reachability(&mut self, success: bool)
        requires
            old(self).wf(),
            old(self).reachability_checks < u64::MAX,
        ensures
            (
                final(self).reachability_checks as int,
                final(self).reachability_success as int,
            ) == checked(
                old(self).reachability_checks as int,
                old(self).reachability_success as int,
                success,
            ),
            final(self).wf(),
            *final(self) == (NatMetricsExt {
                reachability_checks: (old(self).reachability_checks + 1) as u64,
                reachability_success: (old(self).reachability_success + if success {
                    1int
                } else {
                    0
                }) as u64,
                ..*old(self)
            }),
    {
        self.reachability_checks = self.reachability_checks + 1;
        if success {
            self.reachability_success = self.reachability_success + 1;
        }
    }

    /// Adds to the time spent in a state.
    pub fn record_state_duration(&mut self, state: NatState, duration_ms: u64)
        requires
            old(self).wf(),
            old(self).state_durations@.dom().contains(state.name()) ==> old(self).state_durations@[state.name()] + duration_ms <= u64::MAX,
        ensures
            final(self).state_durations@ == lengthened(
                old(self).state_durations@,
                state.name(),
                duration_ms,
            ),
            final(self).wf(),
            final(self).state_durations@ == old(self).state_durations@.insert(
                state.name(),
                if old(self).state_durations@.dom().contains(state.name()) {
                    (old(self).state_durations@[state.name()] + duration_ms) as u64
                } else {
                    duration_ms
                },
            ),
            final(self).protocol_stats == old(self).protocol_stats,
            final(self).mapping_latency == old(self).mapping_latency,
            final(self).renew_latency == old(self).renew_latency,
            final(self).discover_latency == old(self).discover_latency,
            final(self).recent_operations == old(self).recent_operations,
            final(self).reachability_checks == old(self).reachability_checks,
            final(self).reachability_success == old(self).reachability_success,
            final(self).start_time == old(self).start_time,
    {
        let had: u64 = match self.state_durations.get(state.as_str()) {
            Some(v) => *v,
            None => 0,
        };
        self.state_durations.insert(state.as_str().to_owned(), had + duration_ms);
    }

    /// The latencies of mappings.
    pub fn mapping_latency(&self) -> (r: LatencyStats)
        ensures
            r.samples@ == self.mapping_latency.samples@,
            r.max_samples == self.mapping_latency.max_samples,
            r.sum == self.mapping_latency.sum,
    {
        self.mapping_latency.copied()
    }

    /// The latencies of renewals.
    pub fn renew_latency(&self) -> (r: LatencyStats)
        ensures
            r.samples@ == self.renew_latency.samples@,
            r.max_samples == self.renew_latency.max_samples,
            r.sum == self.renew_latency.sum,
    {
        self.renew_latency.copied()
    }

    /// The latencies of searches for the gateway.
    pub fn discover_latency(&self) -> (r: LatencyStats)
        ensures
            r.samples@ == self.discover_latency.samples@,
            r.max_samples == self.discover_latency.max_samples,
            r.sum == self.discover_latency.sum,
    {
        self.discover_latency.copied()
    }

    /// The counts of each protocol.
    pub fn protocol_stats(&self) -> (r: &StringMap<ProtocolStats>)
        ensures
            *r == self.protocol_stats,
    {
        &self.protocol_stats
    }

    /// The last `n` mapping operations that are remembered, newest first.
    pub fn recent_operations(&self, n: usize) -> (r: Vec<MappingOperationStats>)
        ensures
            are_newest(self.recent_operations@, n as nat, r@),
            r@.len() == if n <= self.recent_operations@.len() {
                n as nat
            } else {
                self.recent_operations@.len()
            },
            forall|j: int|
                0 <= j < r@.len() ==> (#[trigger] r@[j]).same(
                    self.recent_operations@[self.recent_operations@.len() - 1 - j],
                ),
    {
        let len: usize = self.recent_operations.len();
        let count: usize = if n <= len {
            n
        } else {
            len
        };
        let mut out: Vec<MappingOperationStats> = Vec::new();
        let mut i: usize = 0;
        while i < count
            invariant
                len == self.recent_operations@.len(),
                i <= count <= len,
                out@.len() == i,
                forall|j: int|
                    0 <= j < i ==> (#[trigger] out@[j]).same(self.recent_operations@[len - 1 - j]),
            decreases count - i,
        {
            out.push(self.recent_operations[len - 1 - i].copied());
            i = i + 1;
        }
        out
    }

    /// How many reachability checks were made and how many of them succeeded; the
    /// rate is their quotient, and zero where none was made.
    pub fn reachability_stats(&self) -> (r: (u64, u64))
        ensures
            r == (self.reachability_checks, self.reachability_success),
    {
        (self.reachability_checks, self.reachability_success)
    }

    /// The time since the counting began, by the clock.
    pub fn uptime(&self) -> (r: std::time::Duration)
        ensures
            exists|now: std::time::Instant| r == #[trigger] instant_gap(now, self.start_time),
    {
        time_since(&self.start_time)
    }

    /// Every sum over the protocols fits.
    pub open spec fn totals_fit(self) -> bool {
        let es = self.protocol_stats.entries@;
        &&& total_of(es, mapping_successes()) + total_of(es, mapping_failures()) <= u64::MAX
        &&& total_of(es, renew_successes()) <= u64::MAX
        &&& total_of(es, renew_failures()) <= u64::MAX
        &&& total_of(es, discover_successes()) <= u64::MAX
        &&& total_of(es, discover_failures()) <= u64::MAX
    }

    /// What the sums and percentiles are after the given time of counting.
    pub open spec fn summary_of(self, uptime_seconds: u64) -> NatMetricsSummary {
        let es = self.protocol_stats.entries@;
        NatMetricsSummary {
            total_mapping_success: total_of(es, mapping_successes()) as u64,
            total_mapping_failure: total_of(es, mapping_failures()) as u64,
            mapping_latency_p50: percentile_of(self.mapping_latency.samples@, 50),
            mapping_latency_p95: percentile_of(self.mapping_latency.samples@, 95),
            mapping_latency_p99: percentile_of(self.mapping_latency.samples@, 99),
            mapping_latency_sum: sum_of(self.mapping_latency.samples@) as u64,
            mapping_latency_count: self.mapping_latency.samples@.len() as usize,
            renew_success: total_of(es, renew_successes()) as u64,
            renew_failure: total_of(es, renew_failures()) as u64,
            discover_success: total_of(es, discover_successes()) as u64,
            discover_failure: total_of(es, discover_failures()) as u64,
            reachability_checks: self.reachability_checks,
            reachability_success: self.reachability_success,
            uptime_seconds,
            protocol_count: es.len() as usize,
        }
    }

    /// The sums and percentiles after the given time of counting.
    pub fn summary_at(&self, uptime_seconds: u64) -> (r: NatMetricsSummary)
        requires
            self.wf(),
            self.totals_fit(),
        ensures
            r == self.summary_of(uptime_seconds),
    {
        let ghost es = self.protocol_stats.entries@;
        let mut ms: u64 = 0;
        let mut mf: u64 = 0;
        let mut rs: u64 = 0;
        let mut rf: u64 = 0;
        let mut ds: u64 = 0;
        let mut df: u64 = 0;
        let mut i: usize = 0;
        proof {
            assert(es.take(0) =~= Seq::<(String, ProtocolStats)>::empty());
        }
        while i < self.protocol_stats.entries.len()
            invariant
                es == self.protocol_stats.entries@,
                self.totals_fit(),
                i <= es.len(),
                ms as nat == total_of(es.take(i as int), mapping_successes()),
                mf as nat == total_of(es.take(i as int), mapping_failures()),
                rs as nat == total_of(es.take(i as int), renew_successes()),
                rf as nat == total_of(es.take(i as int), renew_failures()),
                ds as nat == total_of(es.take(i as int), discover_successes()),
                df as nat == total_of(es.take(i as int), discover_failures()),
            decreases es.len() - i,
        {
            let s: ProtocolStats = self.protocol_stats.entries[i].1;
            proof {
                assert(es.take(i + 1).drop_last() =~= es.take(i as int));
                lemma_total_grows(es, i + 1, mapping_successes());
                lemma_total_grows(es, i + 1, mapping_failures());
                lemma_total_grows(es, i + 1, renew_successes());
                lemma_total_grows(es, i + 1, renew_failures());
                lemma_total_grows(es, i + 1, discover_successes());
                lemma_total_grows(es, i + 1, discover_failures());
            }
            ms = ms + s.mapping_success;
            mf = mf + s.mapping_failure;
            rs = rs + s.renew_success;
            rf = rf + s.renew_failure;
            ds = ds + s.discover_success;
            df = df + s.discover_failure;
            i = i + 1;
        }
        proof {
            assert(es.take(i as int) =~= es);
        }
        NatMetricsSummary {
            total_mapping_success: ms,
            total_mapping_failure: mf,
            mapping_latency_p50: self.mapping_latency.p50(),
            mapping_latency_p95: self.mapping_latency.p95(),
            mapping_latency_p99: self.mapping_latency.p99(),
            mapping_latency_sum: self.mapping_latency.sum(),
            mapping_latency_count: self.mapping_latency.count(),
            renew_success: rs,
            renew_failure: rf,
            discover_success: ds,
            discover_failure: df,
            reachability_checks: self.reachability_checks,
            reachability_success: self.reachability_success,
            uptime_seconds,
            protocol_count: self.protocol_stats.len(),
        }
    }

    /// The sums and percentiles up to now.
    pub fn summary(&self) -> (r: NatMetricsSummary)
        requires
            self.wf(),
            self.totals_fit(),
        ensures
            exists|uptime_seconds: u64|
                is_secs_since(uptime_seconds, self.start_time) && r == #[trigger] self.summary_of(uptime_seconds),
    {
        let up: u64 = secs_since(&self.start_time);
        self.summary_at(up)
    }
}

proof fn lemma_total_grows(
    es: Seq<(String, ProtocolStats)>,
    i: int,
    f: spec_fn(ProtocolStats) -> u64,
)
    requires
        0 <= i <= es.len(),
    ensures
        total_of(es.take(i), f) <= total_of(es, f),
    decreases es.len() - i,
{
    if i < es.len() {
        lemma_total_grows(es, i + 1, f);
        assert(es.take(i + 1).drop_last() =~= es.take(i));
    } else {
        assert(es.take(i) =~= es);
    }
}

impl Default for NatMetricsExt {
    fn default() -> (r: Self)
        ensures
            r.wf(),
            r.protocol_stats@ == Map::<Seq<char>, ProtocolStats>::empty(),
            r.protocol_stats.entries@.len() == 0,
            r.state_durations@ == Map::<Seq<char>, u64>::empty(),
            r.mapping_latency.samples@.len() == 0,
            r.renew_latency.samples@.len() == 0,
            r.discover_latency.samples@.len() == 0,
            r.recent_operations@.len() == 0,
            r.reachability_checks == 0,
            r.reachability_success == 0,
    {
        Self::new()
    }
}

/// How many samples are less than `v`.
pub open spec fn below(s: Seq<u64>, v: u64) -> nat
    decreases s.len(),
{
    if s.len() == 0 {
        0
    } else {
        below(s.drop_last(), v) + (if s.last() < v {
            1nat
        } else {
            0
        })
    }
}

/// How many samples are at most `v`.
pub open spec fn up_to(s: Seq<u64>, v: u64) -> nat
    decreases s.len(),
{
    if s.len() == 0 {
        0
    } else {
        up_to(s.drop_last(), v) + (if s.last() <= v {
            1nat
        } else {
            0
        })
    }
}

proof fn lemma_counts_without(s: Seq<u64>, i: int, v: u64)
    requires
        0 <= i < s.len(),
    ensures
        below(s, v) == below(s.remove(i), v) + (if s[i] < v {
            1nat
        } else {
            0
        }),
        up_to(s, v) == up_to(s.remove(i), v) + (if s[i] <= v {
            1nat
        } else {
            0
        }),
    decreases s.len(),
{
    if i == s.len() - 1 {
        assert(s.remove(i) =~= s.drop_last());
    } else {
        lemma_counts_without(s.drop_last(), i, v);
        assert(s.remove(i).drop_last() =~= s.drop_last().remove(i));
        assert(s.remove(i).last() == s.last());
    }
}

proof fn lemma_counts_by_contents(s: Seq<u64>, t: Seq<u64>, v: u64)
    requires
        s.to_multiset() == t.to_multiset(),
    ensures
        below(s, v) == below(t, v),
        up_to(s, v) == up_to(t, v),
    decreases s.len(),
{
    broadcast use vstd::seq_lib::group_to_multiset_ensures;

    assert(s.len() == s.to_multiset().len());
    assert(t.len() == t.to_multiset().len());
    if s.len() > 0 {
        let x = s.last();
        assert(s[s.len() - 1] == x && s.contains(x));
        assert(s.to_multiset().count(x) > 0);
        assert(t.contains(x));
        let i = choose|i: int| 0 <= i < t.len() && t[i] == x;
        assert(s.remove(s.len() - 1) =~= s.drop_last());
        lemma_counts_without(t, i, v);
        assert(s.remove(s.len() - 1).to_multiset() =~= s.to_multiset().remove(x));
        assert(t.remove(i).to_multiset() =~= t.to_multiset().remove(x));
        lemma_counts_by_contents(s.drop_last(), t.remove(i), v);
    }
}

proof fn lemma_counts_of_sorted(s: Seq<u64>, k: int)
    requires
        0 <= k < s.len(),
        forall|i: int, j: int| 0 <= i <= j < s.len() ==> s[i] <= s[j],
    ensures
        below(s, s[k]) <= k,
        up_to(s, s[k]) > k,
    decreases s.len(),
{
    let d = s.drop_last();
    let v = s[k];
    if k < s.len() - 1 {
        assert forall|i: int, j: int| 0 <= i <= j < d.len() implies d[i] <= d[j] by {
            assert(d[i] == s[i] && d[j] == s[j]);
        }
        lemma_counts_of_sorted(d, k);
        assert(d[k] == v);
        assert(s[k] <= s[s.len() - 1]);
    } else {
        lemma_counts_at_most(d, v);
        assert forall|i: int| 0 <= i < d.len() implies #[trigger] d[i] <= v by {
            assert(s[i] <= s[k]);
        }
        lemma_all_up_to(d, v);
    }
}

proof fn lemma_counts_at_most(s: Seq<u64>, v: u64)
    ensures
        below(s, v) <= s.len(),
    decreases s.len(),
{
    if s.len() > 0 {
        lemma_counts_at_most(s.drop_last(), v);
    }
}

proof fn lemma_all_up_to(s: Seq<u64>, v: u64)
    requires
        forall|i: int| 0 <= i < s.len() ==> #[trigger] s[i] <= v,
    ensures
        up_to(s, v) == s.len(),
    decreases s.len(),
{
    if s.len() > 0 {
        let d = s.drop_last();
        assert forall|i: int| 0 <= i < d.len() implies #[trigger] d[i] <= v by {
            assert(d[i] == s[i]);
        }
        assert(s[s.len() - 1] <= v);
        lemma_all_up_to(d, v);
    }
}

/// A percentile is one of the samples, with at most that share of the samples below it
/// and more than that share up to it.
pub proof fn lemma_percentile_rank(s: Seq<u64>, p: nat)
    requires
        s.len() > 0,
        p < 100,
    ensures
        s.contains(percentile_of(s, p)),
        100 * below(s, percentile_of(s, p)) <= p * s.len(),
        100 * up_to(s, percentile_of(s, p)) > p * s.len(),
{
    let n = s.len();
    let k = p * n / 100;
    let t = sorted_values(s);
    lemma_sorted_values(s);
    assert(p * n < 100 * n) by (nonlinear_arith)
        requires
            p < 100,
            n > 0,
    ;
    assert(k < n);
    let v = t[k as int];
    assert(percentile_of(s, p) == v);
    lemma_counts_of_sorted(t, k as int);
    lemma_counts_by_contents(s, t, v);
}

/// Without samples every percentile is zero; of one sample it is that sample.
pub proof fn lemma_percentile_of_few(p: nat, x: u64)
    ensures
        percentile_of(Seq::empty(), p) == 0,
        percentile_of(seq![x], p) == x,
{
    lemma_sorted_values(seq![x]);
    let t = sorted_values(seq![x]);
    assert(seq![x].contains(t[0]));
}

/// A window holds one sample more until it is full, and then drops its oldest one.
pub proof fn lemma_window_drops_the_oldest(s: Seq<u64>, max: nat, x: u64)
    requires
        0 < max,
        s.len() <= max,
    ensures
        s.len() < max ==> windowed(s, max, x) == s.push(x),
        s.len() == max ==> windowed(s, max, x).len() == max && windowed(s, max, x).drop_last()
            == s.drop_first(),
{
    if s.len() == max {
        assert(windowed(s, max, x).drop_last() =~= s.drop_first());
    }
}

/// The remembered operations are the newest hundred, in order.
pub proof fn lemma_newest_operations_are_remembered(
    ops: Seq<MappingOperationStats>,
    op: MappingOperationStats,
)
    requires
        ops.len() <= 100,
    ensures
        remembered(ops, op).last() == op,
        ops.len() < 100 ==> remembered(ops, op).drop_last() == ops,
        ops.len() == 100 ==> remembered(ops, op).len() == 100 && remembered(ops, op).drop_last()
            == ops.drop_first(),
{
    if ops.len() == 100 {
        assert(remembered(ops, op).drop_last() =~= ops.drop_first());
    } else {
        assert(remembered(ops, op).drop_last() =~= ops);
    }
}

/// Each thing that is counted raises one count of its protocol by one, by its outcome,
/// and no other.
pub proof fn lemma_one_count_is_raised(s: ProtocolStats, success: bool)
    requires
        s.mapping_success < u64::MAX,
        s.mapping_failure < u64::MAX,
        s.renew_success < u64::MAX,
        s.renew_failure < u64::MAX,
        s.discover_success < u64::MAX,
        s.discover_failure < u64::MAX,
    ensures
        ({
            let m = s.with_mapping(success);
            let r = s.with_renew(success);
            let d = s.with_discover(success);
            let one = if success {
                1int
            } else {
                0
            };
            &&& m.mapping_success == s.mapping_success + one
            &&& m.mapping_failure == s.mapping_failure + 1 - one
            &&& m.renew_success == s.renew_success && m.renew_failure == s.renew_failure
            &&& m.discover_success == s.discover_success && m.discover_failure == s.discover_failure
            &&& r.renew_success == s.renew_success + one
            &&& r.renew_failure == s.renew_failure + 1 - one
            &&& r.mapping_success == s.mapping_success && r.mapping_failure == s.mapping_failure
            &&& r.discover_success == s.discover_success && r.discover_failure == s.discover_failure
            &&& d.discover_success == s.discover_success + one
            &&& d.discover_failure == s.discover_failure + 1 - one
            &&& d.mapping_success == s.mapping_success && d.mapping_failure == s.mapping_failure
            &&& d.renew_success == s.renew_success && d.renew_failure == s.renew_failure
        }),
{
}

/// The sums of a summary follow what is counted for any one protocol: each changes by
/// as much as that protocol's own count of the same name.
pub proof fn lemma_summary_follows_the_counts(
    before: NatMetricsExt,
    after: NatMetricsExt,
    protocol: String,
    value: ProtocolStats,
    up: u64,
)
    requires
        before.wf(),
        before.totals_fit(),
        after.totals_fit(),
        after.protocol_stats.entries@ == crate::string_map::entries_with(
            before.protocol_stats.entries@,
            protocol,
            value,
        ),
    ensures
        ({
            let x = before.summary_of(up);
            let y = after.summary_of(up);
            let had = stats_of(before.protocol_stats@, protocol@);
            &&& y.total_mapping_success - x.total_mapping_success == value.mapping_success
                - had.mapping_success
            &&& y.total_mapping_failure - x.total_mapping_failure == value.mapping_failure
                - had.mapping_failure
            &&& y.renew_success - x.renew_success == value.renew_success - had.renew_success
            &&& y.renew_failure - x.renew_failure == value.renew_failure - had.renew_failure
            &&& y.discover_success - x.discover_success == value.discover_success
                - had.discover_success
            &&& y.discover_failure - x.discover_failure == value.discover_failure
                - had.discover_failure
            &&& x.uptime_seconds == up
        }),
{
    let m = before.protocol_stats;
    lemma_totals_follow_counts(m, protocol, value, mapping_successes());
    lemma_totals_follow_counts(m, protocol, value, mapping_failures());
    lemma_totals_follow_counts(m, protocol, value, renew_successes());
    lemma_totals_follow_counts(m, protocol, value, renew_failures());
    lemma_totals_follow_counts(m, protocol, value, discover_successes());
    lemma_totals_follow_counts(m, protocol, value, discover_failures());
}

/// The percentiles of a summary are those of the mapping latencies under their names,
/// beside their sum, their number and the checks that were counted.
pub proof fn lemma_summary_of_latencies(m: NatMetricsExt, up: u64)
    requires
        m.wf(),
        m.mapping_latency.samples@.len() > 0,
        m.protocol_stats.entries@.len() <= usize::MAX,
    ensures
        ({
            let s = m.mapping_latency.samples@;
            let x = m.summary_of(up);
            &&& 100 * below(s, x.mapping_latency_p50) <= 50 * s.len() < 100 * up_to(
                s,
                x.mapping_latency_p50,
            )
            &&& 100 * below(s, x.mapping_latency_p95) <= 95 * s.len() < 100 * up_to(
                s,
                x.mapping_latency_p95,
            )
            &&& 100 * below(s, x.mapping_latency_p99) <= 99 * s.len() < 100 * up_to(
                s,
                x.mapping_latency_p99,
            )
            &&& x.mapping_latency_sum == m.mapping_latency.sum
            &&& x.mapping_latency_count == s.len()
            &&& x.reachability_checks == m.reachability_checks
            &&& x.reachability_success == m.reachability_success
            &&& x.protocol_count == m.protocol_stats.entries@.len()
        }),
{
    let s = m.mapping_latency.samples@;
    lemma_percentile_rank(s, 50);
    lemma_percentile_rank(s, 95);
    lemma_percentile_rank(s, 99);
}

/// Whether this is the smallest sample, or zero where there is none.
pub open spec fn is_least(samples: Seq<u64>, r: u64) -> bool {
    &&& samples.len() == 0 ==> r == 0
    &&& samples.len() > 0 ==> samples.contains(r) && forall|i: int|
        0 <= i < samples.len() ==> r <= #[trigger] samples[i]
}

/// Whether this is the largest sample, or zero where there is none.
pub open spec fn is_greatest(samples: Seq<u64>, r: u64) -> bool {
    &&& samples.len() == 0 ==> r == 0
    &&& samples.len() > 0 ==> samples.contains(r) && forall|i: int|
        0 <= i < samples.len() ==> r >= #[trigger] samples[i]
}

/// The checks, and the successful ones, after one more.
pub open spec fn checked(checks: int, successes: int, success: bool) -> (int, int) {
    (
        checks + 1,
        successes + if success {
            1int
        } else {
            0
        },
    )
}

/// The time in each state after a stay in one of them.
pub open spec fn lengthened(m: Map<Seq<char>, u64>, name: Seq<char>, ms: u64) -> Map<
    Seq<char>,
    u64,
> {
    m.insert(
        name,
        if m.dom().contains(name) {
            (m[name] + ms) as u64
        } else {
            ms
        },
    )
}

/// No sample is below the smallest or above the largest, and both are samples.
pub proof fn lemma_least_and_greatest(samples: Seq<u64>, least: u64, greatest: u64, i: int)
    requires
        is_least(samples, least),
        is_greatest(samples, greatest),
    ensures
        0 <= i < samples.len() ==> least <= samples[i] <= greatest,
        samples.len() > 0 ==> samples.contains(least) && samples.contains(greatest),
        samples.len() == 0 ==> least == 0 && greatest == 0,
{
}

/// Every check counts, and every successful one counts as that too.
pub proof fn lemma_checks_count(checks: int, successes: int)
    ensures
        checked(checks, successes, true) == (checks + 1, successes + 1),
        checked(checks, successes, false) == (checks + 1, successes),
{
}

/// A stay makes the time in its own state longer by itself, and no other.
pub proof fn lemma_stays_add_up(
    m: Map<Seq<char>, u64>,
    name: Seq<char>,
    other: Seq<char>,
    a: u64,
    b: u64,
)
    requires
        a + b <= u64::MAX,
        !m.dom().contains(name),
        other != name,
    ensures
        lengthened(m, name, a)[name] == a,
        lengthened(lengthened(m, name, a), name, b)[name] == a + b,
        lengthened(m, name, a).dom().contains(other) == m.dom().contains(other),
        m.dom().contains(other) ==> lengthened(m, name, a)[other] == m[other],
{
}

/// The sum of samples is that of any two parts of them.
pub proof fn lemma_sums_add_up(a: Seq<u64>, b: Seq<u64>, x: u64)
    ensures
        sum_of(a + b) == sum_of(a) + sum_of(b),
        sum_of(seq![x]) == x,
        sum_of(Seq::empty()) == 0,
    decreases b.len(),
{
    reveal_with_fuel(sum_of, 2);
    assert(seq![x].drop_last() =~= Seq::empty());
    if b.len() > 0 {
        assert((a + b).drop_last() =~= a + b.drop_last());
        lemma_sums_add_up(a, b.drop_last(), x);
    } else {
        assert(a + b =~= a);
    }
}

/// Latencies that are in order are no more than there is room for, and their sum is kept.
pub proof fn lemma_latencies_in_order(l: LatencyStats)
    requires
        l.wf(),
    ensures
        l.samples@.len() <= l.max_samples,
        l.sum == sum_of(l.samples@),
{
}

/// Whether these are the newest operations, the last one first.
pub open spec fn are_newest(
    ops: Seq<MappingOperationStats>,
    n: nat,
    r: Seq<MappingOperationStats>,
) -> bool {
    &&& r.len() == if n <= ops.len() {
        n
    } else {
        ops.len()
    }
    &&& forall|j: int| 0 <= j < r.len() ==> (#[trigger] r[j]).same(ops[ops.len() - 1 - j])
}

/// The newest operation comes first, and there are as many as were asked for, or all.
pub proof fn lemma_newest_operation_first(
    ops: Seq<MappingOperationStats>,
    op: MappingOperationStats,
    n: nat,
    r: Seq<MappingOperationStats>,
)
    requires
        n > 0,
        are_newest(ops.push(op), n, r),
    ensures
        r.len() > 0,
        r[0].same(op),
        r.len() == n || r.len() == ops.len() + 1,
        r.len() <= n,
        r.len() > 1 ==> r[1].same(ops.last()),
{
    assert(r[0].same(ops.push(op)[ops.len() as int]));
    if r.len() > 1 {
        assert(r[1].same(ops.push(op)[ops.len() - 1]));
    }
}

/// What is counted.
pub enum OperationKind {
    /// A mapping.
    Mapping,
    /// The renewal of a mapping.
    Renewal,
    /// The search for a gateway.
    Discovery,
}

/// The counts after an operation of a protocol.
pub open spec fn counted_for(
    m: Map<Seq<char>, ProtocolStats>,
    protocol: Seq<char>,
    kind: OperationKind,
    success: bool,
) -> Map<Seq<char>, ProtocolStats> {
    let had = stats_of(m, protocol);
    m.insert(
        protocol,
        match kind {
            OperationKind::Mapping => had.with_mapping(success),
            OperationKind::Renewal => had.with_renew(success),
            OperationKind::Discovery => had.with_discover(success),
        },
    )
}

/// An operation is counted for its own protocol and its own kind, once, and for no other;
/// a protocol that was not known begins at nothing.
pub proof fn lemma_operations_are_counted(
    m: Map<Seq<char>, ProtocolStats>,
    protocol: Seq<char>,
    other: Seq<char>,
    kind: OperationKind,
)
    requires
        other != protocol,
        !m.dom().contains(protocol),
    ensures
        ({
            let good = counted_for(m, protocol, kind, true);
            let bad = counted_for(m, protocol, kind, false);
            let g = good[protocol];
            let b = bad[protocol];
            &&& good.dom().contains(protocol) && bad.dom().contains(protocol)
            &&& g.mapping_success == (if kind is Mapping {
                1int
            } else {
                0
            })
            &&& g.renew_success == (if kind is Renewal {
                1int
            } else {
                0
            })
            &&& g.discover_success == (if kind is Discovery {
                1int
            } else {
                0
            })
            &&& g.mapping_failure == 0 && g.renew_failure == 0 && g.discover_failure == 0
            &&& b.mapping_failure == g.mapping_success && b.renew_failure == g.renew_success
                && b.discover_failure == g.discover_success
            &&& b.mapping_success == 0 && b.renew_success == 0 && b.discover_success == 0
            &&& good.dom().contains(other) == m.dom().contains(other)
            &&& m.dom().contains(other) ==> good[other] == m[other] && bad[other] == m[other]
        }),
{
}

/// An operation of a known protocol raises one of its counts by one.
pub proof fn lemma_known_protocols_count_on(
    m: Map<Seq<char>, ProtocolStats>,
    protocol: Seq<char>,
    success: bool,
)
    requires
        m.dom().contains(protocol),
    ensures
        counted_for(m, protocol, OperationKind::Mapping, success)[protocol]
            == m[protocol].with_mapping(success),
        counted_for(m, protocol, OperationKind::Renewal, success)[protocol]
            == m[protocol].with_renew(success),
        counted_for(m, protocol, OperationKind::Discovery, success)[protocol]
            == m[protocol].with_discover(success),
{
}

/// A total is the sum over the entries, and nothing where there is none.
pub proof fn lemma_totals_over_entries(
    es: Seq<(String, ProtocolStats)>,
    e: (String, ProtocolStats),
    f: spec_fn(ProtocolStats) -> u64,
)
    ensures
        total_of(es.push(e), f) == total_of(es, f) + f(e.1),
        total_of(Seq::empty(), f) == 0,
{
    assert(es.push(e).drop_last() =~= es);
}

/// The totals of a summary are each of its own count.
pub proof fn lemma_counts_of_totals(s: ProtocolStats)
    ensures
        mapping_successes()(s) == s.mapping_success,
        mapping_failures()(s) == s.mapping_failure,
        renew_successes()(s) == s.renew_success,
        renew_failures()(s) == s.renew_failure,
        discover_successes()(s) == s.discover_success,
        discover_failures()(s) == s.discover_failure,
{
}

} // verus!
