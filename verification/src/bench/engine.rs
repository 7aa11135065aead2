//! Sending requests at a steady rate, and stopping in time.

use vstd::multiset::*;
use vstd::prelude::*;

use crate::bench::metrics::{latencies, with_latency, MetricsCollector};
use crate::string_map::StringMap;
use crate::time::{secs, Duration};

verus! {

/// How a run is made.
#[derive(Debug)]
pub struct BenchConfig {
    pub target: String,
    /// Requests per second, zero for as many as possible.
    pub qps: u32,
    /// How many workers send requests.
    pub concurrency: u32,
    /// How long requests are sent.
    pub duration: Duration,
    /// How long a request may take.
    pub request_timeout: Duration,
    /// How often progress is told.
    pub progress_interval: Duration,
    /// What the command line says to the scenario.
    pub args: StringMap<String>,
}

impl Default for BenchConfig {
    fn default() -> (r: Self)
        ensures
            r.target@ == "127.0.0.1:6880"@,
            r.qps == 1000,
            r.concurrency == 50,
            r.duration@ == secs(60),
            r.request_timeout@ == secs(5),
            r.progress_interval@ == secs(5),
            r.args@ == Map::<Seq<char>, String>::empty(),
    {
        BenchConfig {
            target: "127.0.0.1:6880".to_owned(),
            qps: 1000,
            concurrency: 50,
            duration: Duration::from_secs(60),
            request_timeout: Duration::from_secs(5),
            progress_interval: Duration::from_secs(5),
            args: StringMap::new(),
        }
    }
}

/// How a request ended.
#[derive(Debug, Clone, Copy, PartialEq, Eq, Structural)]
pub enum RequestOutcome {
    Done,
    Failed,
    TimedOut,
}

/// Counts how a request ended. A scenario that keeps its own counts is only
/// helped out where its request was not even sent.
pub fn record_outcome(
    metrics: &mut MetricsCollector,
    manages_own_metrics: bool,
    outcome: RequestOutcome,
    latency: &Duration,
)
    requires
        old(metrics).wf(),
        old(metrics).total_requests < u64::MAX,
    ensures
        (
            final(metrics).total_requests as int,
            final(metrics).success_count as int,
            final(metrics).failure_count as int,
            final(metrics).timeout_count as int,
        ) == counted_outcome(
            old(metrics).total_requests as int,
            old(metrics).success_count as int,
            old(metrics).failure_count as int,
            old(metrics).timeout_count as int,
            manages_own_metrics,
            outcome,
        ),
        final(metrics).wf(),
        match outcome {
            RequestOutcome::Done => if manages_own_metrics {
                *final(metrics) == *old(metrics)
            } else {
                &&& final(metrics).total_requests == old(metrics).total_requests + 1
                &&& final(metrics).success_count == old(metrics).success_count + 1
                &&& final(metrics).failure_count == old(metrics).failure_count
                &&& final(metrics).timeout_count == old(metrics).timeout_count
                &&& latencies(final(metrics).histogram) == with_latency(
                    latencies(old(metrics).histogram),
                    latency@,
                )
            },
            RequestOutcome::Failed => *final(metrics) == (MetricsCollector {
                total_requests: (old(metrics).total_requests + 1) as u64,
                failure_count: (old(metrics).failure_count + 1) as u64,
                ..*old(metrics)
            }),
            RequestOutcome::TimedOut => *final(metrics) == (MetricsCollector {
                total_requests: (old(metrics).total_requests + 1) as u64,
                timeout_count: (old(metrics).timeout_count + 1) as u64,
                ..*old(metrics)
            }),
        },
{
    match outcome {
        RequestOutcome::Done => {
            if !manages_own_metrics {
                metrics.record_success(latency);
            }
        },
        RequestOutcome::Failed => {
            metrics.record_failure();
        },
        RequestOutcome::TimedOut => {
            metrics.record_timeout();
        },
    }
}

/// Keeps a worker's requests apart.
#[derive(Debug, Clone, Copy)]
pub struct Pace {
    /// Nanoseconds between two requests; none is kept below a microsecond.
    pub interval_ns: u64,
    /// When the next request is due, in nanoseconds on the worker's clock.
    pub next_send_ns: u64,
}

impl Pace {
    /// The pace after one more request.
    pub open spec fn moved_on(self) -> Pace {
        if self.interval_ns < 1000 {
            self
        } else {
            Pace { next_send_ns: (self.next_send_ns + self.interval_ns) as u64, ..self }
        }
    }

    /// How long to wait at the given time before the next request.
    pub open spec fn wait_at(self, now_ns: u64) -> u64 {
        if self.interval_ns >= 1000 && self.next_send_ns > now_ns {
            (self.next_send_ns - now_ns) as u64
        } else {
            0
        }
    }

    /// The pace after `n` more requests.
    pub open spec fn after(self, n: nat) -> Pace
        decreases n,
    {
        if n == 0 {
            self
        } else {
            self.after((n - 1) as nat).moved_on()
        }
    }

    /// The first request is due now.
    pub fn new(interval_ns: u64, now_ns: u64) -> (r: Self)
        ensures
            r == (Pace { interval_ns, next_send_ns: now_ns }),
    {
        Pace { interval_ns, next_send_ns: now_ns }
    }

    /// How long to wait before the next request, and when the one after it is
    /// due. One that is late is sent at once, and those after it catch up.
    pub fn next(&mut self, now_ns: u64) -> (r: u64)
        requires
            old(self).interval_ns >= 1000 ==> old(self).next_send_ns + old(self).interval_ns
                <= u64::MAX,
        ensures
            *final(self) == old(self).moved_on(),
            r == old(self).wait_at(now_ns),
    {
        if self.interval_ns < 1000 {
            return 0;
        }
        let wait: u64 = if self.next_send_ns > now_ns {
            self.next_send_ns - now_ns
        } else {
            0
        };
        self.next_send_ns = self.next_send_ns + self.interval_ns;
        wait
    }
}

/// After `n` requests the next one is due `n` intervals after the first, whenever
/// those before were really sent, and it is sent no earlier: at the time that it is
/// due, or at once where that has passed.
pub proof fn lemma_steady_pace(pace: Pace, n: nat, now_ns: u64)
    requires
        pace.interval_ns >= 1000,
        pace.next_send_ns + n * pace.interval_ns <= u64::MAX,
    ensures
        pace.after(n).interval_ns == pace.interval_ns,
        pace.after(n).next_send_ns == pace.next_send_ns + n * pace.interval_ns,
        now_ns + pace.after(n).wait_at(now_ns) == if now_ns <= pace.after(n).next_send_ns {
            pace.after(n).next_send_ns as int
        } else {
            now_ns as int
        },
    decreases n,
{
    if n > 0 {
        let m = (n - 1) as nat;
        assert(n * pace.interval_ns == m * pace.interval_ns + pace.interval_ns) by (nonlinear_arith)
            requires
                n == m + 1,
        ;
        lemma_steady_pace(pace, m, now_ns);
    } else {
        assert(n * pace.interval_ns == 0) by (nonlinear_arith)
            requires
                n == 0,
        ;
    }
}

/// What is told of the progress.
#[derive(Debug, Clone, Copy, PartialEq, Eq, Structural)]
pub struct ProgressStep {
    /// Requests since the last time.
    pub delta: u64,
    /// Whether the run is over.
    pub stop: bool,
}

/// Takes stock after so long, given the counts of this time and the last.
pub fn progress(last_total: u64, total: u64, elapsed: &Duration, duration: &Duration) -> (r:
    ProgressStep)
    requires
        last_total <= total,
    ensures
        r.stop == is_over(elapsed@, duration@),
        r.delta == total - last_total,
        r.stop == (elapsed@ >= duration@),
{
    ProgressStep { delta: total - last_total, stop: !elapsed.is_shorter(duration) }
}

/// A step of a run.
#[derive(Debug, Clone, Copy, PartialEq, Eq, Structural)]
pub enum RunStep {
    /// Prepare the scenario; where that fails, so does the run.
    Setup,
    /// Begin to tell the progress.
    StartProgress,
    /// Start the worker with this number.
    StartWorker(u32),
    /// Wait until the time is over.
    AwaitStop,
    /// Wait for the worker with this number.
    JoinWorker(u32),
    /// Clean up after the scenario; where that fails, so does the run.
    Teardown,
    /// Take the result.
    Collect,
}

/// The steps of a run with so many workers.
pub open spec fn run_steps(concurrency: u32) -> Seq<RunStep> {
    seq![RunStep::Setup, RunStep::StartProgress] + Seq::new(
        concurrency as nat,
        |i: int| RunStep::StartWorker(i as u32),
    ) + seq![RunStep::AwaitStop] + Seq::new(
        concurrency as nat,
        |i: int| RunStep::JoinWorker(i as u32),
    ) + seq![RunStep::Teardown, RunStep::Collect]
}

/// Plans a run.
pub fn plan_run(concurrency: u32) -> (r: Vec<RunStep>)
    ensures
        r@ == run_steps(concurrency),
{
    let ghost p0 = seq![RunStep::Setup, RunStep::StartProgress];
    let mut out: Vec<RunStep> = Vec::new();
    out.push(RunStep::Setup);
    out.push(RunStep::StartProgress);
    let mut i: u32 = 0;
    proof {
        assert(out@ =~= p0 + Seq::new(0, |i: int| RunStep::StartWorker(i as u32)));
    }
    while i < concurrency
        invariant
            i <= concurrency,
            out@ == p0 + Seq::new(i as nat, |i: int| RunStep::StartWorker(i as u32)),
        decreases concurrency - i,
    {
        out.push(RunStep::StartWorker(i));
        i = i + 1;
        proof {
            assert(out@ =~= p0 + Seq::new(i as nat, |i: int| RunStep::StartWorker(i as u32)));
        }
    }
    out.push(RunStep::AwaitStop);
    let ghost p1 = out@;
    let mut j: u32 = 0;
    proof {
        assert(out@ =~= p1 + Seq::new(0, |i: int| RunStep::JoinWorker(i as u32)));
    }
    while j < concurrency
        invariant
            j <= concurrency,
            out@ == p1 + Seq::new(j as nat, |i: int| RunStep::JoinWorker(i as u32)),
        decreases concurrency - j,
    {
        out.push(RunStep::JoinWorker(j));
        j = j + 1;
        proof {
            assert(out@ =~= p1 + Seq::new(j as nat, |i: int| RunStep::JoinWorker(i as u32)));
        }
    }
    out.push(RunStep::Teardown);
    out.push(RunStep::Collect);
    proof {
        assert(out@ =~= run_steps(concurrency));
    }
    out
}

/// Whether a run goes on.
#[derive(Debug, Clone, Copy, PartialEq, Eq, Structural)]
pub enum RunVerdict {
    /// With the next step.
    Continue,
    /// It ends here, with the error of the step.
    Abort,
}

/// What a step leads to.
pub open spec fn run_verdict(step: RunStep, ok: bool) -> RunVerdict {
    if !ok && (step is Setup || step is Teardown) {
        RunVerdict::Abort
    } else {
        RunVerdict::Continue
    }
}

/// What a step leads to: a run whose scenario could not be prepared or cleaned up
/// after ends with that error.
pub fn on_run_step(step: RunStep, ok: bool) -> (r: RunVerdict)
    ensures
        r == run_verdict(step, ok),
{
    if ok {
        return RunVerdict::Continue;
    }
    match step {
        RunStep::Setup => RunVerdict::Abort,
        RunStep::Teardown => RunVerdict::Abort,
        _ => RunVerdict::Continue,
    }
}

/// The steps that are made, given which of them go well: all up to the first that
/// ends the run.
pub open spec fn steps_made(steps: Seq<RunStep>, ok: spec_fn(RunStep) -> bool) -> Seq<RunStep>
    decreases steps.len(),
{
    if steps.len() == 0 {
        Seq::empty()
    } else if run_verdict(steps[0], ok(steps[0])) is Abort {
        seq![steps[0]]
    } else {
        seq![steps[0]] + steps_made(steps.drop_first(), ok)
    }
}

proof fn lemma_made_up_to(
    steps: Seq<RunStep>,
    rest: Seq<RunStep>,
    ok: spec_fn(RunStep) -> bool,
)
    requires
        forall|i: int|
            0 <= i < steps.len() ==> run_verdict(#[trigger] steps[i], ok(steps[i])) is Continue,
    ensures
        steps_made(steps + rest, ok) == steps + steps_made(rest, ok),
    decreases steps.len(),
{
    let all = steps + rest;
    if steps.len() > 0 {
        let d = steps.drop_first();
        assert forall|i: int| 0 <= i < d.len() implies run_verdict(
            #[trigger] d[i],
            ok(d[i]),
        ) is Continue by {
            assert(d[i] == steps[i + 1]);
        }
        assert(run_verdict(steps[0], ok(steps[0])) is Continue);
        lemma_made_up_to(d, rest, ok);
        assert(all.drop_first() =~= d + rest);
        assert(seq![steps[0]] + (d + steps_made(rest, ok)) =~= steps + steps_made(rest, ok));
    } else {
        assert(all =~= rest);
        assert(steps + steps_made(rest, ok) =~= steps_made(rest, ok));
    }
}

/// Where the preparation fails, it is the only step: no request is sent and nothing
/// is cleaned up. Else every step up to the cleaning up is made, and the result is
/// taken exactly where that goes well.
pub proof fn lemma_run_ends_with_its_error(concurrency: u32, ok: spec_fn(RunStep) -> bool)
    ensures
        !ok(RunStep::Setup) ==> steps_made(run_steps(concurrency), ok) == seq![RunStep::Setup],
        ok(RunStep::Setup) && !ok(RunStep::Teardown) ==> steps_made(run_steps(concurrency), ok)
            == run_steps(concurrency).drop_last(),
        ok(RunStep::Setup) && ok(RunStep::Teardown) ==> steps_made(run_steps(concurrency), ok)
            == run_steps(concurrency),
{
    let steps = run_steps(concurrency);
    let head = steps.take(steps.len() - 2);
    let tail = seq![RunStep::Teardown, RunStep::Collect];
    assert(steps =~= head + tail);
    assert(steps[0] == RunStep::Setup);
    if ok(RunStep::Setup) {
        assert forall|i: int| 0 <= i < head.len() implies run_verdict(
            #[trigger] head[i],
            ok(head[i]),
        ) is Continue by {
            assert(head[i] == steps[i]);
        }
        lemma_made_up_to(head, tail, ok);
        assert(tail.drop_first() =~= seq![RunStep::Collect]);
        assert(tail.drop_first().drop_first() =~= Seq::empty());
        reveal_with_fuel(steps_made, 3);
        if ok(RunStep::Teardown) {
            assert(steps_made(tail, ok) =~= tail);
        } else {
            assert(steps_made(tail, ok) =~= seq![RunStep::Teardown]);
            assert(head + seq![RunStep::Teardown] =~= steps.drop_last());
        }
    }
}

/// Every worker that is started is waited for, after the time is over and before
/// the result is taken.
pub proof fn lemma_workers_are_joined(concurrency: u32, i: int)
    requires
        0 <= i < concurrency,
    ensures
        run_steps(concurrency)[2 + i] == RunStep::StartWorker(i as u32),
        run_steps(concurrency)[2 + concurrency as int] == RunStep::AwaitStop,
        run_steps(concurrency)[3 + concurrency as int + i] == RunStep::JoinWorker(i as u32),
        run_steps(concurrency).last() == RunStep::Collect,
{
}

/// The requests in all, the successes, the failures and the timeouts after one more
/// outcome.
pub open spec fn counted_outcome(
    total: int,
    succeeded: int,
    failed: int,
    timed_out: int,
    manages_own_metrics: bool,
    outcome: RequestOutcome,
) -> (int, int, int, int) {
    match outcome {
        RequestOutcome::Done => if manages_own_metrics {
            (total, succeeded, failed, timed_out)
        } else {
            (total + 1, succeeded + 1, failed, timed_out)
        },
        RequestOutcome::Failed => (total + 1, succeeded, failed + 1, timed_out),
        RequestOutcome::TimedOut => (total + 1, succeeded, failed, timed_out + 1),
    }
}

/// Whether a run has lasted as long as it should.
pub open spec fn is_over(elapsed: nat, duration: nat) -> bool {
    elapsed >= duration
}

/// Each outcome counts once in all and once for what it was; only the success of a
/// scenario that counts by itself is not counted again.
pub proof fn lemma_each_outcome_counts_once(
    t: int,
    s: int,
    f: int,
    o: int,
    own: bool,
    outcome: RequestOutcome,
)
    ensures
        ({
            let r = counted_outcome(t, s, f, o, own, outcome);
            &&& r.0 - t == (r.1 - s) + (r.2 - f) + (r.3 - o)
            &&& r.0 == t <==> own && outcome is Done
            &&& r.0 == t || r.0 == t + 1
            &&& r.1 == s + 1 <==> outcome is Done && !own
            &&& r.2 == f + 1 <==> outcome is Failed
            &&& r.3 == o + 1 <==> outcome is TimedOut
        }),
{
}

/// A run ends the moment its time is reached, and not before.
pub proof fn lemma_run_lasts_its_time(elapsed: nat, duration: nat)
    ensures
        is_over(elapsed, duration) <==> !(elapsed < duration),
        is_over(duration, duration),
{
}

/// A pace of less than a microsecond is none: nothing waits, and nothing is put off.
pub proof fn lemma_fastest_pace(pace: Pace, now_ns: u64)
    ensures
        pace.interval_ns < 1000 ==> pace.moved_on() == pace && pace.wait_at(now_ns) == 0,
        pace.wait_at(now_ns) > 0 ==> now_ns + pace.wait_at(now_ns) == pace.next_send_ns
            && pace.interval_ns >= 1000,
{
}

/// What can end a run before its steps are done is a failure to set it up or to clear it
/// away, and nothing else.
pub proof fn lemma_what_ends_a_run(step: RunStep, ok: bool)
    ensures
        run_verdict(step, ok) is Abort <==> !ok && (step is Setup || step is Teardown),
        run_steps(0).len() == 5,
        run_steps(0)[0] is Setup && run_steps(0)[1] is StartProgress && run_steps(0)[2] is AwaitStop
            && run_steps(0)[3] is Teardown && run_steps(0)[4] is Collect,
{
}

/// A run sets up first, clears away only when every worker was joined, and collects last.
pub proof fn lemma_order_of_a_run(concurrency: u32)
    ensures
        run_steps(concurrency).len() == 2 * concurrency + 5,
        run_steps(concurrency)[0] is Setup,
        run_steps(concurrency)[1] is StartProgress,
        run_steps(concurrency)[2 * concurrency + 3] is Teardown,
        run_steps(concurrency)[2 * concurrency + 4] is Collect,
{
}

} // verus!
