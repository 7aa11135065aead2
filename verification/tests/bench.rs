use pnos_sdk::bench::cli::{
    log_level, parse_args, parse_duration, parse_trimmed_duration, report_format, LogLevel,
};
use pnos_sdk::bench::echo::{reply, ECHO_CONNECTION_ID};
use pnos_sdk::bench::engine::{
    on_run_step, plan_run, progress, record_outcome, BenchConfig, Pace, RequestOutcome, RunStep,
    RunVerdict,
};
use pnos_sdk::bench::http::{HttpMethod, HttpScenario, NoUrl};
use pnos_sdk::bench::metrics::MetricsCollector;
use pnos_sdk::bench::report::{latency_line, latency_verdict, right_aligned, LatencyVerdict, ReportFormat};
use pnos_sdk::bench::scenario::{BenchContext, ScenarioRegistry};
use pnos_sdk::bench::udp_tracker::{
    build_announce, build_connect, build_scrape, pool_size, udp_announce, udp_connect, udp_scrape,
    TrackerAction, TrackerError, UdpTrackerScenario,
};
use pnos_sdk::string_map::StringMap;
use pnos_sdk::time::Duration;

fn s(x: &str) -> String {
    x.to_string()
}

fn context(args: &[&str]) -> BenchContext {
    BenchContext::new(1000, 50, parse_args(&args.iter().map(|x| s(x)).collect()))
}

#[test]
fn durations_are_read() {
    let secs = |x: &str| parse_duration(x).unwrap().as_secs();
    assert_eq!(secs("60s"), 60);
    assert_eq!(secs(" 5m\n"), 300);
    assert_eq!(secs("1h"), 3600);
    assert_eq!(secs("7"), 7);
    assert_eq!(secs("xs"), 60);
    assert_eq!(secs("xm"), 60);
    assert_eq!(secs("xh"), 3600);
    assert_eq!(secs(""), 60);
    assert!(parse_duration("18446744073709551615h").is_none());
    assert_eq!(parse_trimmed_duration("2m").as_secs(), 120);
}

#[test]
fn arguments_are_read() {
    let m = parse_args(&vec![s("a=1"), s("b"), s("a=2=3"), s("=x")]);
    assert_eq!(m.len(), 2);
    assert_eq!(m.get("a"), Some(&s("2=3")));
    assert_eq!(m.get(""), Some(&s("x")));
    assert_eq!(report_format("json"), ReportFormat::Json);
    assert_eq!(report_format("xml"), ReportFormat::Text);
    assert_eq!(log_level("warn"), LogLevel::Warn);
    assert_eq!(log_level("loud"), LogLevel::Info);
}

#[test]
fn requests_are_counted_once() {
    let mut m = MetricsCollector::new();
    record_outcome(&mut m, false, RequestOutcome::Done, &Duration::from_millis(3));
    record_outcome(&mut m, false, RequestOutcome::Done, &Duration::from_nanos(10));
    record_outcome(&mut m, false, RequestOutcome::Done, &Duration::from_secs(100));
    record_outcome(&mut m, true, RequestOutcome::Done, &Duration::from_millis(3));
    record_outcome(&mut m, true, RequestOutcome::Failed, &Duration::from_millis(3));
    record_outcome(&mut m, false, RequestOutcome::TimedOut, &Duration::from_millis(3));
    assert_eq!(m.snapshot(), (5, 3, 1, 1));
    let _copy = m.histogram_snapshot();
    let r = m.into_result(s("x"), s("t"), Duration::from_secs(9), 100);
    assert_eq!((r.total_requests, r.target_qps, r.scenario_name.as_str()), (5, 100, "x"));
    // A hundred seconds are too long to be kept.
    let kept = r.recorded_latencies();
    assert_eq!(kept, vec![(1, 1), (3001, 1)]);
    assert_eq!(r.latency_max(), 3001);
}

#[test]
fn latencies_are_kept_to_three_digits() {
    let mut m = MetricsCollector::new();
    assert_eq!(MetricsCollector::new().into_result(s("x"), s("t"), Duration::from_secs(1), 1).latency_max(), 0);
    m.record_success(&Duration::from_nanos(2_047_000));
    m.record_success(&Duration::from_nanos(2_049_000));
    m.record_success(&Duration::from_nanos(10_000_000_000));
    m.record_success(&Duration::from_nanos(16_777_215_999));
    m.record_success(&Duration::from_nanos(16_777_216_000));
    let r = m.into_result(s("x"), s("t"), Duration::from_secs(20), 1);
    assert_eq!(r.success_count, 5);
    assert_eq!(
        r.recorded_latencies(),
        vec![(2047, 1), (2049, 1), (10_002_431, 1), (16_777_215, 1)],
    );
    assert_eq!(r.latency_max(), 16_777_215);
}

#[test]
fn pace_is_steady_and_catches_up() {
    let mut p = Pace::new(5000, 100);
    assert_eq!(p.next(100), 0);
    assert_eq!(p.next(200), 4900);
    assert_eq!(p.next(20_000), 0);
    assert_eq!(p.next(15_000), 100);
    let mut free = Pace::new(0, 100);
    assert_eq!(free.next(5), 0);
    assert_eq!(free.next_send_ns, 100);
    let step = progress(10, 25, &Duration::from_secs(5), &Duration::from_secs(5));
    assert_eq!((step.delta, step.stop), (15, true));
    assert!(!progress(0, 0, &Duration::from_secs(4), &Duration::from_secs(5)).stop);
}

#[test]
fn only_setup_and_teardown_end_a_run() {
    for step in plan_run(2) {
        assert_eq!(on_run_step(step, true), RunVerdict::Continue);
        let fatal = step == RunStep::Setup || step == RunStep::Teardown;
        let expected = if fatal { RunVerdict::Abort } else { RunVerdict::Continue };
        assert_eq!(on_run_step(step, false), expected);
    }
}

#[test]
fn requests_are_due_at_even_distances() {
    let mut p = Pace::new(2_000, 500);
    for n in 0..5u64 {
        assert_eq!(p.next_send_ns, 500 + n * 2_000);
        assert_eq!(p.next(0), 500 + n * 2_000);
    }
}

#[test]
fn runs_are_planned() {
    assert_eq!(
        plan_run(2),
        vec![
            RunStep::Setup,
            RunStep::StartProgress,
            RunStep::StartWorker(0),
            RunStep::StartWorker(1),
            RunStep::AwaitStop,
            RunStep::JoinWorker(0),
            RunStep::JoinWorker(1),
            RunStep::Teardown,
            RunStep::Collect
        ]
    );
    let c = BenchConfig::default();
    assert_eq!((c.target.as_str(), c.qps, c.concurrency, c.duration.as_secs()), ("127.0.0.1:6880", 1000, 50, 60));
}

#[test]
fn urls_go_round_or_are_filled() {
    let h = HttpScenario::default().with_method(HttpMethod::Post).with_urls(vec![s("a"), s("b")]);
    let mut ctx = context(&[]);
    let got: Vec<String> = (0..3).map(|_| h.next_url(&mut ctx).unwrap()).collect();
    assert_eq!(got, vec!["a", "b", "a"]);
    let t = HttpScenario::default();
    assert_eq!(t.name(), "http");
    let mut ctx = context(&["url=http://h/{id}/{id}"]);
    assert_eq!(t.next_url(&mut ctx).unwrap(), "http://h/0/0");
    assert_eq!(t.next_url(&mut ctx).unwrap(), "http://h/1/1");
    let mut plain = context(&["url=http://h/{rand}"]);
    assert_eq!(t.next_url(&mut plain).unwrap(), "http://h/{rand}");
    assert_eq!(t.next_url(&mut context(&[])), Err(NoUrl));
}

#[test]
fn scenarios_are_found_by_name() {
    let mut r = ScenarioRegistry::default();
    r.register(s("http"));
    r.register(s("udp_tracker"));
    assert_eq!(r.get("udp_tracker"), Some(1));
    assert_eq!(r.get("x"), None);
    assert_eq!(r.list().len(), 2);
    let mut ctx = BenchContext::new(1, 2, StringMap::new());
    ctx.request_count = u64::MAX;
    assert_eq!(ctx.next_request_id(), u64::MAX);
    assert_eq!(ctx.next_request_id(), 0);
}

#[test]
fn tracker_packets() {
    assert_eq!(
        build_connect(0x01020304),
        vec![0, 0, 4, 0x17, 0x27, 0x10, 0x19, 0x80, 0, 0, 0, 0, 1, 2, 3, 4]
    );
    let a = build_announce(0x1122334455667788, &[7; 20], &[8; 20], 6881, 5, 6);
    assert_eq!(a.len(), 98);
    assert_eq!(&a[..16], &[0x11, 0x22, 0x33, 0x44, 0x55, 0x66, 0x77, 0x88, 0, 0, 0, 1, 0, 0, 0, 5][..]);
    assert_eq!(&a[16..36], &[7u8; 20][..]);
    assert_eq!(&a[36..56], &[8u8; 20][..]);
    assert_eq!(&a[56..72], &[0, 0, 0, 0, 0, 0, 0, 0, 0, 0, 0, 0, 0, 0, 3, 0xe8][..]);
    assert_eq!(&a[72..88], &[0u8; 16][..]);
    assert_eq!(&a[88..98], &[0, 0, 0, 6, 255, 255, 255, 255, 0x1a, 0xe1][..]);
    let sc = build_scrape(1, &vec![[3; 20], [4; 20]], 9);
    assert_eq!(sc.len(), 56);
    assert_eq!(&sc[8..16], &[0, 0, 0, 2, 0, 0, 0, 9][..]);
    assert_eq!(&sc[36..], &[4u8; 20][..]);
    assert_eq!(udp_connect(&[0; 15]), Err(TrackerError::TooShort(15)));
    assert_eq!(udp_announce(&[0; 20]), Err(TrackerError::WrongAction(0)));
    assert_eq!(udp_scrape(&[0, 0, 0]), Err(TrackerError::TooShort(3)));
}

#[test]
fn echo_server_answers_the_client() {
    assert_eq!(udp_connect(&reply(&build_connect(7)).unwrap()), Ok(ECHO_CONNECTION_ID));
    let a = reply(&build_announce(1, &[7; 20], &[8; 20], 6881, 0x0a0b0c0d, 6)).unwrap();
    assert_eq!(a.len(), 20);
    assert_eq!(&a[4..8], &[0x0a, 0x0b, 0x0c, 0x0d][..]);
    assert_eq!(udp_announce(&a), Ok(()));
    assert_eq!(udp_scrape(&reply(&build_scrape(1, &vec![[3; 20]], 9)).unwrap()), Ok(()));
    assert_eq!(reply(&[0; 15]), None);
    assert_eq!(reply(&[9; 16]), None);
}

#[test]
fn tracker_requests_follow_the_mode() {
    let mut t = UdpTrackerScenario::new(
        vec![[1; 20], [2; 20], [3; 20]],
        vec![[9; 20]],
        vec![100, 9, 18],
        vec![6, 7],
        4,
    );
    let mut ctx = context(&[]);
    assert_eq!(t.choose_connection(&mut ctx), None);
    t.add_connection(77);
    assert_eq!(t.choose_connection(&mut ctx), Some(77));
    assert_eq!((t.next_socket(), t.next_socket()), (0, 1));
    // The second transaction id decides, and nine is no announcement.
    let r = t.plan_request(&mut ctx, "mixed", 77);
    assert_eq!(r.action, TrackerAction::Scrape);
    assert_eq!(r.packet, build_scrape(77, &vec![[2; 20], [3; 20]], 100));
    let r = t.plan_request(&mut ctx, "announce", 77);
    assert_eq!(r.packet, build_announce(77, &[3; 20], &[9; 20], 6883, 9, 7));
    assert_eq!(t.plan_request(&mut ctx, "scrape", 77).action, TrackerAction::Scrape);
    assert_eq!(t.plan_request(&mut ctx, "what", 77).action, TrackerAction::Announce);
    assert_eq!((t.next_tx_id(), t.next_key()), (9, 6));
    assert_eq!((pool_size(3), pool_size(100)), (64, 100));
    let d = UdpTrackerScenario::default();
    assert_eq!((d.infohashes.len(), d.peer_ids.len(), d.tx_ids.len(), d.keys.len()), (1000, 1000, 65536, 65536));
    assert!(d.infohashes[0] != d.infohashes[1]);
    assert!(d.keys[..100] != d.tx_ids[..100]);
}

#[test]
fn latency_is_judged() {
    assert_eq!(latency_verdict(99), LatencyVerdict::Good);
    assert_eq!(latency_verdict(100), LatencyVerdict::Fair);
    assert_eq!(latency_verdict(1000), LatencyVerdict::Poor);
    assert_eq!(latency_line(5), "  ✅ 延迟达标 (P99 < 100μs)");
    assert_eq!(latency_line(500), "  ⚠️  延迟一般 (P99 = 500μs)");
    assert_eq!(latency_line(26991), "  ❌ 延迟超标 (P99 = 26991μs)");
    assert_eq!(right_aligned(42, 6), "    42");
    assert_eq!(right_aligned(1234567, 3), "1234567");
}
