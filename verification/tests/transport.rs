use pnos_sdk::addr::{IpAddr, Ipv4Addr, SocketAddr};
use pnos_sdk::connector::{ConnectRun, ConnectStep, TcpConnectConfig, TryFailure};
use pnos_sdk::discovery::peer_cache::PeerCache;
use pnos_sdk::dns::{resolve, DnsConfig, NoRecord};
use pnos_sdk::net_agent::{
    mapped_address, ConnectEvent, NetAgent, StartStep, StepVerdict, TransportEnd, WrittenAddr,
};
use pnos_sdk::strategy::{ConnectMethod, ConnectStrategy, ConnectStrategyConfig, StrategyStep};
use pnos_sdk::time::Duration;
use pnos_sdk::transport::iroh::{IrohIdentity, IrohTransportConfig, KeyLengthError};
use pnos_sdk::transport::router::{
    on_transport_start, Route, RouteFailure, RouteState, RouteStep, StartVerdict, TransportMode,
    TransportRouter,
};
use pnos_sdk::transport::TransportKind;
use pnos_sdk::types::{NodeId, Reachability};

fn v4(a: u8, b: u8, c: u8, d: u8, port: u16) -> SocketAddr {
    SocketAddr::new(IpAddr::V4(Ipv4Addr::new(a, b, c, d)), port)
}

fn hex(s: &str) -> Vec<u8> {
    (0..s.len() / 2).map(|i| u8::from_str_radix(&s[2 * i..2 * i + 2], 16).unwrap()).collect()
}

#[test]
fn addresses_are_tried_in_order() {
    let mut config = TcpConnectConfig::default();
    config.max_retries = 1;
    config.retry_interval = Duration::from_millis(7);
    let (mut run, step) = ConnectRun::begin(2, &config);
    assert!(matches!(step, ConnectStep::Try { index: 0, .. }));
    let mut seen = vec![];
    loop {
        seen.push((run.index, run.attempt));
        match run.on_outcome(Err(TryFailure::TimedOut)) {
            ConnectStep::Try { pause, index } => {
                assert_eq!(index, run.index);
                assert_eq!(pause.as_millis(), if run.attempt == 1 { 7 } else { 0 });
            }
            ConnectStep::AllFailed { index, last } => {
                assert_eq!(index, 1);
                assert!(matches!(last, TryFailure::TimedOut));
                break;
            }
            _ => panic!("unexpected step"),
        }
    }
    assert_eq!(seen, vec![(0, 0), (0, 1), (1, 0), (1, 1)]);
    assert!(matches!(ConnectRun::begin(0, &config).1, ConnectStep::NoAddress));
    let (mut run, _) = ConnectRun::begin(3, &config);
    assert!(matches!(run.on_outcome(Ok(())), ConnectStep::Connected { index: 0 }));
    assert_eq!(TcpConnectConfig::default().connect_timeout.as_secs(), 5);
    assert_eq!(TcpConnectConfig::default().max_retries, 2);
}

#[test]
fn strategy_falls_back_to_opened_paths() {
    let s = ConnectStrategy::new(ConnectStrategyConfig::default()).with_hole_puncher();
    assert_eq!(s.connect(0), StrategyStep::NoAddress);
    assert_eq!(s.connect(2), StrategyStep::ConnectDirectly);
    assert_eq!(s.after_direct(true, Reachability::Unknown), StrategyStep::Connected(ConnectMethod::TcpDirect));
    assert_eq!(s.after_direct(false, Reachability::Unknown), StrategyStep::PunchAndConnect(0));
    assert_eq!(s.after_direct(false, Reachability::HolePunchable), StrategyStep::PunchAndConnect(0));
    assert_eq!(s.after_direct(false, Reachability::OutboundOnly), StrategyStep::AllFailed);
    assert_eq!(s.after_direct(false, Reachability::Mapped), StrategyStep::AllFailed);
    assert_eq!(s.after_punch(0, 2, false), StrategyStep::PunchAndConnect(1));
    assert_eq!(s.after_punch(1, 2, false), StrategyStep::AllFailed);
    assert_eq!(s.after_punch(1, 2, true), StrategyStep::Connected(ConnectMethod::UdpHolePunch));
    let plain = ConnectStrategy::new(ConnectStrategyConfig::default());
    assert_eq!(plain.after_direct(false, Reachability::Unknown), StrategyStep::AllFailed);
    assert_eq!(ConnectStrategy::try_hole_punch(true).as_secs(), 5);
    assert_eq!(ConnectStrategy::try_hole_punch(false).as_secs(), 3);
    assert_eq!(ConnectMethod::Relay.to_string(), "中继");
}

#[test]
fn router_uses_one_or_races_both() {
    let one = TransportRouter::new(TransportMode::default()).with_tcp();
    let (state, step) = one.connect();
    assert!(matches!(step, RouteStep::Try(Route::Tcp)));
    let (_, end) = state.on_end(Route::Tcp, Some("x".to_string()));
    assert!(matches!(end, RouteStep::Failed(Route::Tcp, RouteFailure::Failed(_))));
    let none = TransportRouter::new(TransportMode::IrohOnly).with_tcp();
    assert!(matches!(none.connect().1, RouteStep::Failed(Route::Iroh, RouteFailure::NotConfigured)));

    let both = TransportRouter::new(TransportMode::Auto).with_tcp().with_iroh();
    let (state, step) = both.connect();
    assert!(matches!(step, RouteStep::Race));
    let (state, step) = state.on_end(Route::Iroh, Some("quic".to_string()));
    assert!(matches!(step, RouteStep::Try(Route::Tcp)));
    match state.on_end(Route::Tcp, Some("tcp".to_string())).1 {
        RouteStep::BothFailed(Route::Iroh, RouteFailure::Failed(a), RouteFailure::Failed(b)) => {
            assert_eq!((a.as_str(), b.as_str()), ("quic", "tcp"));
        }
        _ => panic!("both failures are reported"),
    }
    let (state, _) = both.connect();
    assert!(matches!(state, RouteState::Racing));
    assert!(matches!(state.on_end(Route::Tcp, None).1, RouteStep::Connected(Route::Tcp)));
    let half = TransportRouter::new(TransportMode::Auto).with_iroh();
    assert!(matches!(half.connect().1, RouteStep::Try(Route::Iroh)));
    assert_eq!(on_transport_start(Route::Iroh, false), StartVerdict::Continue);
    assert_eq!(on_transport_start(Route::Tcp, false), StartVerdict::Abort);
}

#[test]
fn router_counts() {
    let mut r = TransportRouter::new(TransportMode::Auto).with_tcp().with_iroh();
    r.connect_with(Route::Tcp, Some(20));
    r.connect_with(Route::Tcp, None);
    r.connect_with(Route::Iroh, Some(5));
    let s = r.stats();
    assert_eq!((s.tcp_attempts, s.tcp_success, s.total_latency_tcp_ms), (2, 1, 20));
    assert_eq!((s.iroh_attempts, s.iroh_success, s.total_latency_iroh_ms), (1, 1, 5));
}

#[test]
fn transport_kinds() {
    assert_eq!(TransportKind::from_method(ConnectMethod::UdpHolePunch), TransportKind::UdpHolePunch);
    assert_eq!(TransportKind::IrohRelay.method(), ConnectMethod::TcpDirect);
    assert_eq!(TransportKind::TcpRelay.method(), ConnectMethod::Relay);
    assert_eq!(TransportKind::IrohHolePunch.to_string(), "Iroh打洞");
}

#[test]
fn iroh_identity_follows_from_the_node_id() {
    let mut id = [0u8; 20];
    for i in 0..20 {
        id[i] = i as u8;
    }
    let seed = IrohIdentity::derive_seed(&id);
    assert_eq!(seed.to_vec(), hex("5cc661b0d1019bbd5755c471d27222a0a93202e451f11161f05c91ecdcbac4cf"));
    let key = hex("c0ec80eb5b523eea48477d8957daa9f4d276fb18a22a21a9ef9beda261e8f149");
    assert_eq!(IrohIdentity::pnos_to_iroh_node_id(&NodeId(id)).to_vec(), key);
    let fresh = IrohIdentity::from_pnos_node_id(id, None).unwrap();
    assert!(fresh.is_new);
    assert_eq!(fresh.iroh_node_id.to_vec(), key);
    let kept = hex("9d61b19deffd5a60ba844af492ec2cc44449c5697b326919703bac031cae7f60");
    let old = IrohIdentity::from_pnos_node_id(id, Some(&kept)).unwrap();
    assert!(!old.is_new);
    assert_eq!(old.iroh_node_id.to_vec(), hex("d75a980182b10ab7d54bfed3c964073a0ee172f3daa62325af021a68f707511a"));
    assert_eq!(IrohIdentity::from_pnos_node_id(id, Some(&vec![1; 31])).unwrap_err(), KeyLengthError(31));
    let c = IrohTransportConfig::default();
    assert_eq!(c.alpn, b"pnos/federation/1".to_vec());
    assert_eq!((c.listen_port, c.data_dir.as_str(), c.derp_enabled), (6885, "./data", true));
}

#[test]
fn names_resolve_to_addresses() {
    let c = DnsConfig::new();
    assert_eq!(c.servers.len(), 5);
    assert_eq!(c.servers[1], v4(223, 5, 5, 5, 53));
    assert_eq!((c.timeout.as_secs(), c.attempts, c.concurrent), (3, 2, 5));
    assert_eq!(resolve(&vec![v4(1, 2, 3, 4, 0).ip], 80), Ok(vec![v4(1, 2, 3, 4, 80)]));
    assert_eq!(resolve(&vec![], 80), Err(NoRecord));
}

#[test]
fn agent_starts_step_by_step() {
    let mut agent = NetAgent::builder([7; 20], 6885, "/tmp/x")
        .api_port(6880)
        .nat_enabled(true)
        .lpd_enabled(true)
        .build(PeerCache::default());
    assert_eq!(agent.config.api_port, 6880);
    assert_eq!(agent.config.lpd_multicast_port, 6771);
    assert_eq!(agent.config.punch_bind_addr(), Some(v4(0, 0, 0, 0, 6886)));
    assert_eq!(
        agent.start(&vec![true, false, true]).unwrap(),
        vec![
            StartStep::StartTransport,
            StartStep::MapTcp(6885),
            StartStep::MapUdp(6885),
            StartStep::ReportNatStatus,
            StartStep::ForwardDiscoveries,
            StartStep::StartLpd,
            StartStep::StartDiscovery(0),
            StartStep::StartDiscovery(2),
            StartStep::SaveCacheEvery(300),
        ]
    );
    assert_eq!(NetAgent::on_step(StartStep::StartTransport, false), StepVerdict::Abort);
    assert_eq!(NetAgent::on_step(StartStep::MapTcp(1), false), StepVerdict::Continue);
    assert_eq!(agent.start_transport_only().unwrap(), vec![StartStep::StartTransport]);
    agent.finish_start();
    assert!(agent.start(&vec![]).is_none());
    assert!(agent.start_transport_only().is_none());
}

#[test]
fn agent_keeps_connected_nodes() {
    let mut agent = NetAgent::builder([7; 20], 6885, "/tmp/x").build(PeerCache::default());
    agent.note_connected(&NodeId([1; 20]), "2.2.2.2:2");
    agent.note_connected_at(&NodeId([1; 20]), "2.2.2.2:3", 99);
    assert_eq!(agent.cached_peers(5), vec!["2.2.2.2:3"]);
    assert_eq!(agent.peer_cache.nodes[0].success_count, 2);
    assert!(agent.cache_to_save().is_some());
    let mut off = NetAgent::builder([7; 20], 6885, "/tmp/x")
        .peer_cache_enabled(false)
        .hole_punch_enabled(false)
        .lpd_multicast_port(5)
        .connect_config(ConnectStrategyConfig::default())
        .build(PeerCache::default());
    off.note_connected(&NodeId([1; 20]), "x");
    assert!(off.cached_peers(5).is_empty());
    assert!(off.cache_to_save().is_none());
    assert_eq!(off.config.punch_bind_addr(), None);
}

fn end(connected_addr: Option<WrittenAddr>, kind: TransportKind) -> Result<TransportEnd, String> {
    Ok(TransportEnd { connected_addr, kind, latency: Duration::from_millis(12) })
}

#[test]
fn connections_are_reported() {
    let mut agent = NetAgent::builder([7; 20], 6885, "/tmp/x").build(PeerCache::default());
    let id = NodeId([1; 20]);
    let refused = NetAgent::connect_to(id, &vec![]).unwrap_err();
    assert!(matches!(&refused.event, ConnectEvent::ConnectFailed { reason, .. } if reason == "对端没有已知地址"));
    assert_eq!(refused.result.unwrap_err(), "对端没有已知地址");

    let first = WrittenAddr { addr: v4(1, 1, 1, 1, 1), text: "1.1.1.1:1".to_string() };
    let second = WrittenAddr { addr: v4(2, 2, 2, 2, 2), text: "2.2.2.2:2".to_string() };
    let addrs = vec![first, second.clone()];
    assert!(NetAgent::connect_to(id, &addrs).is_ok());

    let lost = agent.end_connect_at(id, &addrs, Err("gone".to_string()), 5);
    assert!(matches!(&lost.event, ConnectEvent::ConnectFailed { reason, .. } if reason == "gone"));
    assert_eq!(lost.result.unwrap_err(), "gone");
    assert!(agent.peer_cache.nodes.is_empty());

    let made = agent.end_connect_at(id, &addrs, end(None, TransportKind::IrohRelay), 6);
    match made.event {
        ConnectEvent::Connected { node_id, addr, method, latency } => {
            assert!(node_id == id);
            assert_eq!((addr, method.as_str(), latency.as_millis()), (v4(1, 1, 1, 1, 1), "TCP直连", 12));
        }
        ConnectEvent::ConnectFailed { .. } => panic!("the connection was made"),
    }
    assert_eq!(made.result.unwrap(), (ConnectMethod::TcpDirect, Duration::from_millis(12)));
    assert_eq!((agent.cached_peers(5), agent.peer_cache.last_updated), (vec!["1.1.1.1:1".to_string()], 6));

    let punched = agent.end_connect(id, &addrs, end(Some(second.clone()), TransportKind::UdpHolePunch));
    assert_eq!(punched.result.unwrap().0, ConnectMethod::UdpHolePunch);
    assert_eq!(agent.cached_peers(5), vec!["2.2.2.2:2"]);
    assert!(agent.peer_cache.last_updated > 1_500_000_000);

    let mut off = NetAgent::builder([7; 20], 6885, "/tmp/x").peer_cache_enabled(false).build(PeerCache::default());
    let relayed = off.end_connect(id, &addrs, end(Some(second), TransportKind::TcpRelay));
    assert_eq!(relayed.result.unwrap().0, ConnectMethod::Relay);
    assert!(off.peer_cache.nodes.is_empty());
}

#[test]
fn mapped_address_text() {
    let m = vec![("UDP".to_string(), 1u16), ("TCP".to_string(), 2), ("TCP".to_string(), 3)];
    assert_eq!(mapped_address(Some("9.8.7.6"), &m), Some("9.8.7.6:2".to_string()));
    assert_eq!(mapped_address(None, &m), None);
    assert_eq!(mapped_address(Some("9.8.7.6"), &m[..1].to_vec()), None);
}
