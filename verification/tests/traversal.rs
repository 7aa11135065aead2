use std::time::Instant;

use pnos_sdk::addr::{IpAddr, Ipv4Addr, Ipv6Addr, SocketAddr};
use pnos_sdk::time::Duration;
use pnos_sdk::traversal::ipv6::{
    ipv4_to_ipv6_mapped, ipv6_mapped_to_ipv4, is_ipv4, is_ipv4_mapped, is_ipv6, Ipv6Config,
    Ipv6Connectivity, Ipv6Manager,
};
use pnos_sdk::traversal::metrics::{LatencyStats, NatMetricsExt, ProtocolStats};
use pnos_sdk::traversal::nat_pmp::{
    detect_default_gateway_unix, detect_default_gateway_windows, NatPmpClient, NatPmpError,
    NatPmpResultCode, NAT_PMP_PORT, NAT_PMP_VERSION, OP_EXTERNAL_ADDRESS, OP_MAP_TCP, OP_MAP_UDP,
};
use pnos_sdk::traversal::pcp::{
    PcpClient, PcpError, PcpResultCode, OP_ANNOUNCE, OP_MAP, OP_PEER, PCP_PORT, PCP_VERSION,
};
use pnos_sdk::traversal::provider::{MappingOperationStats, ProviderInfo, ProviderRegistry};
use pnos_sdk::traversal::state::{NatState, NatStateMachine};
use pnos_sdk::traversal::stun::{
    binding_result, build_binding_request, check_udp_reachability, choose_servers,
    detect_nat_type, detect_nat_type_multi, parse_mapped_address, probe_bind_addr,
    random_transaction_id, stun_binding_request_multi, transaction_id_at, NatType, StunResult,
    STUN_BINDING_REQUEST, STUN_MAGIC_COOKIE,
};
use pnos_sdk::traversal::udp_hole_punch::{
    choose_strategy, plan_punch, HolePunchConfig, HolePunchResult, HolePunchStats, HolePuncher,
    PunchAction, PunchStep,
};
use pnos_sdk::traversal::NatProtocol;

fn v4(a: u8, b: u8, c: u8, d: u8, port: u16) -> SocketAddr {
    SocketAddr::new(IpAddr::V4(Ipv4Addr::new(a, b, c, d)), port)
}

fn stun(server: &str, mapped: Option<SocketAddr>, local: SocketAddr) -> StunResult {
    StunResult {
        success: mapped.is_some(),
        mapped_addr: mapped,
        local_addr: local,
        nat_type: NatType::Unknown,
        server: server.to_string(),
        rtt_ms: 7,
    }
}

// ---- ipv6 ----

#[test]
fn test_ipv6_config_default() {
    let config = Ipv6Config::default();
    assert!(config.enabled);
    assert!(config.prefer_ipv6);
    assert_eq!(config.hop_limit, 64);
}

#[test]
fn test_ipv6_connectivity() {
    assert!(Ipv6Connectivity::Global.is_direct_connectable());
    assert!(!Ipv6Connectivity::NoIpv6.is_direct_connectable());
    assert!(!Ipv6Connectivity::LinkLocalOnly.is_direct_connectable());
    assert_eq!(Ipv6Connectivity::Global.as_str(), "global");
}

#[test]
fn test_is_global_ipv6() {
    let global = Ipv6Addr::new(0x2001, 0xdb8, 0, 0, 0, 0, 0, 1);
    assert!(Ipv6Manager::is_global_ipv6(&global));
    let link_local = Ipv6Addr::new(0xfe80, 0, 0, 0, 0, 0, 0, 1);
    assert!(!Ipv6Manager::is_global_ipv6(&link_local));
    let ula = Ipv6Addr::new(0xfd00, 0, 0, 0, 0, 0, 0, 1);
    assert!(!Ipv6Manager::is_global_ipv6(&ula));
    let multicast = Ipv6Addr::new(0xff02, 0, 0, 0, 0, 0, 0, 1);
    assert!(!Ipv6Manager::is_global_ipv6(&multicast));
    assert!(!Ipv6Manager::is_global_ipv6(&Ipv6Addr { bits: 1 }));
    assert!(!Ipv6Manager::is_global_ipv6(&Ipv6Addr { bits: 0 }));
    assert!(Ipv6Manager::is_global_ipv6(&Ipv6Addr::new(0xfec0, 0, 0, 0, 0, 0, 0, 1)));
}

#[test]
fn test_ipv4_ipv6_conversion() {
    let addr = v4(192, 168, 1, 1, 8080);
    let mapped = ipv4_to_ipv6_mapped(&addr).unwrap();
    assert!(is_ipv6(&mapped));
    if let IpAddr::V6(v6) = mapped.ip {
        assert!(is_ipv4_mapped(&v6));
        let back = ipv6_mapped_to_ipv4(&v6).unwrap();
        assert_eq!(back, Ipv4Addr::new(192, 168, 1, 1));
    } else {
        panic!("not mapped");
    }
    assert_eq!(mapped.port, 8080);
    assert_eq!(ipv6_mapped_to_ipv4(&Ipv6Addr { bits: 7 }), None);
}

#[test]
fn test_is_ipv4_ipv6() {
    let four = v4(192, 168, 1, 1, 8080);
    let six = SocketAddr::new(IpAddr::V6(Ipv6Addr::new(0x2001, 0xdb8, 0, 0, 0, 0, 0, 1)), 8080);
    assert!(is_ipv4(&four));
    assert!(!is_ipv6(&four));
    assert!(is_ipv6(&six));
    assert!(!is_ipv4(&six));
}

#[test]
fn ipv6_connectivity_is_detected() {
    let global = Ipv6Addr::new(0x2001, 0xdb8, 0, 0, 0, 0, 0, 1);
    let ula = Ipv6Addr::new(0xfd00, 0, 0, 0, 0, 0, 0, 1);
    let link = Ipv6Addr::new(0xfe80, 0, 0, 0, 0, 0, 0, 1);
    let mut m = Ipv6Manager::new(Ipv6Config::default());
    assert_eq!(m.connectivity(), Ipv6Connectivity::Unknown);
    assert_eq!(m.detect_connectivity(&vec![]), Ipv6Connectivity::NoIpv6);
    assert_eq!(m.detect_connectivity(&vec![link]), Ipv6Connectivity::LinkLocalOnly);
    assert_eq!(m.detect_connectivity(&vec![link, ula]), Ipv6Connectivity::UlaOnly);
    let four = v4(1, 2, 3, 4, 5);
    let six = SocketAddr::new(IpAddr::V6(global), 6);
    assert_eq!(m.select_best_address(&vec![six, four]), Some(four));
    assert_eq!(m.select_best_address(&vec![six]), Some(six));
    assert_eq!(m.select_best_address(&vec![]), None);
    assert_eq!(m.detect_connectivity(&vec![link, global]), Ipv6Connectivity::Global);
    assert_eq!(m.global_address(), Some(global));
    assert_eq!(m.select_best_address(&vec![four, six]), Some(six));
    let mut off = Ipv6Config::default();
    off.enabled = false;
    assert_eq!(Ipv6Manager::new(off).detect_connectivity(&vec![global]), Ipv6Connectivity::NoIpv6);
    assert_eq!(
        Ipv6Manager::extract_ipv6_candidates("   本地链接 IPv6 地址 : fe80::1%12(首选)"),
        Some(vec!["本地链接", "IPv6", "地址", ":", "fe80::1"].into_iter().map(|s| s.to_string()).collect())
    );
    assert_eq!(Ipv6Manager::extract_ipv6_candidates("IPv4 地址 : 1.2.3.4"), None);
}

// ---- metrics ----

#[test]
fn test_latency_stats() {
    let mut stats = LatencyStats::new(10);
    stats.record(10);
    stats.record(20);
    stats.record(30);
    assert_eq!(stats.count(), 3);
    assert_eq!(stats.sum() as f64 / stats.count() as f64, 20.0);
    assert_eq!(stats.p50(), 20);
    assert_eq!(stats.min(), 10);
    assert_eq!(stats.max(), 30);
}

#[test]
fn test_latency_stats_overflow() {
    let mut stats = LatencyStats::new(3);
    stats.record(10);
    stats.record(20);
    stats.record(30);
    stats.record(40);
    assert_eq!(stats.count(), 3);
    assert_eq!(stats.min(), 20);
}

#[test]
fn percentiles_of_a_hundred() {
    let mut stats = LatencyStats::default();
    assert_eq!(stats.p99(), 0);
    assert_eq!(stats.min(), 0);
    assert_eq!(stats.max(), 0);
    for i in 0..100u64 {
        stats.record(100 - i);
    }
    assert_eq!(stats.p50(), 51);
    assert_eq!(stats.p95(), 96);
    assert_eq!(stats.p99(), 100);
    // The same positions come out of the quotient in floating point.
    for n in 1..2000usize {
        for p in [50u8, 95, 99] {
            let float = ((p as f64 / 100.0) * n as f64) as usize;
            assert_eq!(float, p as usize * n / 100);
        }
    }
}

#[test]
fn test_protocol_stats() {
    let mut stats = ProtocolStats::default();
    stats.mapping_success = 90;
    stats.mapping_failure = 10;
    let (s, n) = stats.success_ratio();
    assert!((s as f64 / n as f64 * 100.0 - 90.0).abs() < 0.01);
}

fn operation(protocol: &str, success: bool, ms: u64) -> MappingOperationStats {
    MappingOperationStats {
        protocol: protocol.to_string(),
        internal_port: 6880,
        external_port: 6880,
        success,
        duration_ms: ms,
        retries: 0,
        error: None,
        timestamp: 0,
    }
}

#[test]
fn test_metrics_ext() {
    let mut metrics = NatMetricsExt::new();
    metrics.record_mapping(operation("upnp", true, 50));
    let summary = metrics.summary();
    assert_eq!(summary.total_mapping_success, 1);
    assert_eq!(summary.protocol_count, 1);
    assert!(summary.mapping_latency_sum as f64 / summary.mapping_latency_count as f64 > 0.0);
}

#[test]
fn test_reachability_stats() {
    let mut metrics = NatMetricsExt::new();
    metrics.record_reachability(true);
    metrics.record_reachability(true);
    metrics.record_reachability(false);
    let (checks, success) = metrics.reachability_stats();
    assert_eq!(checks, 3);
    assert_eq!(success, 2);
    let rate = success as f64 / checks as f64 * 100.0;
    assert!((rate - 66.67).abs() < 0.1);
}

#[test]
fn metrics_add_up() {
    let mut metrics = NatMetricsExt::new();
    for i in 0..150u64 {
        metrics.record_mapping(operation(if i % 2 == 0 { "upnp" } else { "pcp" }, i % 3 != 0, i));
    }
    metrics.record_renew("upnp", true, 3);
    metrics.record_renew("pcp", false, 4);
    metrics.record_discover("nat_pmp", false, 5);
    metrics.record_state_duration(NatState::Active, 10);
    metrics.record_state_duration(NatState::Active, 5);
    let s = metrics.summary_at(77);
    assert_eq!(s.total_mapping_success + s.total_mapping_failure, 150);
    assert_eq!(s.total_mapping_failure, 50);
    assert_eq!((s.renew_success, s.renew_failure), (1, 1));
    assert_eq!((s.discover_success, s.discover_failure), (0, 1));
    assert_eq!(s.protocol_count, 3);
    assert_eq!(s.uptime_seconds, 77);
    let mut old = NatMetricsExt::new();
    old.start_time = old.start_time - std::time::Duration::from_millis(2_500);
    assert!(old.uptime() >= std::time::Duration::from_millis(2_500));
    assert!(old.summary().uptime_seconds >= 2);
    assert_eq!(s.mapping_latency_p50, 75);
    assert_eq!(metrics.recent_operations(1000).len(), 100);
    assert_eq!(metrics.recent_operations(2)[0].duration_ms, 149);
    assert_eq!(metrics.state_durations.get("active"), Some(&15));
    assert_eq!(metrics.mapping_latency().count(), 150);
    assert_eq!(metrics.renew_latency().max(), 4);
    assert_eq!(metrics.discover_latency().max(), 5);
}

// ---- nat-pmp ----

#[test]
fn nat_pmp_test_result_code() {
    assert!(NatPmpResultCode::from_u16(0).is_success());
    assert_eq!(NatPmpResultCode::from_u16(2).as_str(), "not_authorized");
    assert_eq!(NatPmpResultCode::from_u16(4).as_str(), "out_of_resources");
    assert!(!NatPmpResultCode::from_u16(5).is_success());
    assert_eq!(NatPmpResultCode::from_u16(9), NatPmpResultCode::Other(9));
}

#[test]
fn test_detect_gateway_doesnt_panic() {
    let _ = detect_default_gateway_unix(None, None);
    let _ = detect_default_gateway_windows(None, None);
}

#[test]
fn test_nat_pmp_client_creation() {
    let gateway = Ipv4Addr::new(192, 168, 1, 1);
    let client = NatPmpClient::new(gateway, Duration::from_secs(2));
    assert_eq!(client.gateway, gateway);
}

#[test]
fn nat_pmp_test_protocol_constants() {
    assert_eq!(NAT_PMP_VERSION, 0);
    assert_eq!(NAT_PMP_PORT, 5351);
    assert_eq!(OP_EXTERNAL_ADDRESS, 0);
    assert_eq!(OP_MAP_UDP, 1);
    assert_eq!(OP_MAP_TCP, 2);
}

#[test]
fn nat_pmp_packets() {
    let c = NatPmpClient::new(Ipv4Addr::new(10, 0, 0, 1), Duration::from_secs(2));
    assert_eq!(c.server_addr(), v4(10, 0, 0, 1, 5351));
    assert_eq!(c.external_address_request(), vec![0, 0]);
    assert_eq!(
        c.map_request(OP_MAP_TCP, 0x1234, 0x5678, 3600),
        vec![0, 2, 0, 0, 0x12, 0x34, 0x56, 0x78, 0, 0, 0x0e, 0x10]
    );
    assert_eq!(c.unmap_request(OP_MAP_UDP, 1, 2), vec![0, 1, 0, 0, 0, 1, 0, 2, 0, 0, 0, 0]);
    let ext = [0, 0x80, 0, 0, 0, 0, 0, 9, 1, 2, 3, 4];
    let r = c.read_external_address(&ext).unwrap();
    assert_eq!(r.public_ip, Ipv4Addr::new(1, 2, 3, 4));
    assert_eq!(r.epoch_time, 9);
    assert!(c.probe(Some(&ext)));
    assert!(!c.probe(None));
    assert_eq!(c.read_external_address(&ext[..11]), Err(NatPmpError::TooShort(11)));
    let map = [0, 0x82, 0, 4, 0, 0, 0, 1, 0, 10, 0, 20, 0, 0, 0, 30];
    let m = c.read_map_response(&map, OP_MAP_TCP).unwrap();
    assert_eq!((m.internal_port, m.mapped_external_port, m.mapping_lifetime), (10, 20, 30));
    assert_eq!(m.result_code, NatPmpResultCode::OutOfResources);
    assert_eq!(
        c.read_map_response(&map, OP_MAP_UDP),
        Err(NatPmpError::OpcodeMismatch { expected: 0x81, actual: 0x82 })
    );
    assert_eq!(
        c.read_unmap_response(&map, OP_MAP_TCP),
        Err(NatPmpError::UnmapRefused(NatPmpResultCode::OutOfResources))
    );
}

#[test]
fn gateways_are_found_in_texts() {
    let route = "Iface\tDestination\tGateway \tFlags\neth0\t0000A8C0\t00000000\t0001\neth0\t00000000\t0101A8C0\t0003\n";
    assert_eq!(detect_default_gateway_unix(Some(route), None), Some(Ipv4Addr::new(192, 168, 1, 1)));
    let mac = "   route to: default\n    gateway: 10.0.0.138\n  interface: en0\n";
    assert_eq!(detect_default_gateway_unix(Some("Iface\n"), Some(mac)), Some(Ipv4Addr::new(10, 0, 0, 138)));
    assert_eq!(detect_default_gateway_unix(None, Some("nothing")), None);
    let netsh = "Publish  Type\r\nNo       Manual    0    0.0.0.0/0    15  192.168.31.1\r\n";
    assert_eq!(detect_default_gateway_windows(Some(netsh), None), Some(Ipv4Addr::new(192, 168, 31, 1)));
    let ipconfig = "   默认网关. . . . . . . . . . . . . : 192.168.0.1\r\n";
    assert_eq!(detect_default_gateway_windows(Some("none"), Some(ipconfig)), Some(Ipv4Addr::new(192, 168, 0, 1)));
    let english = "   Default Gateway . . . . . . . . . : 0.0.0.0\n   Default Gateway . . . : 10.1.1.1\n";
    assert_eq!(detect_default_gateway_windows(Some("none"), Some(english)), Some(Ipv4Addr::new(10, 1, 1, 1)));
    assert_eq!(detect_default_gateway_windows(None, Some(english)), None);
}

// ---- pcp ----

#[test]
fn pcp_test_result_code() {
    assert!(PcpResultCode::from_u32(0).is_success());
    assert_eq!(PcpResultCode::from_u32(2).as_str(), "not_authorized");
    assert_eq!(PcpResultCode::from_u32(8).as_str(), "no_resources");
    assert!(!PcpResultCode::from_u32(11).is_success());
    assert_eq!(PcpResultCode::from_u32(99), PcpResultCode::Other(99));
}

#[test]
fn test_pcp_client_creation() {
    let gateway = Ipv4Addr::new(192, 168, 1, 1);
    let client = PcpClient::new(gateway, Duration::from_secs(2));
    assert_eq!(client.gateway, gateway);
}

#[test]
fn pcp_test_protocol_constants() {
    assert_eq!(PCP_VERSION, 2);
    assert_eq!(PCP_PORT, 5351);
    assert_eq!(OP_ANNOUNCE, 0);
    assert_eq!(OP_MAP, 1);
    assert_eq!(OP_PEER, 2);
}

#[test]
fn test_random_nonce() {
    let nonce1 = PcpClient::random_nonce();
    let nonce2 = PcpClient::random_nonce();
    assert_eq!(nonce1.len(), 12);
    assert_eq!(nonce2.len(), 12);
}

#[test]
fn test_build_header() {
    let gateway = Ipv4Addr::new(192, 168, 1, 1);
    let client = PcpClient::new(gateway, Duration::from_secs(2));
    let header = client.build_header(OP_MAP, 3600);
    assert_eq!(header.len(), 24);
    assert_eq!(header[0], PCP_VERSION);
    assert_eq!(header[1], OP_MAP);
    assert_eq!(u32::from_be_bytes([header[4], header[5], header[6], header[7]]), 3600);
}

#[test]
fn pcp_map_packets() {
    let c = PcpClient::new(Ipv4Addr::new(10, 0, 0, 1), Duration::from_secs(2));
    assert_eq!(PcpClient::nonce_at(0x0102_0304_0506_0708), vec![1, 2, 3, 4, 5, 6, 7, 8, 0xaa, 0xbb, 0xcc, 0xdd]);
    let req = c.map_request(&[7u8; 12], 17, 0x1111, 0x2222, 60);
    assert_eq!(req.len(), 60);
    assert_eq!(&req[18..20], &[0xff, 0xff][..]);
    assert_eq!(&req[24..36], &[7u8; 12][..]);
    assert_eq!(&req[36..44], &[17, 0, 0, 0, 0x11, 0x11, 0x22, 0x22][..]);
    let mut b = vec![0u8; 60];
    b[0] = 2;
    b[1] = 0x81;
    b[11] = 30;
    b[15] = 5;
    b[36] = 6;
    b[41] = 80;
    b[43] = 81;
    let r = c.parse_map_response(&b).unwrap();
    assert_eq!(r.mapped_external_ip, None);
    assert_eq!((r.protocol, r.internal_port, r.mapped_external_port, r.lifetime, r.epoch_time), (6, 80, 81, 30, 5));
    b[54] = 0xff;
    b[55] = 0xff;
    b[56] = 8;
    b[59] = 4;
    assert_eq!(c.parse_map_response(&b).unwrap().mapped_external_ip, Some(Ipv4Addr::new(8, 0, 0, 4)));
    assert_eq!(c.parse_map_response(&b[..59]), Err(PcpError::MapTooShort(59)));
    b[7] = 8;
    assert_eq!(c.read_unmap_response(&b), Err(PcpError::UnmapRefused(PcpResultCode::NoResources)));
    b[1] = 0x80;
    assert_eq!(c.parse_map_response(&b), Err(PcpError::OpcodeMismatch { expected: 0x81, actual: 0x80 }));
    assert!(!c.probe(Some(&b)));
    b[7] = 0;
    assert!(c.probe(Some(&b)));
    b[0] = 0;
    assert_eq!(c.announce(&b), Err(PcpError::VersionMismatch(0)));
    assert_eq!(c.announce(&b[..3]), Err(PcpError::TooShort(3)));
    assert_eq!(c.announce_request().len(), 24);
}

// ---- provider ----

#[test]
fn test_provider_registry() {
    let registry = ProviderRegistry::new();
    assert!(registry.is_empty());
    assert_eq!(registry.len(), 0);
}

#[test]
fn test_mapping_operation_stats() {
    let start = Instant::now();
    let stats = MappingOperationStats::success(NatProtocol::Upnp, 6880, 6880, start, 0);
    assert!(stats.success);
    assert_eq!(stats.internal_port, 6880);
    assert_eq!(stats.external_port, 6880);
    assert_eq!(stats.retries, 0);
    let bad = MappingOperationStats::failure(NatProtocol::Upnp, 6880, start, 2, "no".to_string());
    assert!(!bad.success);
    assert_eq!(bad.external_port, 0);
    assert_eq!(bad.error, Some("no".to_string()));
    assert!(bad.timestamp > 1_500_000_000);
    let made = MappingOperationStats::success_at(NatProtocol::Pcp, 1, 2, 33, 4, 55);
    assert_eq!((made.success, made.duration_ms, made.timestamp, made.external_port), (true, 33, 55, 2));
    let lost = MappingOperationStats::failure_at(NatProtocol::Pcp, 1, 33, 4, "no".to_string(), 55);
    assert_eq!((lost.success, lost.duration_ms, lost.timestamp, lost.external_port), (false, 33, 55, 0));
}

fn provider(name: &str, protocol: NatProtocol, priority: u8) -> ProviderInfo {
    ProviderInfo { name: name.to_string(), protocol, priority }
}

#[test]
fn providers_are_tried_by_priority() {
    let mut r = ProviderRegistry::default();
    r.register(provider("b", NatProtocol::Pcp, 20));
    r.register(provider("a", NatProtocol::Upnp, 10));
    r.register(provider("c", NatProtocol::NatPmp, 20));
    r.register(provider("a", NatProtocol::Pcp, 1));
    assert_eq!(r.names(), vec!["a", "b", "c"]);
    assert_eq!(r.get_by_protocol(NatProtocol::NatPmp).unwrap().name, "c");
    assert_eq!(r.get_by_name("a").unwrap().priority, 10);
    assert_eq!(r.unregister("b").unwrap().name, "b");
    assert!(r.unregister("b").is_none());
    assert!(r.get_by_protocol(NatProtocol::Pcp).is_none());
    assert_eq!(r.providers().len(), 2);
}

// ---- state ----

#[test]
fn test_state_transitions() {
    let mut sm = NatStateMachine::new();
    assert_eq!(sm.current_state(), NatState::Uninitialized);
    assert!(sm.transition(NatState::Initializing, "开始初始化"));
    assert!(sm.transition(NatState::Mapping, "开始映射"));
    assert!(sm.transition(NatState::Active, "映射成功"));
    assert_eq!(sm.current_state(), NatState::Active);
    assert!(!sm.transition(NatState::Uninitialized, "非法转换"));
    assert_eq!(sm.current_state(), NatState::Active);
}

#[test]
fn test_gateway_lost_recovery() {
    let mut sm = NatStateMachine::new();
    sm.force_transition(NatState::Active, "初始化");
    assert!(sm.transition(NatState::GatewayLost, "健康检查失败"));
    assert!(sm.transition(NatState::Recovering, "开始恢复"));
    assert!(sm.transition(NatState::Active, "恢复成功"));
    assert_eq!(sm.current_state(), NatState::Active);
}

#[test]
fn test_force_transition() {
    let mut sm = NatStateMachine::new();
    sm.force_transition(NatState::Error, "强制错误");
    assert_eq!(sm.current_state(), NatState::Error);
    assert!(sm.transition(NatState::Initializing, "重新初始化"));
    assert_eq!(sm.current_state(), NatState::Initializing);
    assert_eq!(sm.transition_history()[0].reason, "[FORCE] 强制错误");
}

#[test]
fn test_transition_history() {
    let mut sm = NatStateMachine::new();
    sm.transition(NatState::Initializing, "test1");
    sm.transition(NatState::Mapping, "test2");
    sm.transition(NatState::Active, "test3");
    let history = sm.transition_history();
    assert_eq!(history.len(), 3);
    assert_eq!(history[0].from, "uninitialized");
    assert_eq!(history[2].to, "active");
}

#[test]
fn test_state_as_str() {
    assert_eq!(NatState::Active.as_str(), "active");
    assert_eq!(NatState::GatewayLost.as_str(), "gateway_lost");
    assert!(NatState::Active.is_stable());
    assert!(!NatState::GatewayLost.is_stable());
}

#[test]
fn history_is_bounded_and_counted() {
    let mut sm = NatStateMachine::default();
    for i in 0..130u64 {
        let to = if i % 2 == 0 { NatState::Released } else { NatState::Error };
        let now = sm.last_transition + std::time::Duration::from_millis(2);
        assert!(sm.transition_at(to, &i.to_string(), i, now));
        assert_eq!(sm.last_transition, now);
    }
    let history = sm.transition_history();
    assert_eq!(history.len(), 100);
    assert_eq!(history[0].reason, "30");
    assert_eq!(sm.recent_transitions(2)[0].reason, "129");
    assert_eq!(sm.recent_transitions(500).len(), 100);
    assert!(sm.is_error());
    assert!(!sm.is_active());
    let stats = sm.state_statistics_at(5).unwrap();
    assert_eq!(stats.get("released"), Some(&100));
    assert_eq!(stats.get("error"), Some(&105));
    assert_eq!(stats.get("active"), None);
    assert!(sm.state_statistics_at(u64::MAX).is_none());
    assert!(sm.state_statistics().is_some());
    let mut quiet = NatStateMachine::new();
    let begun = quiet.last_transition;
    let now = begun + std::time::Duration::from_micros(4_900);
    quiet.force_transition_at(NatState::Active, "x", 9, now);
    assert_eq!(quiet.transition_history()[0].timestamp, 9);
    assert_eq!(quiet.transition_history()[0].duration_ms, 4);
    assert!(!quiet.transition_at(NatState::Uninitialized, "no", 10, now + std::time::Duration::from_secs(1)));
    assert_eq!(quiet.last_transition, now);
    let mut live = NatStateMachine::new();
    let before = live.last_transition;
    assert!(live.transition(NatState::Released, "x"));
    assert!(live.last_transition >= before);
    live.last_transition = before - std::time::Duration::from_millis(50);
    assert!(live.current_state_duration() >= std::time::Duration::from_millis(50));
    live.force_transition(NatState::Active, "y");
    assert!(live.transition_history()[1].duration_ms >= 50);
    assert!(live.last_transition >= before);
}

// ---- stun ----

#[test]
fn test_build_binding_request() {
    let tid = random_transaction_id();
    let req = build_binding_request(&tid);
    assert_eq!(req.len(), 20);
    assert_eq!(u16::from_be_bytes([req[0], req[1]]), STUN_BINDING_REQUEST);
    assert_eq!(u16::from_be_bytes([req[2], req[3]]), 0);
    assert_eq!(u32::from_be_bytes([req[4], req[5], req[6], req[7]]), STUN_MAGIC_COOKIE);
    assert_eq!(&req[8..20], &tid[..]);
    assert_eq!(transaction_id_at(0x0102_0304_0506_0708), [1, 2, 3, 4, 5, 6, 7, 8, 0x12, 0x34, 0x56, 0x78]);
}

#[test]
fn test_nat_type_str() {
    assert_eq!(NatType::FullCone.as_str(), "full_cone");
    assert_eq!(NatType::OpenInternet.as_str(), "open_internet");
    assert!(NatType::FullCone.is_favorable());
    assert!(!NatType::Symmetric.is_favorable());
}

#[test]
fn test_nat_type_detection_offline() {
    let result = detect_nat_type(None, None);
    assert_eq!(result, NatType::Unknown);
}

#[test]
fn test_detect_nat_type_multi() {
    let servers = vec!["stun.l.google.com:19302".to_string(), "stun1.l.google.com:19302".to_string()];
    let result = detect_nat_type_multi(&servers, &vec![]);
    assert_eq!(result, NatType::Unknown);
}

#[test]
fn test_stun_offline() {
    let tid = random_transaction_id();
    let result = binding_result("127.0.0.1:1", &[], &tid, v4(0, 0, 0, 0, 0), 50);
    assert!(!result.success);
    assert_eq!(result.mapped_addr, None);
    assert_eq!(result.nat_type, NatType::Unknown);
}

fn response(tid: &[u8; 12], attributes: &[u8]) -> Vec<u8> {
    let mut b = vec![0x01, 0x01];
    b.extend_from_slice(&(attributes.len() as u16).to_be_bytes());
    b.extend_from_slice(&STUN_MAGIC_COOKIE.to_be_bytes());
    b.extend_from_slice(tid);
    b.extend_from_slice(attributes);
    b
}

#[test]
fn mapped_addresses_are_read() {
    let tid = transaction_id_at(1);
    let xor = [0, 0x20, 0, 8, 0, 1, 0x21 ^ 0x12, 0x12 ^ 0x34, 0x21 ^ 203, 0x12, 0xa4 ^ 113, 0x42 ^ 9];
    assert_eq!(parse_mapped_address(&response(&tid, &xor), &tid), Some(v4(203, 0, 113, 9, 0x1234)));
    let plain = [0, 1, 0, 8, 0, 1, 0x12, 0x35, 1, 2, 3, 4];
    assert_eq!(parse_mapped_address(&response(&tid, &plain), &tid), Some(v4(1, 2, 3, 4, 0x1235)));
    // The combined attribute wins, and an attribute of odd length is padded.
    let mut both = vec![0x80, 0x22, 0, 5, 1, 2, 3, 4, 5, 0, 0, 0];
    both.extend_from_slice(&xor);
    both.extend_from_slice(&plain);
    assert_eq!(parse_mapped_address(&response(&tid, &both), &tid), Some(v4(203, 0, 113, 9, 0x1234)));
    // A sixth-version combined address is not read, the plain one is.
    let mut six = vec![0, 0x20, 0, 20, 0, 2];
    six.extend_from_slice(&[0u8; 18]);
    six.extend_from_slice(&[0, 1, 0, 20, 0, 2, 0, 80]);
    six.extend_from_slice(&[0x20, 1, 0xd, 0xb8, 0, 0, 0, 0, 0, 0, 0, 0, 0, 0, 0, 1]);
    assert_eq!(
        parse_mapped_address(&response(&tid, &six), &tid),
        Some(SocketAddr::new(IpAddr::V6(Ipv6Addr::new(0x2001, 0xdb8, 0, 0, 0, 0, 0, 1)), 80))
    );
    assert_eq!(parse_mapped_address(&response(&tid, &xor), &transaction_id_at(2)), None);
    assert_eq!(parse_mapped_address(&response(&tid, &xor)[..19], &tid), None);
    assert_eq!(parse_mapped_address(&response(&tid, &xor[..10]), &tid), None);
    let mut request = response(&tid, &xor);
    request[1] = 0;
    assert_eq!(parse_mapped_address(&request, &tid), None);
    let local = v4(203, 0, 113, 9, 0x1234);
    assert_eq!(binding_result("s", &response(&tid, &xor), &tid, local, 3).nat_type, NatType::OpenInternet);
}

#[test]
fn nat_types_follow_the_probes() {
    let local = v4(192, 168, 0, 2, 4000);
    let m1 = v4(5, 5, 5, 5, 4000);
    let m2 = v4(5, 5, 5, 5, 4001);
    let open = stun("a", Some(local), local);
    let a = stun("a", Some(m1), local);
    let same = stun("b", Some(m1), local);
    let other = stun("b", Some(m2), local);
    assert_eq!(detect_nat_type(Some(&open), None), NatType::OpenInternet);
    assert_eq!(detect_nat_type(Some(&a), Some(&same)), NatType::FullCone);
    assert_eq!(detect_nat_type(Some(&a), Some(&other)), NatType::Symmetric);
    assert_eq!(detect_nat_type(Some(&a), None), NatType::Unknown);
    let names: Vec<String> = vec!["a".to_string(), "a".to_string(), "b".to_string()];
    assert_eq!(choose_servers(&names), ("a".to_string(), "b".to_string()));
    assert_eq!(detect_nat_type_multi(&names, &vec![same, a]), NatType::FullCone);
    assert_eq!(
        choose_servers(&vec![]),
        ("stun.l.google.com:19302".to_string(), "stun1.l.google.com:19302".to_string())
    );
    assert_eq!(choose_servers(&names[..1].to_vec()).1, "stun1.l.google.com:19302");
    assert_eq!(choose_servers(&names[..2].to_vec()).1, "stun1.l.google.com:19302");
    let second = vec!["stun1.l.google.com:19302".to_string()];
    assert_eq!(choose_servers(&second), (second[0].clone(), "stun.l.google.com:19302".to_string()));
}

#[test]
fn reachability_follows_the_first_success() {
    let local = v4(0, 0, 0, 0, 9);
    let outcomes = vec![None, Some(stun("x", None, local)), Some(stun("y", Some(v4(9, 9, 9, 9, 9)), local))];
    assert_eq!(stun_binding_request_multi(&outcomes).unwrap().server, "y");
    let r = check_udp_reachability(&outcomes, 9);
    assert!(r.reachable);
    assert_eq!((r.server.as_str(), r.rtt_ms, r.local_port), ("y", 7, 9));
    let moved = check_udp_reachability(&outcomes, 10);
    assert!(!moved.reachable);
    assert_eq!((moved.mapped_addr, moved.local_port), (Some(v4(9, 9, 9, 9, 9)), 10));
    let none = check_udp_reachability(&vec![None], 9);
    assert!(!none.reachable);
    assert_eq!((none.server.as_str(), none.rtt_ms), ("", 0));
    assert_eq!(probe_bind_addr(77), v4(0, 0, 0, 0, 77));
}

// ---- hole punching ----

#[test]
fn test_hole_punch_config_default() {
    let config = HolePunchConfig::default();
    assert_eq!(config.punch_timeout_ms, 5000);
    assert_eq!(config.max_retries, 3);
    assert_eq!(config.punch_packet_count, 10);
    assert!(config.enable_port_prediction);
}

#[test]
fn test_hole_punch_stats() {
    let mut stats = HolePunchStats::default();
    assert_eq!(stats.total_attempts, 0);
    assert_eq!(stats.success_ratio(), (0, 0));
    let result = HolePunchResult {
        success: true,
        peer_addr: None,
        local_mapped_addr: None,
        duration_ms: 100,
        retries: 0,
        nat_type: "FullCone".to_string(),
        error: None,
        strategy: "simple_punch".to_string(),
    };
    stats.record(&result);
    assert_eq!(stats.total_attempts, 1);
    assert_eq!(stats.success_count, 1);
    assert_eq!(stats.total_duration_ms as f64 / stats.total_attempts as f64, 100.0);
    assert_eq!(stats.nat_type_success.get("FullCone"), Some(&1));
    assert_eq!(stats.nat_type_failure.get("FullCone"), None);
}

#[test]
fn punch_counts_add_up() {
    let mut stats = HolePunchStats::default();
    let attempts = [(true, "FullCone", 100), (true, "Symmetric", 50), (false, "FullCone", 30), (true, "FullCone", 20)];
    for (success, nat_type, duration_ms) in attempts {
        stats.record(&HolePunchResult {
            success,
            peer_addr: None,
            local_mapped_addr: None,
            duration_ms,
            retries: 0,
            nat_type: nat_type.to_string(),
            error: None,
            strategy: "simple_punch".to_string(),
        });
    }
    assert_eq!((stats.total_attempts, stats.success_count, stats.failure_count), (4, 3, 1));
    assert_eq!(stats.total_duration_ms, 200);
    assert_eq!(stats.nat_type_success.get("FullCone"), Some(&2));
    assert_eq!(stats.nat_type_success.get("Symmetric"), Some(&1));
    assert_eq!(stats.nat_type_failure.get("FullCone"), Some(&1));
}

#[test]
fn test_hole_puncher_creation() {
    let puncher = HolePuncher::new(HolePunchConfig::default());
    assert_eq!(puncher.active_session_count(), 0);
    assert_eq!(puncher.nat_type(), NatType::Unknown);
}

#[test]
fn punch_succeeds_at_the_second_try() {
    let peer = v4(7, 7, 7, 7, 7000);
    let mut p = HolePuncher::new(HolePunchConfig::default());
    let mut run = p.begin_punch(peer, "peer", Instant::now());
    assert_eq!(run.first_action(), PunchAction::Try);
    assert_eq!(run.on_try(Err("no".to_string())), PunchAction::WaitThenTry(200));
    assert_eq!(run.on_try(Ok(v4(7, 7, 7, 7, 7001))), PunchAction::Finish);
    let r = p.finish_punch(run, "peer", 321);
    assert!(r.success);
    assert_eq!(r.peer_addr, Some(v4(7, 7, 7, 7, 7001)));
    assert_eq!((r.retries, r.duration_ms, r.error), (1, 321, None));
    assert_eq!(r.nat_type, "Unknown");
    assert_eq!(r.strategy, "simultaneous_punch");
    assert_eq!(p.active_session_count(), 1);
    assert_eq!(p.stats().success_count, 1);
    assert_eq!(p.stats().nat_type_success.get("Unknown"), Some(&1));
    let session = p.active_sessions.get("peer").unwrap();
    assert_eq!((session.peer_id.as_str(), session.success, session.retries), ("peer", true, 1));
}

#[test]
fn punch_keeps_the_last_error() {
    let mut p = HolePuncher::new(HolePunchConfig::default());
    let mut run = p.begin_punch(v4(7, 7, 7, 7, 7000), "peer", Instant::now());
    run.on_try(Err("a".to_string()));
    run.on_try(Err("b".to_string()));
    assert_eq!(run.on_try(Err("c".to_string())), PunchAction::WaitThenFinish(200));
    let r = p.finish_punch(run, "peer", 1);
    assert!(!r.success);
    assert_eq!(r.error, Some("c".to_string()));
    assert_eq!(r.retries, 2);
    assert_eq!(p.stats().failure_count, 1);
    let mut none = HolePunchConfig::default();
    none.max_retries = 0;
    let mut q = HolePuncher::new(none);
    assert_eq!(q.begin_punch(v4(1, 1, 1, 1, 1), "x", Instant::now()).first_action(), PunchAction::Finish);
}

#[test]
fn punch_plans_follow_the_type() {
    let peer = v4(7, 7, 7, 7, 65530);
    let mut c = HolePunchConfig::default();
    c.punch_packet_count = 2;
    c.port_prediction_range = 12;
    assert_eq!(
        plan_punch(&c, NatType::FullCone, peer),
        vec![
            PunchStep::Send(peer),
            PunchStep::Pause(100),
            PunchStep::Send(peer),
            PunchStep::Pause(100),
            PunchStep::Await(5000)
        ]
    );
    assert_eq!(
        plan_punch(&c, NatType::Unknown, peer),
        vec![PunchStep::Send(peer), PunchStep::Send(peer), PunchStep::Await(5000)]
    );
    let guess = plan_punch(&c, NatType::Symmetric, peer);
    assert_eq!(guess.len(), 12 + 2 + 1);
    assert_eq!(guess[0], PunchStep::Send(peer));
    assert_eq!(guess[1], PunchStep::Poll(50));
    assert_eq!(guess[7], PunchStep::Send(v4(7, 7, 7, 7, 0)));
    assert_eq!(choose_strategy(NatType::Symmetric, true), "port_prediction");
    assert_eq!(choose_strategy(NatType::Symmetric, false), "simultaneous_punch");
    assert_eq!(choose_strategy(NatType::OpenInternet, false), "direct_connection");
}

#[test]
fn puncher_learns_its_address_and_type() {
    let local = v4(10, 0, 0, 2, 1);
    let mapped = v4(5, 5, 5, 5, 1);
    let mut p = HolePuncher::new(HolePunchConfig::default());
    assert!(p.discover_mapped_address(&vec![None, Some(stun("a", None, local))]).is_err());
    assert_eq!(p.discover_mapped_address(&vec![None, Some(stun("a", Some(mapped), local))]), Ok(mapped));
    assert_eq!(p.mapped_address(), Some(mapped));
    let a = stun("a", Some(mapped), local);
    let b = stun("b", Some(v4(5, 5, 5, 5, 2)), local);
    assert_eq!(p.detect_nat_type(true, Some(&a), Some(&b)), NatType::Symmetric);
    assert_eq!(p.detect_nat_type(false, None, None), NatType::Unknown);
    assert_eq!(p.nat_type(), NatType::Symmetric);
}
