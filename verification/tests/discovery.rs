use pnos_sdk::addr::{IpAddr, Ipv4Addr, Ipv6Addr, SocketAddr};
use pnos_sdk::discovery::lpd::{
    LpdAction, LpdAnnounceMessage, LpdDiscoveryService, LpdError, LpdEvent, LpdStage,
};
use pnos_sdk::discovery::mqtt::{
    broker_ip_fallback, connect_host, connection_targets, on_broker_event, public_brokers,
    BrokerAction, BrokerEvent, BrokerRun, BrokerStep, MqttDiscoveryMessage, MqttDiscoveryService,
};
use pnos_sdk::discovery::peer_cache::PeerCache;
use pnos_sdk::types::{DiscoverySource, NodeId};

fn v4(a: u8, b: u8, c: u8, d: u8, port: u16) -> SocketAddr {
    SocketAddr::new(IpAddr::V4(Ipv4Addr::new(a, b, c, d)), port)
}

fn make_test_service(multicast_port: u16) -> LpdDiscoveryService {
    LpdDiscoveryService::new([0xAA; 20], 6885, 6880, multicast_port)
}

fn make_remote_wire(node_id: [u8; 20], federation_port: u16) -> Vec<u8> {
    let msg = LpdAnnounceMessage {
        node_id,
        federation_port,
        api_port: 9090,
        capabilities: 0,
        data_entry_count: 12345,
    };
    msg.to_wire().unwrap()
}

#[test]
fn test_lpd_message_serde_roundtrip() {
    let msg = LpdAnnounceMessage {
        node_id: [0xAB; 20],
        federation_port: 6885,
        api_port: 6880,
        capabilities: 3,
        data_entry_count: 999,
    };
    let bytes = msg.to_payload().unwrap();
    let decoded = LpdAnnounceMessage::from_payload(&bytes).unwrap();
    assert_eq!(msg, decoded);
}

#[test]
fn test_lpd_message_with_magic() {
    let msg = LpdAnnounceMessage {
        node_id: [0x11; 20],
        federation_port: 6885,
        api_port: 6880,
        capabilities: 0,
        data_entry_count: 42,
    };
    let wire = msg.to_wire().unwrap();
    assert_eq!(&wire[..4], b"PDCL");
    let decoded = LpdAnnounceMessage::from_wire(&wire).unwrap();
    assert_eq!(decoded, msg);
    let mut bad = wire.clone();
    bad[0] = 0x00;
    assert!(LpdAnnounceMessage::from_wire(&bad).is_err());
    assert!(LpdAnnounceMessage::from_wire(b"PD").is_err());
}

#[test]
fn lpd_packet_bytes() {
    let msg = LpdAnnounceMessage {
        node_id: [9; 20],
        federation_port: 0x0102,
        api_port: 0x0304,
        capabilities: 0x0506_0708,
        data_entry_count: 0x090a_0b0c,
    };
    let mut want = b"PDCL".to_vec();
    want.extend_from_slice(&[9; 20]);
    want.extend_from_slice(&[2, 1, 4, 3, 8, 7, 6, 5, 0x0c, 0x0b, 0x0a, 9]);
    assert_eq!(msg.to_wire(), Ok(want.clone()));
    want.push(77);
    assert_eq!(LpdAnnounceMessage::from_wire(&want), Ok(msg));
    assert_eq!(LpdAnnounceMessage::from_wire(&want[..35]), Err(LpdError::Payload));
    assert_eq!(LpdAnnounceMessage::from_wire(b"XDCL"), Err(LpdError::Magic));
}

#[test]
fn test_service_creation() {
    let svc = make_test_service(6771);
    assert_eq!(svc.multicast_addr, Ipv4Addr::new(239, 255, 43, 21));
    assert_eq!(svc.multicast_port, 6771);
    assert_eq!(svc.broadcast_interval_secs, 5);
    assert_eq!(svc.federation_port, 6885);
    assert_eq!(svc.api_port, 6880);

    let svc2 = make_test_service(16771)
        .with_multicast_addr(Ipv4Addr::new(239, 255, 43, 99))
        .with_broadcast_interval(10);
    assert_eq!(svc2.multicast_addr, Ipv4Addr::new(239, 255, 43, 99));
    assert_eq!(svc2.multicast_port, 16771);
    assert_eq!(svc2.broadcast_interval_secs, 10);
    assert_eq!(svc2.group_addr(), v4(239, 255, 43, 99, 16771));
    assert_eq!(svc2.bind_addr(), v4(0, 0, 0, 0, 16771));
}

#[test]
fn test_skip_self() {
    let svc = make_test_service(6771);
    let self_wire = make_remote_wire([0xAA; 20], 6885);
    let src = v4(192, 168, 1, 100, 54321);
    assert!(svc.handle_received_message(&self_wire, src).is_none());
    assert!(svc.handle_received_message(&svc.announcement().unwrap(), src).is_none());
}

#[test]
fn test_process_remote_node() {
    let svc = make_test_service(6771);
    let mut remote_id = [0u8; 20];
    remote_id.copy_from_slice(b"REMOTE_NODE_ID_12345");
    let wire = make_remote_wire(remote_id, 6885);
    let src = v4(192, 168, 1, 200, 54321);
    let discovered = svc.handle_received_message(&wire, src).expect("a remote node is found");
    assert_eq!(discovered.node_id, NodeId(remote_id));
    assert_eq!(discovered.addresses.len(), 1);
    assert_eq!(discovered.addresses[0], v4(192, 168, 1, 200, 6885));
    assert_eq!(discovered.source, DiscoverySource::Lpd);
    assert!(discovered.last_seen > 1_600_000_000);

    let garbage = v4(10, 0, 0, 5, 1111);
    assert!(svc.handle_received_message(b"XXXXgarbage", garbage).is_none());
    let six = SocketAddr::new(IpAddr::V6(Ipv6Addr { bits: 1 }), 5);
    assert!(svc.handle_received_message_at(&wire, six, 1).is_none());
    assert_eq!(svc.handle_received_message_at(&wire, src, 17).unwrap().last_seen, 17);
}

#[test]
fn lpd_stages() {
    let (s, a) = LpdStage::start();
    assert_eq!((s, a), (LpdStage::Binding, LpdAction::Bind));
    assert_eq!(s.next(LpdEvent::StepFailed), (LpdStage::Stopped, LpdAction::Stop));
    let (s, a) = s.next(LpdEvent::StepDone);
    assert_eq!(a, LpdAction::Attach);
    let (s, a) = s.next(LpdEvent::StepDone);
    assert_eq!(a, LpdAction::Join);
    let (s, a) = s.next(LpdEvent::StepDone);
    assert_eq!((s, a), (LpdStage::Running, LpdAction::Listen));
    assert_eq!(s.next(LpdEvent::Tick), (s, LpdAction::Announce));
    assert_eq!(s.next(LpdEvent::Packet), (s, LpdAction::Handle));
    assert_eq!(s.next(LpdEvent::ReceiveFailed), (s, LpdAction::Listen));
    assert_eq!(s.next(LpdEvent::Shutdown), (LpdStage::Stopped, LpdAction::Stop));
}

// ---- peer cache ----

#[test]
fn test_upsert_new_node() {
    let mut cache = PeerCache::default();
    let id = [1u8; 20];
    cache.upsert(&id, "1.2.3.4:6885", true);
    assert_eq!(cache.nodes.len(), 1);
    assert_eq!(cache.nodes[0].success_count, 1);
    assert_eq!(cache.nodes[0].addr, "1.2.3.4:6885");
}

#[test]
fn test_upsert_existing_node() {
    let mut cache = PeerCache::default();
    let id = [1u8; 20];
    cache.upsert(&id, "1.2.3.4:6885", true);
    cache.upsert(&id, "1.2.3.4:6886", true);
    assert_eq!(cache.nodes.len(), 1);
    assert_eq!(cache.nodes[0].success_count, 2);
    assert_eq!(cache.nodes[0].addr, "1.2.3.4:6886");
}

#[test]
fn test_upsert_failure_not_increment() {
    let mut cache = PeerCache::default();
    let id = [1u8; 20];
    cache.upsert(&id, "1.2.3.4:6885", false);
    assert_eq!(cache.nodes[0].success_count, 0);
}

#[test]
fn test_top_addrs() {
    let mut cache = PeerCache::default();
    for i in 0..5u8 {
        let id = [i; 20];
        for _ in 0..(i + 1) as u32 {
            cache.upsert(&id, &format!("10.0.0.{}:6885", i), true);
        }
    }
    let top = cache.top_addrs(3);
    assert_eq!(top.len(), 3);
    assert_eq!(top[0], "10.0.0.4:6885");
    assert_eq!(top[2], "10.0.0.2:6885");
}

#[test]
fn test_prune_removes_old_and_zero_success() {
    let mut cache = PeerCache::default();
    let good_id = [1u8; 20];
    cache.upsert(&good_id, "1.1.1.1:6885", true);
    let zero_id = [2u8; 20];
    cache.upsert(&zero_id, "2.2.2.2:6885", false);
    let old_id = [3u8; 20];
    cache.upsert(&old_id, "3.3.3.3:6885", true);
    cache.nodes[2].last_seen = 0;

    cache.prune(100);
    assert_eq!(cache.nodes.len(), 1);
    assert_eq!(cache.nodes[0].node_id, good_id);
}

#[test]
fn test_prune_truncate() {
    let mut cache = PeerCache::default();
    for i in 0..20u8 {
        let id = [i; 20];
        cache.upsert(&id, &format!("10.0.0.{}:6885", i), true);
    }
    cache.prune(10);
    assert_eq!(cache.nodes.len(), 10);
    assert_eq!(cache.nodes[0].node_id, [0; 20]);
}

#[test]
fn prune_at_the_limit_of_seven_days() {
    let mut cache = PeerCache::default();
    cache.upsert_at(&[1; 20], "a", true, 1000);
    cache.upsert_at(&[2; 20], "b", true, 1001);
    cache.upsert_at(&[2; 20], "b", true, 1001);
    cache.upsert_at(&[3; 20], "c", true, 5_000_000);
    cache.prune_at(10, 1000 + 604800);
    let ids: Vec<u8> = cache.nodes.iter().map(|n| n.node_id[0]).collect();
    assert_eq!(ids, vec![2, 3]);
    assert_eq!(cache.last_updated, 5_000_000);
    let mut full = PeerCache::default();
    full.upsert_at(&[1; 20], "a", true, 1);
    full.nodes[0].success_count = u32::MAX;
    full.upsert_at(&[1; 20], "a", true, 2);
    assert_eq!(full.nodes[0].success_count, u32::MAX);
}

// ---- brokers ----

#[test]
fn broker_targets() {
    let t = connection_targets(public_brokers(), &broker_ip_fallback());
    assert_eq!(t.len(), 6);
    assert_eq!(t[0], ("test.mosquitto.org".to_string(), 1883));
    assert_eq!(t[5], ("137.135.83.217".to_string(), 1883));
    let again = connection_targets(t, &broker_ip_fallback());
    assert_eq!(again.len(), 6);
}

#[test]
fn broker_messages() {
    let m = MqttDiscoveryMessage::new([0xab; 20], vec!["1.2.3.4:5".to_string()], 80, 6885);
    assert_eq!(m.node_id, "ab".repeat(20));
    assert_eq!((m.version, m.capabilities, m.api_port, m.federation_port), (1, 0, 80, 6885));
    assert!(m.timestamp > 1_600_000_000);
    let svc = MqttDiscoveryService::new([0x0f; 20], 1, 2, vec![]).with_heartbeat(9);
    assert_eq!(svc.heartbeat_secs, 9);
    assert_eq!(svc.client_id(), "pnos-0f0f0f0f0f0f0f0f");
    let parsed = vec![None, Some(v4(1, 2, 3, 4, 5))];
    let n = svc.handle_notification(&m, &parsed).unwrap();
    assert_eq!(n.node_id, NodeId([0xab; 20]));
    assert_eq!(n.addresses, vec![v4(1, 2, 3, 4, 5)]);
    assert_eq!(n.source, DiscoverySource::Mqtt);
    assert!(svc.handle_notification_at(&m, &vec![None], m.timestamp, 1).is_none());
    assert!(svc.handle_notification_at(&m, &parsed, m.timestamp + 301, 1).is_none());
    assert_eq!(svc.handle_notification_at(&m, &parsed, m.timestamp + 300, 8).unwrap().last_seen, 8);
    assert!(svc.handle_notification_at(&m, &parsed, 0, 1).is_some());
    let own = MqttDiscoveryMessage::new_at([0x0f; 20], vec![], 1, 2, 5);
    assert!(svc.handle_notification_at(&own, &parsed, 5, 5).is_none());
    let mut bad = MqttDiscoveryMessage::new_at([1; 20], vec![], 1, 2, 5);
    bad.node_id = "xyz".to_string();
    assert!(svc.handle_notification_at(&bad, &parsed, 5, 5).is_none());
    // Forty bytes, with a character across a cut.
    bad.node_id = format!("{}{}", "€", "a".repeat(37));
    assert_eq!(bad.node_id.len(), 40);
    assert!(svc.handle_notification_at(&bad, &parsed, 5, 5).is_none());
    assert!(svc.handle_notification_at(&bad, &parsed, 5_000, 5).is_none());
    assert!(svc.handle_notification(&bad, &parsed).is_none());
}

#[test]
fn broker_failures() {
    let mut run = BrokerRun::new();
    assert_eq!(run.on_end(true), BrokerStep::RetryAfter(5));
    assert_eq!(run.on_end(true), BrokerStep::RetryAfter(5));
    assert_eq!(run.on_end(true), BrokerStep::GiveUp);
    assert_eq!(BrokerRun::new().on_end(false), BrokerStep::Done);
    assert_eq!(on_broker_event(BrokerEvent::Heartbeat), BrokerAction::Publish);
    assert_eq!(on_broker_event(BrokerEvent::ConnectionError), BrokerAction::Fail);
    assert_eq!(on_broker_event(BrokerEvent::Notification), BrokerAction::Handle);
    assert_eq!(on_broker_event(BrokerEvent::Shutdown), BrokerAction::Disconnect);
    assert_eq!(connect_host("h", Some(&vec!["9.9.9.9".to_string()])), "9.9.9.9");
    assert_eq!(connect_host("h", Some(&vec![])), "h");
    assert_eq!(connect_host("h", None), "h");
}
