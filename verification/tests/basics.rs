use pnos_sdk::addr::{IpAddr, Ipv4Addr, Ipv6Addr, SocketAddr};
use pnos_sdk::bytes::{get_be16, get_be32, get_be64, put_be16, put_be32, put_be64};
use pnos_sdk::numbers::{parse_unsigned, to_decimal};
use pnos_sdk::sorting::{descending_order, sort_ascending};
use pnos_sdk::string_map::StringMap;
use pnos_sdk::text;
use pnos_sdk::time::{
    current_unix_nanos, current_unix_secs, millis_since, secs_since, span_millis, span_secs, time_since,
    unix_nanos_of, unix_secs_of, Duration,
};
use pnos_sdk::types::{DiscoverySource, NodeAddress, NodeId, NodeIdError, Reachability};

fn chars(s: &str) -> Vec<char> {
    s.chars().collect()
}

#[test]
fn big_endian_round_trip() {
    let mut out: Vec<u8> = vec![9];
    put_be16(&mut out, 0x1234);
    put_be32(&mut out, 0xdead_beef);
    put_be64(&mut out, 0x0102_0304_0506_0708);
    assert_eq!(out, vec![9, 0x12, 0x34, 0xde, 0xad, 0xbe, 0xef, 1, 2, 3, 4, 5, 6, 7, 8]);
    assert_eq!(get_be16(&out, 1), 0x1234);
    assert_eq!(get_be32(&out, 3), 0xdead_beef);
    assert_eq!(get_be64(&out, 7), 0x0102_0304_0506_0708);
}

#[test]
fn numbers_are_read_and_written() {
    assert_eq!(to_decimal(0), "0");
    assert_eq!(to_decimal(18446744073709551615), "18446744073709551615");
    assert_eq!(parse_unsigned(&chars("18446744073709551615"), 10, u64::MAX), Some(u64::MAX));
    assert_eq!(parse_unsigned(&chars("18446744073709551616"), 10, u64::MAX), None);
    assert_eq!(parse_unsigned(&chars("+7"), 10, 100), Some(7));
    assert_eq!(parse_unsigned(&chars("+"), 10, 100), None);
    assert_eq!(parse_unsigned(&chars(""), 10, 100), None);
    assert_eq!(parse_unsigned(&chars("-1"), 10, 100), None);
    assert_eq!(parse_unsigned(&chars("0101A8C0"), 16, 0xffff_ffff), Some(0x0101a8c0));
    assert_eq!(parse_unsigned(&chars("1ffffffff"), 16, 0xffff_ffff), None);
}

#[test]
fn text_is_cut_as_documented() {
    assert_eq!(text::split_lines("a\r\nb\n\nc"), vec!["a", "b", "", "c"]);
    assert_eq!(text::split_lines("a\n"), vec!["a"]);
    assert_eq!(text::split_lines("a\r"), vec!["a\r"]);
    assert!(text::split_lines("").is_empty());
    assert_eq!(text::split_words("  a\tb\u{3000}c \n"), vec!["a", "b", "c"]);
    assert_eq!(text::trim(" \t网关 \n"), "网关");
    assert_eq!(text::trim_end_char("http://x//", '/'), "http://x");
    assert_eq!(text::replace("a{id}b{id}", "{id}", "7"), "a7b7");
    assert_eq!(text::replace_first("aXbX", "X", "--"), "a--bX");
    assert_eq!(text::split_once("k=v=w", '='), Some(("k".to_string(), "v=w".to_string())));
    assert_eq!(text::split_once("kv", '='), None);
    assert_eq!(text::piece_after("a: b : c", ':'), Some(" b ".to_string()));
    assert!(text::contains("x0.0.0.0/0y", "0.0.0.0/0"));
    assert!(!text::contains("x0.0.0.0", "0.0.0.0/0"));
}

#[test]
fn ipv4_text_round_trip() {
    for a in [Ipv4Addr::new(0, 0, 0, 0), Ipv4Addr::new(192, 168, 1, 254), Ipv4Addr::new(255, 10, 9, 100)] {
        assert_eq!(Ipv4Addr::parse(&a.to_text()), Some(a));
    }
    assert_eq!(Ipv4Addr::parse("10.0.0.1"), Some(Ipv4Addr::new(10, 0, 0, 1)));
    for bad in ["10.0.0", "10.0.0.256", "10.0.0.01", "10.0.0.+1", "10.0.0.1.2", "10..0.1", "", " 10.0.0.1"] {
        assert_eq!(Ipv4Addr::parse(bad), None);
    }
    assert_eq!(Ipv4Addr::new(1, 2, 3, 4).octets(), [1, 2, 3, 4]);
}

#[test]
fn spans_of_time() {
    assert_eq!(Duration::from_secs(2).as_millis(), 2000);
    assert_eq!(Duration::from_millis(1999).as_secs(), 1);
    assert_eq!(Duration::from_nanos(1999).as_micros(), 1);
    assert_eq!(Duration::from_secs(3).saturating_sub(&Duration::from_secs(5)).as_nanos(), 0);
    assert_eq!(Duration::from_secs(16).doubled_up_to(&Duration::from_secs(30)).as_secs(), 30);
}

#[test]
fn sorting_is_stable_and_descending() {
    assert_eq!(sort_ascending(&vec![3, 1, 2, 1]), vec![1, 1, 2, 3]);
    assert_eq!(descending_order(&vec![1, 5, 5, 0, 9]), vec![4, 1, 2, 0, 3]);
}

#[test]
fn string_map_keeps_one_entry_per_key() {
    let mut m: StringMap<u32> = StringMap::new();
    assert!(m.is_empty());
    m.insert("a".to_string(), 1);
    m.insert("b".to_string(), 2);
    m.insert("a".to_string(), 3);
    assert_eq!(m.len(), 2);
    assert_eq!(m.get("a"), Some(&3));
    assert_eq!(m.remove("a"), Some(3));
    assert_eq!(m.remove("a"), None);
    assert!(!m.contains_key("a"));
    m.clear();
    assert_eq!(m.len(), 0);
}

#[test]
fn node_id_hex_round_trip() {
    let mut b = [0u8; 20];
    for i in 0..20 {
        b[i] = (i * 13) as u8;
    }
    let id = NodeId(b);
    assert_eq!(id.to_hex(), "000d1a2734414e5b6875828f9ca9b6c3d0ddeaf7");
    assert_eq!(id.to_short(), "000d1a27");
    assert_eq!(id.to_debug(), "NodeId(000d1a2734414e5b6875828f9ca9b6c3d0ddeaf7)");
    assert_eq!(NodeId::from_hex(&id.to_hex()), Ok(id));
    assert_eq!(NodeId::from_hex(&id.to_hex().to_uppercase()), Ok(id));
    assert_eq!(id.as_bytes(), &b);
}

#[test]
fn node_id_refuses_other_texts() {
    assert_eq!(NodeId::from_hex("ab"), Err(NodeIdError::Length(2)));
    let mut s = "0".repeat(38);
    s.push_str("zz");
    assert_eq!(NodeId::from_hex(&s), Err(NodeIdError::Digit));
    let mut p = "0".repeat(38);
    p.push_str("+f");
    let mut want = [0u8; 20];
    want[19] = 15;
    assert_eq!(NodeId::from_hex(&p), Ok(NodeId(want)));
    let cut = format!("{}网", "0".repeat(37));
    assert_eq!(cut.len(), 40);
    assert!(!NodeId::can_cut_hex(&cut));
    assert!(NodeId::can_cut_hex(&p));
    assert_eq!(NodeId::from_slice(&[1u8; 19]), None);
    assert_eq!(NodeId::from_slice(&[1u8; 20]), Some(NodeId([1; 20])));
}

#[test]
fn random_ids_differ() {
    assert!(NodeId::random() != NodeId::random());
}

#[test]
fn names_and_preferred_address() {
    assert_eq!(Reachability::HolePunchable.to_string(), "HolePunchable");
    assert_eq!(DiscoverySource::Dht.to_string(), "DHT");
    assert_eq!(DiscoverySource::Pex.to_string(), "PEX");
    let v4 = SocketAddr::new(IpAddr::V4(Ipv4Addr::new(1, 2, 3, 4)), 5);
    let v6 = SocketAddr::new(IpAddr::V6(Ipv6Addr::new(0x2001, 0xdb8, 0, 0, 0, 0, 0, 1)), 6);
    let mut n = NodeAddress {
        node_id: [0; 20],
        ipv4_addr: None,
        ipv6_addr: Some(v6),
        reachability: Reachability::Unknown,
        last_seen: 0,
        nat_type: None,
    };
    assert_eq!(n.preferred_addr(), Some(v6));
    n.ipv4_addr = Some(v4);
    assert_eq!(n.preferred_addr(), Some(v4));
}

#[test]
fn clock_readings_are_converted() {
    let d = std::time::Duration::new(12, 345_678_901);
    assert_eq!((span_secs(&d), span_millis(&d)), (12, 12_345));
    assert_eq!(unix_secs_of(&Ok(d)), 12);
    assert_eq!(unix_nanos_of(&Ok(d)), 12_345_678_901);
    // Longer than 64 bits of nanoseconds or milliseconds.
    let long = std::time::Duration::from_secs(18_446_744_073_709_552);
    assert_eq!(span_secs(&long), 18_446_744_073_709_552);
    assert_eq!(span_millis(&long), 384);
    let longer = std::time::Duration::new(18_446_744_073, 709_551_617);
    assert_eq!(unix_nanos_of(&Ok(longer)), 1);
    let epoch = std::time::UNIX_EPOCH;
    let before = epoch.duration_since(epoch + std::time::Duration::from_secs(1));
    assert!(before.is_err());
    assert_eq!((unix_secs_of(&before), unix_nanos_of(&before)), (0, 0));
}

#[test]
fn clocks_are_read() {
    let first = current_unix_secs();
    assert!(first > 1_500_000_000);
    assert!(current_unix_nanos() / 1_000_000_000 >= first);
    let start = std::time::Instant::now();
    assert!(secs_since(&start) < 20);
    assert!(millis_since(&start) < 20_000);
    let earlier = start - std::time::Duration::from_millis(1_500);
    assert!(secs_since(&earlier) >= 1);
    assert!(millis_since(&earlier) >= 1_500);
    assert!(time_since(&earlier) >= std::time::Duration::from_millis(1_500));
}

#[test]
fn white_space_is_that_of_unicode() {
    let listed = [
        0x20, 0x85, 0xa0, 0x1680, 0x2028, 0x2029, 0x202f, 0x205f, 0x3000,
    ];
    for c in '\0'..=char::MAX {
        let n = c as u32;
        let white = (0x9..=0xd).contains(&n) || (0x2000..=0x200a).contains(&n) || listed.contains(&n);
        let trimmed = text::trim(&format!("{}x", c));
        assert_eq!(trimmed == "x", white, "{:x}", n);
        assert_eq!(text::split_words(&format!("a{}b", c)).len(), if white { 2 } else { 1 });
    }
}
