//! STUN binding requests and what their answers tell of a translator.

use vstd::prelude::*;

use crate::addr::{read_ipv4, read_ipv6, IpAddr, Ipv4Addr, Ipv6Addr, SocketAddr};
use crate::bytes::{
    be_bytes, be_value, field, get_be16, lemma_be_round_trip, lemma_pow256_values, put_be16,
    put_be32, put_be64, same_bytes, zeros,
};
use crate::text::same_text;
use crate::time::{current_unix_nanos, is_unix_nanos};

verus! {

/// The fixed number in every STUN header.
pub const STUN_MAGIC_COOKIE: u32 = 0x2112_A442;

/// Message type of a binding request.
pub const STUN_BINDING_REQUEST: u16 = 0x0001;

/// Message type of a binding response.
pub const STUN_BINDING_RESPONSE: u16 = 0x0101;

/// Attribute that carries the address as it is.
pub const STUN_MAPPED_ADDRESS: u16 = 0x0001;

/// Attribute that carries the address combined with the cookie.
pub const STUN_XOR_MAPPED_ADDRESS: u16 = 0x0020;

/// How a translator treats the mappings it makes.
#[derive(Debug, Clone, Copy, PartialEq, Eq, Structural)]
pub enum NatType {
    /// No translation.
    OpenInternet,
    /// Full cone.
    FullCone,
    /// Restricted cone.
    RestrictedCone,
    /// Port restricted cone.
    PortRestrictedCone,
    /// Symmetric.
    Symmetric,
    /// The detection failed.
    Unknown,
}

impl NatType {
    /// The name of the type in snake case.
    pub open spec fn name(self) -> Seq<char> {
        match self {
            NatType::OpenInternet => "open_internet"@,
            NatType::FullCone => "full_cone"@,
            NatType::RestrictedCone => "restricted_cone"@,
            NatType::PortRestrictedCone => "port_restricted_cone"@,
            NatType::Symmetric => "symmetric"@,
            NatType::Unknown => "unknown"@,
        }
    }

    /// The name of the type in snake case.
    pub fn as_str(&self) -> (r: &'static str)
        ensures
            r@ == self.name(),
    {
        match self {
            NatType::OpenInternet => "open_internet",
            NatType::FullCone => "full_cone",
            NatType::RestrictedCone => "restricted_cone",
            NatType::PortRestrictedCone => "port_restricted_cone",
            NatType::Symmetric => "symmetric",
            NatType::Unknown => "unknown",
        }
    }

    /// Whether a peer outside can open a connection unaided.
    pub fn is_favorable(&self) -> (r: bool)
        ensures
            r == lets_peers_in(*self),
            r == (self is OpenInternet || self is FullCone),
    {
        matches!(self, NatType::OpenInternet | NatType::FullCone)
    }
}

/// What one probe of a STUN server gave.
#[derive(Debug, Clone)]
pub struct StunResult {
    /// Whether the answer held an address.
    pub success: bool,
    /// The address as seen from outside, if any.
    pub mapped_addr: Option<SocketAddr>,
    /// The address that the probe was sent from.
    pub local_addr: SocketAddr,
    /// What one probe tells of the translator.
    pub nat_type: NatType,
    /// The server that was asked.
    pub server: String,
    /// Milliseconds from the request to the answer.
    pub rtt_ms: u64,
}

/// The transaction id made of a clock reading: its eight bytes, then four fixed ones.
pub open spec fn transaction_id_of(nanos: u64) -> Seq<u8> {
    be_bytes(nanos as nat, 8) + seq![0x12u8, 0x34u8, 0x56u8, 0x78u8]
}

/// The transaction id made of a clock reading.
pub fn transaction_id_at(nanos: u64) -> (r: [u8; 12])
    ensures
        r@ == transaction_id_of(nanos),
{
    let mut head: Vec<u8> = Vec::new();
    put_be64(&mut head, nanos);
    proof {
        lemma_pow256_values();
        lemma_be_round_trip(nanos as nat, 8);
    }
    let r: [u8; 12] = [
        head[0],
        head[1],
        head[2],
        head[3],
        head[4],
        head[5],
        head[6],
        head[7],
        0x12,
        0x34,
        0x56,
        0x78,
    ];
    proof {
        assert(r@ =~= transaction_id_of(nanos));
    }
    r
}

/// A transaction id made of the clock's present reading.
pub fn random_transaction_id() -> (r: [u8; 12])
    ensures
        exists|nanos: u64| is_unix_nanos(nanos) && r@ == #[trigger] transaction_id_of(nanos),
{
    let now: u64 = current_unix_nanos();
    transaction_id_at(now)
}

/// A binding request: type, length zero, cookie, transaction id.
pub open spec fn binding_request(transaction_id: Seq<u8>) -> Seq<u8> {
    be_bytes(STUN_BINDING_REQUEST as nat, 2) + be_bytes(0, 2) + be_bytes(
        STUN_MAGIC_COOKIE as nat,
        4,
    ) + transaction_id
}

/// Builds a binding request.
pub fn build_binding_request(transaction_id: &[u8; 12]) -> (r: Vec<u8>)
    ensures
        r@ == binding_request(transaction_id@),
        r@.len() == 20,
{
    let mut buf: Vec<u8> = Vec::new();
    put_be16(&mut buf, STUN_BINDING_REQUEST);
    put_be16(&mut buf, 0);
    put_be32(&mut buf, STUN_MAGIC_COOKIE);
    buf.extend_from_slice(transaction_id.as_slice());
    proof {
        crate::bytes::lemma_be_bytes_len(STUN_BINDING_REQUEST as nat, 2);
        crate::bytes::lemma_be_bytes_len(0, 2);
        crate::bytes::lemma_be_bytes_len(STUN_MAGIC_COOKIE as nat, 4);
        assert(buf@ =~= binding_request(transaction_id@));
    }
    buf
}

/// One attribute of a message.
pub struct Attribute {
    pub kind: nat,
    pub value: Seq<u8>,
}

/// How far an attribute value of `n` bytes reaches with its padding.
pub open spec fn padded(n: int) -> int {
    (n + 3) / 4 * 4
}

/// The attributes that stand in `buf` from `offset` on and end by `end`: the
/// row stops at the first one that is cut off.
pub open spec fn attributes(buf: Seq<u8>, offset: int, end: int) -> Seq<Attribute>
    decreases
        (if offset < end {
            end - offset
        } else {
            0
        }),
{
    if offset < 0 || offset + 4 > end || end > buf.len() {
        Seq::empty()
    } else {
        let kind = be_value(field(buf, offset, offset + 2));
        let len = be_value(field(buf, offset + 2, offset + 4)) as int;
        if offset + 4 + len > end {
            Seq::empty()
        } else {
            seq![Attribute { kind, value: field(buf, offset + 4, offset + 4 + len) }] + attributes(
                buf,
                offset + 4 + padded(len),
                end,
            )
        }
    }
}

/// The value of the last attribute of a kind, if there is one.
pub open spec fn last_value(attrs: Seq<Attribute>, kind: nat) -> Option<Seq<u8>>
    decreases attrs.len(),
{
    if attrs.len() == 0 {
        None
    } else if attrs.last().kind == kind {
        Some(attrs.last().value)
    } else {
        last_value(attrs.drop_last(), kind)
    }
}

/// The address that a plain address attribute holds.
pub open spec fn mapped_address_of(value: Seq<u8>) -> Option<SocketAddr> {
    let port = be_value(field(value, 2, 4)) as u16;
    if value.len() < 8 {
        None
    } else if value[1] == 1 {
        Some(SocketAddr { ip: IpAddr::V4(Ipv4Addr::of_octets(field(value, 4, 8))), port })
    } else if value[1] == 2 && value.len() >= 20 {
        Some(SocketAddr { ip: IpAddr::V6(Ipv6Addr::of_octets(field(value, 4, 20))), port })
    } else {
        None
    }
}

/// The address that a combined address attribute holds, given the cookie bytes
/// of the message. Only the fourth version is read.
pub open spec fn xor_address_of(value: Seq<u8>, cookie: Seq<u8>) -> Option<SocketAddr> {
    if value.len() < 8 || value[1] != 1 {
        None
    } else {
        Some(
            SocketAddr {
                ip: IpAddr::V4(
                    Ipv4Addr {
                        a: value[4] ^ cookie[0],
                        b: value[5] ^ cookie[1],
                        c: value[6] ^ cookie[2],
                        d: value[7] ^ cookie[3],
                    },
                ),
                port: (be_value(field(value, 2, 4)) as u16) ^ 0x2112,
            },
        )
    }
}

/// Where the attributes of a response end.
pub open spec fn attributes_end(buf: Seq<u8>) -> int {
    let len = 20 + be_value(field(buf, 2, 4)) as int;
    if len <= buf.len() {
        len
    } else {
        buf.len() as int
    }
}

/// Whether `buf` is a binding response to the request with this transaction id.
pub open spec fn answers(buf: Seq<u8>, transaction_id: Seq<u8>) -> bool {
    buf.len() >= 20 && field(buf, 8, 20) == transaction_id && be_value(field(buf, 0, 2))
        == STUN_BINDING_RESPONSE
}

/// The address that a response reports: that of the last combined attribute,
/// where it can be read, else that of the last plain one.
pub open spec fn reported_address(buf: Seq<u8>, transaction_id: Seq<u8>) -> Option<SocketAddr> {
    if !answers(buf, transaction_id) {
        None
    } else {
        let attrs = attributes(buf, 20, attributes_end(buf));
        let combined = match last_value(attrs, STUN_XOR_MAPPED_ADDRESS as nat) {
            Some(v) => xor_address_of(v, field(buf, 4, 8)),
            None => None,
        };
        let plain = match last_value(attrs, STUN_MAPPED_ADDRESS as nat) {
            Some(v) => mapped_address_of(v),
            None => None,
        };
        if combined is Some {
            combined
        } else {
            plain
        }
    }
}

/// Reads a plain address attribute.
pub fn decode_mapped_address(value: &[u8]) -> (r: Option<SocketAddr>)
    ensures
        r == mapped_address_of(value@),
{
    if value.len() < 8 {
        return None;
    }
    let port: u16 = get_be16(value, 2);
    if value[1] == 1 {
        Some(SocketAddr { ip: IpAddr::V4(read_ipv4(value, 4)), port })
    } else if value[1] == 2 {
        if value.len() < 20 {
            return None;
        }
        Some(SocketAddr { ip: IpAddr::V6(read_ipv6(value, 4)), port })
    } else {
        None
    }
}

/// Reads a combined address attribute.
pub fn decode_xor_mapped_address(value: &[u8], magic_cookie: &[u8]) -> (r: Option<SocketAddr>)
    requires
        magic_cookie@.len() >= 4,
    ensures
        r == xor_address_of(value@, magic_cookie@),
{
    if value.len() < 8 {
        return None;
    }
    let port: u16 = get_be16(value, 2) ^ 0x2112;
    if value[1] == 1 {
        let ip = Ipv4Addr {
            a: value[4] ^ magic_cookie[0],
            b: value[5] ^ magic_cookie[1],
            c: value[6] ^ magic_cookie[2],
            d: value[7] ^ magic_cookie[3],
        };
        Some(SocketAddr { ip: IpAddr::V4(ip), port })
    } else {
        None
    }
}

proof fn lemma_last_value_push(attrs: Seq<Attribute>, a: Attribute, kind: nat)
    ensures
        last_value(attrs.push(a), kind) == if a.kind == kind {
            Some(a.value)
        } else {
            last_value(attrs, kind)
        },
{
    assert(attrs.push(a).drop_last() =~= attrs);
}

/// Reads the address that a response reports.
pub fn parse_mapped_address(buf: &[u8], transaction_id: &[u8; 12]) -> (r: Option<SocketAddr>)
    ensures
        r == reported_address(buf@, transaction_id@),
{
    if buf.len() < 20 {
        return None;
    }
    if !same_bytes(&buf[8..20], transaction_id.as_slice()) {
        return None;
    }
    if get_be16(buf, 0) != STUN_BINDING_RESPONSE {
        return None;
    }
    let declared: usize = 20 + get_be16(buf, 2) as usize;
    let end: usize = if declared <= buf.len() {
        declared
    } else {
        buf.len()
    };
    let ghost all = attributes(buf@, 20, end as int);
    let ghost mut seen: Seq<Attribute> = Seq::empty();
    let mut xor_addr: Option<SocketAddr> = None;
    let mut mapped_addr: Option<SocketAddr> = None;
    let mut offset: usize = 20;
    let mut open: bool = true;
    proof {
        assert(seen + all =~= all);
    }
    while open && offset < end && end - offset >= 4
        invariant
            20 <= end <= buf@.len(),
            20 <= offset,
            all == attributes(buf@, 20, end as int),
            open ==> seen + attributes(buf@, offset as int, end as int) == all,
            !open ==> seen == all,
            xor_addr == match last_value(seen, STUN_XOR_MAPPED_ADDRESS as nat) {
                Some(v) => xor_address_of(v, field(buf@, 4, 8)),
                None => None,
            },
            mapped_addr == match last_value(seen, STUN_MAPPED_ADDRESS as nat) {
                Some(v) => mapped_address_of(v),
                None => None,
            },
        decreases end - offset + (if open {
                1int
            } else {
                0
            }),
    {
        let attr_type: u16 = get_be16(buf, offset);
        let attr_len: usize = get_be16(buf, offset + 2) as usize;
        let value_start: usize = offset + 4;
        if attr_len > end - value_start {
            open = false;
            proof {
                assert(seen + Seq::<Attribute>::empty() =~= seen);
            }
        } else {
            let value_end: usize = value_start + attr_len;
            let ghost a = Attribute {
                kind: attr_type as nat,
                value: field(buf@, value_start as int, value_end as int),
            };
            let ghost rest = attributes(buf@, value_start + padded(attr_len as int), end as int);
            proof {
                lemma_last_value_push(seen, a, STUN_XOR_MAPPED_ADDRESS as nat);
                lemma_last_value_push(seen, a, STUN_MAPPED_ADDRESS as nat);
                assert(seen + (seq![a] + rest) =~= seen.push(a) + rest);
                seen = seen.push(a);
            }
            if attr_type == STUN_XOR_MAPPED_ADDRESS {
                xor_addr = decode_xor_mapped_address(&buf[value_start..value_end], &buf[4..8]);
            } else if attr_type == STUN_MAPPED_ADDRESS {
                mapped_addr = decode_mapped_address(&buf[value_start..value_end]);
            }
            let step: usize = (attr_len + 3) / 4 * 4;
            if step >= end - value_start {
                open = false;
                proof {
                    assert(rest =~= Seq::<Attribute>::empty());
                    assert(seen + rest =~= seen);
                }
            } else {
                offset = value_start + step;
            }
        }
    }
    proof {
        if open {
            assert(attributes(buf@, offset as int, end as int) =~= Seq::<Attribute>::empty());
            assert(seen + attributes(buf@, offset as int, end as int) =~= seen);
        }
    }
    if xor_addr.is_some() {
        xor_addr
    } else {
        mapped_addr
    }
}

/// What one answered probe tells of the translator: nothing but whether there is one.
pub open spec fn single_probe_type(mapped: SocketAddr, local: SocketAddr) -> NatType {
    if mapped == local {
        NatType::OpenInternet
    } else {
        NatType::Unknown
    }
}

/// Reads the answer to a binding request that was sent to `server` from `local_addr`.
pub fn binding_result(
    server: &str,
    reply: &[u8],
    transaction_id: &[u8; 12],
    local_addr: SocketAddr,
    rtt_ms: u64,
) -> (r: StunResult)
    ensures
        r.nat_type == probed_type(r.mapped_addr, local_addr),
        r.mapped_addr == reported_address(reply@, transaction_id@),
        r.success == (r.mapped_addr is Some),
        r.nat_type == match r.mapped_addr {
            Some(m) => single_probe_type(m, local_addr),
            None => NatType::Unknown,
        },
        r.local_addr == local_addr,
        r.server@ == server@,
        r.rtt_ms == rtt_ms,
{
    match parse_mapped_address(reply, transaction_id) {
        Some(mapped) => StunResult {
            success: true,
            mapped_addr: Some(mapped),
            local_addr,
            nat_type: if mapped == local_addr {
                NatType::OpenInternet
            } else {
                NatType::Unknown
            },
            server: server.to_owned(),
            rtt_ms,
        },
        None => StunResult {
            success: false,
            mapped_addr: None,
            local_addr,
            nat_type: NatType::Unknown,
            server: server.to_owned(),
            rtt_ms,
        },
    }
}

/// Whether a probe was answered with an address.
pub open spec fn succeeded(outcome: Option<StunResult>) -> bool {
    outcome is Some && outcome->0.success
}

/// The first probe that succeeded, given what each server gave in order;
/// `None` stands for a server that could not be asked.
pub fn stun_binding_request_multi(outcomes: &Vec<Option<StunResult>>) -> (r: Option<&StunResult>)
    ensures
        is_first_success(outcomes@, match r {
            Some(x) => Some(*x),
            None => None,
        }),
        match r {
            Some(x) => exists|i: int|
                0 <= i < outcomes@.len() && succeeded(#[trigger] outcomes@[i]) && *x
                    == outcomes@[i]->0 && forall|j: int|
                    0 <= j < i ==> !succeeded(#[trigger] outcomes@[j]),
            None => forall|j: int| 0 <= j < outcomes@.len() ==> !succeeded(#[trigger] outcomes@[j]),
        },
{
    let mut i: usize = 0;
    while i < outcomes.len()
        invariant
            i <= outcomes@.len(),
            forall|j: int| 0 <= j < i ==> !succeeded(#[trigger] outcomes@[j]),
        decreases outcomes@.len() - i,
    {
        if let Some(x) = &outcomes[i] {
            if x.success {
                proof {
                    assert(succeeded(outcomes@[i as int]));
                }
                return Some(x);
            }
        }
        i = i + 1;
    }
    None
}

/// What the first of two probes settles.
#[derive(Debug, Clone, Copy, PartialEq, Eq, Structural)]
pub enum FirstProbe {
    /// The type is settled.
    Decided(NatType),
    /// The second server has to be asked; the first saw this address.
    AskSecond(SocketAddr),
}

/// What the first probe settles: a failed one leaves the type unknown, an
/// address that is the local one means that nothing translates.
pub open spec fn after_first(a: Option<StunResult>) -> FirstProbe {
    if !succeeded(a) || a->0.mapped_addr is None {
        FirstProbe::Decided(NatType::Unknown)
    } else if a->0.mapped_addr->0 == a->0.local_addr {
        FirstProbe::Decided(NatType::OpenInternet)
    } else {
        FirstProbe::AskSecond(a->0.mapped_addr->0)
    }
}

/// What the second probe settles: the same address as before means a full cone,
/// another one a symmetric translator.
pub open spec fn after_second(mapped_a: SocketAddr, b: Option<StunResult>) -> NatType {
    if !succeeded(b) || b->0.mapped_addr is None {
        NatType::Unknown
    } else if b->0.mapped_addr->0 == mapped_a {
        NatType::FullCone
    } else {
        NatType::Symmetric
    }
}

/// The type that two probes show.
pub open spec fn two_probe_type(a: Option<StunResult>, b: Option<StunResult>) -> NatType {
    match after_first(a) {
        FirstProbe::Decided(t) => t,
        FirstProbe::AskSecond(m) => after_second(m, b),
    }
}

/// Decides after the first probe.
pub fn detect_after_first(a: Option<&StunResult>) -> (r: FirstProbe)
    ensures
        r == after_first(
            match a {
                Some(x) => Some(*x),
                None => None,
            },
        ),
{
    match a {
        Some(x) => {
            if !x.success {
                return FirstProbe::Decided(NatType::Unknown);
            }
            match x.mapped_addr {
                None => FirstProbe::Decided(NatType::Unknown),
                Some(m) => {
                    if m == x.local_addr {
                        FirstProbe::Decided(NatType::OpenInternet)
                    } else {
                        FirstProbe::AskSecond(m)
                    }
                },
            }
        },
        None => FirstProbe::Decided(NatType::Unknown),
    }
}

/// Decides after the second probe.
pub fn detect_after_second(mapped_a: SocketAddr, b: Option<&StunResult>) -> (r: NatType)
    ensures
        r == after_second(
            mapped_a,
            match b {
                Some(x) => Some(*x),
                None => None,
            },
        ),
{
    match b {
        Some(x) => {
            if !x.success {
                return NatType::Unknown;
            }
            match x.mapped_addr {
                None => NatType::Unknown,
                Some(m) => {
                    if m == mapped_a {
                        NatType::FullCone
                    } else {
                        NatType::Symmetric
                    }
                },
            }
        },
        None => NatType::Unknown,
    }
}

/// The type of the translator, from what two servers gave; `None` stands for a
/// server that could not be asked. The second only counts where the first
/// shows a translation.
pub fn detect_nat_type(result_a: Option<&StunResult>, result_b: Option<&StunResult>) -> (r: NatType)
    ensures
        r == two_probe_type(
            match result_a {
                Some(x) => Some(*x),
                None => None,
            },
            match result_b {
                Some(x) => Some(*x),
                None => None,
            },
        ),
{
    match detect_after_first(result_a) {
        FirstProbe::Decided(t) => t,
        FirstProbe::AskSecond(m) => detect_after_second(m, result_b),
    }
}

/// The server that is asked first where none is configured.
pub const DEFAULT_STUN_SERVER_A: &'static str = "stun.l.google.com:19302";

/// The server that is asked second where fewer than two are configured.
pub const DEFAULT_STUN_SERVER_B: &'static str = "stun1.l.google.com:19302";

/// The position of the first name from `from` on that differs from `a`, or the
/// length where there is none.
pub open spec fn first_other(names: Seq<String>, a: Seq<char>, from: int) -> int
    decreases names.len() - from,
{
    if from < 0 || from >= names.len() {
        names.len() as int
    } else if names[from]@ != a {
        from
    } else {
        first_other(names, a, from + 1)
    }
}

/// The two servers to ask: the first one, and the first of the others that has
/// another name. Where there is none, the second default stands in for it, or the
/// first default where the second one is the server itself.
pub open spec fn probe_servers(servers: Seq<String>) -> (Seq<char>, Seq<char>) {
    if servers.len() == 0 {
        ("stun.l.google.com:19302"@, "stun1.l.google.com:19302"@)
    } else {
        let k = first_other(servers, servers[0]@, 1);
        if k < servers.len() {
            (servers[0]@, servers[k]@)
        } else if servers[0]@ == "stun1.l.google.com:19302"@ {
            (servers[0]@, "stun.l.google.com:19302"@)
        } else {
            (servers[0]@, "stun1.l.google.com:19302"@)
        }
    }
}

/// The two servers that are asked are different ones.
pub proof fn lemma_probe_servers_differ(servers: Seq<String>)
    ensures
        probe_servers(servers).0 != probe_servers(servers).1,
{
    reveal_strlit("stun.l.google.com:19302");
    reveal_strlit("stun1.l.google.com:19302");
    assert("stun.l.google.com:19302"@.len() != "stun1.l.google.com:19302"@.len());
    if servers.len() > 0 {
        lemma_first_other(servers, servers[0]@, 1);
    }
}

proof fn lemma_first_other(names: Seq<String>, a: Seq<char>, from: int)
    requires
        0 <= from,
    ensures
        first_other(names, a, from) < names.len() ==> 0 <= first_other(names, a, from)
            && names[first_other(names, a, from)]@ != a,
    decreases names.len() - from,
{
    if from < names.len() && names[from]@ == a {
        lemma_first_other(names, a, from + 1);
    }
}

/// Chooses the two servers to ask.
pub fn choose_servers(servers: &Vec<String>) -> (r: (String, String))
    ensures
        (r.0@, r.1@) == probe_servers(servers@),
{
    if servers.len() == 0 {
        return (DEFAULT_STUN_SERVER_A.to_owned(), DEFAULT_STUN_SERVER_B.to_owned());
    }
    let mut i: usize = 1;
    while i < servers.len()
        invariant
            1 <= i <= servers@.len(),
            first_other(servers@, servers@[0]@, 1) == first_other(
                servers@,
                servers@[0]@,
                i as int,
            ),
        decreases servers@.len() - i,
    {
        if !same_text(servers[i].as_str(), servers[0].as_str()) {
            return (servers[0].clone(), servers[i].clone());
        }
        i = i + 1;
    }
    if same_text(servers[0].as_str(), DEFAULT_STUN_SERVER_B) {
        (servers[0].clone(), DEFAULT_STUN_SERVER_A.to_owned())
    } else {
        (servers[0].clone(), DEFAULT_STUN_SERVER_B.to_owned())
    }
}

/// What the server of that name gave: the first such outcome, or `None`.
pub open spec fn outcome_of(outcomes: Seq<StunResult>, server: Seq<char>) -> Option<StunResult>
    decreases outcomes.len(),
{
    if outcomes.len() == 0 {
        None
    } else if outcomes[0].server@ == server {
        Some(outcomes[0])
    } else {
        outcome_of(outcomes.drop_first(), server)
    }
}

fn find_outcome<'a>(outcomes: &'a Vec<StunResult>, server: &str) -> (r: Option<&'a StunResult>)
    ensures
        match r {
            Some(x) => outcome_of(outcomes@, server@) == Some(*x),
            None => outcome_of(outcomes@, server@) is None,
        },
{
    let mut i: usize = 0;
    proof {
        assert(outcomes@.skip(0) =~= outcomes@);
    }
    while i < outcomes.len()
        invariant
            i <= outcomes@.len(),
            outcome_of(outcomes@, server@) == outcome_of(outcomes@.skip(i as int), server@),
        decreases outcomes@.len() - i,
    {
        proof {
            assert(outcomes@.skip(i as int).drop_first() =~= outcomes@.skip(i + 1));
        }
        if same_text(outcomes[i].server.as_str(), server) {
            return Some(&outcomes[i]);
        }
        i = i + 1;
    }
    None
}

/// The type of the translator, from the two servers chosen out of `servers` and
/// what the servers that could be asked gave.
pub fn detect_nat_type_multi(servers: &Vec<String>, outcomes: &Vec<StunResult>) -> (r: NatType)
    ensures
        r == type_by_list(servers@, outcomes@),
        r == two_probe_type(
            outcome_of(outcomes@, probe_servers(servers@).0),
            outcome_of(outcomes@, probe_servers(servers@).1),
        ),
{
    let pair = choose_servers(servers);
    let a = find_outcome(outcomes, pair.0.as_str());
    let b = find_outcome(outcomes, pair.1.as_str());
    detect_nat_type(a, b)
}

/// Whether a datagram port can be reached from outside.
#[derive(Debug, Clone)]
pub struct ReachabilityResult {
    pub reachable: bool,
    pub mapped_addr: Option<SocketAddr>,
    pub local_port: u16,
    pub rtt_ms: u64,
    pub server: String,
}

/// The address that a reachability probe of a port is sent from: the port on
/// every interface.
pub fn probe_bind_addr(local_port: u16) -> (r: SocketAddr)
    ensures
        r == every_interface(local_port),
        r == (SocketAddr {
            ip: IpAddr::V4(Ipv4Addr { a: 0, b: 0, c: 0, d: 0 }),
            port: local_port,
        }),
{
    SocketAddr { ip: IpAddr::V4(Ipv4Addr { a: 0, b: 0, c: 0, d: 0 }), port: local_port }
}

/// Judges whether a port is reachable from what the servers gave in order: it is
/// where the first probe that succeeded reports an address with that very port.
pub fn check_udp_reachability(outcomes: &Vec<Option<StunResult>>, local_port: u16) -> (r:
    ReachabilityResult)
    ensures
        r.reachable == is_reachable(r.mapped_addr, local_port),
        r.local_port == local_port,
        r.reachable == (r.mapped_addr is Some && r.mapped_addr->0.port == local_port),
        (forall|j: int| 0 <= j < outcomes@.len() ==> !succeeded(#[trigger] outcomes@[j])) ==> (
        r.mapped_addr is None && r.rtt_ms == 0 && r.server@ == Seq::<char>::empty()),
        forall|i: int|
            0 <= i < outcomes@.len() && succeeded(#[trigger] outcomes@[i]) && (forall|j: int|
                0 <= j < i ==> !succeeded(#[trigger] outcomes@[j])) ==> (r.mapped_addr
                == outcomes@[i]->0.mapped_addr && r.rtt_ms == outcomes@[i]->0.rtt_ms && r.server@
                == outcomes@[i]->0.server@),
{
    match stun_binding_request_multi(outcomes) {
        Some(x) => ReachabilityResult {
            reachable: match x.mapped_addr {
                Some(a) => a.port == local_port,
                None => false,
            },
            mapped_addr: x.mapped_addr,
            local_port,
            rtt_ms: x.rtt_ms,
            server: x.server.clone(),
        },
        None => ReachabilityResult {
            reachable: false,
            mapped_addr: None,
            local_port,
            rtt_ms: 0,
            server: String::new(),
        },
    }
}

/// The value of a combined address attribute that reports `ip` and `port` under
/// the given cookie.
pub open spec fn xor_address_value(ip: Ipv4Addr, port: u16, cookie: Seq<u8>) -> Seq<u8> {
    seq![0u8, 1u8] + be_bytes((port ^ 0x2112) as nat, 2) + seq![
        ip.a ^ cookie[0],
        ip.b ^ cookie[1],
        ip.c ^ cookie[2],
        ip.d ^ cookie[3],
    ]
}

/// A combined address reads back as the address it was made from.
pub proof fn lemma_xor_address_round_trip(ip: Ipv4Addr, port: u16, cookie: Seq<u8>)
    requires
        cookie.len() >= 4,
    ensures
        xor_address_of(xor_address_value(ip, port, cookie), cookie) == Some(
            SocketAddr { ip: IpAddr::V4(ip), port },
        ),
{
    let v = xor_address_value(ip, port, cookie);
    let p = port ^ 0x2112;
    lemma_pow256_values();
    lemma_be_round_trip(p as nat, 2);
    assert(field(v, 2, 4) =~= be_bytes(p as nat, 2));
    assert((port ^ 0x2112) ^ 0x2112 == port) by (bit_vector);
    lemma_xor_twice(ip.a, cookie[0]);
    lemma_xor_twice(ip.b, cookie[1]);
    lemma_xor_twice(ip.c, cookie[2]);
    lemma_xor_twice(ip.d, cookie[3]);
}

proof fn lemma_xor_twice(x: u8, k: u8)
    ensures
        (x ^ k) ^ k == x,
{
    assert((x ^ k) ^ k == x) by (bit_vector);
}

/// A message that carries another transaction id reports no address.
pub proof fn lemma_foreign_transaction_is_ignored(buf: Seq<u8>, transaction_id: Seq<u8>)
    requires
        buf.len() >= 20,
        field(buf, 8, 20) != transaction_id,
    ensures
        reported_address(buf, transaction_id) is None,
{
}

/// A binding response with the combined attribute alone, for `ip` and `port`.
pub open spec fn binding_response(transaction_id: Seq<u8>, ip: Ipv4Addr, port: u16) -> Seq<u8> {
    let cookie = be_bytes(STUN_MAGIC_COOKIE as nat, 4);
    be_bytes(STUN_BINDING_RESPONSE as nat, 2) + be_bytes(12, 2) + cookie + transaction_id
        + be_bytes(STUN_XOR_MAPPED_ADDRESS as nat, 2) + be_bytes(8, 2) + xor_address_value(
        ip,
        port,
        cookie,
    )
}

/// A server's answer to a request reports the address that the server put into it.
pub proof fn lemma_response_reports_address(transaction_id: Seq<u8>, ip: Ipv4Addr, port: u16)
    requires
        transaction_id.len() == 12,
    ensures
        reported_address(binding_response(transaction_id, ip, port), transaction_id) == Some(
            SocketAddr { ip: IpAddr::V4(ip), port },
        ),
{
    let cookie = be_bytes(STUN_MAGIC_COOKIE as nat, 4);
    let buf = binding_response(transaction_id, ip, port);
    let value = xor_address_value(ip, port, cookie);
    lemma_pow256_values();
    lemma_be_round_trip(STUN_MAGIC_COOKIE as nat, 4);
    lemma_be_round_trip(STUN_BINDING_RESPONSE as nat, 2);
    lemma_be_round_trip(STUN_XOR_MAPPED_ADDRESS as nat, 2);
    lemma_be_round_trip(12, 2);
    lemma_be_round_trip(8, 2);
    lemma_be_round_trip((port ^ 0x2112) as nat, 2);
    lemma_xor_address_round_trip(ip, port, cookie);
    assert(field(buf, 0, 2) =~= be_bytes(STUN_BINDING_RESPONSE as nat, 2));
    assert(field(buf, 2, 4) =~= be_bytes(12, 2));
    assert(field(buf, 4, 8) =~= cookie);
    assert(field(buf, 8, 20) =~= transaction_id);
    assert(field(buf, 20, 22) =~= be_bytes(STUN_XOR_MAPPED_ADDRESS as nat, 2));
    assert(field(buf, 22, 24) =~= be_bytes(8, 2));
    assert(field(buf, 24, 32) =~= value);
    let a = Attribute { kind: STUN_XOR_MAPPED_ADDRESS as nat, value };
    assert(attributes(buf, 32, 32) =~= Seq::<Attribute>::empty());
    assert(attributes(buf, 20, 32) =~= seq![a]);
    lemma_last_value_push(Seq::empty(), a, STUN_XOR_MAPPED_ADDRESS as nat);
    assert(Seq::<Attribute>::empty().push(a) =~= seq![a]);
}

/// What two probes show behind a translator: where both servers saw the very same
/// address and port it is a full cone, where the address or the port differs, in
/// whichever direction, it is symmetric; and it does not matter which of the two was
/// asked first.
pub proof fn lemma_two_servers_show_the_type(
    x: StunResult,
    y: StunResult,
    seen_x: SocketAddr,
    seen_y: SocketAddr,
)
    requires
        x.success && x.mapped_addr == Some(seen_x) && seen_x != x.local_addr,
        y.success && y.mapped_addr == Some(seen_y) && seen_y != y.local_addr,
    ensures
        two_probe_type(Some(x), Some(y)) is FullCone <==> seen_x.ip == seen_y.ip && seen_x.port
            == seen_y.port,
        two_probe_type(Some(x), Some(y)) is Symmetric <==> seen_x.ip != seen_y.ip || seen_x.port
            < seen_y.port || seen_y.port < seen_x.port,
        two_probe_type(Some(x), Some(y)) == two_probe_type(Some(y), Some(x)),
        after_second(seen_x, Some(y)) == after_second(seen_y, Some(x)),
        after_second(seen_x, Some(y)) == two_probe_type(Some(x), Some(y)),
{
}

/// A node whose outer address is its own is on the open Internet, whatever a second
/// server says; and only such a node is.
pub proof fn lemma_untranslated_is_open(
    x: StunResult,
    seen: SocketAddr,
    other: Option<StunResult>,
)
    requires
        x.success && x.mapped_addr == Some(seen),
    ensures
        two_probe_type(Some(x), other) is OpenInternet <==> seen.ip == x.local_addr.ip && seen.port
            == x.local_addr.port,
        single_probe_type(seen, x.local_addr) is OpenInternet <==> seen.ip == x.local_addr.ip
            && seen.port == x.local_addr.port,
        single_probe_type(seen, x.local_addr) is Unknown <==> seen != x.local_addr,
{
}

/// Without an answer from the first server, or from the second one where it is
/// needed, the type stays unknown.
pub proof fn lemma_silence_leaves_the_type_unknown(
    x: Option<StunResult>,
    y: Option<StunResult>,
)
    ensures
        (x is None || !x->0.success || x->0.mapped_addr is None) ==> two_probe_type(x, y)
            is Unknown,
        x is Some && x->0.success && x->0.mapped_addr is Some && x->0.mapped_addr->0
            != x->0.local_addr && (y is None || !y->0.success || y->0.mapped_addr is None)
            ==> two_probe_type(x, y) is Unknown,
        two_probe_type(x, y) is Unknown || two_probe_type(x, y) is OpenInternet || two_probe_type(
            x,
            y,
        ) is FullCone || two_probe_type(x, y) is Symmetric,
{
}

/// A binding request in its parts: type one, no attributes, the fixed cookie, and the
/// transaction id.
pub proof fn lemma_binding_request_fields(transaction_id: Seq<u8>)
    requires
        transaction_id.len() == 12,
    ensures
        ({
            let b = binding_request(transaction_id);
            &&& b.len() == 20
            &&& b[0] == 0 && b[1] == 1
            &&& b[2] == 0 && b[3] == 0
            &&& b[4] == 0x21 && b[5] == 0x12 && b[6] == 0xa4 && b[7] == 0x42
            &&& field(b, 8, 20) == transaction_id
        }),
{
    let b = binding_request(transaction_id);
    reveal_with_fuel(be_bytes, 5);
    assert(field(b, 8, 20) =~= transaction_id);
}

/// Transaction ids of different readings of the clock differ, and hold the reading.
pub proof fn lemma_transaction_ids_differ(x: u64, y: u64)
    ensures
        transaction_id_of(x).len() == 12,
        be_value(field(transaction_id_of(x), 0, 8)) == x,
        x != y ==> transaction_id_of(x) != transaction_id_of(y),
{
    lemma_pow256_values();
    lemma_be_round_trip(x as nat, 8);
    lemma_be_round_trip(y as nat, 8);
    assert(field(transaction_id_of(x), 0, 8) =~= be_bytes(x as nat, 8));
    assert(field(transaction_id_of(y), 0, 8) =~= be_bytes(y as nat, 8));
}

/// A plain address attribute reads back: a version, a port and the octets, four of the
/// fourth version or sixteen of the sixth, the first one first.
pub proof fn lemma_plain_address_round_trip(
    reserved: u8,
    port: u16,
    ip: Ipv4Addr,
    octets: Seq<u8>,
)
    requires
        octets.len() == 16,
    ensures
        mapped_address_of(
            seq![reserved, 1u8] + be_bytes(port as nat, 2) + seq![ip.a, ip.b, ip.c, ip.d],
        ) == Some(SocketAddr { ip: IpAddr::V4(ip), port }),
        mapped_address_of(seq![reserved, 2u8] + be_bytes(port as nat, 2) + octets) == Some(
            SocketAddr { ip: IpAddr::V6(Ipv6Addr { bits: be_value(octets) as u128 }), port },
        ),
{
    lemma_pow256_values();
    lemma_be_round_trip(port as nat, 2);
    let v = seq![reserved, 1u8] + be_bytes(port as nat, 2) + seq![ip.a, ip.b, ip.c, ip.d];
    let w = seq![reserved, 2u8] + be_bytes(port as nat, 2) + octets;
    assert(field(v, 2, 4) =~= be_bytes(port as nat, 2));
    assert(field(w, 2, 4) =~= be_bytes(port as nat, 2));
    assert(field(v, 4, 8) =~= seq![ip.a, ip.b, ip.c, ip.d]);
    assert(field(w, 4, 20) =~= octets);
}

/// An address attribute that is too short, or of another version, gives no address.
pub proof fn lemma_odd_addresses_are_not_read(value: Seq<u8>, cookie: Seq<u8>)
    ensures
        value.len() < 8 ==> mapped_address_of(value) is None && xor_address_of(value, cookie)
            is None,
        value.len() >= 8 && value[1] != 1 && value[1] != 2 ==> mapped_address_of(value) is None,
        value.len() >= 8 && value[1] == 2 && value.len() < 20 ==> mapped_address_of(value) is None,
        value.len() >= 8 && value[1] != 1 ==> xor_address_of(value, cookie) is None,
{
}

/// How many bytes fill up a value of so many bytes to whole words of four.
pub open spec fn fill(n: nat) -> nat {
    if n % 4 == 0 {
        0
    } else {
        (4 - n % 4) as nat
    }
}

/// The attributes as they are written, one behind the other: kind, length, value, and
/// as many zeros as fill it up.
pub open spec fn written(attrs: Seq<Attribute>) -> Seq<u8>
    decreases attrs.len(),
{
    if attrs.len() == 0 {
        Seq::empty()
    } else {
        be_bytes(attrs[0].kind, 2) + be_bytes(attrs[0].value.len(), 2) + attrs[0].value + zeros(
            fill(attrs[0].value.len()),
        ) + written(attrs.drop_first())
    }
}

proof fn lemma_padded(n: nat)
    ensures
        padded(n as int) == n + fill(n),
{
}

proof fn lemma_attribute_at(before: Seq<u8>, kind: nat, value: Seq<u8>, rest: Seq<u8>)
    requires
        kind < 0x1_0000,
        value.len() < 0x1_0000,
    ensures
        ({
            let n = value.len();
            let at = before.len() as int;
            let head = be_bytes(kind, 2) + be_bytes(n, 2) + value + zeros(fill(n));
            let buf = before + (head + rest);
            &&& head.len() == 4 + n + fill(n)
            &&& be_value(field(buf, at, at + 2)) == kind
            &&& be_value(field(buf, at + 2, at + 4)) == n
            &&& field(buf, at + 4, at + 4 + n) == value
            &&& buf == (before + head) + rest
        }),
{
    let n = value.len();
    let at = before.len() as int;
    let head = be_bytes(kind, 2) + be_bytes(n, 2) + value + zeros(fill(n));
    let buf = before + (head + rest);
    lemma_pow256_values();
    lemma_be_round_trip(kind, 2);
    lemma_be_round_trip(n, 2);
    assert(field(buf, at, at + 2) =~= be_bytes(kind, 2));
    assert(field(buf, at + 2, at + 4) =~= be_bytes(n, 2));
    assert(field(buf, at + 4, at + 4 + n) =~= value);
    assert(buf =~= (before + head) + rest);
}

/// Attributes that were written behind anything read back, each with its kind and
/// value, in order.
pub proof fn lemma_attributes_round_trip(before: Seq<u8>, attrs: Seq<Attribute>)
    requires
        forall|i: int|
            0 <= i < attrs.len() ==> (#[trigger] attrs[i]).kind < 0x1_0000 && attrs[i].value.len()
                < 0x1_0000,
    ensures
        attributes(
            before + written(attrs),
            before.len() as int,
            (before + written(attrs)).len() as int,
        ) == attrs,
    decreases attrs.len(),
{
    let buf = before + written(attrs);
    if attrs.len() > 0 {
        let a = attrs[0];
        let n = a.value.len();
        let rest = attrs.drop_first();
        let head = be_bytes(a.kind, 2) + be_bytes(n, 2) + a.value + zeros(fill(n));
        assert(written(attrs) == head + written(rest));
        lemma_attribute_at(before, a.kind, a.value, written(rest));
        lemma_padded(n);
        assert forall|i: int| 0 <= i < rest.len() implies (#[trigger] rest[i]).kind < 0x1_0000
            && rest[i].value.len() < 0x1_0000 by {
            assert(rest[i] == attrs[i + 1]);
        }
        lemma_attributes_round_trip(before + head, rest);
        assert(seq![a] + rest =~= attrs);
    } else {
        assert(attributes(buf, before.len() as int, buf.len() as int) =~= attrs);
    }
}

proof fn lemma_last_value(attrs: Seq<Attribute>, kind: nat, i: int)
    requires
        0 <= i < attrs.len(),
        attrs[i].kind == kind,
        forall|j: int| i < j < attrs.len() ==> (#[trigger] attrs[j]).kind != kind,
    ensures
        last_value(attrs, kind) == Some(attrs[i].value),
    decreases attrs.len(),
{
    if i < attrs.len() - 1 {
        let d = attrs.drop_last();
        assert(attrs[attrs.len() - 1].kind != kind);
        assert forall|j: int| i < j < d.len() implies (#[trigger] d[j]).kind != kind by {
            assert(d[j] == attrs[j]);
        }
        lemma_last_value(d, kind, i);
    }
}

proof fn lemma_no_value(attrs: Seq<Attribute>, kind: nat)
    requires
        forall|j: int| 0 <= j < attrs.len() ==> (#[trigger] attrs[j]).kind != kind,
    ensures
        last_value(attrs, kind) is None,
    decreases attrs.len(),
{
    if attrs.len() > 0 {
        let d = attrs.drop_last();
        assert(attrs[attrs.len() - 1].kind != kind);
        assert forall|j: int| 0 <= j < d.len() implies (#[trigger] d[j]).kind != kind by {
            assert(d[j] == attrs[j]);
        }
        lemma_no_value(d, kind);
    }
}

/// A response with the given attributes.
pub open spec fn response_with(transaction_id: Seq<u8>, attrs: Seq<Attribute>) -> Seq<u8> {
    be_bytes(0x0101, 2) + be_bytes(written(attrs).len(), 2) + be_bytes(0x2112_A442, 4)
        + transaction_id + written(attrs)
}

/// A response reports the address of its last combined attribute where that can be
/// read, wherever plain ones stand; without a combined one it reports that of its last
/// plain attribute; without either it reports none. Attributes of other kinds do not
/// matter.
pub proof fn lemma_response_prefers_the_combined_address(
    transaction_id: Seq<u8>,
    attrs: Seq<Attribute>,
    i: int,
    ip: Ipv4Addr,
    port: u16,
)
    requires
        transaction_id.len() == 12,
        written(attrs).len() < 0x1_0000,
        forall|k: int|
            0 <= k < attrs.len() ==> (#[trigger] attrs[k]).kind < 0x1_0000 && attrs[k].value.len()
                < 0x1_0000,
        0 <= i < attrs.len(),
    ensures
        ({
            let r = reported_address(response_with(transaction_id, attrs), transaction_id);
            let cookie = seq![0x21u8, 0x12u8, 0xa4u8, 0x42u8];
            &&& (forall|k: int|
                0 <= k < attrs.len() ==> (#[trigger] attrs[k]).kind != 0x20 && attrs[k].kind != 1)
                ==> r is None
            &&& attrs[i].kind == 0x20 && attrs[i].value == xor_address_value(ip, port, cookie) && (
            forall|k: int| i < k < attrs.len() ==> (#[trigger] attrs[k]).kind != 0x20) ==> r == Some(
                SocketAddr { ip: IpAddr::V4(ip), port },
            )
            &&& attrs[i].kind == 1 && attrs[i].value == seq![0u8, 1u8] + be_bytes(port as nat, 2)
                + seq![ip.a, ip.b, ip.c, ip.d] && (forall|k: int|
                i < k < attrs.len() ==> (#[trigger] attrs[k]).kind != 1) && (forall|k: int|
                0 <= k < attrs.len() ==> (#[trigger] attrs[k]).kind != 0x20) ==> r == Some(
                SocketAddr { ip: IpAddr::V4(ip), port },
            )
        }),
{
    let w = written(attrs);
    let cookie = seq![0x21u8, 0x12u8, 0xa4u8, 0x42u8];
    let head = be_bytes(0x0101, 2) + be_bytes(w.len(), 2) + be_bytes(0x2112_A442, 4)
        + transaction_id;
    let buf = response_with(transaction_id, attrs);
    lemma_pow256_values();
    lemma_be_round_trip(0x0101, 2);
    lemma_be_round_trip(w.len(), 2);
    lemma_be_round_trip(0x2112_A442, 4);
    assert(buf =~= head + w);
    assert(head.len() == 20);
    assert(field(buf, 0, 2) =~= be_bytes(0x0101, 2));
    assert(field(buf, 2, 4) =~= be_bytes(w.len(), 2));
    assert(field(buf, 8, 20) =~= transaction_id);
    assert(field(buf, 4, 8) =~= cookie) by {
        reveal_with_fuel(be_bytes, 5);
        assert(field(buf, 4, 8) =~= be_bytes(0x2112_A442, 4));
    }
    assert(attributes_end(buf) == buf.len());
    lemma_attributes_round_trip(head, attrs);
    if forall|k: int|
        0 <= k < attrs.len() ==> (#[trigger] attrs[k]).kind != 0x20 && attrs[k].kind != 1 {
        lemma_no_value(attrs, 0x20);
        lemma_no_value(attrs, 1);
    }
    if attrs[i].kind == 0x20 && (forall|k: int|
        i < k < attrs.len() ==> (#[trigger] attrs[k]).kind != 0x20) {
        lemma_last_value(attrs, 0x20, i);
        lemma_xor_address_round_trip(ip, port, cookie);
    }
    if attrs[i].kind == 1 && (forall|k: int|
        i < k < attrs.len() ==> (#[trigger] attrs[k]).kind != 1) && (forall|k: int|
        0 <= k < attrs.len() ==> (#[trigger] attrs[k]).kind != 0x20) {
        lemma_last_value(attrs, 1, i);
        lemma_no_value(attrs, 0x20);
        lemma_plain_address_round_trip(
            0,
            port,
            ip,
            zeros(16),
        );
    }
}

/// Only a binding response is read: a message that is too short or of another type
/// reports nothing.
pub proof fn lemma_other_messages_report_nothing(buf: Seq<u8>, transaction_id: Seq<u8>)
    ensures
        buf.len() < 20 ==> reported_address(buf, transaction_id) is None,
        buf.len() >= 20 && (buf[0] != 1 || buf[1] != 1) ==> reported_address(buf, transaction_id)
            is None,
{
    if buf.len() >= 20 {
        let f = field(buf, 0, 2);
        reveal_with_fuel(be_value, 3);
        assert(be_value(f) == 256 * buf[0] + buf[1]) by {
            assert(f.drop_last().drop_last() =~= Seq::<u8>::empty());
            assert(f.drop_last().last() == buf[0]);
            assert(f.last() == buf[1]);
        }
    }
}

/// The first of the two servers is the first of the list; the second is of the list too
/// where that holds any other name, and the first such one.
pub proof fn lemma_probe_servers_come_from_the_list(servers: Seq<String>, k: int)
    requires
        0 < k < servers.len(),
        servers[k]@ != servers[0]@,
        forall|j: int| 0 < j < k ==> (#[trigger] servers[j])@ == servers[0]@,
    ensures
        probe_servers(servers) == (servers[0]@, servers[k]@),
{
    lemma_first_other_at(servers, servers[0]@, 1, k);
}

proof fn lemma_first_other_at(names: Seq<String>, a: Seq<char>, from: int, k: int)
    requires
        0 <= from <= k < names.len(),
        names[k]@ != a,
        forall|j: int| from <= j < k ==> (#[trigger] names[j])@ == a,
    ensures
        first_other(names, a, from) == k,
    decreases k - from,
{
    if from < k {
        lemma_first_other_at(names, a, from + 1, k);
    }
}

/// Of several outcomes of one server the first one counts, and none of another server
/// does.
pub proof fn lemma_outcome_of_the_server(outcomes: Seq<StunResult>, server: Seq<char>, k: int)
    requires
        0 <= k < outcomes.len(),
        outcomes[k].server@ == server,
        forall|j: int| 0 <= j < k ==> (#[trigger] outcomes[j]).server@ != server,
    ensures
        outcome_of(outcomes, server) == Some(outcomes[k]),
    decreases k,
{
    if k > 0 {
        let d = outcomes.drop_first();
        assert(outcomes[0].server@ != server);
        assert forall|j: int| 0 <= j < k - 1 implies (#[trigger] d[j]).server@ != server by {
            assert(d[j] == outcomes[j + 1]);
        }
        lemma_outcome_of_the_server(d, server, k - 1);
    }
}

/// The names of the types.
pub proof fn lemma_nat_type_names(t: NatType)
    ensures
        t is OpenInternet ==> t.name() == "open_internet"@,
        t is FullCone ==> t.name() == "full_cone"@,
        t is RestrictedCone ==> t.name() == "restricted_cone"@,
        t is PortRestrictedCone ==> t.name() == "port_restricted_cone"@,
        t is Symmetric ==> t.name() == "symmetric"@,
        t is Unknown ==> t.name() == "unknown"@,
{
}

/// Whether a NAT of this type lets others in by itself.
pub open spec fn lets_peers_in(t: NatType) -> bool {
    t is OpenInternet || t is FullCone
}

/// The type that one probe shows.
pub open spec fn probed_type(mapped: Option<SocketAddr>, local: SocketAddr) -> NatType {
    match mapped {
        Some(m) => single_probe_type(m, local),
        None => NatType::Unknown,
    }
}

/// Whether this is the first outcome that succeeded.
pub open spec fn is_first_success(
    outcomes: Seq<Option<StunResult>>,
    r: Option<StunResult>,
) -> bool {
    match r {
        Some(x) => exists|i: int|
            0 <= i < outcomes.len() && succeeded(#[trigger] outcomes[i]) && x == outcomes[i]->0
                && forall|j: int| 0 <= j < i ==> !succeeded(#[trigger] outcomes[j]),
        None => forall|j: int| 0 <= j < outcomes.len() ==> !succeeded(#[trigger] outcomes[j]),
    }
}

/// Whether a port is reached from outside under its own number.
pub open spec fn is_reachable(mapped: Option<SocketAddr>, local_port: u16) -> bool {
    mapped is Some && mapped->0.port == local_port
}

/// The port on every interface.
pub open spec fn every_interface(port: u16) -> SocketAddr {
    SocketAddr { ip: IpAddr::V4(Ipv4Addr { a: 0, b: 0, c: 0, d: 0 }), port }
}

/// Only an open connection and a full cone let others in.
pub proof fn lemma_who_lets_peers_in(t: NatType)
    ensures
        lets_peers_in(NatType::OpenInternet) && lets_peers_in(NatType::FullCone),
        t is RestrictedCone || t is PortRestrictedCone || t is Symmetric || t is Unknown
            ==> !lets_peers_in(t),
{
}

/// One probe shows an open connection, where the address seen is the node's own, and
/// nothing otherwise.
pub proof fn lemma_one_probe(mapped: SocketAddr, local: SocketAddr)
    ensures
        probed_type(None, local) is Unknown,
        probed_type(Some(mapped), local) is OpenInternet <==> mapped.ip == local.ip && mapped.port
            == local.port,
        probed_type(Some(mapped), local) is OpenInternet || probed_type(Some(mapped), local)
            is Unknown,
{
}

/// The first success counts: those that come after it change nothing, and there is none
/// only where nothing succeeded.
pub proof fn lemma_first_success(
    outcomes: Seq<Option<StunResult>>,
    more: Seq<Option<StunResult>>,
    r: Option<StunResult>,
    s: Option<StunResult>,
    k: int,
)
    requires
        is_first_success(outcomes, r),
        is_first_success(outcomes + more, s),
    ensures
        r is Some ==> r->0.success && s == r,
        0 <= k < outcomes.len() && outcomes[k] is Some && outcomes[k]->0.success ==> r is Some,
        outcomes.len() > 0 && outcomes[0] is Some && outcomes[0]->0.success ==> r == outcomes[0],
{
    let all = outcomes + more;
    if 0 <= k < outcomes.len() && outcomes[k] is Some && outcomes[k]->0.success {
        assert(succeeded(outcomes[k]));
    }
    if outcomes.len() > 0 && outcomes[0] is Some && outcomes[0]->0.success {
        assert(succeeded(outcomes[0]));
    }
    if r is Some {
        let i = choose|i: int|
            0 <= i < outcomes.len() && succeeded(#[trigger] outcomes[i]) && r->0 == outcomes[i]->0
                && forall|j: int| 0 <= j < i ==> !succeeded(#[trigger] outcomes[j]);
        assert(all[i] == outcomes[i]);
        assert(succeeded(all[i]));
        let k2 = choose|k2: int|
            0 <= k2 < all.len() && succeeded(#[trigger] all[k2]) && s->0 == all[k2]->0 && forall|
                j: int,
            |
                0 <= j < k2 ==> !succeeded(#[trigger] all[j]);
        if k2 < i {
            assert(outcomes[k2] == all[k2]);
        }
        assert(k2 == i);
    }
}

/// A port is reached where an address was seen and its port is the same, whatever the
/// address; another port, or no address, means that it is not.
pub proof fn lemma_reachable(mapped: SocketAddr, other: SocketAddr, local_port: u16)
    ensures
        !is_reachable(None, local_port),
        is_reachable(Some(mapped), mapped.port),
        mapped.port == other.port ==> is_reachable(Some(mapped), local_port) == is_reachable(
            Some(other),
            local_port,
        ),
        mapped.port < local_port || mapped.port > local_port ==> !is_reachable(
            Some(mapped),
            local_port,
        ),
        every_interface(local_port).port == local_port,
        every_interface(local_port).ip == IpAddr::V4(Ipv4Addr { a: 0, b: 0, c: 0, d: 0 }),
{
}

/// The combined address, combined once more with the cookie, is what the attribute holds.
pub proof fn lemma_combined_address(value: Seq<u8>, cookie: Seq<u8>)
    requires
        value.len() >= 8,
        value[1] == 1,
        cookie.len() >= 4,
    ensures
        match xor_address_of(value, cookie) {
            Some(s) => match s.ip {
                IpAddr::V4(ip) => {
                    &&& ip.a ^ cookie[0] == value[4]
                    &&& ip.b ^ cookie[1] == value[5]
                    &&& ip.c ^ cookie[2] == value[6]
                    &&& ip.d ^ cookie[3] == value[7]
                    &&& (s.port ^ 0x2112) as nat == be_value(field(value, 2, 4))
                },
                IpAddr::V6(_) => false,
            },
            None => false,
        },
{
    lemma_xor_twice(value[4], cookie[0]);
    lemma_xor_twice(value[5], cookie[1]);
    lemma_xor_twice(value[6], cookie[2]);
    lemma_xor_twice(value[7], cookie[3]);
    crate::bytes::lemma_be_value_bytes(field(value, 2, 4));
    lemma_pow256_values();
    let p = be_value(field(value, 2, 4)) as u16;
    assert((p ^ 0x2112) ^ 0x2112 == p) by (bit_vector);
}

/// After the first probe only an address other than the node's own asks for a second.
pub proof fn lemma_when_to_ask_a_second(x: StunResult, seen: SocketAddr)
    ensures
        after_first(None) == FirstProbe::Decided(NatType::Unknown),
        !x.success || x.mapped_addr is None ==> after_first(Some(x)) == FirstProbe::Decided(
            NatType::Unknown,
        ),
        x.success && x.mapped_addr == Some(seen) && seen == x.local_addr ==> after_first(Some(x))
            == FirstProbe::Decided(NatType::OpenInternet),
        x.success && x.mapped_addr == Some(seen) && seen != x.local_addr ==> after_first(Some(x))
            == FirstProbe::AskSecond(seen),
{
}

/// The attributes end where the message says, or where it ends if that is earlier.
pub proof fn lemma_end_of_attributes(buf: Seq<u8>)
    requires
        buf.len() >= 20,
    ensures
        20 + 256 * buf[2] + buf[3] <= buf.len() ==> attributes_end(buf) == 20 + 256 * buf[2]
            + buf[3],
        20 + 256 * buf[2] + buf[3] > buf.len() ==> attributes_end(buf) == buf.len(),
{
    assert(field(buf, 2, 4) =~= seq![buf[2], buf[3]]);
    crate::bytes::lemma_two_bytes(buf[2], buf[3]);
}

/// A value is filled up to whole words of four bytes, by fewer than four.
pub proof fn lemma_filled_up(n: nat)
    ensures
        padded(n as int) % 4 == 0,
        n <= padded(n as int) < n + 4,
{
}

/// A transaction id ends in four bytes that are the same in every one.
pub proof fn lemma_end_of_a_transaction_id(nanos: u64)
    ensures
        ({
            let t = transaction_id_of(nanos);
            t.len() == 12 && t[8] == 0x12 && t[9] == 0x34 && t[10] == 0x56 && t[11] == 0x78
        }),
{
    crate::bytes::lemma_be_bytes_len(nanos as nat, 8);
}

/// The type that the outcomes of the two servers of a list show.
pub open spec fn type_by_list(servers: Seq<String>, outcomes: Seq<StunResult>) -> NatType {
    two_probe_type(
        outcome_of(outcomes, probe_servers(servers).0),
        outcome_of(outcomes, probe_servers(servers).1),
    )
}

/// A list shows the type by its first server and the next that is another: a cone where
/// both see the same address and port, and a symmetric NAT where they do not.
pub proof fn lemma_type_by_list(
    servers: Seq<String>,
    x: StunResult,
    y: StunResult,
    sx: SocketAddr,
    sy: SocketAddr,
)
    requires
        servers.len() == 2,
        servers[0]@ != servers[1]@,
        x.server@ == servers[0]@,
        y.server@ == servers[1]@,
        x.success && x.mapped_addr == Some(sx) && sx != x.local_addr,
        y.success && y.mapped_addr == Some(sy) && sy != y.local_addr,
    ensures
        type_by_list(servers, seq![x, y]) is FullCone <==> sx.ip == sy.ip && sx.port == sy.port,
        type_by_list(servers, seq![x, y]) is Symmetric <==> sx != sy,
        type_by_list(servers, seq![y, x]) == type_by_list(servers, seq![x, y]),
        type_by_list(servers, seq![x]) is Unknown,
        type_by_list(servers, seq![y]) is Unknown,
{
    reveal_with_fuel(first_other, 3);
    reveal_with_fuel(outcome_of, 3);
    assert(seq![x, y].drop_first() =~= seq![y]);
    assert(seq![y, x].drop_first() =~= seq![x]);
    assert(seq![x].drop_first() =~= Seq::empty());
    assert(seq![y].drop_first() =~= Seq::empty());
    assert(probe_servers(servers) == (servers[0]@, servers[1]@));
    lemma_two_servers_show_the_type(x, y, sx, sy);
}

/// The second server settles the type by what it saw alone: a cone where that is what the
/// first saw, and a symmetric NAT where it is not.
pub proof fn lemma_second_server_settles_the_type(m: SocketAddr, y: StunResult, seen: SocketAddr)
    requires
        y.success,
        y.mapped_addr == Some(seen),
    ensures
        after_second(m, Some(y)) is FullCone <==> seen.ip == m.ip && seen.port == m.port,
        after_second(m, Some(y)) is Symmetric <==> seen.ip != m.ip || seen.port != m.port,
{
}

/// Reading ends where no whole head of an attribute is left, or where one says that it is
/// longer than what is left: nothing is read of it.
pub proof fn lemma_broken_attributes_end_the_reading(buf: Seq<u8>, at: int, end: int)
    requires
        0 <= at,
        end <= buf.len(),
    ensures
        end < at + 4 ==> attributes(buf, at, end).len() == 0,
        at + 4 <= end && at + 4 + 256 * buf[at + 2] + buf[at + 3] > end ==> attributes(
            buf,
            at,
            end,
        ).len() == 0,
{
    if at + 4 <= end {
        assert(field(buf, at + 2, at + 4) =~= seq![buf[at + 2], buf[at + 3]]);
        crate::bytes::lemma_two_bytes(buf[at + 2], buf[at + 3]);
    }
}

/// Of several attributes of a kind the last counts.
pub proof fn lemma_last_of_a_kind_counts(attrs: Seq<Attribute>, a: Attribute, kind: nat)
    ensures
        a.kind == kind ==> last_value(attrs.push(a), kind) == Some(a.value),
        a.kind != kind ==> last_value(attrs.push(a), kind) == last_value(attrs, kind),
        last_value(Seq::empty(), kind) is None,
{
    assert(attrs.push(a).drop_last() =~= attrs);
}

/// A combined address that cannot be read does not hide a plain one.
pub proof fn lemma_plain_address_takes_over(
    buf: Seq<u8>,
    transaction_id: Seq<u8>,
    c: Seq<u8>,
    p: Seq<u8>,
)
    requires
        buf.len() >= 20,
        buf[0] == 1 && buf[1] == 1,
        field(buf, 8, 20) == transaction_id,
        last_value(attributes(buf, 20, attributes_end(buf)), 0x20) == Some(c),
        last_value(attributes(buf, 20, attributes_end(buf)), 1) == Some(p),
        c.len() < 8 || c[1] != 1,
    ensures
        reported_address(buf, transaction_id) == mapped_address_of(p),
{
    assert(field(buf, 0, 2) =~= seq![buf[0], buf[1]]);
    crate::bytes::lemma_two_bytes(buf[0], buf[1]);
}

} // verus!
