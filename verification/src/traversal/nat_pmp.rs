//! NAT-PMP: asking the gateway for its address and for port mappings, and
//! finding the gateway in what the system prints of its routes.

use vstd::arithmetic::div_mod::lemma_fundamental_div_mod_converse;
use vstd::prelude::*;

use crate::addr::{
    ipv4_of_text, ipv4_text, lemma_ipv4_text_round_trip, read_ipv4, IpAddr, Ipv4Addr, SocketAddr,
};
use crate::bytes::{
    be_bytes, be_value, field, get_be16, get_be32, lemma_be_round_trip, lemma_pow256_values,
    put_be16, put_be32, zeros,
};
use crate::numbers::{
    all_digits, digit_of, digits_value, lemma_digit_round_trip, parse_unsigned, unsigned_value,
};
use crate::text::{
    chars_of, contains, lines, occurs_in, piece_after, second_piece, split_lines, split_words,
    texts, trim, trimmed, words,
};
use crate::time::Duration;
use crate::types::hex_pair;

verus! {

/// Protocol version.
pub const NAT_PMP_VERSION: u8 = 0;

/// Datagram port of the gateway.
pub const NAT_PMP_PORT: u16 = 5351;

/// Operation that asks for the gateway's outer address.
pub const OP_EXTERNAL_ADDRESS: u8 = 0;

/// Operation that maps a UDP port.
pub const OP_MAP_UDP: u8 = 1;

/// Operation that maps a TCP port.
pub const OP_MAP_TCP: u8 = 2;

/// How the gateway answered.
#[derive(Debug, Clone, Copy, PartialEq, Eq, Structural)]
pub enum NatPmpResultCode {
    /// Done.
    Success,
    /// The version is not supported.
    UnsupportedVersion,
    /// The function is switched off.
    NotAuthorized,
    /// The gateway has no network itself.
    NetworkFailure,
    /// No port is free.
    OutOfResources,
    /// The operation is not supported.
    UnsupportedOpcode,
    /// Any other code.
    Other(u16),
}

impl NatPmpResultCode {
    /// The number on the wire that stands for this code.
    pub open spec fn number(self) -> u16 {
        match self {
            NatPmpResultCode::Success => 0,
            NatPmpResultCode::UnsupportedVersion => 1,
            NatPmpResultCode::NotAuthorized => 2,
            NatPmpResultCode::NetworkFailure => 3,
            NatPmpResultCode::OutOfResources => 4,
            NatPmpResultCode::UnsupportedOpcode => 5,
            NatPmpResultCode::Other(n) => n,
        }
    }

    /// The code that a number stands for.
    pub open spec fn of_number(code: u16) -> NatPmpResultCode {
        if code == 0 {
            NatPmpResultCode::Success
        } else if code == 1 {
            NatPmpResultCode::UnsupportedVersion
        } else if code == 2 {
            NatPmpResultCode::NotAuthorized
        } else if code == 3 {
            NatPmpResultCode::NetworkFailure
        } else if code == 4 {
            NatPmpResultCode::OutOfResources
        } else if code == 5 {
            NatPmpResultCode::UnsupportedOpcode
        } else {
            NatPmpResultCode::Other(code)
        }
    }

    /// The code that a number stands for.
    pub fn from_u16(code: u16) -> (r: Self)
        ensures
            r == Self::of_number(code),
            r.number() == code,
            r is Other ==> code > 5,
    {
        match code {
            0 => NatPmpResultCode::Success,
            1 => NatPmpResultCode::UnsupportedVersion,
            2 => NatPmpResultCode::NotAuthorized,
            3 => NatPmpResultCode::NetworkFailure,
            4 => NatPmpResultCode::OutOfResources,
            5 => NatPmpResultCode::UnsupportedOpcode,
            other => NatPmpResultCode::Other(other),
        }
    }

    /// The name of the code in snake case.
    pub open spec fn name(self) -> Seq<char> {
        match self {
            NatPmpResultCode::Success => "success"@,
            NatPmpResultCode::UnsupportedVersion => "unsupported_version"@,
            NatPmpResultCode::NotAuthorized => "not_authorized"@,
            NatPmpResultCode::NetworkFailure => "network_failure"@,
            NatPmpResultCode::OutOfResources => "out_of_resources"@,
            NatPmpResultCode::UnsupportedOpcode => "unsupported_opcode"@,
            NatPmpResultCode::Other(_) => "other"@,
        }
    }

    /// The name of the code in snake case.
    pub fn as_str(&self) -> (r: &'static str)
        ensures
            r@ == self.name(),
    {
        match self {
            NatPmpResultCode::Success => "success",
            NatPmpResultCode::UnsupportedVersion => "unsupported_version",
            NatPmpResultCode::NotAuthorized => "not_authorized",
            NatPmpResultCode::NetworkFailure => "network_failure",
            NatPmpResultCode::OutOfResources => "out_of_resources",
            NatPmpResultCode::UnsupportedOpcode => "unsupported_opcode",
            NatPmpResultCode::Other(_) => "other",
        }
    }

    /// Whether the request was carried out.
    pub fn is_success(&self) -> (r: bool)
        ensures
            r == (self is Success),
    {
        matches!(self, NatPmpResultCode::Success)
    }
}

/// The gateway's outer address.
#[derive(Debug, Clone, Copy, PartialEq, Eq, Structural)]
pub struct ExternalAddressResponse {
    pub result_code: NatPmpResultCode,
    pub epoch_time: u32,
    pub public_ip: Ipv4Addr,
}

/// A mapping that the gateway made.
#[derive(Debug, Clone, Copy, PartialEq, Eq, Structural)]
pub struct MapResponse {
    pub result_code: NatPmpResultCode,
    pub epoch_time: u32,
    pub internal_port: u16,
    pub mapped_external_port: u16,
    pub mapping_lifetime: u32,
}

/// Why an answer is not accepted.
#[derive(Debug, Clone, Copy, PartialEq, Eq, Structural)]
pub enum NatPmpError {
    /// The answer is too short; its length.
    TooShort(usize),
    /// The answer belongs to another operation; the operation that was due and
    /// the one that came.
    OpcodeMismatch { expected: u8, actual: u8 },
    /// The gateway refused to remove a mapping.
    UnmapRefused(NatPmpResultCode),
}

/// What an answer to an address request says.
pub open spec fn external_address_of(b: Seq<u8>) -> Result<ExternalAddressResponse, NatPmpError> {
    if b.len() < 12 {
        Err(NatPmpError::TooShort(b.len() as usize))
    } else if b[1] != 0x80 {
        Err(NatPmpError::OpcodeMismatch { expected: 0x80, actual: b[1] })
    } else {
        Ok(
            ExternalAddressResponse {
                result_code: NatPmpResultCode::of_number(be_value(field(b, 2, 4)) as u16),
                epoch_time: be_value(field(b, 4, 8)) as u32,
                public_ip: Ipv4Addr::of_octets(field(b, 8, 12)),
            },
        )
    }
}

/// A mapping request: version, operation, two zero bytes, inner port, wanted
/// outer port, lifetime.
pub open spec fn map_request_bytes(
    protocol: u8,
    internal_port: u16,
    requested_external_port: u16,
    lifetime: u32,
) -> Seq<u8> {
    seq![NAT_PMP_VERSION, protocol] + zeros(2) + be_bytes(internal_port as nat, 2) + be_bytes(
        requested_external_port as nat,
        2,
    ) + be_bytes(lifetime as nat, 4)
}

/// What an answer to a mapping request for `protocol` says.
pub open spec fn map_response_of(b: Seq<u8>, protocol: u8) -> Result<MapResponse, NatPmpError> {
    if b.len() < 16 {
        Err(NatPmpError::TooShort(b.len() as usize))
    } else if b[1] != 0x80u8 | protocol {
        Err(NatPmpError::OpcodeMismatch { expected: 0x80u8 | protocol, actual: b[1] })
    } else {
        Ok(
            MapResponse {
                result_code: NatPmpResultCode::of_number(be_value(field(b, 2, 4)) as u16),
                epoch_time: be_value(field(b, 4, 8)) as u32,
                internal_port: be_value(field(b, 8, 10)) as u16,
                mapped_external_port: be_value(field(b, 10, 12)) as u16,
                mapping_lifetime: be_value(field(b, 12, 16)) as u32,
            },
        )
    }
}

/// Speaks to one gateway.
#[derive(Debug, Clone, Copy)]
pub struct NatPmpClient {
    pub gateway: Ipv4Addr,
    pub timeout: Duration,
}

impl NatPmpClient {
    /// A client of the gateway that waits for answers up to `timeout`.
    pub fn new(gateway: Ipv4Addr, timeout: Duration) -> (r: Self)
        ensures
            r.gateway == gateway,
            r.timeout == timeout,
    {
        NatPmpClient { gateway, timeout }
    }

    /// Where requests are sent.
    pub fn server_addr(&self) -> (r: SocketAddr)
        ensures
            r == service_at(self.gateway),
            r == (SocketAddr { ip: IpAddr::V4(self.gateway), port: 5351 }),
    {
        SocketAddr { ip: IpAddr::V4(self.gateway), port: NAT_PMP_PORT }
    }

    /// The request for the gateway's outer address: version and operation.
    pub fn external_address_request(&self) -> (r: Vec<u8>)
        ensures
            r@ == external_address_question(),
            r@ == seq![NAT_PMP_VERSION, OP_EXTERNAL_ADDRESS],
    {
        let mut out: Vec<u8> = Vec::new();
        out.push(NAT_PMP_VERSION);
        out.push(OP_EXTERNAL_ADDRESS);
        assert(out@ =~= seq![NAT_PMP_VERSION, OP_EXTERNAL_ADDRESS]);
        out
    }

    /// Reads the answer to an address request.
    pub fn read_external_address(&self, buf: &[u8]) -> (r: Result<
        ExternalAddressResponse,
        NatPmpError,
    >)
        ensures
            r == external_address_of(buf@),
    {
        if buf.len() < 12 {
            return Err(NatPmpError::TooShort(buf.len()));
        }
        if buf[1] != 0x80 {
            return Err(NatPmpError::OpcodeMismatch { expected: 0x80, actual: buf[1] });
        }
        Ok(
            ExternalAddressResponse {
                result_code: NatPmpResultCode::from_u16(get_be16(buf, 2)),
                epoch_time: get_be32(buf, 4),
                public_ip: read_ipv4(buf, 8),
            },
        )
    }

    /// Whether the answer to an address request, `None` where none came, shows
    /// that the gateway speaks the protocol.
    pub fn probe(&self, answer: Option<&[u8]>) -> (r: bool)
        ensures
            r == answers_probe(match answer {
                Some(b) => Some(b@),
                None => None,
            }),
            r == (answer is Some && external_address_of(answer->0@) is Ok && external_address_of(
                answer->0@,
            )->Ok_0.result_code is Success),
    {
        match answer {
            Some(buf) => match self.read_external_address(buf) {
                Ok(resp) => resp.result_code.is_success(),
                Err(_) => false,
            },
            None => false,
        }
    }

    /// The request for a mapping; a lifetime of zero removes it, an outer port of
    /// zero leaves the choice to the gateway.
    pub fn map_request(
        &self,
        protocol: u8,
        internal_port: u16,
        requested_external_port: u16,
        lifetime: u32,
    ) -> (r: Vec<u8>)
        ensures
            r@ == map_request_bytes(protocol, internal_port, requested_external_port, lifetime),
            r@.len() == 12,
    {
        let mut out: Vec<u8> = Vec::new();
        out.push(NAT_PMP_VERSION);
        out.push(protocol);
        crate::bytes::put_zeros(&mut out, 2);
        put_be16(&mut out, internal_port);
        put_be16(&mut out, requested_external_port);
        put_be32(&mut out, lifetime);
        proof {
            crate::bytes::lemma_be_bytes_len(internal_port as nat, 2);
            crate::bytes::lemma_be_bytes_len(requested_external_port as nat, 2);
            crate::bytes::lemma_be_bytes_len(lifetime as nat, 4);
            assert(out@ =~= map_request_bytes(
                protocol,
                internal_port,
                requested_external_port,
                lifetime,
            ));
        }
        out
    }

    /// Reads the answer to a mapping request for `protocol`.
    pub fn read_map_response(&self, buf: &[u8], protocol: u8) -> (r: Result<
        MapResponse,
        NatPmpError,
    >)
        ensures
            r == map_response_of(buf@, protocol),
    {
        if buf.len() < 16 {
            return Err(NatPmpError::TooShort(buf.len()));
        }
        let expected: u8 = 0x80u8 | protocol;
        if buf[1] != expected {
            return Err(NatPmpError::OpcodeMismatch { expected, actual: buf[1] });
        }
        Ok(
            MapResponse {
                result_code: NatPmpResultCode::from_u16(get_be16(buf, 2)),
                epoch_time: get_be32(buf, 4),
                internal_port: get_be16(buf, 8),
                mapped_external_port: get_be16(buf, 10),
                mapping_lifetime: get_be32(buf, 12),
            },
        )
    }

    /// The request that removes a mapping: one with lifetime zero.
    pub fn unmap_request(&self, protocol: u8, internal_port: u16, external_port: u16) -> (r: Vec<
        u8,
    >)
        ensures
            r@ == map_request_bytes(protocol, internal_port, external_port, 0),
    {
        self.map_request(protocol, internal_port, external_port, 0)
    }

    /// Reads the answer to a request that removes a mapping.
    pub fn read_unmap_response(&self, buf: &[u8], protocol: u8) -> (r: Result<(), NatPmpError>)
        ensures
            r == unmap_outcome(map_response_of(buf@, protocol)),
            r == match map_response_of(buf@, protocol) {
                Err(e) => Err::<(), NatPmpError>(e),
                Ok(m) => if m.result_code is Success {
                    Ok(())
                } else {
                    Err(NatPmpError::UnmapRefused(m.result_code))
                },
            },
    {
        match self.read_map_response(buf, protocol) {
            Err(e) => Err(e),
            Ok(m) => if m.result_code.is_success() {
                Ok(())
            } else {
                Err(NatPmpError::UnmapRefused(m.result_code))
            },
        }
    }
}

/// Each part of a mapping request stands where the protocol wants it.
pub proof fn lemma_map_request_fields(
    protocol: u8,
    internal_port: u16,
    requested_external_port: u16,
    lifetime: u32,
)
    ensures
        ({
            let b = map_request_bytes(protocol, internal_port, requested_external_port, lifetime);
            &&& b.len() == 12
            &&& b[0] == 0
            &&& b[1] == protocol
            &&& be_value(field(b, 4, 6)) == internal_port
            &&& be_value(field(b, 6, 8)) == requested_external_port
            &&& be_value(field(b, 8, 12)) == lifetime
        }),
{
    let b = map_request_bytes(protocol, internal_port, requested_external_port, lifetime);
    lemma_pow256_values();
    lemma_be_round_trip(internal_port as nat, 2);
    lemma_be_round_trip(requested_external_port as nat, 2);
    lemma_be_round_trip(lifetime as nat, 4);
    assert(field(b, 4, 6) =~= be_bytes(internal_port as nat, 2));
    assert(field(b, 6, 8) =~= be_bytes(requested_external_port as nat, 2));
    assert(field(b, 8, 12) =~= be_bytes(lifetime as nat, 4));
}

/// No answer is taken for an answer to two protocols: what is accepted for one
/// is refused for the other.
pub proof fn lemma_protocols_do_not_mix(b: Seq<u8>, p: u8, q: u8)
    requires
        p < 0x80,
        q < 0x80,
        p != q,
        map_response_of(b, p) is Ok,
    ensures
        map_response_of(b, q) is Err,
{
    assert(p < 0x80 && q < 0x80 && p != q ==> 0x80u8 | p != 0x80u8 | q) by (bit_vector);
}

/// The number of a code and the code of a number undo each other.
pub proof fn lemma_nat_pmp_code_round_trip(code: u16)
    ensures
        NatPmpResultCode::of_number(code).number() == code,
        NatPmpResultCode::of_number(code) is Success <==> code == 0,
{
}

/// The first of the items that `f` finds something in.
pub open spec fn first_found(
    items: Seq<Seq<char>>,
    f: spec_fn(Seq<char>) -> Option<Ipv4Addr>,
) -> Option<Ipv4Addr>
    decreases items.len(),
{
    if items.len() == 0 {
        None
    } else if f(items[0]) is Some {
        f(items[0])
    } else {
        first_found(items.drop_first(), f)
    }
}

/// The address whose octets a number holds, the lowest first.
pub open spec fn ipv4_of_le(n: nat) -> Ipv4Addr {
    Ipv4Addr {
        a: (n % 256) as u8,
        b: (n / 256 % 256) as u8,
        c: (n / 65536 % 256) as u8,
        d: (n / 16777216 % 256) as u8,
    }
}

/// The gateway of one row of the kernel's route table: interface, destination,
/// gateway, ... in hexadecimal. Only the default route counts, and only with a
/// gateway other than zero.
pub open spec fn route_row_gateway(fields: Seq<Seq<char>>) -> Option<Ipv4Addr> {
    if fields.len() < 3 {
        None
    } else if unsigned_value(fields[1], 16, 0xffff_ffff) != Some(0nat) {
        None
    } else {
        match unsigned_value(fields[2], 16, 0xffff_ffff) {
            None => None,
            Some(n) => if n == 0 {
                None
            } else {
                Some(ipv4_of_le(n))
            },
        }
    }
}

/// Reads one row of the kernel's route table, given its fields.
pub fn route_row(fields: &Vec<String>) -> (r: Option<Ipv4Addr>)
    ensures
        r == route_row_gateway(texts(fields@)),
{
    if fields.len() < 3 {
        return None;
    }
    proof {
        assert(texts(fields@)[1] == fields@[1]@);
        assert(texts(fields@)[2] == fields@[2]@);
    }
    let dest = chars_of(fields[1].as_str());
    match parse_unsigned(dest.as_slice(), 16, 0xffff_ffff) {
        Some(d) => {
            if d != 0 {
                return None;
            }
        },
        None => {
            return None;
        },
    }
    let gw = chars_of(fields[2].as_str());
    match parse_unsigned(gw.as_slice(), 16, 0xffff_ffff) {
        Some(n) => {
            if n == 0 {
                None
            } else {
                Some(
                    Ipv4Addr {
                        a: (n % 256) as u8,
                        b: (n / 256 % 256) as u8,
                        c: (n / 65536 % 256) as u8,
                        d: (n / 16777216 % 256) as u8,
                    },
                )
            }
        },
        None => None,
    }
}

/// The gateway in the kernel's route table: the first row after the heading
/// that has one.
pub open spec fn route_table_gateway(content: Seq<char>) -> Option<Ipv4Addr> {
    let all = lines(content);
    if all.len() == 0 {
        None
    } else {
        first_found(all.drop_first(), |line: Seq<char>| route_row_gateway(words(line)))
    }
}

proof fn lemma_first_found_step(
    items: Seq<Seq<char>>,
    i: int,
    f: spec_fn(Seq<char>) -> Option<Ipv4Addr>,
)
    requires
        0 <= i < items.len(),
    ensures
        first_found(items.skip(i), f) == if f(items[i]) is Some {
            f(items[i])
        } else {
            first_found(items.skip(i + 1), f)
        },
{
    assert(items.skip(i).drop_first() =~= items.skip(i + 1));
}

/// Finds the gateway in the kernel's route table.
pub fn parse_route_table(content: &str) -> (r: Option<Ipv4Addr>)
    ensures
        r == route_table_gateway(content@),
{
    let rows = split_lines(content);
    let ghost all = lines(content@);
    let ghost f = |line: Seq<char>| route_row_gateway(words(line));
    if rows.len() == 0 {
        return None;
    }
    let mut i: usize = 1;
    proof {
        assert(all.drop_first() =~= all.skip(1));
    }
    while i < rows.len()
        invariant
            texts(rows@) == all,
            all == lines(content@),
            all.drop_first() == all.skip(1),
            1 <= i <= rows@.len(),
            f == (|line: Seq<char>| route_row_gateway(words(line))),
            first_found(all.skip(1), f) == first_found(all.skip(i as int), f),
        decreases rows@.len() - i,
    {
        let fields = split_words(rows[i].as_str());
        proof {
            assert(all[i as int] == rows@[i as int]@);
            lemma_first_found_step(all, i as int, f);
        }
        let found = route_row(&fields);
        if found.is_some() {
            return found;
        }
        i = i + 1;
    }
    proof {
        assert(all.skip(i as int).len() == 0);
    }
    None
}

/// The gateway in a line of the form `gateway: 192.168.1.1`.
pub open spec fn route_line_gateway(line: Seq<char>) -> Option<Ipv4Addr> {
    if !occurs_in(line, "gateway:"@) {
        None
    } else {
        match second_piece(line, ':') {
            Some(p) => ipv4_of_text(trimmed(p)),
            None => None,
        }
    }
}

/// Finds the gateway in what `route -n get default` prints.
pub fn parse_route_output(text: &str) -> (r: Option<Ipv4Addr>)
    ensures
        r == route_output_gateway(text@),
        r == first_found(lines(text@), |line: Seq<char>| route_line_gateway(line)),
{
    let rows = split_lines(text);
    let ghost all = lines(text@);
    let ghost f = |line: Seq<char>| route_line_gateway(line);
    let mut i: usize = 0;
    proof {
        assert(all.skip(0) =~= all);
    }
    while i < rows.len()
        invariant
            texts(rows@) == all,
            all == lines(text@),
            i <= rows@.len(),
            f == (|line: Seq<char>| route_line_gateway(line)),
            first_found(all, f) == first_found(all.skip(i as int), f),
        decreases rows@.len() - i,
    {
        proof {
            assert(all[i as int] == rows@[i as int]@);
            lemma_first_found_step(all, i as int, f);
        }
        if contains(rows[i].as_str(), "gateway:") {
            if let Some(p) = piece_after(rows[i].as_str(), ':') {
                let ip = Ipv4Addr::parse(trim(p.as_str()).as_str());
                if ip.is_some() {
                    return ip;
                }
            }
        }
        i = i + 1;
    }
    proof {
        assert(all.skip(i as int).len() == 0);
    }
    None
}

/// The address that `s` writes, unless it is zero or a loopback address.
pub open spec fn usable_address(s: Seq<char>) -> Option<Ipv4Addr> {
    match ipv4_of_text(s) {
        Some(ip) => if ip == (Ipv4Addr { a: 0, b: 0, c: 0, d: 0 }) || ip.a == 127 {
            None
        } else {
            Some(ip)
        },
        None => None,
    }
}

/// The gateway in a row of `netsh interface ipv4 show route`: the first usable
/// address in a row of the default route.
pub open spec fn netsh_line_gateway(line: Seq<char>) -> Option<Ipv4Addr> {
    let t = trimmed(line);
    if occurs_in(t, "0.0.0.0/0"@) || occurs_in(t, "0.0.0.0 "@) {
        first_found(words(t), |w: Seq<char>| usable_address(w))
    } else {
        None
    }
}

/// The first usable address among the words of a row.
pub fn first_usable(fields: &Vec<String>) -> (r: Option<Ipv4Addr>)
    ensures
        r == first_found(texts(fields@), |w: Seq<char>| usable_address(w)),
{
    let ghost all = texts(fields@);
    let ghost f = |w: Seq<char>| usable_address(w);
    let mut i: usize = 0;
    proof {
        assert(all.skip(0) =~= all);
    }
    while i < fields.len()
        invariant
            texts(fields@) == all,
            i <= fields@.len(),
            f == (|w: Seq<char>| usable_address(w)),
            first_found(all, f) == first_found(all.skip(i as int), f),
        decreases fields@.len() - i,
    {
        proof {
            assert(all[i as int] == fields@[i as int]@);
            lemma_first_found_step(all, i as int, f);
        }
        if let Some(ip) = Ipv4Addr::parse(fields[i].as_str()) {
            if !ip.is_unspecified() && !ip.is_loopback() {
                return Some(ip);
            }
        }
        i = i + 1;
    }
    proof {
        assert(all.skip(i as int).len() == 0);
    }
    None
}

/// Finds the gateway in what `netsh interface ipv4 show route` prints.
pub fn parse_netsh_output(text: &str) -> (r: Option<Ipv4Addr>)
    ensures
        r == netsh_gateway(text@),
        r == first_found(lines(text@), |line: Seq<char>| netsh_line_gateway(line)),
{
    let rows = split_lines(text);
    let ghost all = lines(text@);
    let ghost f = |line: Seq<char>| netsh_line_gateway(line);
    let mut i: usize = 0;
    proof {
        assert(all.skip(0) =~= all);
    }
    while i < rows.len()
        invariant
            texts(rows@) == all,
            all == lines(text@),
            i <= rows@.len(),
            f == (|line: Seq<char>| netsh_line_gateway(line)),
            first_found(all, f) == first_found(all.skip(i as int), f),
        decreases rows@.len() - i,
    {
        proof {
            assert(all[i as int] == rows@[i as int]@);
            lemma_first_found_step(all, i as int, f);
        }
        let line = trim(rows[i].as_str());
        if contains(line.as_str(), "0.0.0.0/0") || contains(line.as_str(), "0.0.0.0 ") {
            let found = first_usable(&split_words(line.as_str()));
            if found.is_some() {
                return found;
            }
        }
        i = i + 1;
    }
    proof {
        assert(all.skip(i as int).len() == 0);
    }
    None
}

/// The gateway in a line of `ipconfig`, whose label is in Chinese or English.
pub open spec fn ipconfig_line_gateway(line: Seq<char>) -> Option<Ipv4Addr> {
    let t = trimmed(line);
    if occurs_in(t, "默认网关"@) || occurs_in(t, "Default Gateway"@) {
        match second_piece(t, ':') {
            Some(p) => match ipv4_of_text(trimmed(p)) {
                Some(ip) => if ip == (Ipv4Addr { a: 0, b: 0, c: 0, d: 0 }) {
                    None
                } else {
                    Some(ip)
                },
                None => None,
            },
            None => None,
        }
    } else {
        None
    }
}

/// Finds the gateway in what `ipconfig` prints.
pub fn parse_ipconfig_output(text: &str) -> (r: Option<Ipv4Addr>)
    ensures
        r == ipconfig_gateway(text@),
        r == first_found(lines(text@), |line: Seq<char>| ipconfig_line_gateway(line)),
{
    let rows = split_lines(text);
    let ghost all = lines(text@);
    let ghost f = |line: Seq<char>| ipconfig_line_gateway(line);
    let mut i: usize = 0;
    proof {
        assert(all.skip(0) =~= all);
    }
    while i < rows.len()
        invariant
            texts(rows@) == all,
            all == lines(text@),
            i <= rows@.len(),
            f == (|line: Seq<char>| ipconfig_line_gateway(line)),
            first_found(all, f) == first_found(all.skip(i as int), f),
        decreases rows@.len() - i,
    {
        proof {
            assert(all[i as int] == rows@[i as int]@);
            lemma_first_found_step(all, i as int, f);
        }
        let line = trim(rows[i].as_str());
        if contains(line.as_str(), "默认网关") || contains(line.as_str(), "Default Gateway") {
            if let Some(p) = piece_after(line.as_str(), ':') {
                if let Some(ip) = Ipv4Addr::parse(trim(p.as_str()).as_str()) {
                    if !ip.is_unspecified() {
                        return Some(ip);
                    }
                }
            }
        }
        i = i + 1;
    }
    proof {
        assert(all.skip(i as int).len() == 0);
    }
    None
}

/// The default gateway of a Unix system, from the kernel's route table and, where
/// that shows none, from what `route -n get default` prints; `None` stands for
/// a text that could not be had.
pub fn detect_default_gateway_unix(route_table: Option<&str>, route_output: Option<&str>) -> (r:
    Option<Ipv4Addr>)
    ensures
        r == first_of(
            match route_table {
                Some(t) => route_table_gateway(t@),
                None => None,
            },
            match route_output {
                Some(t) => route_output_gateway(t@),
                None => None,
            },
        ),
        r == if route_table is Some && route_table_gateway(route_table->0@) is Some {
            route_table_gateway(route_table->0@)
        } else {
            match route_output {
                Some(t) => first_found(lines(t@), |line: Seq<char>| route_line_gateway(line)),
                None => None,
            }
        },
{
    if let Some(content) = route_table {
        let found = parse_route_table(content);
        if found.is_some() {
            return found;
        }
    }
    match route_output {
        Some(t) => parse_route_output(t),
        None => None,
    }
}

/// The default gateway of a Windows system, from what `netsh` prints and, where
/// that shows none, from what `ipconfig` prints. Where `netsh` could not be
/// run, nothing is tried further.
pub fn detect_default_gateway_windows(netsh: Option<&str>, ipconfig: Option<&str>) -> (r: Option<
    Ipv4Addr,
>)
    ensures
        r == windows_gateway(
            match netsh {
                Some(t) => Some(netsh_gateway(t@)),
                None => None,
            },
            match ipconfig {
                Some(t) => ipconfig_gateway(t@),
                None => None,
            },
        ),
        r == match netsh {
            None => None,
            Some(n) => {
                let first = first_found(lines(n@), |line: Seq<char>| netsh_line_gateway(line));
                if first is Some {
                    first
                } else {
                    match ipconfig {
                        Some(t) => first_found(
                            lines(t@),
                            |line: Seq<char>| ipconfig_line_gateway(line),
                        ),
                        None => None,
                    }
                }
            },
        },
{
    match netsh {
        None => None,
        Some(n) => {
            let found = parse_netsh_output(n);
            if found.is_some() {
                return found;
            }
            match ipconfig {
                Some(t) => parse_ipconfig_output(t),
                None => None,
            }
        },
    }
}

/// A row of the route table that writes an address, its first octet in the lowest byte,
/// as the gateway of the default route gives exactly that address.
pub proof fn lemma_route_row_round_trip(fields: Seq<Seq<char>>, ip: Ipv4Addr)
    requires
        fields.len() >= 3,
        unsigned_value(fields[1], 16, 0xffff_ffff) == Some(0nat),
        unsigned_value(fields[2], 16, 0xffff_ffff) == Some(
            (ip.a + 256 * ip.b + 65536 * ip.c + 16777216 * ip.d) as nat,
        ),
        ip.a != 0 || ip.b != 0 || ip.c != 0 || ip.d != 0,
    ensures
        route_row_gateway(fields) == Some(ip),
{
    lemma_le_octets(ip.a as int, ip.b as int, ip.c as int, ip.d as int);
}

proof fn lemma_le_octets(a: int, b: int, c: int, d: int)
    requires
        0 <= a < 256,
        0 <= b < 256,
        0 <= c < 256,
        0 <= d < 256,
    ensures
        ({
            let n = a + 256 * b + 65536 * c + 16777216 * d;
            n % 256 == a && n / 256 % 256 == b && n / 65536 % 256 == c && n / 16777216 % 256 == d
        }),
{
    let n = a + 256 * b + 65536 * c + 16777216 * d;
    let q1 = b + 256 * c + 65536 * d;
    let q2 = c + 256 * d;
    lemma_fundamental_div_mod_converse(n, 256, q1, a);
    lemma_fundamental_div_mod_converse(n, 65536, q2, a + 256 * b);
    lemma_fundamental_div_mod_converse(n, 16777216, d, a + 256 * b + 65536 * c);
    lemma_fundamental_div_mod_converse(q1, 256, q2, b);
    lemma_fundamental_div_mod_converse(q2, 256, d, c);
    lemma_fundamental_div_mod_converse(d, 256, 0, d);
}

/// The number that eight hexadecimal digits write, the pairs standing for the octets
/// with the last one first.
pub open spec fn le_hex(ip: Ipv4Addr) -> Seq<char> {
    hex_pair(ip.d) + hex_pair(ip.c) + hex_pair(ip.b) + hex_pair(ip.a)
}

proof fn lemma_le_hex_value(ip: Ipv4Addr)
    ensures
        unsigned_value(le_hex(ip), 16, 0xffff_ffff) == Some(
            (ip.a + 256 * ip.b + 65536 * ip.c + 16777216 * ip.d) as nat,
        ),
{
    let t = le_hex(ip);
    lemma_digit_round_trip((ip.a / 16) as nat, 16);
    lemma_digit_round_trip((ip.a % 16) as nat, 16);
    lemma_digit_round_trip((ip.b / 16) as nat, 16);
    lemma_digit_round_trip((ip.b % 16) as nat, 16);
    lemma_digit_round_trip((ip.c / 16) as nat, 16);
    lemma_digit_round_trip((ip.c % 16) as nat, 16);
    lemma_digit_round_trip((ip.d / 16) as nat, 16);
    lemma_digit_round_trip((ip.d % 16) as nat, 16);
    assert(t.len() == 8);
    assert(all_digits(t, 16));
    assert(t[0] != '+') by {
        assert(digit_of(t[0], 16) is Some);
    }
    let t7 = t.drop_last();
    let t6 = t7.drop_last();
    let t5 = t6.drop_last();
    let t4 = t5.drop_last();
    let t3 = t4.drop_last();
    let t2 = t3.drop_last();
    let t1 = t2.drop_last();
    assert(t1.drop_last() =~= Seq::<char>::empty());
    assert(digits_value(t1.drop_last(), 16) == 0);
    assert(digits_value(t1, 16) == ip.d / 16);
    assert(digits_value(t2, 16) == ip.d);
    assert(digits_value(t3, 16) == ip.d * 16 + ip.c / 16);
    assert(digits_value(t4, 16) == ip.d * 256 + ip.c);
    assert(digits_value(t5, 16) == ip.d * 4096 + ip.c * 16 + ip.b / 16);
    assert(digits_value(t6, 16) == ip.d * 65536 + ip.c * 256 + ip.b);
    assert(digits_value(t7, 16) == ip.d * 1048576 + ip.c * 4096 + ip.b * 16 + ip.a / 16);
    assert(digits_value(t, 16) == ip.d * 16777216 + ip.c * 65536 + ip.b * 256 + ip.a);
}

/// The default route of an interface, with its gateway in hexadecimal as the kernel
/// writes it, gives the gateway; with the gateway zero it gives none.
pub proof fn lemma_default_route_gives_its_gateway(fields: Seq<Seq<char>>, ip: Ipv4Addr)
    requires
        fields.len() >= 3,
        fields[1] == le_hex(Ipv4Addr { a: 0, b: 0, c: 0, d: 0 }),
        fields[2] == le_hex(ip),
    ensures
        ip != (Ipv4Addr { a: 0, b: 0, c: 0, d: 0 }) ==> route_row_gateway(fields) == Some(ip),
        ip == (Ipv4Addr { a: 0, b: 0, c: 0, d: 0 }) ==> route_row_gateway(fields) is None,
{
    lemma_le_hex_value(Ipv4Addr { a: 0, b: 0, c: 0, d: 0 });
    lemma_le_hex_value(ip);
    if ip != (Ipv4Addr { a: 0, b: 0, c: 0, d: 0 }) {
        lemma_route_row_round_trip(fields, ip);
    }
}

/// A route to any other destination gives no gateway, nor does a row with too few
/// fields or with a gateway that is no number.
pub proof fn lemma_other_routes_give_no_gateway(fields: Seq<Seq<char>>)
    ensures
        fields.len() < 3 ==> route_row_gateway(fields) is None,
        fields.len() >= 3 && unsigned_value(fields[1], 16, 0xffff_ffff) is Some && unsigned_value(
            fields[1],
            16,
            0xffff_ffff,
        )->0 != 0 ==> route_row_gateway(fields) is None,
        fields.len() >= 3 && unsigned_value(fields[1], 16, 0xffff_ffff) is None
            ==> route_row_gateway(fields) is None,
        fields.len() >= 3 && unsigned_value(fields[2], 16, 0xffff_ffff) is None
            ==> route_row_gateway(fields) is None,
{
}

/// An answer to the question for the outer address reads back: version, the operation
/// with the answer bit, code, time and address, the first octet first.
pub proof fn lemma_external_address_round_trip(
    version: u8,
    code: u16,
    epoch: u32,
    ip: Ipv4Addr,
    rest: Seq<u8>,
)
    ensures
        ({
            let b = seq![version, 0x80u8] + be_bytes(code as nat, 2) + be_bytes(epoch as nat, 4)
                + seq![ip.a, ip.b, ip.c, ip.d] + rest;
            external_address_of(b) == Ok::<ExternalAddressResponse, NatPmpError>(
                ExternalAddressResponse {
                    result_code: NatPmpResultCode::of_number(code),
                    epoch_time: epoch,
                    public_ip: ip,
                },
            )
        }),
{
    let b = seq![version, 0x80u8] + be_bytes(code as nat, 2) + be_bytes(epoch as nat, 4) + seq![
        ip.a,
        ip.b,
        ip.c,
        ip.d,
    ] + rest;
    lemma_pow256_values();
    lemma_be_round_trip(code as nat, 2);
    lemma_be_round_trip(epoch as nat, 4);
    assert(field(b, 2, 4) =~= be_bytes(code as nat, 2));
    assert(field(b, 4, 8) =~= be_bytes(epoch as nat, 4));
    assert(field(b, 8, 12) =~= seq![ip.a, ip.b, ip.c, ip.d]);
}

/// An answer to a mapping request reads back: version, the protocol with the answer
/// bit, code, time, inner port, outer port, lifetime.
pub proof fn lemma_map_response_round_trip(
    version: u8,
    protocol: u8,
    code: u16,
    epoch: u32,
    inner: u16,
    outer: u16,
    lifetime: u32,
    rest: Seq<u8>,
)
    requires
        protocol < 0x80,
    ensures
        ({
            let b = seq![version, (0x80 + protocol) as u8] + be_bytes(code as nat, 2) + be_bytes(
                epoch as nat,
                4,
            ) + be_bytes(inner as nat, 2) + be_bytes(outer as nat, 2) + be_bytes(lifetime as nat, 4)
                + rest;
            map_response_of(b, protocol) == Ok::<MapResponse, NatPmpError>(
                MapResponse {
                    result_code: NatPmpResultCode::of_number(code),
                    epoch_time: epoch,
                    internal_port: inner,
                    mapped_external_port: outer,
                    mapping_lifetime: lifetime,
                },
            )
        }),
{
    let b = seq![version, (0x80 + protocol) as u8] + be_bytes(code as nat, 2) + be_bytes(
        epoch as nat,
        4,
    ) + be_bytes(inner as nat, 2) + be_bytes(outer as nat, 2) + be_bytes(lifetime as nat, 4) + rest;
    lemma_pow256_values();
    lemma_be_round_trip(code as nat, 2);
    lemma_be_round_trip(epoch as nat, 4);
    lemma_be_round_trip(inner as nat, 2);
    lemma_be_round_trip(outer as nat, 2);
    lemma_be_round_trip(lifetime as nat, 4);
    assert(field(b, 2, 4) =~= be_bytes(code as nat, 2));
    assert(field(b, 4, 8) =~= be_bytes(epoch as nat, 4));
    assert(field(b, 8, 10) =~= be_bytes(inner as nat, 2));
    assert(field(b, 10, 12) =~= be_bytes(outer as nat, 2));
    assert(field(b, 12, 16) =~= be_bytes(lifetime as nat, 4));
    assert(0x80u8 | protocol == (0x80u8 + protocol) as u8) by (bit_vector)
        requires
            protocol < 0x80,
    ;
}

/// Answers that are too short, or that belong to another operation, are refused as
/// such, with their length or with the operation that came.
pub proof fn lemma_odd_answers_are_refused(b: Seq<u8>, protocol: u8)
    requires
        b.len() <= usize::MAX,
        protocol < 0x80,
    ensures
        b.len() < 12 ==> external_address_of(b) == Err::<ExternalAddressResponse, NatPmpError>(
            NatPmpError::TooShort(b.len() as usize),
        ),
        b.len() < 16 ==> map_response_of(b, protocol) == Err::<MapResponse, NatPmpError>(
            NatPmpError::TooShort(b.len() as usize),
        ),
        b.len() >= 12 ==> (external_address_of(b) is Ok <==> b[1] == 128),
        b.len() >= 16 ==> (map_response_of(b, protocol) is Ok <==> b[1] == 128 + protocol),
        b.len() >= 12 && b[1] != 128 ==> external_address_of(b) == Err::<
            ExternalAddressResponse,
            NatPmpError,
        >(NatPmpError::OpcodeMismatch { expected: 128, actual: b[1] }),
{
    assert(0x80u8 | protocol == (0x80u8 + protocol) as u8) by (bit_vector)
        requires
            protocol < 0x80,
    ;
}

/// What the codes stand for.
pub proof fn lemma_nat_pmp_codes(code: u16)
    ensures
        NatPmpResultCode::of_number(code) is Success <==> code == 0,
        NatPmpResultCode::of_number(code) is UnsupportedVersion <==> code == 1,
        NatPmpResultCode::of_number(code) is NotAuthorized <==> code == 2,
        NatPmpResultCode::of_number(code) is NetworkFailure <==> code == 3,
        NatPmpResultCode::of_number(code) is OutOfResources <==> code == 4,
        NatPmpResultCode::of_number(code) is UnsupportedOpcode <==> code == 5,
        code > 5 ==> NatPmpResultCode::of_number(code) == NatPmpResultCode::Other(code),
{
}

/// The names of the codes.
pub proof fn lemma_nat_pmp_code_names(c: NatPmpResultCode)
    ensures
        c is Success ==> c.name() == "success"@,
        c is UnsupportedVersion ==> c.name() == "unsupported_version"@,
        c is NotAuthorized ==> c.name() == "not_authorized"@,
        c is NetworkFailure ==> c.name() == "network_failure"@,
        c is OutOfResources ==> c.name() == "out_of_resources"@,
        c is UnsupportedOpcode ==> c.name() == "unsupported_opcode"@,
        c is Other ==> c.name() == "other"@,
{
}

/// A written address is usable as a gateway unless it is zero or a loopback address.
pub proof fn lemma_usable_addresses(ip: Ipv4Addr)
    ensures
        usable_address(ipv4_text(ip)) == if ip.a == 127 || (ip.a == 0 && ip.b == 0 && ip.c == 0
            && ip.d == 0) {
            None
        } else {
            Some(ip)
        },
{
    lemma_ipv4_text_round_trip(ip);
}

/// Of several items the first that gives something decides; where none does, nothing
/// is found.
pub proof fn lemma_first_found(
    items: Seq<Seq<char>>,
    f: spec_fn(Seq<char>) -> Option<Ipv4Addr>,
    i: int,
)
    ensures
        0 <= i < items.len() && f(items[i]) is Some && (forall|j: int|
            0 <= j < i ==> f(#[trigger] items[j]) is None) ==> first_found(items, f) == f(items[i]),
        (forall|j: int| 0 <= j < items.len() ==> f(#[trigger] items[j]) is None) ==> first_found(
            items,
            f,
        ) is None,
    decreases items.len(),
{
    if items.len() > 0 {
        let d = items.drop_first();
        lemma_first_found(d, f, i - 1);
        if f(items[0]) is None {
            assert forall|j: int| 0 <= j < d.len() implies d[j] == items[j + 1] by {}
            if 0 < i < items.len() && (forall|j: int| 0 <= j < i ==> f(#[trigger] items[j]) is None) {
                assert forall|j: int| 0 <= j < i - 1 implies f(#[trigger] d[j]) is None by {
                    assert(d[j] == items[j + 1]);
                }
            }
            if forall|j: int| 0 <= j < items.len() ==> f(#[trigger] items[j]) is None {
                assert forall|j: int| 0 <= j < d.len() implies f(#[trigger] d[j]) is None by {
                    assert(d[j] == items[j + 1]);
                }
            }
        }
    }
}

/// Whether an answer shows that the gateway speaks the protocol.
pub open spec fn answers_probe(answer: Option<Seq<u8>>) -> bool {
    answer is Some && external_address_of(answer->0) is Ok && external_address_of(
        answer->0,
    )->Ok_0.result_code is Success
}

/// What taking a mapping back leads to.
pub open spec fn unmap_outcome(response: Result<MapResponse, NatPmpError>) -> Result<
    (),
    NatPmpError,
> {
    match response {
        Err(e) => Err(e),
        Ok(m) => if m.result_code is Success {
            Ok(())
        } else {
            Err(NatPmpError::UnmapRefused(m.result_code))
        },
    }
}

/// The gateway that the output of `route` names.
pub open spec fn route_output_gateway(text: Seq<char>) -> Option<Ipv4Addr> {
    first_found(lines(text), |line: Seq<char>| route_line_gateway(line))
}

/// The gateway that the output of `netsh` names.
pub open spec fn netsh_gateway(text: Seq<char>) -> Option<Ipv4Addr> {
    first_found(lines(text), |line: Seq<char>| netsh_line_gateway(line))
}

/// The gateway that the output of `ipconfig` names.
pub open spec fn ipconfig_gateway(text: Seq<char>) -> Option<Ipv4Addr> {
    first_found(lines(text), |line: Seq<char>| ipconfig_line_gateway(line))
}

/// The first of two that is there.
pub open spec fn first_of(a: Option<Ipv4Addr>, b: Option<Ipv4Addr>) -> Option<Ipv4Addr> {
    if a is Some {
        a
    } else {
        b
    }
}

/// The gateway where `netsh` could be run or not, and what `ipconfig` names.
pub open spec fn windows_gateway(
    netsh: Option<Option<Ipv4Addr>>,
    ipconfig: Option<Ipv4Addr>,
) -> Option<Ipv4Addr> {
    match netsh {
        None => None,
        Some(found) => first_of(found, ipconfig),
    }
}

/// Where the gateway is asked.
pub open spec fn service_at(gateway: Ipv4Addr) -> SocketAddr {
    SocketAddr { ip: IpAddr::V4(gateway), port: NAT_PMP_PORT }
}

/// The gateway is asked at its own address, at the port 5351.
pub proof fn lemma_service(gateway: Ipv4Addr)
    ensures
        service_at(gateway).ip == IpAddr::V4(gateway),
        service_at(gateway).port == 5351,
{
}

/// Only an answer of the right kind, with the code 0, shows the protocol.
pub proof fn lemma_probe_needs_success(b: Seq<u8>)
    ensures
        !answers_probe(None),
        answers_probe(Some(b)) <==> b.len() >= 12 && b[1] == 128 && b[2] == 0 && b[3] == 0,
{
    if b.len() >= 12 {
        let f = field(b, 2, 4);
        assert(f =~= seq![b[2], b[3]]);
        crate::bytes::lemma_two_bytes(b[2], b[3]);
    }
}

/// A mapping is taken back exactly where the gateway says so with the code for success;
/// another code is reported, and so is an answer that could not be read.
pub proof fn lemma_unmapping(m: MapResponse, e: NatPmpError)
    ensures
        unmap_outcome(Ok(m)) is Ok <==> m.result_code is Success,
        !(m.result_code is Success) ==> unmap_outcome(Ok(m)) == Err::<(), NatPmpError>(
            NatPmpError::UnmapRefused(m.result_code),
        ),
        unmap_outcome(Err(e)) == Err::<(), NatPmpError>(e),
{
}

/// The table is asked before the output of `route`, which counts where the table names
/// none.
pub proof fn lemma_table_comes_first(table: Ipv4Addr, output: Option<Ipv4Addr>)
    ensures
        first_of(Some(table), output) == Some(table),
        first_of(None, output) == output,
{
}

/// `netsh` is asked before `ipconfig`, and where it could not be run nothing is found.
pub proof fn lemma_netsh_comes_first(found: Ipv4Addr, ipconfig: Option<Ipv4Addr>)
    ensures
        windows_gateway(Some(Some(found)), ipconfig) == Some(found),
        windows_gateway(Some(None), ipconfig) == ipconfig,
        windows_gateway(None, ipconfig) is None,
{
}

/// Of the output of `route`, the first line that names a gateway counts.
pub proof fn lemma_lines_are_read_in_order(line: Seq<char>, rest: Seq<char>)
    requires
        !line.contains('\n'),
        line.len() == 0 || line.last() != '\r',
    ensures
        route_output_gateway(line + seq!['\n'] + rest) == first_of(
            route_line_gateway(line),
            route_output_gateway(rest),
        ),
        netsh_gateway(line + seq!['\n'] + rest) == first_of(
            netsh_line_gateway(line),
            netsh_gateway(rest),
        ),
        ipconfig_gateway(line + seq!['\n'] + rest) == first_of(
            ipconfig_line_gateway(line),
            ipconfig_gateway(rest),
        ),
        route_table_gateway(line + seq!['\n'] + rest) == first_found(
            lines(rest),
            |row: Seq<char>| route_row_gateway(words(row)),
        ),
{
    crate::text::lemma_lines(line, rest);
    let all = lines(line + seq!['\n'] + rest);
    assert(all[0] == line);
    assert(all.drop_first() =~= lines(rest));
}

/// A line of `route` names what stands behind its colon, where that is an address; one
/// without the word for it names none.
pub proof fn lemma_route_line(a: Seq<char>, b: Seq<char>, ip: Ipv4Addr, other: Seq<char>)
    requires
        !a.contains(':'),
        !b.contains(':'),
        occurs_in(a + seq![':'] + b, "gateway:"@),
        trimmed(b) == ipv4_text(ip),
        !occurs_in(other, "gateway:"@),
    ensures
        route_line_gateway(a + seq![':'] + b) == Some(ip),
        route_line_gateway(other) is None,
{
    crate::text::lemma_second_piece(a, b, ':', Seq::empty());
    lemma_ipv4_text_round_trip(ip);
}

/// A line of `ipconfig` that has the words for it, in either language, names what stands
/// behind its colon, where that is an address other than the unspecified one.
pub proof fn lemma_ipconfig_line(line: Seq<char>, a: Seq<char>, b: Seq<char>, ip: Ipv4Addr)
    requires
        !a.contains(':'),
        !b.contains(':'),
        trimmed(line) == a + seq![':'] + b,
        trimmed(b) == ipv4_text(ip),
    ensures
        occurs_in(trimmed(line), "Default Gateway"@) || occurs_in(trimmed(line), "默认网关"@)
            ==> ipconfig_line_gateway(line) == if ip.a == 0 && ip.b == 0 && ip.c == 0 && ip.d == 0 {
            None
        } else {
            Some(ip)
        },
        !occurs_in(trimmed(line), "Default Gateway"@) && !occurs_in(trimmed(line), "默认网关"@)
            ==> ipconfig_line_gateway(line) is None,
{
    crate::text::lemma_second_piece(a, b, ':', Seq::empty());
    lemma_ipv4_text_round_trip(ip);
}

/// A line of `netsh` for the default route names the first of its words that is a usable
/// address; a line for another route names none.
pub proof fn lemma_netsh_line(line: Seq<char>, i: int, ip: Ipv4Addr)
    requires
        0 <= i < words(trimmed(line)).len(),
        words(trimmed(line))[i] == ipv4_text(ip),
        ip.a != 127,
        ip.a != 0,
        forall|j: int| 0 <= j < i ==> usable_address(#[trigger] words(trimmed(line))[j]) is None,
    ensures
        occurs_in(trimmed(line), "0.0.0.0/0"@) || occurs_in(trimmed(line), "0.0.0.0 "@)
            ==> netsh_line_gateway(line) == Some(ip),
        !occurs_in(trimmed(line), "0.0.0.0/0"@) && !occurs_in(trimmed(line), "0.0.0.0 "@)
            ==> netsh_line_gateway(line) is None,
{
    lemma_usable_addresses(ip);
    lemma_first_found(words(trimmed(line)), |w: Seq<char>| usable_address(w), i);
}

/// The question for the external address.
pub open spec fn external_address_question() -> Seq<u8> {
    seq![NAT_PMP_VERSION, OP_EXTERNAL_ADDRESS]
}

/// The question for the external address is two zeros, and a question for a mapping has
/// two zeros between its kind and its ports.
pub proof fn lemma_questions(protocol: u8, inner: u16, outer: u16, lifetime: u32)
    ensures
        external_address_question() == zeros(2),
        map_request_bytes(protocol, inner, outer, lifetime)[2] == 0,
        map_request_bytes(protocol, inner, outer, lifetime)[3] == 0,
        OP_MAP_UDP == 1 && OP_MAP_TCP == 2,
{
    assert(external_address_question() =~= zeros(2));
}

/// An answer of another kind is refused, with the kind that was expected and the one that
/// came.
pub proof fn lemma_other_kinds_are_refused(b: Seq<u8>)
    requires
        16 <= b.len() <= usize::MAX,
    ensures
        b[1] != 129 ==> map_response_of(b, 1) == Err::<MapResponse, NatPmpError>(
            NatPmpError::OpcodeMismatch { expected: 129, actual: b[1] },
        ),
        b[1] != 130 ==> map_response_of(b, 2) == Err::<MapResponse, NatPmpError>(
            NatPmpError::OpcodeMismatch { expected: 130, actual: b[1] },
        ),
{
    assert(0x80u8 | 1u8 == 129u8) by (bit_vector);
    assert(0x80u8 | 2u8 == 130u8) by (bit_vector);
}

/// What is no address is no gateway.
pub proof fn lemma_what_is_no_address(s: Seq<char>, a: Seq<char>, b: Seq<char>)
    requires
        !a.contains(':'),
        !b.contains(':'),
        ipv4_of_text(trimmed(b)) is None,
    ensures
        ipv4_of_text(s) is None ==> usable_address(s) is None,
        route_line_gateway(a + seq![':'] + b) is None,
        trimmed(s) == a + seq![':'] + b ==> ipconfig_line_gateway(s) is None,
{
    crate::text::lemma_second_piece(a, b, ':', Seq::empty());
}

} // verus!
