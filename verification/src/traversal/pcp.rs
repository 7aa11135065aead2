//! PCP: port mappings through the successor of NAT-PMP.

use vstd::prelude::*;

use crate::addr::{read_ipv4, IpAddr, Ipv4Addr, SocketAddr};
use crate::bytes::{
    all_zero, be_bytes, be_value, field, get_be16, get_be32, lemma_be_bytes_len,
    lemma_be_round_trip, lemma_pow256_values, put_be16, put_be32, put_be64, put_zeros, zeros,
};
use crate::time::{current_unix_nanos, is_unix_nanos, Duration};

verus! {

/// Protocol version.
pub const PCP_VERSION: u8 = 2;

/// Datagram port of the gateway.
pub const PCP_PORT: u16 = 5351;

/// The bit that marks an answer.
pub const PCP_RESPONSE_FLAG: u8 = 0x80;

/// Operation that announces, used to find out whether the gateway answers.
pub const OP_ANNOUNCE: u8 = 0;

/// Operation that maps a port.
pub const OP_MAP: u8 = 1;

/// Operation that opens a path to one peer.
pub const OP_PEER: u8 = 2;

/// Number of the UDP protocol.
pub const PROTOCOL_UDP: u8 = 17;

/// Number of the TCP protocol.
pub const PROTOCOL_TCP: u8 = 6;

/// How the gateway answered.
#[derive(Debug, Clone, Copy, PartialEq, Eq, Structural)]
pub enum PcpResultCode {
    Success,
    UnsuppVersion,
    NotAuthorized,
    MalformedRequest,
    UnsuppOpcode,
    UnsuppOption,
    MalformedOption,
    NetworkFailure,
    NoResources,
    UnsuppProtocol,
    UserExQuota,
    CannotProvideExternal,
    AddressMismatch,
    ExcessiveRemotePeers,
    Other(u32),
}

impl PcpResultCode {
    /// The number on the wire that stands for this code.
    pub open spec fn number(self) -> u32 {
        match self {
            PcpResultCode::Success => 0,
            PcpResultCode::UnsuppVersion => 1,
            PcpResultCode::NotAuthorized => 2,
            PcpResultCode::MalformedRequest => 3,
            PcpResultCode::UnsuppOpcode => 4,
            PcpResultCode::UnsuppOption => 5,
            PcpResultCode::MalformedOption => 6,
            PcpResultCode::NetworkFailure => 7,
            PcpResultCode::NoResources => 8,
            PcpResultCode::UnsuppProtocol => 9,
            PcpResultCode::UserExQuota => 10,
            PcpResultCode::CannotProvideExternal => 11,
            PcpResultCode::AddressMismatch => 12,
            PcpResultCode::ExcessiveRemotePeers => 13,
            PcpResultCode::Other(n) => n,
        }
    }

    /// The code that a number stands for: the one that has this number and is
    /// not `Other`, where there is one.
    pub open spec fn of_number(code: u32) -> PcpResultCode {
        if code == 0 {
            PcpResultCode::Success
        } else if code == 1 {
            PcpResultCode::UnsuppVersion
        } else if code == 2 {
            PcpResultCode::NotAuthorized
        } else if code == 3 {
            PcpResultCode::MalformedRequest
        } else if code == 4 {
            PcpResultCode::UnsuppOpcode
        } else if code == 5 {
            PcpResultCode::UnsuppOption
        } else if code == 6 {
            PcpResultCode::MalformedOption
        } else if code == 7 {
            PcpResultCode::NetworkFailure
        } else if code == 8 {
            PcpResultCode::NoResources
        } else if code == 9 {
            PcpResultCode::UnsuppProtocol
        } else if code == 10 {
            PcpResultCode::UserExQuota
        } else if code == 11 {
            PcpResultCode::CannotProvideExternal
        } else if code == 12 {
            PcpResultCode::AddressMismatch
        } else if code == 13 {
            PcpResultCode::ExcessiveRemotePeers
        } else {
            PcpResultCode::Other(code)
        }
    }

    /// The code that a number stands for.
    pub fn from_u32(code: u32) -> (r: Self)
        ensures
            r == Self::of_number(code),
            r.number() == code,
            r is Other ==> code > 13,
    {
        match code {
            0 => PcpResultCode::Success,
            1 => PcpResultCode::UnsuppVersion,
            2 => PcpResultCode::NotAuthorized,
            3 => PcpResultCode::MalformedRequest,
            4 => PcpResultCode::UnsuppOpcode,
            5 => PcpResultCode::UnsuppOption,
            6 => PcpResultCode::MalformedOption,
            7 => PcpResultCode::NetworkFailure,
            8 => PcpResultCode::NoResources,
            9 => PcpResultCode::UnsuppProtocol,
            10 => PcpResultCode::UserExQuota,
            11 => PcpResultCode::CannotProvideExternal,
            12 => PcpResultCode::AddressMismatch,
            13 => PcpResultCode::ExcessiveRemotePeers,
            other => PcpResultCode::Other(other),
        }
    }

    /// The name of the code in snake case.
    pub open spec fn name(self) -> Seq<char> {
        match self {
            PcpResultCode::Success => "success"@,
            PcpResultCode::UnsuppVersion => "unsupp_version"@,
            PcpResultCode::NotAuthorized => "not_authorized"@,
            PcpResultCode::MalformedRequest => "malformed_request"@,
            PcpResultCode::UnsuppOpcode => "unsupp_opcode"@,
            PcpResultCode::UnsuppOption => "unsupp_option"@,
            PcpResultCode::MalformedOption => "malformed_option"@,
            PcpResultCode::NetworkFailure => "network_failure"@,
            PcpResultCode::NoResources => "no_resources"@,
            PcpResultCode::UnsuppProtocol => "unsupp_protocol"@,
            PcpResultCode::UserExQuota => "user_ex_quota"@,
            PcpResultCode::CannotProvideExternal => "cannot_provide_external"@,
            PcpResultCode::AddressMismatch => "address_mismatch"@,
            PcpResultCode::ExcessiveRemotePeers => "excessive_remote_peers"@,
            PcpResultCode::Other(_) => "other"@,
        }
    }

    /// The name of the code in snake case.
    pub fn as_str(&self) -> (r: &'static str)
        ensures
            r@ == self.name(),
    {
        match self {
            PcpResultCode::Success => "success",
            PcpResultCode::UnsuppVersion => "unsupp_version",
            PcpResultCode::NotAuthorized => "not_authorized",
            PcpResultCode::MalformedRequest => "malformed_request",
            PcpResultCode::UnsuppOpcode => "unsupp_opcode",
            PcpResultCode::UnsuppOption => "unsupp_option",
            PcpResultCode::MalformedOption => "malformed_option",
            PcpResultCode::NetworkFailure => "network_failure",
            PcpResultCode::NoResources => "no_resources",
            PcpResultCode::UnsuppProtocol => "unsupp_protocol",
            PcpResultCode::UserExQuota => "user_ex_quota",
            PcpResultCode::CannotProvideExternal => "cannot_provide_external",
            PcpResultCode::AddressMismatch => "address_mismatch",
            PcpResultCode::ExcessiveRemotePeers => "excessive_remote_peers",
            PcpResultCode::Other(_) => "other",
        }
    }

    /// Whether the request was carried out.
    pub fn is_success(&self) -> (r: bool)
        ensures
            r == (self is Success),
    {
        matches!(self, PcpResultCode::Success)
    }
}

/// A mapping that the gateway made.
#[derive(Debug, Clone, Copy, PartialEq, Eq, Structural)]
pub struct PcpMapResponse {
    pub result_code: PcpResultCode,
    pub lifetime: u32,
    pub epoch_time: u32,
    pub protocol: u8,
    pub internal_port: u16,
    pub mapped_external_port: u16,
    pub mapped_external_ip: Option<Ipv4Addr>,
}

/// The part that all answers share.
#[derive(Debug, Clone, Copy, PartialEq, Eq, Structural)]
pub struct PcpResponse {
    pub result_code: PcpResultCode,
    pub lifetime: u32,
    pub epoch_time: u32,
}

/// Why an answer is not accepted.
#[derive(Debug, Clone, Copy, PartialEq, Eq, Structural)]
pub enum PcpError {
    /// The answer is too short; its length.
    TooShort(usize),
    /// A mapping answer is too short; its length.
    MapTooShort(usize),
    /// The answer is of another version; that version.
    VersionMismatch(u8),
    /// The answer belongs to another operation; the operation that was due and
    /// the one that came.
    OpcodeMismatch { expected: u8, actual: u8 },
    /// The gateway refused to remove a mapping.
    UnmapRefused(PcpResultCode),
}

/// The address `0.0.0.0` in the form of a sixteen-byte address.
pub open spec fn unspecified_mapped() -> Seq<u8> {
    zeros(10) + seq![0xffu8, 0xffu8] + zeros(4)
}

/// A request header: version, operation, two zero bytes, lifetime, client address.
pub open spec fn header_bytes(opcode: u8, lifetime: u32) -> Seq<u8> {
    seq![PCP_VERSION, opcode] + zeros(2) + be_bytes(lifetime as nat, 4) + unspecified_mapped()
}

/// The nonce made of a clock reading: its eight bytes, then four fixed ones.
pub open spec fn nonce_of(nanos: u64) -> Seq<u8> {
    be_bytes(nanos as nat, 8) + seq![0xAAu8, 0xBBu8, 0xCCu8, 0xDDu8]
}

/// A mapping request: header, nonce, protocol, three zero bytes, inner port,
/// suggested outer port, no suggested address.
pub open spec fn map_request_bytes(
    nonce: Seq<u8>,
    protocol: u8,
    internal_port: u16,
    suggested_external_port: u16,
    lifetime: u32,
) -> Seq<u8> {
    header_bytes(OP_MAP, lifetime) + nonce + seq![protocol] + zeros(3) + be_bytes(
        internal_port as nat,
        2,
    ) + be_bytes(suggested_external_port as nat, 2) + zeros(16)
}

/// What the shared part of an answer to `opcode` says.
pub open spec fn generic_response_of(b: Seq<u8>, opcode: u8) -> Result<PcpResponse, PcpError> {
    if b.len() < 24 {
        Err(PcpError::TooShort(b.len() as usize))
    } else if b[0] != PCP_VERSION {
        Err(PcpError::VersionMismatch(b[0]))
    } else if b[1] != PCP_RESPONSE_FLAG | opcode {
        Err(PcpError::OpcodeMismatch { expected: PCP_RESPONSE_FLAG | opcode, actual: b[1] })
    } else {
        Ok(
            PcpResponse {
                result_code: PcpResultCode::of_number(be_value(field(b, 4, 8)) as u32),
                lifetime: be_value(field(b, 8, 12)) as u32,
                epoch_time: be_value(field(b, 12, 16)) as u32,
            },
        )
    }
}

/// The fourth-version address in the sixteen bytes at 44: they hold one where
/// ten zero bytes and two of all ones stand before it, or fourteen zero bytes
/// before two of all ones.
pub open spec fn mapped_ip_of(b: Seq<u8>) -> Option<Ipv4Addr> {
    if (field(b, 44, 58) == zeros(14) && b[58] == 0xff && b[59] == 0xff) || (field(b, 44, 54)
        == zeros(10) && b[54] == 0xff && b[55] == 0xff) {
        Some(Ipv4Addr::of_octets(field(b, 56, 60)))
    } else {
        None
    }
}

/// What an answer to a mapping request says.
pub open spec fn map_response_of(b: Seq<u8>) -> Result<PcpMapResponse, PcpError> {
    if b.len() < 60 {
        Err(PcpError::MapTooShort(b.len() as usize))
    } else {
        match generic_response_of(b, OP_MAP) {
            Err(e) => Err(e),
            Ok(g) => Ok(
                PcpMapResponse {
                    result_code: g.result_code,
                    lifetime: g.lifetime,
                    epoch_time: g.epoch_time,
                    protocol: b[36],
                    internal_port: be_value(field(b, 40, 42)) as u16,
                    mapped_external_port: be_value(field(b, 42, 44)) as u16,
                    mapped_external_ip: mapped_ip_of(b),
                },
            ),
        }
    }
}

/// Speaks to one gateway.
#[derive(Debug, Clone, Copy)]
pub struct PcpClient {
    pub gateway: Ipv4Addr,
    pub timeout: Duration,
}

impl PcpClient {
    /// A client of the gateway that waits for answers up to `timeout`.
    pub fn new(gateway: Ipv4Addr, timeout: Duration) -> (r: Self)
        ensures
            r.gateway == gateway,
            r.timeout == timeout,
    {
        PcpClient { gateway, timeout }
    }

    /// Where requests are sent.
    pub fn server_addr(&self) -> (r: SocketAddr)
        ensures
            r == service_at(self.gateway),
            r == (SocketAddr { ip: IpAddr::V4(self.gateway), port: 5351 }),
    {
        SocketAddr { ip: IpAddr::V4(self.gateway), port: PCP_PORT }
    }

    /// Builds a request header.
    pub fn build_header(&self, opcode: u8, lifetime: u32) -> (r: Vec<u8>)
        ensures
            r@ == header_bytes(opcode, lifetime),
            r@.len() == 24,
    {
        let mut buf: Vec<u8> = Vec::new();
        buf.push(PCP_VERSION);
        buf.push(opcode);
        put_zeros(&mut buf, 2);
        put_be32(&mut buf, lifetime);
        put_zeros(&mut buf, 10);
        buf.push(0xff);
        buf.push(0xff);
        put_zeros(&mut buf, 4);
        proof {
            lemma_be_bytes_len(lifetime as nat, 4);
            assert(buf@ =~= header_bytes(opcode, lifetime));
        }
        buf
    }

    /// The nonce made of a clock reading.
    pub fn nonce_at(nanos: u64) -> (r: Vec<u8>)
        ensures
            r@ == nonce_of(nanos),
            r@.len() == 12,
    {
        let mut out: Vec<u8> = Vec::new();
        put_be64(&mut out, nanos);
        out.push(0xAA);
        out.push(0xBB);
        out.push(0xCC);
        out.push(0xDD);
        proof {
            lemma_be_bytes_len(nanos as nat, 8);
            assert(out@ =~= nonce_of(nanos));
        }
        out
    }

    /// A nonce made of the clock's present reading.
    pub fn random_nonce() -> (r: Vec<u8>)
        ensures
            exists|nanos: u64| is_unix_nanos(nanos) && r@ == #[trigger] nonce_of(nanos),
            r@.len() == 12,
    {
        let now: u64 = current_unix_nanos();
        Self::nonce_at(now)
    }

    /// The request that finds out whether the gateway answers.
    pub fn announce_request(&self) -> (r: Vec<u8>)
        ensures
            r@ == header_bytes(OP_ANNOUNCE, 0),
    {
        self.build_header(OP_ANNOUNCE, 0)
    }

    /// Reads the answer to an announcement.
    pub fn announce(&self, buf: &[u8]) -> (r: Result<PcpResponse, PcpError>)
        ensures
            r == generic_response_of(buf@, OP_ANNOUNCE),
    {
        self.parse_generic_response(buf, OP_ANNOUNCE)
    }

    /// Whether the answer to an announcement, `None` where none came, shows that
    /// the gateway speaks the protocol.
    pub fn probe(&self, answer: Option<&[u8]>) -> (r: bool)
        ensures
            r == answers_probe(match answer {
                Some(b) => Some(b@),
                None => None,
            }),
            r == (answer is Some && generic_response_of(answer->0@, OP_ANNOUNCE) is Ok
                && generic_response_of(answer->0@, OP_ANNOUNCE)->Ok_0.result_code is Success),
    {
        match answer {
            Some(buf) => match self.announce(buf) {
                Ok(resp) => resp.result_code.is_success(),
                Err(_) => false,
            },
            None => false,
        }
    }

    /// The request for a mapping with the given nonce.
    pub fn map_request(
        &self,
        nonce: &[u8],
        protocol: u8,
        internal_port: u16,
        suggested_external_port: u16,
        lifetime: u32,
    ) -> (r: Vec<u8>)
        ensures
            r@ == map_request_bytes(
                nonce@,
                protocol,
                internal_port,
                suggested_external_port,
                lifetime,
            ),
            r@.len() == 48 + nonce@.len(),
    {
        let mut out = self.build_header(OP_MAP, lifetime);
        out.extend_from_slice(nonce);
        out.push(protocol);
        put_zeros(&mut out, 3);
        put_be16(&mut out, internal_port);
        put_be16(&mut out, suggested_external_port);
        put_zeros(&mut out, 16);
        proof {
            lemma_be_bytes_len(internal_port as nat, 2);
            lemma_be_bytes_len(suggested_external_port as nat, 2);
            assert(out@ =~= map_request_bytes(
                nonce@,
                protocol,
                internal_port,
                suggested_external_port,
                lifetime,
            ));
        }
        out
    }

    /// Reads the shared part of an answer to `opcode`.
    pub fn parse_generic_response(&self, buf: &[u8], opcode: u8) -> (r: Result<
        PcpResponse,
        PcpError,
    >)
        ensures
            r == generic_response_of(buf@, opcode),
    {
        if buf.len() < 24 {
            return Err(PcpError::TooShort(buf.len()));
        }
        if buf[0] != PCP_VERSION {
            return Err(PcpError::VersionMismatch(buf[0]));
        }
        let expected: u8 = PCP_RESPONSE_FLAG | opcode;
        if buf[1] != expected {
            return Err(PcpError::OpcodeMismatch { expected, actual: buf[1] });
        }
        Ok(
            PcpResponse {
                result_code: PcpResultCode::from_u32(get_be32(buf, 4)),
                lifetime: get_be32(buf, 8),
                epoch_time: get_be32(buf, 12),
            },
        )
    }

    /// Reads the answer to a mapping request.
    pub fn parse_map_response(&self, buf: &[u8]) -> (r: Result<PcpMapResponse, PcpError>)
        ensures
            r == map_response_of(buf@),
    {
        if buf.len() < 60 {
            return Err(PcpError::MapTooShort(buf.len()));
        }
        match self.parse_generic_response(buf, OP_MAP) {
            Err(e) => Err(e),
            Ok(g) => {
                let mapped_external_ip = if (all_zero(buf, 44, 58) && buf[58] == 0xff && buf[59]
                    == 0xff) || (all_zero(buf, 44, 54) && buf[54] == 0xff && buf[55] == 0xff) {
                    Some(read_ipv4(buf, 56))
                } else {
                    None
                };
                Ok(
                    PcpMapResponse {
                        result_code: g.result_code,
                        lifetime: g.lifetime,
                        epoch_time: g.epoch_time,
                        protocol: buf[36],
                        internal_port: get_be16(buf, 40),
                        mapped_external_port: get_be16(buf, 42),
                        mapped_external_ip,
                    },
                )
            },
        }
    }

    /// Reads the answer to a request that removes a mapping, which is a mapping
    /// request with lifetime zero.
    pub fn read_unmap_response(&self, buf: &[u8]) -> (r: Result<(), PcpError>)
        ensures
            r == unmap_outcome(map_response_of(buf@)),
            r == match map_response_of(buf@) {
                Err(e) => Err::<(), PcpError>(e),
                Ok(m) => if m.result_code is Success {
                    Ok(())
                } else {
                    Err(PcpError::UnmapRefused(m.result_code))
                },
            },
    {
        match self.parse_map_response(buf) {
            Err(e) => Err(e),
            Ok(m) => if m.result_code.is_success() {
                Ok(())
            } else {
                Err(PcpError::UnmapRefused(m.result_code))
            },
        }
    }
}

/// Each part of a mapping request stands where the protocol wants it.
pub proof fn lemma_map_request_fields(
    nonce: Seq<u8>,
    protocol: u8,
    internal_port: u16,
    suggested_external_port: u16,
    lifetime: u32,
)
    requires
        nonce.len() == 12,
    ensures
        ({
            let b = map_request_bytes(
                nonce,
                protocol,
                internal_port,
                suggested_external_port,
                lifetime,
            );
            &&& b.len() == 60
            &&& b[0] == 2
            &&& b[1] == 1
            &&& be_value(field(b, 4, 8)) == lifetime
            &&& field(b, 24, 36) == nonce
            &&& b[36] == protocol
            &&& be_value(field(b, 40, 42)) == internal_port
            &&& be_value(field(b, 42, 44)) == suggested_external_port
        }),
{
    let b = map_request_bytes(nonce, protocol, internal_port, suggested_external_port, lifetime);
    lemma_pow256_values();
    lemma_be_round_trip(internal_port as nat, 2);
    lemma_be_round_trip(suggested_external_port as nat, 2);
    lemma_be_round_trip(lifetime as nat, 4);
    assert(field(b, 4, 8) =~= be_bytes(lifetime as nat, 4));
    assert(field(b, 24, 36) =~= nonce);
    assert(field(b, 40, 42) =~= be_bytes(internal_port as nat, 2));
    assert(field(b, 42, 44) =~= be_bytes(suggested_external_port as nat, 2));
}

/// An answer that carries a fourth-version address in the usual form reports it.
pub proof fn lemma_mapped_ip_is_reported(b: Seq<u8>, ip: Ipv4Addr)
    requires
        b.len() >= 60,
        field(b, 44, 60) == zeros(10) + seq![0xffu8, 0xffu8] + ip.spec_octets(),
    ensures
        mapped_ip_of(b) == Some(ip),
{
    let f = field(b, 44, 60);
    assert(field(b, 44, 54) =~= f.subrange(0, 10));
    assert(f.subrange(0, 10) =~= zeros(10));
    assert(b[54] == f[10] && b[55] == f[11]);
    assert(field(b, 56, 60) =~= f.subrange(12, 16));
    assert(f.subrange(12, 16) =~= ip.spec_octets());
}

/// The number of a code and the code of a number undo each other.
pub proof fn lemma_pcp_code_round_trip(code: u32)
    ensures
        PcpResultCode::of_number(code).number() == code,
        PcpResultCode::of_number(code) is Success <==> code == 0,
{
}

/// The header of every request: version two, the operation, the lifetime, and the
/// client's address as the unspecified one of the fourth version in its mapped form.
pub proof fn lemma_header_fields(opcode: u8, lifetime: u32)
    ensures
        ({
            let b = header_bytes(opcode, lifetime);
            &&& b.len() == 24
            &&& b[0] == 2 && b[1] == opcode && b[2] == 0 && b[3] == 0
            &&& be_value(field(b, 4, 8)) == lifetime
            &&& b[18] == 0xff && b[19] == 0xff
            &&& forall|i: int| 8 <= i < 18 || 20 <= i < 24 ==> #[trigger] b[i] == 0
        }),
{
    let b = header_bytes(opcode, lifetime);
    lemma_pow256_values();
    lemma_be_round_trip(lifetime as nat, 4);
    assert(field(b, 4, 8) =~= be_bytes(lifetime as nat, 4));
}

/// What the parts of a mapping request that are not used hold: zeros.
pub proof fn lemma_map_request_blanks(
    nonce: Seq<u8>,
    protocol: u8,
    internal_port: u16,
    suggested_external_port: u16,
    lifetime: u32,
)
    requires
        nonce.len() == 12,
    ensures
        ({
            let b = map_request_bytes(
                nonce,
                protocol,
                internal_port,
                suggested_external_port,
                lifetime,
            );
            &&& field(b, 0, 24) == header_bytes(1, lifetime)
            &&& forall|i: int| 37 <= i < 40 || 44 <= i < 60 ==> #[trigger] b[i] == 0
        }),
{
    let b = map_request_bytes(nonce, protocol, internal_port, suggested_external_port, lifetime);
    lemma_header_fields(1, lifetime);
    lemma_be_bytes_len(internal_port as nat, 2);
    lemma_be_bytes_len(suggested_external_port as nat, 2);
    assert(field(b, 0, 24) =~= header_bytes(1, lifetime));
}

/// An answer reads back: version, the operation with the answer bit, code, lifetime and
/// time.
pub proof fn lemma_response_round_trip(
    opcode: u8,
    a: u8,
    b: u8,
    code: u32,
    lifetime: u32,
    epoch: u32,
    rest: Seq<u8>,
)
    requires
        opcode < 0x80,
        rest.len() >= 8,
    ensures
        ({
            let p = seq![2u8, (0x80 + opcode) as u8, a, b] + be_bytes(code as nat, 4) + be_bytes(
                lifetime as nat,
                4,
            ) + be_bytes(epoch as nat, 4) + rest;
            generic_response_of(p, opcode) == Ok::<PcpResponse, PcpError>(
                PcpResponse {
                    result_code: PcpResultCode::of_number(code),
                    lifetime,
                    epoch_time: epoch,
                },
            )
        }),
{
    let p = seq![2u8, (0x80 + opcode) as u8, a, b] + be_bytes(code as nat, 4) + be_bytes(
        lifetime as nat,
        4,
    ) + be_bytes(epoch as nat, 4) + rest;
    lemma_pow256_values();
    lemma_be_round_trip(code as nat, 4);
    lemma_be_round_trip(lifetime as nat, 4);
    lemma_be_round_trip(epoch as nat, 4);
    assert(field(p, 4, 8) =~= be_bytes(code as nat, 4));
    assert(field(p, 8, 12) =~= be_bytes(lifetime as nat, 4));
    assert(field(p, 12, 16) =~= be_bytes(epoch as nat, 4));
    assert(0x80u8 | opcode == (0x80u8 + opcode) as u8) by (bit_vector)
        requires
            opcode < 0x80,
    ;
}

/// An answer to a mapping request reads back: after the header and the nonce the
/// protocol, the inner port, the outer port, and the outer address in mapped form.
pub proof fn lemma_map_response_round_trip(
    head: Seq<u8>,
    nonce: Seq<u8>,
    protocol: u8,
    inner: u16,
    outer: u16,
    ip: Ipv4Addr,
    rest: Seq<u8>,
)
    requires
        head.len() == 24,
        generic_response_of(head, 1) is Ok,
        nonce.len() == 12,
    ensures
        ({
            let p = head + nonce + seq![protocol] + zeros(3) + be_bytes(inner as nat, 2) + be_bytes(
                outer as nat,
                2,
            ) + (zeros(10) + seq![0xffu8, 0xffu8] + seq![ip.a, ip.b, ip.c, ip.d]) + rest;
            let g = generic_response_of(head, 1)->Ok_0;
            map_response_of(p) == Ok::<PcpMapResponse, PcpError>(
                PcpMapResponse {
                    result_code: g.result_code,
                    lifetime: g.lifetime,
                    epoch_time: g.epoch_time,
                    protocol,
                    internal_port: inner,
                    mapped_external_port: outer,
                    mapped_external_ip: Some(ip),
                },
            )
        }),
{
    let a = zeros(10) + seq![0xffu8, 0xffu8] + seq![ip.a, ip.b, ip.c, ip.d];
    let p = head + nonce + seq![protocol] + zeros(3) + be_bytes(inner as nat, 2) + be_bytes(
        outer as nat,
        2,
    ) + a + rest;
    lemma_pow256_values();
    lemma_be_round_trip(inner as nat, 2);
    lemma_be_round_trip(outer as nat, 2);
    assert(field(p, 4, 8) =~= field(head, 4, 8));
    assert(field(p, 8, 12) =~= field(head, 8, 12));
    assert(field(p, 12, 16) =~= field(head, 12, 16));
    assert(p[0] == head[0] && p[1] == head[1]);
    assert(field(p, 40, 42) =~= be_bytes(inner as nat, 2));
    assert(field(p, 42, 44) =~= be_bytes(outer as nat, 2));
    assert(field(p, 44, 60) =~= zeros(10) + seq![0xffu8, 0xffu8] + ip.spec_octets());
    lemma_mapped_ip_is_reported(p, ip);
}

/// Answers that are too short, of another version, or of another operation are refused
/// as such.
pub proof fn lemma_odd_responses_are_refused(b: Seq<u8>, opcode: u8)
    requires
        b.len() <= usize::MAX,
        opcode < 0x80,
    ensures
        b.len() < 24 ==> generic_response_of(b, opcode) == Err::<PcpResponse, PcpError>(
            PcpError::TooShort(b.len() as usize),
        ),
        b.len() < 60 ==> map_response_of(b) == Err::<PcpMapResponse, PcpError>(
            PcpError::MapTooShort(b.len() as usize),
        ),
        b.len() >= 24 && b[0] != 2 ==> generic_response_of(b, opcode) == Err::<
            PcpResponse,
            PcpError,
        >(PcpError::VersionMismatch(b[0])),
        b.len() >= 24 ==> (generic_response_of(b, opcode) is Ok <==> b[0] == 2 && b[1] == 128
            + opcode),
{
    assert(0x80u8 | opcode == (0x80u8 + opcode) as u8) by (bit_vector)
        requires
            opcode < 0x80,
    ;
}

/// An outer address that does not begin with ten zeros is not one of the fourth version.
pub proof fn lemma_other_addresses_are_not_reported(b: Seq<u8>, i: int)
    requires
        b.len() >= 60,
        44 <= i < 54,
        b[i] != 0,
    ensures
        mapped_ip_of(b) is None,
{
    assert(field(b, 44, 58)[i - 44] == b[i]);
    assert(field(b, 44, 54)[i - 44] == b[i]);
    assert(zeros(14)[i - 44] == 0);
    assert(zeros(10)[i - 44] == 0);
}

/// What the codes stand for.
pub proof fn lemma_pcp_codes(code: u32)
    ensures
        PcpResultCode::of_number(code) is Success <==> code == 0,
        PcpResultCode::of_number(code) is UnsuppVersion <==> code == 1,
        PcpResultCode::of_number(code) is NotAuthorized <==> code == 2,
        PcpResultCode::of_number(code) is MalformedRequest <==> code == 3,
        PcpResultCode::of_number(code) is UnsuppOpcode <==> code == 4,
        PcpResultCode::of_number(code) is UnsuppOption <==> code == 5,
        PcpResultCode::of_number(code) is MalformedOption <==> code == 6,
        PcpResultCode::of_number(code) is NetworkFailure <==> code == 7,
        PcpResultCode::of_number(code) is NoResources <==> code == 8,
        PcpResultCode::of_number(code) is UnsuppProtocol <==> code == 9,
        PcpResultCode::of_number(code) is UserExQuota <==> code == 10,
        PcpResultCode::of_number(code) is CannotProvideExternal <==> code == 11,
        PcpResultCode::of_number(code) is AddressMismatch <==> code == 12,
        PcpResultCode::of_number(code) is ExcessiveRemotePeers <==> code == 13,
        code > 13 ==> PcpResultCode::of_number(code) == PcpResultCode::Other(code),
{
}

/// The names of the codes.
pub proof fn lemma_pcp_code_names(c: PcpResultCode)
    ensures
        c is Success ==> c.name() == "success"@,
        c is UnsuppVersion ==> c.name() == "unsupp_version"@,
        c is NotAuthorized ==> c.name() == "not_authorized"@,
        c is MalformedRequest ==> c.name() == "malformed_request"@,
        c is UnsuppOpcode ==> c.name() == "unsupp_opcode"@,
        c is UnsuppOption ==> c.name() == "unsupp_option"@,
        c is MalformedOption ==> c.name() == "malformed_option"@,
        c is NetworkFailure ==> c.name() == "network_failure"@,
        c is NoResources ==> c.name() == "no_resources"@,
        c is UnsuppProtocol ==> c.name() == "unsupp_protocol"@,
        c is UserExQuota ==> c.name() == "user_ex_quota"@,
        c is CannotProvideExternal ==> c.name() == "cannot_provide_external"@,
        c is AddressMismatch ==> c.name() == "address_mismatch"@,
        c is ExcessiveRemotePeers ==> c.name() == "excessive_remote_peers"@,
        c is Other ==> c.name() == "other"@,
{
}

/// Nonces of different readings of the clock differ, and hold the reading.
pub proof fn lemma_nonces_differ(x: u64, y: u64)
    ensures
        nonce_of(x).len() == 12,
        be_value(field(nonce_of(x), 0, 8)) == x,
        x != y ==> nonce_of(x) != nonce_of(y),
{
    lemma_pow256_values();
    lemma_be_round_trip(x as nat, 8);
    lemma_be_round_trip(y as nat, 8);
    assert(field(nonce_of(x), 0, 8) =~= be_bytes(x as nat, 8));
    assert(field(nonce_of(y), 0, 8) =~= be_bytes(y as nat, 8));
}

/// Whether an answer shows that the gateway speaks the protocol.
pub open spec fn answers_probe(answer: Option<Seq<u8>>) -> bool {
    answer is Some && generic_response_of(answer->0, OP_ANNOUNCE) is Ok && generic_response_of(
        answer->0,
        OP_ANNOUNCE,
    )->Ok_0.result_code is Success
}

/// What taking a mapping back leads to.
pub open spec fn unmap_outcome(response: Result<PcpMapResponse, PcpError>) -> Result<(), PcpError> {
    match response {
        Err(e) => Err(e),
        Ok(m) => if m.result_code is Success {
            Ok(())
        } else {
            Err(PcpError::UnmapRefused(m.result_code))
        },
    }
}

/// Where the gateway is asked.
pub open spec fn service_at(gateway: Ipv4Addr) -> SocketAddr {
    SocketAddr { ip: IpAddr::V4(gateway), port: 5351 }
}

/// The gateway is asked where the older protocol is asked too.
pub proof fn lemma_service(gateway: Ipv4Addr)
    ensures
        service_at(gateway) == crate::traversal::nat_pmp::service_at(gateway),
        service_at(gateway).port == 5351,
{
}

/// Only an announcement that could be read, and that tells of success, shows the protocol.
pub proof fn lemma_probe_needs_success(b: Seq<u8>)
    ensures
        !answers_probe(None),
        answers_probe(Some(b)) ==> generic_response_of(b, 0) is Ok,
        generic_response_of(b, 0) is Err ==> !answers_probe(Some(b)),
        generic_response_of(b, 0) is Ok ==> (answers_probe(Some(b)) <==> generic_response_of(
            b,
            0,
        )->Ok_0.result_code is Success),
{
}

/// A mapping is taken back exactly where the gateway says so with the code for success;
/// another code is reported, and so is an answer that could not be read.
pub proof fn lemma_unmapping(m: PcpMapResponse, e: PcpError)
    ensures
        unmap_outcome(Ok(m)) is Ok <==> m.result_code is Success,
        !(m.result_code is Success) ==> unmap_outcome(Ok(m)) == Err::<(), PcpError>(
            PcpError::UnmapRefused(m.result_code),
        ),
        unmap_outcome(Err(e)) == Err::<(), PcpError>(e),
{
}

/// An address is reported from a field in the mapped form, which has ten zeros and two
/// bytes of ones before it, or in the form with the two bytes of ones at its end; from
/// any other field none is.
pub proof fn lemma_which_addresses_are_reported(b: Seq<u8>)
    requires
        b.len() >= 60,
    ensures
        mapped_ip_of(b) is Some ==> mapped_ip_of(b) == Some(
            Ipv4Addr { a: b[56], b: b[57], c: b[58], d: b[59] },
        ),
        mapped_ip_of(b) is Some <==> (forall|i: int| 44 <= i < 54 ==> #[trigger] b[i] == 0) && ((
        b[54] == 0xff && b[55] == 0xff) || (b[54] == 0 && b[55] == 0 && b[56] == 0 && b[57] == 0
            && b[58] == 0xff && b[59] == 0xff)),
{
    let f = field(b, 44, 58);
    let g = field(b, 44, 54);
    if f == zeros(14) {
        assert forall|i: int| 44 <= i < 58 implies #[trigger] b[i] == 0 by {
            assert(f[i - 44] == b[i]);
            assert(zeros(14)[i - 44] == 0);
        }
    }
    if g == zeros(10) {
        assert forall|i: int| 44 <= i < 54 implies #[trigger] b[i] == 0 by {
            assert(g[i - 44] == b[i]);
            assert(zeros(10)[i - 44] == 0);
        }
    }
    if forall|i: int| 44 <= i < 54 ==> #[trigger] b[i] == 0 {
        assert(g =~= zeros(10));
        if b[54] == 0 && b[55] == 0 && b[56] == 0 && b[57] == 0 {
            assert(f =~= zeros(14));
        }
    }
}

/// An answer to a mapping is read exactly where it is sixty bytes long, of the version
/// and of its kind; what is wrong with another is reported in this order.
pub proof fn lemma_why_answers_are_refused(b: Seq<u8>)
    requires
        60 <= b.len() <= usize::MAX,
    ensures
        map_response_of(b) is Ok <==> b[0] == 2 && b[1] == 129,
        b[0] != 2 ==> map_response_of(b) == Err::<PcpMapResponse, PcpError>(
            PcpError::VersionMismatch(b[0]),
        ),
        b[0] == 2 && b[1] != 129 ==> map_response_of(b) == Err::<PcpMapResponse, PcpError>(
            PcpError::OpcodeMismatch { expected: 129, actual: b[1] },
        ),
        b[0] == 2 && b[1] != 128 ==> generic_response_of(b, 0) == Err::<PcpResponse, PcpError>(
            PcpError::OpcodeMismatch { expected: 128, actual: b[1] },
        ),
{
    assert(0x80u8 | 1u8 == 129u8) by (bit_vector);
    assert(0x80u8 | 0u8 == 128u8) by (bit_vector);
}

/// A nonce ends in four bytes that are the same in every one.
pub proof fn lemma_end_of_a_nonce(nanos: u64)
    ensures
        ({
            let n = nonce_of(nanos);
            n.len() == 12 && n[8] == 0xaa && n[9] == 0xbb && n[10] == 0xcc && n[11] == 0xdd
        }),
{
    lemma_be_bytes_len(nanos as nat, 8);
}

} // verus!
