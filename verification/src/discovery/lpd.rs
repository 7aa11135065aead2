//! Finding nodes in the local network by multicast.
//!
//! A packet is four fixed bytes, then the announcement in the bincode format.

use vstd::prelude::*;

use crate::addr::{IpAddr, Ipv4Addr, SocketAddr};
use crate::bytes::{
    field, le_bytes, le_value, lemma_le_round_trip, lemma_pow256_values, same_bytes,
};
use crate::time::{current_unix_secs, is_unix_secs};
use crate::types::{DiscoveredNode, DiscoverySource, NodeId, Reachability};

verus! {

/// The four bytes `PDCL` that every packet begins with.
pub open spec fn lpd_magic() -> Seq<u8> {
    seq![0x50u8, 0x44u8, 0x43u8, 0x4cu8]
}

/// The four bytes `PDCL` that every packet begins with.
pub fn magic_bytes() -> (r: [u8; 4])
    ensures
        r@ == lpd_magic(),
{
    let r = [0x50u8, 0x44u8, 0x43u8, 0x4cu8];
    assert(r@ =~= lpd_magic());
    r
}

/// Seconds between two announcements.
pub const DEFAULT_LPD_BROADCAST_INTERVAL_SECS: u64 = 5;

/// The multicast group `239.255.43.21`.
pub open spec fn default_group() -> Ipv4Addr {
    Ipv4Addr { a: 239, b: 255, c: 43, d: 21 }
}

/// The multicast group that is used where none is given.
pub fn default_lpd_multicast_addr() -> (r: Ipv4Addr)
    ensures
        r.a == 239 && r.b == 255 && r.c == 43 && r.d == 21,
        r == default_group(),
{
    Ipv4Addr { a: 239, b: 255, c: 43, d: 21 }
}

/// `bincode::ErrorKind`, what went wrong in that crate.
#[verifier::external_type_specification]
#[verifier::external_body]
pub struct ExBincodeError(bincode::ErrorKind);

/// The announcement of a node, without the leading bytes: the id, then the
/// numbers with the least significant byte first.
pub open spec fn payload_bytes(
    node_id: Seq<u8>,
    federation_port: u16,
    api_port: u16,
    capabilities: u32,
    data_entry_count: u32,
) -> Seq<u8> {
    node_id + le_bytes(federation_port as nat, 2) + le_bytes(api_port as nat, 2) + le_bytes(
        capabilities as nat,
        4,
    ) + le_bytes(data_entry_count as nat, 4)
}

/// `bincode::serialize` of a fixed array and four numbers: it writes the bytes of
/// the array, then each number in as many bytes as its type has, least
/// significant first, and cannot fail.
#[verifier::external_body]
fn bincode_encode(fields: ([u8; 20], u16, u16, u32, u32)) -> (r: Result<
    Vec<u8>,
    Box<bincode::ErrorKind>,
>)
    ensures
        r is Ok,
        r->Ok_0@ == payload_bytes(fields.0@, fields.1, fields.2, fields.3, fields.4),
{
    bincode::serialize(&fields)
}

/// `bincode::deserialize` of a fixed array and four numbers: it reads what
/// `bincode::serialize` writes, passes over what follows, and fails where bytes
/// are missing.
#[verifier::external_body]
fn bincode_decode(data: &[u8]) -> (r: Result<
    ([u8; 20], u16, u16, u32, u32),
    Box<bincode::ErrorKind>,
>)
    ensures
        r is Ok <==> data@.len() >= 32,
        match r {
            Ok(f) => f.0@ == field(data@, 0, 20) && f.1 as nat == le_value(field(data@, 20, 22))
                && f.2 as nat == le_value(field(data@, 22, 24)) && f.3 as nat == le_value(
                field(data@, 24, 28),
            ) && f.4 as nat == le_value(field(data@, 28, 32)),
            Err(_) => true,
        },
{
    bincode::deserialize(data)
}

/// The announcement of a node.
#[derive(Debug, Clone, Copy)]
pub struct LpdAnnounceMessage {
    /// Its id.
    pub node_id: [u8; 20],
    /// Its federation port.
    pub federation_port: u16,
    /// Its API port.
    pub api_port: u16,
    /// What it can do; not used yet.
    pub capabilities: u32,
    /// How many data entries it holds.
    pub data_entry_count: u32,
}

/// The parts of an announcement.
#[verifier::ext_equal]
pub struct AnnounceModel {
    pub node_id: Seq<u8>,
    pub federation_port: u16,
    pub api_port: u16,
    pub capabilities: u32,
    pub data_entry_count: u32,
}

impl View for LpdAnnounceMessage {
    type V = AnnounceModel;

    open spec fn view(&self) -> AnnounceModel {
        AnnounceModel {
            node_id: self.node_id@,
            federation_port: self.federation_port,
            api_port: self.api_port,
            capabilities: self.capabilities,
            data_entry_count: self.data_entry_count,
        }
    }
}

impl PartialEq for LpdAnnounceMessage {
    fn eq(&self, other: &Self) -> (r: bool) {
        same_bytes(self.node_id.as_slice(), other.node_id.as_slice()) && self.federation_port
            == other.federation_port && self.api_port == other.api_port && self.capabilities
            == other.capabilities && self.data_entry_count == other.data_entry_count
    }
}

impl vstd::std_specs::cmp::PartialEqSpecImpl for LpdAnnounceMessage {
    open spec fn obeys_eq_spec() -> bool {
        true
    }

    open spec fn eq_spec(&self, other: &Self) -> bool {
        self@ == other@
    }
}

impl Eq for LpdAnnounceMessage {

}

/// Why a packet is no announcement.
#[derive(Debug, Clone, Copy, PartialEq, Eq, Structural)]
pub enum LpdError {
    /// It does not begin with the four fixed bytes.
    Magic,
    /// What follows them is too short.
    Payload,
}

/// The announcement in the given bytes, without the leading ones.
pub open spec fn payload_message(data: Seq<u8>) -> Result<AnnounceModel, LpdError> {
    if data.len() < 32 {
        Err(LpdError::Payload)
    } else {
        Ok(
            AnnounceModel {
                node_id: field(data, 0, 20),
                federation_port: le_value(field(data, 20, 22)) as u16,
                api_port: le_value(field(data, 22, 24)) as u16,
                capabilities: le_value(field(data, 24, 28)) as u32,
                data_entry_count: le_value(field(data, 28, 32)) as u32,
            },
        )
    }
}

/// The announcement in a packet.
pub open spec fn wire_message(data: Seq<u8>) -> Result<AnnounceModel, LpdError> {
    if data.len() < 4 || field(data, 0, 4) != lpd_magic() {
        Err(LpdError::Magic)
    } else {
        payload_message(data.skip(4))
    }
}

/// The packet of an announcement.
pub open spec fn wire_bytes(m: AnnounceModel) -> Seq<u8> {
    lpd_magic() + payload_bytes(
        m.node_id,
        m.federation_port,
        m.api_port,
        m.capabilities,
        m.data_entry_count,
    )
}

impl LpdAnnounceMessage {
    /// The announcement without the leading bytes.
    pub fn to_payload(&self) -> (r: Result<Vec<u8>, LpdError>)
        ensures
            r is Ok,
            r->Ok_0@ == payload_bytes(
                self.node_id@,
                self.federation_port,
                self.api_port,
                self.capabilities,
                self.data_entry_count,
            ),
    {
        match bincode_encode(
            (
                self.node_id,
                self.federation_port,
                self.api_port,
                self.capabilities,
                self.data_entry_count,
            ),
        ) {
            Ok(v) => Ok(v),
            Err(_) => Err(LpdError::Payload),
        }
    }

    /// Reads an announcement without the leading bytes.
    pub fn from_payload(data: &[u8]) -> (r: Result<Self, LpdError>)
        ensures
            match (r, payload_message(data@)) {
                (Ok(m), Ok(v)) => m@ == v,
                (Err(e), Err(f)) => e == f,
                _ => false,
            },
    {
        match bincode_decode(data) {
            Ok(f) => Ok(
                LpdAnnounceMessage {
                    node_id: f.0,
                    federation_port: f.1,
                    api_port: f.2,
                    capabilities: f.3,
                    data_entry_count: f.4,
                },
            ),
            Err(_) => Err(LpdError::Payload),
        }
    }

    /// The packet of this announcement.
    pub fn to_wire(&self) -> (r: Result<Vec<u8>, LpdError>)
        ensures
            r is Ok,
            r->Ok_0@ == wire_bytes(self@),
    {
        match self.to_payload() {
            Ok(payload) => {
                let mut wire: Vec<u8> = Vec::new();
                wire.extend_from_slice(magic_bytes().as_slice());
                wire.extend_from_slice(payload.as_slice());
                proof {
                    assert(wire@ =~= wire_bytes(self@));
                }
                Ok(wire)
            },
            Err(e) => Err(e),
        }
    }

    /// Reads a packet.
    pub fn from_wire(data: &[u8]) -> (r: Result<Self, LpdError>)
        ensures
            match (r, wire_message(data@)) {
                (Ok(m), Ok(v)) => m@ == v,
                (Err(e), Err(f)) => e == f,
                _ => false,
            },
    {
        if data.len() < 4 || !same_bytes(&data[0..4], magic_bytes().as_slice()) {
            return Err(LpdError::Magic);
        }
        proof {
            assert(data@.subrange(4, data@.len() as int) =~= data@.skip(4));
        }
        Self::from_payload(&data[4..data.len()])
    }
}

/// A packet reads back as the announcement that it was made from, whatever
/// follows it.
pub proof fn lemma_wire_round_trip(m: AnnounceModel, rest: Seq<u8>)
    requires
        m.node_id.len() == 20,
    ensures
        wire_message(wire_bytes(m) + rest) == Ok::<AnnounceModel, LpdError>(m),
        wire_message(wire_bytes(m)) == Ok::<AnnounceModel, LpdError>(m),
{
    lemma_wire_round_trip_with(m, rest);
    lemma_wire_round_trip_with(m, Seq::empty());
    assert(wire_bytes(m) + Seq::empty() =~= wire_bytes(m));
}

proof fn lemma_wire_round_trip_with(m: AnnounceModel, rest: Seq<u8>)
    requires
        m.node_id.len() == 20,
    ensures
        wire_message(wire_bytes(m) + rest) == Ok::<AnnounceModel, LpdError>(m),
{
    lemma_pow256_values();
    lemma_le_round_trip(m.federation_port as nat, 2);
    lemma_le_round_trip(m.api_port as nat, 2);
    lemma_le_round_trip(m.capabilities as nat, 4);
    lemma_le_round_trip(m.data_entry_count as nat, 4);
    let w = wire_bytes(m) + rest;
    let p = w.skip(4);
    assert(field(w, 0, 4) =~= lpd_magic());
    assert(field(p, 0, 20) =~= m.node_id);
    assert(field(p, 20, 22) =~= le_bytes(m.federation_port as nat, 2));
    assert(field(p, 22, 24) =~= le_bytes(m.api_port as nat, 2));
    assert(field(p, 24, 28) =~= le_bytes(m.capabilities as nat, 4));
    assert(field(p, 28, 32) =~= le_bytes(m.data_entry_count as nat, 4));
}

/// A packet that differs from an announcement in the leading bytes is refused.
pub proof fn lemma_other_magic_is_refused(data: Seq<u8>)
    requires
        data.len() >= 4,
        field(data, 0, 4) != lpd_magic(),
    ensures
        wire_message(data) == Err::<AnnounceModel, LpdError>(LpdError::Magic),
{
}

/// Announces a node and finds others; the socket is elsewhere.
#[derive(Debug, Clone, Copy)]
pub struct LpdDiscoveryService {
    /// The node's own id, whose announcements are passed over.
    pub my_node_id: [u8; 20],
    pub federation_port: u16,
    pub api_port: u16,
    pub multicast_addr: Ipv4Addr,
    pub multicast_port: u16,
    pub broadcast_interval_secs: u64,
}

/// The node that a packet announces to the node with id `me`: none where the
/// packet is no announcement, is the node's own, or came from a sixth-version
/// address. The node's address is the sender's with the announced port.
pub open spec fn announced_node(me: Seq<u8>, data: Seq<u8>, src: SocketAddr) -> Option<
    (Seq<u8>, SocketAddr),
> {
    match wire_message(data) {
        Err(_) => None,
        Ok(m) => if m.node_id == me || src.ip is V6 {
            None
        } else {
            Some((m.node_id, SocketAddr { ip: src.ip, port: m.federation_port }))
        },
    }
}

impl LpdDiscoveryService {
    /// A service on the default group.
    pub fn new(
        my_node_id: [u8; 20],
        federation_port: u16,
        api_port: u16,
        multicast_port: u16,
    ) -> (r: Self)
        ensures
            r == (LpdDiscoveryService {
                my_node_id,
                federation_port,
                api_port,
                multicast_addr: default_group(),
                multicast_port,
                broadcast_interval_secs: 5,
            }),
    {
        LpdDiscoveryService {
            my_node_id,
            federation_port,
            api_port,
            multicast_addr: default_lpd_multicast_addr(),
            multicast_port,
            broadcast_interval_secs: DEFAULT_LPD_BROADCAST_INTERVAL_SECS,
        }
    }

    /// The same service on another group.
    pub fn with_multicast_addr(self, addr: Ipv4Addr) -> (r: Self)
        ensures
            r == (LpdDiscoveryService { multicast_addr: addr, ..self }),
    {
        let mut s = self;
        s.multicast_addr = addr;
        s
    }

    /// The same service with another interval.
    pub fn with_broadcast_interval(self, secs: u64) -> (r: Self)
        ensures
            r == (LpdDiscoveryService { broadcast_interval_secs: secs, ..self }),
    {
        let mut s = self;
        s.broadcast_interval_secs = secs;
        s
    }

    /// Where the socket listens: the multicast port on every interface.
    pub fn bind_addr(&self) -> (r: SocketAddr)
        ensures
            r == (SocketAddr {
                ip: IpAddr::V4(Ipv4Addr { a: 0, b: 0, c: 0, d: 0 }),
                port: self.multicast_port,
            }),
    {
        SocketAddr {
            ip: IpAddr::V4(Ipv4Addr { a: 0, b: 0, c: 0, d: 0 }),
            port: self.multicast_port,
        }
    }

    /// Where announcements go.
    pub fn group_addr(&self) -> (r: SocketAddr)
        ensures
            r == (SocketAddr { ip: IpAddr::V4(self.multicast_addr), port: self.multicast_port }),
    {
        SocketAddr { ip: IpAddr::V4(self.multicast_addr), port: self.multicast_port }
    }

    /// What the service tells of its own node.
    pub open spec fn own_message(&self) -> AnnounceModel {
        AnnounceModel {
            node_id: self.my_node_id@,
            federation_port: self.federation_port,
            api_port: self.api_port,
            capabilities: 0,
            data_entry_count: 0,
        }
    }

    /// The packet that announces this node.
    pub fn announcement(&self) -> (r: Result<Vec<u8>, LpdError>)
        ensures
            r->Ok_0@ == wire_bytes(self.own_message()),
            r is Ok,
            r->Ok_0@ == wire_bytes(
                AnnounceModel {
                    node_id: self.my_node_id@,
                    federation_port: self.federation_port,
                    api_port: self.api_port,
                    capabilities: 0,
                    data_entry_count: 0,
                },
            ),
    {
        let msg = LpdAnnounceMessage {
            node_id: self.my_node_id,
            federation_port: self.federation_port,
            api_port: self.api_port,
            capabilities: 0,
            data_entry_count: 0,
        };
        msg.to_wire()
    }

    /// Whether the service hears of exactly this node from a packet.
    pub open spec fn has_heard(
        &self,
        data: Seq<u8>,
        src: SocketAddr,
        now: u64,
        r: Option<DiscoveredNode>,
    ) -> bool {
        match announced_node(self.my_node_id@, data, src) {
            Some(a) => r is Some && r->0.is_new_find(a.0, seq![a.1], DiscoverySource::Lpd, now),
            None => r is None,
        }
    }

    /// The node that a packet announces, found at the given time.
    pub fn handle_received_message_at(&self, data: &[u8], src: SocketAddr, now: u64) -> (r: Option<
        DiscoveredNode,
    >)
        ensures
            self.has_heard(data@, src, now, r),
            match (r, announced_node(self.my_node_id@, data@, src)) {
                (Some(n), Some(a)) => n.is_new_find(a.0, seq![a.1], DiscoverySource::Lpd, now),
                (None, None) => true,
                _ => false,
            },
    {
        let msg = match LpdAnnounceMessage::from_wire(data) {
            Ok(m) => m,
            Err(_) => {
                return None;
            },
        };
        if same_bytes(msg.node_id.as_slice(), self.my_node_id.as_slice()) {
            return None;
        }
        if src.is_ipv6() {
            return None;
        }
        let mut addresses: Vec<SocketAddr> = Vec::new();
        addresses.push(SocketAddr { ip: src.ip, port: msg.federation_port });
        proof {
            assert(addresses@ =~= seq![SocketAddr { ip: src.ip, port: msg.federation_port }]);
        }
        Some(
            DiscoveredNode {
                node_id: NodeId(msg.node_id),
                addresses,
                reachability: Reachability::Unknown,
                nat_type: None,
                source: DiscoverySource::Lpd,
                last_seen: now,
            },
        )
    }

    /// The node that a packet announces, found now.
    pub fn handle_received_message(&self, data: &[u8], src: SocketAddr) -> (r: Option<
        DiscoveredNode,
    >)
        ensures
            match (r, announced_node(self.my_node_id@, data@, src)) {
                (Some(n), Some(a)) => is_unix_secs(n.last_seen) && n.is_new_find(
                    a.0,
                    seq![a.1],
                    DiscoverySource::Lpd,
                    n.last_seen,
                ),
                (None, None) => true,
                _ => false,
            },
    {
        let now: u64 = current_unix_secs();
        self.handle_received_message_at(data, src, now)
    }
}

/// A node passes over its own announcements, and finds any other node that
/// announces itself from a fourth-version address, at the port it announced.
pub proof fn lemma_announcements_are_heard(me: Seq<u8>, m: AnnounceModel, src: SocketAddr)
    requires
        m.node_id.len() == 20,
        src.ip is V4,
    ensures
        m.node_id == me ==> announced_node(me, wire_bytes(m), src) is None,
        m.node_id != me ==> announced_node(me, wire_bytes(m), src) == Some(
            (m.node_id, SocketAddr { ip: src.ip, port: m.federation_port }),
        ),
{
    lemma_wire_round_trip(m, Seq::empty());
}

/// A stage of the service.
#[derive(Debug, Clone, Copy, PartialEq, Eq, Structural)]
pub enum LpdStage {
    /// The socket is being bound.
    Binding,
    /// The socket is being handed to the runtime.
    Attaching,
    /// The group is being joined.
    Joining,
    /// Announcing and listening.
    Running,
    /// Over.
    Stopped,
}

/// What happened.
#[derive(Debug, Clone, Copy, PartialEq, Eq, Structural)]
pub enum LpdEvent {
    /// The step of the present stage went well.
    StepDone,
    /// The step of the present stage failed.
    StepFailed,
    /// The interval has passed.
    Tick,
    /// A packet came.
    Packet,
    /// Receiving failed.
    ReceiveFailed,
    /// The node is shutting down.
    Shutdown,
}

/// What to do.
#[derive(Debug, Clone, Copy, PartialEq, Eq, Structural)]
pub enum LpdAction {
    /// Bind the socket.
    Bind,
    /// Hand the socket to the runtime.
    Attach,
    /// Join the group.
    Join,
    /// Wait for the next event.
    Listen,
    /// Send the announcement, then wait for the next event.
    Announce,
    /// Handle the packet, then wait for the next event.
    Handle,
    /// Stop.
    Stop,
}

/// The stage and the action that follow an event. A failed step stops the
/// service; once it runs, only the shutdown does.
pub open spec fn lpd_step(stage: LpdStage, event: LpdEvent) -> (LpdStage, LpdAction) {
    match stage {
        LpdStage::Binding => if event is StepDone {
            (LpdStage::Attaching, LpdAction::Attach)
        } else {
            (LpdStage::Stopped, LpdAction::Stop)
        },
        LpdStage::Attaching => if event is StepDone {
            (LpdStage::Joining, LpdAction::Join)
        } else {
            (LpdStage::Stopped, LpdAction::Stop)
        },
        LpdStage::Joining => if event is StepDone {
            (LpdStage::Running, LpdAction::Listen)
        } else {
            (LpdStage::Stopped, LpdAction::Stop)
        },
        LpdStage::Running => match event {
            LpdEvent::Tick => (LpdStage::Running, LpdAction::Announce),
            LpdEvent::Packet => (LpdStage::Running, LpdAction::Handle),
            LpdEvent::Shutdown => (LpdStage::Stopped, LpdAction::Stop),
            _ => (LpdStage::Running, LpdAction::Listen),
        },
        LpdStage::Stopped => (LpdStage::Stopped, LpdAction::Stop),
    }
}

impl LpdStage {
    /// The first stage and its action.
    pub fn start() -> (r: (LpdStage, LpdAction))
        ensures
            r == (LpdStage::Binding, LpdAction::Bind),
    {
        (LpdStage::Binding, LpdAction::Bind)
    }

    /// Goes on after an event.
    pub fn next(&self, event: LpdEvent) -> (r: (LpdStage, LpdAction))
        ensures
            r == lpd_step(*self, event),
    {
        match (self, event) {
            (LpdStage::Binding, LpdEvent::StepDone) => (LpdStage::Attaching, LpdAction::Attach),
            (LpdStage::Attaching, LpdEvent::StepDone) => (LpdStage::Joining, LpdAction::Join),
            (LpdStage::Joining, LpdEvent::StepDone) => (LpdStage::Running, LpdAction::Listen),
            (LpdStage::Running, LpdEvent::Tick) => (LpdStage::Running, LpdAction::Announce),
            (LpdStage::Running, LpdEvent::Packet) => (LpdStage::Running, LpdAction::Handle),
            (LpdStage::Running, LpdEvent::Shutdown) => (LpdStage::Stopped, LpdAction::Stop),
            (LpdStage::Running, _) => (LpdStage::Running, LpdAction::Listen),
            (_, _) => (LpdStage::Stopped, LpdAction::Stop),
        }
    }
}

/// A running service goes on after every event but the shutdown.
pub proof fn lemma_only_shutdown_ends_running(event: LpdEvent)
    ensures
        (lpd_step(LpdStage::Running, event).0 is Stopped) == (event is Shutdown),
{
}

/// A packet in its bytes: `PDCL`, the id, and the numbers with the least significant
/// byte first.
pub proof fn lemma_wire_layout(m: AnnounceModel)
    requires
        m.node_id.len() == 20,
    ensures
        ({
            let w = wire_bytes(m);
            &&& w.len() == 36
            &&& w[0] == 0x50 && w[1] == 0x44 && w[2] == 0x43 && w[3] == 0x4c
            &&& field(w, 4, 24) == m.node_id
            &&& w[24] + 256 * w[25] == m.federation_port
            &&& w[26] + 256 * w[27] == m.api_port
            &&& w[28] + 256 * w[29] + 65536 * w[30] + 16777216 * w[31] == m.capabilities
            &&& w[32] + 256 * w[33] + 65536 * w[34] + 16777216 * w[35] == m.data_entry_count
        }),
{
    let w = wire_bytes(m);
    lemma_le2(m.federation_port as nat);
    lemma_le2(m.api_port as nat);
    lemma_le4(m.capabilities as nat);
    lemma_le4(m.data_entry_count as nat);
    assert(field(w, 4, 24) =~= m.node_id);
}

proof fn lemma_le2(v: nat)
    requires
        v < 0x1_0000,
    ensures
        le_bytes(v, 2).len() == 2,
        le_bytes(v, 2)[0] + 256 * le_bytes(v, 2)[1] == v,
{
    reveal_with_fuel(le_bytes, 3);
}

proof fn lemma_le4(v: nat)
    requires
        v < 0x1_0000_0000,
    ensures
        ({
            let b = le_bytes(v, 4);
            b.len() == 4 && b[0] + 256 * b[1] + 65536 * b[2] + 16777216 * b[3] == v
        }),
{
    reveal_with_fuel(le_bytes, 5);
    let q1 = v / 256;
    let q2 = q1 / 256;
    let q3 = q2 / 256;
    assert(q3 < 256);
    assert(v == 256 * q1 + v % 256);
    assert(q1 == 256 * q2 + q1 % 256);
    assert(q2 == 256 * q3 + q2 % 256);
    assert(q3 / 256 == 0 && q3 % 256 == q3);
}

/// Only a whole packet that begins with the four bytes is read; one that does, and is too
/// short, is refused for that.
pub proof fn lemma_odd_packets_are_refused(data: Seq<u8>)
    ensures
        wire_message(data) is Ok <==> data.len() >= 36 && data[0] == 0x50 && data[1] == 0x44
            && data[2] == 0x43 && data[3] == 0x4c,
        data.len() < 4 ==> wire_message(data) == Err::<AnnounceModel, LpdError>(LpdError::Magic),
        4 <= data.len() < 36 && data[0] == 0x50 && data[1] == 0x44 && data[2] == 0x43 && data[3]
            == 0x4c ==> wire_message(data) == Err::<AnnounceModel, LpdError>(LpdError::Payload),
{
    if data.len() >= 4 {
        let f = field(data, 0, 4);
        assert(f[0] == data[0] && f[1] == data[1] && f[2] == data[2] && f[3] == data[3]);
        if data[0] == 0x50 && data[1] == 0x44 && data[2] == 0x43 && data[3] == 0x4c {
            assert(f =~= lpd_magic());
        }
    }
}

/// A packet that comes from an address of the sixth version gives no node.
pub proof fn lemma_sixth_version_is_passed_over(me: Seq<u8>, data: Seq<u8>, src: SocketAddr)
    requires
        src.ip is V6,
    ensures
        announced_node(me, data, src) is None,
{
}

/// The service binds, attaches, joins and runs, in this order; a step that fails ends
/// it. While it runs, each tick announces and each packet is handled; a failure to
/// receive changes nothing.
pub proof fn lemma_service_steps(event: LpdEvent)
    ensures
        lpd_step(LpdStage::Binding, LpdEvent::StepDone) == (LpdStage::Attaching, LpdAction::Attach),
        lpd_step(LpdStage::Attaching, LpdEvent::StepDone) == (LpdStage::Joining, LpdAction::Join),
        lpd_step(LpdStage::Joining, LpdEvent::StepDone) == (LpdStage::Running, LpdAction::Listen),
        !(event is StepDone) ==> lpd_step(LpdStage::Binding, event).0 is Stopped && lpd_step(
            LpdStage::Attaching,
            event,
        ).0 is Stopped && lpd_step(LpdStage::Joining, event).0 is Stopped,
        lpd_step(LpdStage::Running, event).1 is Announce <==> event is Tick,
        lpd_step(LpdStage::Running, event).1 is Handle <==> event is Packet,
        lpd_step(LpdStage::Running, event).1 is Stop <==> event is Shutdown,
        lpd_step(LpdStage::Stopped, event).0 is Stopped,
{
}

/// What is heard from another node's packet is that node, found by this service, at the
/// address that the packet came from and at the port that it names.
pub proof fn lemma_what_is_heard(
    s: LpdDiscoveryService,
    m: AnnounceModel,
    src: SocketAddr,
    now: u64,
    r: Option<DiscoveredNode>,
)
    requires
        m.node_id.len() == 20,
        s.has_heard(wire_bytes(m), src, now, r),
    ensures
        r is Some <==> src.ip is V4 && m.node_id != s.my_node_id@,
        match r {
            Some(n) => n.node_id.0@ == m.node_id && n.addresses@.len() == 1 && n.addresses@[0].ip
                == src.ip && n.addresses@[0].port == m.federation_port && n.source is Lpd
                && n.last_seen == now && n.reachability is Unknown && n.nat_type is None,
            None => true,
        },
{
    lemma_wire_round_trip(m, Seq::empty());
}

/// The group is one of those that stay within an organisation, and the model of a message
/// holds each of its fields.
pub proof fn lemma_group_and_model(m: LpdAnnounceMessage)
    ensures
        default_group() == (Ipv4Addr { a: 239, b: 255, c: 43, d: 21 }),
        m@.node_id == m.node_id@,
        m@.federation_port == m.federation_port,
        m@.api_port == m.api_port,
        m@.capabilities == m.capabilities,
        m@.data_entry_count == m.data_entry_count,
{
}

/// What is on the wire is the four bytes and the payload, and only the payload's first
/// bytes are read.
pub proof fn lemma_payload(m: AnnounceModel, data: Seq<u8>, rest: Seq<u8>)
    requires
        m.node_id.len() == 20,
        data.len() < 32,
    ensures
        payload_message(
            payload_bytes(
                m.node_id,
                m.federation_port,
                m.api_port,
                m.capabilities,
                m.data_entry_count,
            ) + rest,
        ) == Ok::<AnnounceModel, LpdError>(m),
        payload_message(data) == Err::<AnnounceModel, LpdError>(LpdError::Payload),
{
    lemma_wire_round_trip(m, rest);
    let p = payload_bytes(
        m.node_id,
        m.federation_port,
        m.api_port,
        m.capabilities,
        m.data_entry_count,
    );
    lemma_wire_layout(m);
    let w = wire_bytes(m) + rest;
    assert(w.skip(4) =~= p + rest);
}

/// What a node tells of itself another hears: its id, at the address that the packet came
/// from and at its own port. The node itself does not hear it.
pub proof fn lemma_announcements_reach_others(
    s: LpdDiscoveryService,
    other: LpdDiscoveryService,
    src: SocketAddr,
    now: u64,
    r: Option<DiscoveredNode>,
    own: Option<DiscoveredNode>,
)
    requires
        src.ip is V4,
        s.my_node_id@ != other.my_node_id@,
        other.has_heard(wire_bytes(s.own_message()), src, now, r),
        s.has_heard(wire_bytes(s.own_message()), src, now, own),
    ensures
        own is None,
        r is Some,
        r->0.node_id.0@ == s.my_node_id@,
        r->0.addresses@ == seq![SocketAddr { ip: src.ip, port: s.federation_port }],
        s.own_message().api_port == s.api_port,
        s.own_message().capabilities == 0 && s.own_message().data_entry_count == 0,
{
    lemma_what_is_heard(other, s.own_message(), src, now, r);
    lemma_what_is_heard(s, s.own_message(), src, now, own);
    assert(r->0.addresses@ =~= seq![SocketAddr { ip: src.ip, port: s.federation_port }]);
}

} // verus!
