//! The ways in which bytes reach a peer.

use vstd::prelude::*;

pub mod iroh;
pub mod router;

use crate::strategy::ConnectMethod;

verus! {

/// How a connection was made.
#[derive(Debug, Clone, Copy, PartialEq, Eq, Structural)]
pub enum TransportKind {
    Tcp,
    UdpHolePunch,
    TcpRelay,
    IrohDirect,
    IrohHolePunch,
    IrohRelay,
}

impl TransportKind {
    /// The name that logs carry.
    pub open spec fn name(self) -> Seq<char> {
        match self {
            TransportKind::Tcp => "TCP直连"@,
            TransportKind::UdpHolePunch => "UDP打洞"@,
            TransportKind::TcpRelay => "TCP中继"@,
            TransportKind::IrohDirect => "Iroh直连"@,
            TransportKind::IrohHolePunch => "Iroh打洞"@,
            TransportKind::IrohRelay => "Iroh中继"@,
        }
    }

    /// The name that logs carry.
    pub fn to_string(&self) -> (r: String)
        ensures
            r@ == self.name(),
    {
        match self {
            TransportKind::Tcp => "TCP直连".to_owned(),
            TransportKind::UdpHolePunch => "UDP打洞".to_owned(),
            TransportKind::TcpRelay => "TCP中继".to_owned(),
            TransportKind::IrohDirect => "Iroh直连".to_owned(),
            TransportKind::IrohHolePunch => "Iroh打洞".to_owned(),
            TransportKind::IrohRelay => "Iroh中继".to_owned(),
        }
    }

    /// The kind of a connection that the strategy made.
    pub open spec fn of_method(m: ConnectMethod) -> TransportKind {
        match m {
            ConnectMethod::TcpDirect => TransportKind::Tcp,
            ConnectMethod::UdpHolePunch => TransportKind::UdpHolePunch,
            ConnectMethod::Relay => TransportKind::TcpRelay,
        }
    }

    /// The kind of a connection that the strategy made.
    pub fn from_method(m: ConnectMethod) -> (r: TransportKind)
        ensures
            r == Self::of_method(m),
    {
        match m {
            ConnectMethod::TcpDirect => TransportKind::Tcp,
            ConnectMethod::UdpHolePunch => TransportKind::UdpHolePunch,
            ConnectMethod::Relay => TransportKind::TcpRelay,
        }
    }

    /// How a connection of this kind is reported; what Iroh does inside counts as
    /// direct.
    pub open spec fn reported(self) -> ConnectMethod {
        match self {
            TransportKind::UdpHolePunch => ConnectMethod::UdpHolePunch,
            TransportKind::TcpRelay => ConnectMethod::Relay,
            _ => ConnectMethod::TcpDirect,
        }
    }

    /// How a connection of this kind is reported.
    pub fn method(&self) -> (r: ConnectMethod)
        ensures
            r == self.reported(),
    {
        match self {
            TransportKind::Tcp => ConnectMethod::TcpDirect,
            TransportKind::UdpHolePunch => ConnectMethod::UdpHolePunch,
            TransportKind::TcpRelay => ConnectMethod::Relay,
            TransportKind::IrohDirect => ConnectMethod::TcpDirect,
            TransportKind::IrohHolePunch => ConnectMethod::TcpDirect,
            TransportKind::IrohRelay => ConnectMethod::TcpDirect,
        }
    }
}

/// What the strategy did is what is reported.
pub proof fn lemma_method_survives(m: ConnectMethod)
    ensures
        TransportKind::of_method(m).reported() == m,
{
}

/// How a connection is reported: as an opened path or a relay exactly where it was one
/// over TCP, and as a direct connection else.
pub proof fn lemma_reported_method(kind: TransportKind)
    ensures
        kind.reported() is UdpHolePunch <==> kind is UdpHolePunch,
        kind.reported() is Relay <==> kind is TcpRelay,
        kind.reported() is TcpDirect <==> kind is Tcp || kind is IrohDirect || kind
            is IrohHolePunch || kind is IrohRelay,
        TransportKind::of_method(ConnectMethod::TcpDirect) is Tcp,
        TransportKind::of_method(ConnectMethod::UdpHolePunch) is UdpHolePunch,
        TransportKind::of_method(ConnectMethod::Relay) is TcpRelay,
{
}

/// The names of the kinds of connections.
pub proof fn lemma_kind_names(kind: TransportKind)
    ensures
        kind is Tcp ==> kind.name() == "TCP直连"@,
        kind is UdpHolePunch ==> kind.name() == "UDP打洞"@,
        kind is TcpRelay ==> kind.name() == "TCP中继"@,
        kind is IrohDirect ==> kind.name() == "Iroh直连"@,
        kind is IrohHolePunch ==> kind.name() == "Iroh打洞"@,
        kind is IrohRelay ==> kind.name() == "Iroh中继"@,
{
}

} // verus!
