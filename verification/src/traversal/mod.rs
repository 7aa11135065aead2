//! Reaching and being reached through address translators.

use vstd::prelude::*;

pub mod ipv6;
pub mod metrics;
pub mod nat_pmp;
pub mod pcp;
pub mod provider;
pub mod state;
pub mod stun;
pub mod udp_hole_punch;

verus! {

/// The protocols by which a gateway can be asked for a mapping.
#[derive(Debug, Clone, Copy, PartialEq, Eq, Structural)]
pub enum NatProtocol {
    Upnp,
    NatPmp,
    Pcp,
}

impl NatProtocol {
    /// The name of the protocol in snake case.
    pub open spec fn name(self) -> Seq<char> {
        match self {
            NatProtocol::Upnp => "upnp"@,
            NatProtocol::NatPmp => "nat_pmp"@,
            NatProtocol::Pcp => "pcp"@,
        }
    }

    /// The name of the protocol in snake case.
    pub fn as_str(&self) -> (r: &'static str)
        ensures
            r@ == self.name(),
    {
        match self {
            NatProtocol::Upnp => "upnp",
            NatProtocol::NatPmp => "nat_pmp",
            NatProtocol::Pcp => "pcp",
        }
    }
}

/// The names of the protocols.
pub proof fn lemma_protocol_names()
    ensures
        NatProtocol::Upnp.name() == "upnp"@,
        NatProtocol::NatPmp.name() == "nat_pmp"@,
        NatProtocol::Pcp.name() == "pcp"@,
{
}

} // verus!
