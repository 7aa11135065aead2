//! Choosing how a peer is connected to: directly, or through an opened path.

use vstd::prelude::*;

use crate::connector::TcpConnectConfig;
use crate::time::{secs, Duration};
use crate::types::Reachability;

verus! {

/// How peers are connected to.
#[derive(Debug, Clone, Copy)]
pub struct ConnectStrategyConfig {
    /// Direct connections.
    pub tcp_config: TcpConnectConfig,
    /// How long opening a path may take.
    pub hole_punch_timeout: Duration,
    /// Whether paths are opened.
    pub hole_punch_enabled: bool,
    /// Whether a path is opened after direct connections failed.
    pub fallback_to_hole_punch: bool,
}

impl Default for ConnectStrategyConfig {
    fn default() -> (r: Self)
        ensures
            r.tcp_config.connect_timeout@ == secs(5),
            r.tcp_config.retry_interval@ == 0,
            r.tcp_config.max_retries == 2,
            r.hole_punch_timeout@ == secs(10),
            r.hole_punch_enabled,
            r.fallback_to_hole_punch,
    {
        ConnectStrategyConfig {
            tcp_config: TcpConnectConfig::default(),
            hole_punch_timeout: Duration::from_secs(10),
            hole_punch_enabled: true,
            fallback_to_hole_punch: true,
        }
    }
}

/// How a peer was connected to.
#[derive(Debug, Clone, Copy, PartialEq, Eq, Structural)]
pub enum ConnectMethod {
    /// Directly.
    TcpDirect,
    /// Through an opened path.
    UdpHolePunch,
    /// Through a relay.
    Relay,
}

impl ConnectMethod {
    /// The name that logs and events carry.
    pub open spec fn name(self) -> Seq<char> {
        match self {
            ConnectMethod::TcpDirect => "TCP直连"@,
            ConnectMethod::UdpHolePunch => "UDP打洞"@,
            ConnectMethod::Relay => "中继"@,
        }
    }

    /// The name that logs and events carry.
    pub fn to_string(&self) -> (r: String)
        ensures
            r@ == self.name(),
    {
        match self {
            ConnectMethod::TcpDirect => "TCP直连".to_owned(),
            ConnectMethod::UdpHolePunch => "UDP打洞".to_owned(),
            ConnectMethod::Relay => "中继".to_owned(),
        }
    }
}

/// What to do next.
#[derive(Debug, Clone, Copy, PartialEq, Eq, Structural)]
pub enum StrategyStep {
    /// Connect directly to any of the addresses.
    ConnectDirectly,
    /// Open a path to the address at the given position and connect to it.
    PunchAndConnect(usize),
    /// Connected, in the given way.
    Connected(ConnectMethod),
    /// There is no address.
    NoAddress,
    /// All ways failed.
    AllFailed,
}

/// Whether opening a path can help with a peer: one that can only be reached so,
/// or of which nothing is known.
pub open spec fn punchable(r: Reachability) -> bool {
    r is HolePunchable || r is Unknown
}

/// Chooses how peers are connected to; the connections are made elsewhere.
#[derive(Debug, Clone, Copy)]
pub struct ConnectStrategy {
    pub config: ConnectStrategyConfig,
    /// Whether paths can be opened here.
    pub has_hole_puncher: bool,
}

impl ConnectStrategy {
    /// A strategy that opens no paths.
    pub fn new(config: ConnectStrategyConfig) -> (r: Self)
        ensures
            r == (ConnectStrategy { config, has_hole_puncher: false }),
    {
        ConnectStrategy { config, has_hole_puncher: false }
    }

    /// The same strategy, able to open paths.
    pub fn with_hole_puncher(self) -> (r: Self)
        ensures
            r == (ConnectStrategy { has_hole_puncher: true, ..self }),
    {
        let mut s = self;
        s.has_hole_puncher = true;
        s
    }

    /// Whether a path is opened to a peer that cannot be connected to directly.
    pub open spec fn falls_back(self, reachability: Reachability) -> bool {
        self.config.fallback_to_hole_punch && self.config.hole_punch_enabled && punchable(
            reachability,
        ) && self.has_hole_puncher
    }

    /// What follows the direct connection.
    pub open spec fn direct_step(self, connected: bool, reachability: Reachability) -> StrategyStep {
        if connected {
            StrategyStep::Connected(ConnectMethod::TcpDirect)
        } else if self.falls_back(reachability) {
            StrategyStep::PunchAndConnect(0)
        } else {
            StrategyStep::AllFailed
        }
    }

    /// What to do first with a peer of so many addresses.
    pub fn connect(&self, addr_count: usize) -> (r: StrategyStep)
        ensures
            r == opening_step(addr_count),
            r == if addr_count == 0 {
                StrategyStep::NoAddress
            } else {
                StrategyStep::ConnectDirectly
            },
    {
        if addr_count == 0 {
            StrategyStep::NoAddress
        } else {
            StrategyStep::ConnectDirectly
        }
    }

    /// What to do after the direct connection succeeded or failed.
    pub fn after_direct(&self, connected: bool, reachability: Reachability) -> (r: StrategyStep)
        ensures
            r == self.direct_step(connected, reachability),
    {
        if connected {
            return StrategyStep::Connected(ConnectMethod::TcpDirect);
        }
        if self.config.fallback_to_hole_punch && self.config.hole_punch_enabled {
            let can_hole_punch = match reachability {
                Reachability::HolePunchable => true,
                Reachability::OutboundOnly => false,
                Reachability::Unknown => true,
                _ => false,
            };
            if can_hole_punch && self.has_hole_puncher {
                return StrategyStep::PunchAndConnect(0);
            }
        }
        StrategyStep::AllFailed
    }

    /// What to do after connecting through a path to the address at `index`
    /// succeeded or failed: the addresses follow each other.
    pub fn after_punch(&self, index: usize, addr_count: usize, connected: bool) -> (r: StrategyStep)
        requires
            index < addr_count,
        ensures
            r == punch_step(index, addr_count, connected),
    {
        if connected {
            StrategyStep::Connected(ConnectMethod::UdpHolePunch)
        } else if index + 1 < addr_count {
            StrategyStep::PunchAndConnect(index + 1)
        } else {
            StrategyStep::AllFailed
        }
    }

    /// How long the connection after an attempt to open a path may take: longer
    /// where the path was opened.
    pub fn try_hole_punch(punched: bool) -> (r: Duration)
        ensures
            r@ == wait_after_punch(punched),
            r@ == if punched {
                secs(5)
            } else {
                secs(3)
            },
    {
        if punched {
            Duration::from_secs(5)
        } else {
            Duration::from_secs(3)
        }
    }
}

/// What follows the connection through a path to the address at `index`.
pub open spec fn punch_step(index: usize, addr_count: usize, connected: bool) -> StrategyStep {
    if connected {
        StrategyStep::Connected(ConnectMethod::UdpHolePunch)
    } else if index + 1 < addr_count {
        StrategyStep::PunchAndConnect((index + 1) as usize)
    } else {
        StrategyStep::AllFailed
    }
}

/// Where the steps lead from the given one on, given whether connecting directly
/// and through a path to each address succeeds.
pub open spec fn outcome_from(
    strategy: ConnectStrategy,
    reachability: Reachability,
    direct: bool,
    through_path: Seq<bool>,
    step: StrategyStep,
) -> StrategyStep
    decreases
        (match step {
            StrategyStep::ConnectDirectly => through_path.len() + 1,
            StrategyStep::PunchAndConnect(i) => (through_path.len() - i) as nat,
            _ => 0,
        }),
{
    match step {
        StrategyStep::ConnectDirectly => match strategy.direct_step(direct, reachability) {
            StrategyStep::PunchAndConnect(i) => if i == 0 {
                outcome_from(
                    strategy,
                    reachability,
                    direct,
                    through_path,
                    StrategyStep::PunchAndConnect(i),
                )
            } else {
                StrategyStep::AllFailed
            },
            s => s,
        },
        StrategyStep::PunchAndConnect(i) => if i < through_path.len() {
            match punch_step(i, through_path.len() as usize, through_path[i as int]) {
                StrategyStep::PunchAndConnect(j) => if j == i + 1 {
                    outcome_from(
                        strategy,
                        reachability,
                        direct,
                        through_path,
                        StrategyStep::PunchAndConnect(j),
                    )
                } else {
                    StrategyStep::AllFailed
                },
                s => s,
            }
        } else {
            StrategyStep::AllFailed
        },
        s => s,
    }
}

proof fn lemma_paths_from(
    strategy: ConnectStrategy,
    reachability: Reachability,
    direct: bool,
    through_path: Seq<bool>,
    i: usize,
)
    requires
        i < through_path.len() <= usize::MAX,
    ensures
        outcome_from(
            strategy,
            reachability,
            direct,
            through_path,
            StrategyStep::PunchAndConnect(i),
        ) == if exists|k: int| i <= k < through_path.len() && #[trigger] through_path[k] {
            StrategyStep::Connected(ConnectMethod::UdpHolePunch)
        } else {
            StrategyStep::AllFailed
        },
    decreases through_path.len() - i,
{
    if !through_path[i as int] && i + 1 < through_path.len() {
        lemma_paths_from(strategy, reachability, direct, through_path, (i + 1) as usize);
        if exists|k: int| i <= k < through_path.len() && #[trigger] through_path[k] {
            let k = choose|k: int| i <= k < through_path.len() && #[trigger] through_path[k];
            assert(k != i);
        }
    }
}

/// The whole way: directly where that succeeds; else through the first path that
/// does, where paths are opened at all; else not.
pub proof fn lemma_connect_outcome(
    strategy: ConnectStrategy,
    reachability: Reachability,
    direct: bool,
    through_path: Seq<bool>,
)
    requires
        0 < through_path.len() <= usize::MAX,
    ensures
        outcome_from(
            strategy,
            reachability,
            direct,
            through_path,
            StrategyStep::ConnectDirectly,
        ) == if direct {
            StrategyStep::Connected(ConnectMethod::TcpDirect)
        } else if strategy.falls_back(reachability) && (exists|k: int|
            0 <= k < through_path.len() && #[trigger] through_path[k]) {
            StrategyStep::Connected(ConnectMethod::UdpHolePunch)
        } else {
            StrategyStep::AllFailed
        },
{
    lemma_paths_from(strategy, reachability, direct, through_path, 0);
}

/// Without a direct connection a path is opened exactly where opening paths is
/// switched on, falling back to it is switched on, there is something to open paths
/// with, and the peer can be reached so or nothing is known of it; else all ways have
/// failed. A direct connection needs no path.
pub proof fn lemma_paths_follow_the_settings(
    config: ConnectStrategyConfig,
    has_hole_puncher: bool,
    reachability: Reachability,
)
    ensures
        ({
            let s = ConnectStrategy { config, has_hole_puncher };
            let failed = s.direct_step(false, reachability);
            &&& !config.hole_punch_enabled ==> failed is AllFailed
            &&& !config.fallback_to_hole_punch ==> failed is AllFailed
            &&& !has_hole_puncher ==> failed is AllFailed
            &&& (reachability is PublicIpv6 || reachability is Mapped || reachability
                is OutboundOnly) ==> failed is AllFailed
            &&& config.hole_punch_enabled && config.fallback_to_hole_punch && has_hole_puncher && (
            reachability is HolePunchable || reachability is Unknown) ==> failed
                == StrategyStep::PunchAndConnect(0)
            &&& s.direct_step(true, reachability) == StrategyStep::Connected(
                ConnectMethod::TcpDirect,
            )
        }),
{
}

/// The addresses are punched one after the other: a success ends it, a failure leads
/// to the next address, and after the last one all ways have failed.
pub proof fn lemma_paths_are_opened_in_turn(index: usize, addr_count: usize)
    requires
        index < addr_count,
    ensures
        punch_step(index, addr_count, true) == StrategyStep::Connected(ConnectMethod::UdpHolePunch),
        index < addr_count - 1 ==> punch_step(index, addr_count, false)
            == StrategyStep::PunchAndConnect((index + 1) as usize),
        index == addr_count - 1 ==> punch_step(index, addr_count, false) is AllFailed,
{
}

/// Where the settings rule paths out, no way of connecting is ever a path, whatever
/// the peer answers.
pub proof fn lemma_no_path_where_switched_off(
    strategy: ConnectStrategy,
    reachability: Reachability,
    direct: bool,
    through_path: Seq<bool>,
)
    requires
        !strategy.config.hole_punch_enabled || !strategy.config.fallback_to_hole_punch
            || !strategy.has_hole_puncher,
        0 < through_path.len() <= usize::MAX,
    ensures
        outcome_from(
            strategy,
            reachability,
            direct,
            through_path,
            StrategyStep::ConnectDirectly,
        ) == if direct {
            StrategyStep::Connected(ConnectMethod::TcpDirect)
        } else {
            StrategyStep::AllFailed
        },
{
}

/// The names under which the ways of connecting are told.
pub proof fn lemma_method_names(m: ConnectMethod)
    ensures
        m is TcpDirect ==> m.name() == "TCP直连"@,
        m is UdpHolePunch ==> m.name() == "UDP打洞"@,
        m is Relay ==> m.name() == "中继"@,
{
}

/// How a connection begins.
pub open spec fn opening_step(addr_count: usize) -> StrategyStep {
    if addr_count == 0 {
        StrategyStep::NoAddress
    } else {
        StrategyStep::ConnectDirectly
    }
}

/// How long a connection may take, in nanoseconds, after a hole was punched or was not.
pub open spec fn wait_after_punch(punched: bool) -> nat {
    if punched {
        secs(5)
    } else {
        secs(3)
    }
}

/// A connection begins directly wherever there is an address.
pub proof fn lemma_connections_begin_directly(addr_count: usize)
    ensures
        opening_step(addr_count) is NoAddress <==> addr_count == 0,
        opening_step(addr_count) is ConnectDirectly <==> addr_count > 0,
{
}

/// After a hole was punched a connection may take five seconds, and three otherwise.
pub proof fn lemma_waits_after_a_punch()
    ensures
        wait_after_punch(true) == 5_000_000_000,
        wait_after_punch(false) == 3_000_000_000,
{
}

} // verus!
