//! The agent that connects a node to others: its settings, its start, and what it
//! keeps of the connections that it makes.

use vstd::prelude::*;

use crate::addr::{IpAddr, Ipv4Addr, SocketAddr};
use crate::discovery::peer_cache::{is_best, upserted, NodeModel, PeerCache};
use crate::numbers::{decimal, to_decimal};
use crate::strategy::{ConnectMethod, ConnectStrategyConfig};
use crate::text::{same_text, texts};
use crate::time::{current_unix_secs, is_unix_secs, secs, Duration};
use crate::transport::iroh::IrohTransportConfig;
use crate::transport::router::TransportMode;
use crate::transport::TransportKind;
use crate::types::NodeId;

verus! {

/// Seconds between two times that the cache of nodes is kept on disk.
pub const CACHE_SAVE_SECS: u64 = 300;

/// How the agent is set up.
#[derive(Debug, Clone)]
pub struct NetAgentConfig {
    /// The node's id.
    pub node_id: [u8; 20],
    /// Port that peers connect to.
    pub listen_port: u16,
    /// Port of the node's API.
    pub api_port: u16,
    /// Where the cache of nodes is kept.
    pub data_dir: String,
    /// Port of the multicast group.
    pub lpd_multicast_port: u16,
    /// Whether nodes are looked for by multicast.
    pub lpd_enabled: bool,
    /// Whether connected nodes are kept.
    pub peer_cache_enabled: bool,
    /// Whether ports are mapped.
    pub nat_enabled: bool,
    /// Whether paths are opened.
    pub hole_punch_enabled: bool,
    /// How peers are connected to.
    pub connect_config: ConnectStrategyConfig,
    /// Which transports are used.
    pub transport_mode: TransportMode,
    /// How Iroh is set up, where it is used.
    pub iroh_config: Option<IrohTransportConfig>,
}

impl NetAgentConfig {
    /// The settings that hold where nothing else is said.
    pub open spec fn is_default_for(
        self,
        node_id: [u8; 20],
        listen_port: u16,
        data_dir: Seq<char>,
    ) -> bool {
        &&& self.node_id == node_id
        &&& self.listen_port == listen_port
        &&& self.api_port == 0
        &&& self.data_dir@ == data_dir
        &&& self.lpd_multicast_port == 6771
        &&& self.lpd_enabled
        &&& self.peer_cache_enabled
        &&& self.nat_enabled
        &&& self.hole_punch_enabled
        &&& self.connect_config.tcp_config.connect_timeout@ == secs(5)
        &&& self.connect_config.tcp_config.retry_interval@ == 0
        &&& self.connect_config.tcp_config.max_retries == 2
        &&& self.connect_config.hole_punch_timeout@ == secs(10)
        &&& self.connect_config.hole_punch_enabled
        &&& self.connect_config.fallback_to_hole_punch
        &&& self.transport_mode is TcpOnly
        &&& self.iroh_config is None
    }

    /// The default settings.
    pub fn new(node_id: [u8; 20], listen_port: u16, data_dir: &str) -> (r: Self)
        ensures
            r.is_default_for(node_id, listen_port, data_dir@),
    {
        NetAgentConfig {
            node_id,
            listen_port,
            api_port: 0,
            data_dir: data_dir.to_owned(),
            lpd_multicast_port: 6771,
            lpd_enabled: true,
            peer_cache_enabled: true,
            nat_enabled: true,
            hole_punch_enabled: true,
            connect_config: ConnectStrategyConfig::default(),
            transport_mode: TransportMode::TcpOnly,
            iroh_config: None,
        }
    }

    /// Where the socket for opening paths is bound: the port after the one that
    /// peers connect to, on every interface; nowhere where no paths are opened.
    pub fn punch_bind_addr(&self) -> (r: Option<SocketAddr>)
        requires
            self.hole_punch_enabled ==> self.listen_port < u16::MAX,
        ensures
            r == punch_addr(self.hole_punch_enabled, self.listen_port as nat),
            r == if self.hole_punch_enabled {
                Some(
                    SocketAddr {
                        ip: IpAddr::V4(Ipv4Addr { a: 0, b: 0, c: 0, d: 0 }),
                        port: (self.listen_port + 1) as u16,
                    },
                )
            } else {
                None
            },
    {
        if self.hole_punch_enabled {
            Some(
                SocketAddr {
                    ip: IpAddr::V4(Ipv4Addr { a: 0, b: 0, c: 0, d: 0 }),
                    port: self.listen_port + 1,
                },
            )
        } else {
            None
        }
    }
}

/// Builds the settings of an agent.
#[derive(Debug, Clone)]
pub struct NetAgentBuilder {
    pub config: NetAgentConfig,
}

impl NetAgentBuilder {
    /// Begins with the default settings.
    pub fn new(node_id: [u8; 20], listen_port: u16, data_dir: &str) -> (r: Self)
        ensures
            r.config.is_default_for(node_id, listen_port, data_dir@),
    {
        NetAgentBuilder { config: NetAgentConfig::new(node_id, listen_port, data_dir) }
    }

    /// Sets the port of the node's API.
    pub fn api_port(self, port: u16) -> (r: Self)
        ensures
            r.config == (NetAgentConfig { api_port: port, ..self.config }),
    {
        let mut s = self;
        s.config.api_port = port;
        s
    }

    /// Sets the port of the multicast group.
    pub fn lpd_multicast_port(self, port: u16) -> (r: Self)
        ensures
            r.config == (NetAgentConfig { lpd_multicast_port: port, ..self.config }),
    {
        let mut s = self;
        s.config.lpd_multicast_port = port;
        s
    }

    /// Sets whether nodes are looked for by multicast.
    pub fn lpd_enabled(self, enabled: bool) -> (r: Self)
        ensures
            r.config == (NetAgentConfig { lpd_enabled: enabled, ..self.config }),
    {
        let mut s = self;
        s.config.lpd_enabled = enabled;
        s
    }

    /// Sets whether connected nodes are kept.
    pub fn peer_cache_enabled(self, enabled: bool) -> (r: Self)
        ensures
            r.config == (NetAgentConfig { peer_cache_enabled: enabled, ..self.config }),
    {
        let mut s = self;
        s.config.peer_cache_enabled = enabled;
        s
    }

    /// Sets whether ports are mapped.
    pub fn nat_enabled(self, enabled: bool) -> (r: Self)
        ensures
            r.config == (NetAgentConfig { nat_enabled: enabled, ..self.config }),
    {
        let mut s = self;
        s.config.nat_enabled = enabled;
        s
    }

    /// Sets whether paths are opened.
    pub fn hole_punch_enabled(self, enabled: bool) -> (r: Self)
        ensures
            r.config == (NetAgentConfig { hole_punch_enabled: enabled, ..self.config }),
    {
        let mut s = self;
        s.config.hole_punch_enabled = enabled;
        s
    }

    /// Sets how peers are connected to.
    pub fn connect_config(self, config: ConnectStrategyConfig) -> (r: Self)
        ensures
            r.config == (NetAgentConfig { connect_config: config, ..self.config }),
    {
        let mut s = self;
        s.config.connect_config = config;
        s
    }

    /// Ends with an agent of these settings. `kept` is the cache that was kept on
    /// disk; it is used where the settings keep connected nodes.
    pub fn build(self, kept: PeerCache) -> (r: NetAgent)
        ensures
            r.config == self.config,
            !r.started,
            self.config.peer_cache_enabled ==> r.peer_cache == kept,
            !self.config.peer_cache_enabled ==> r.peer_cache.nodes@.len() == 0
                && r.peer_cache.last_updated == 0,
    {
        NetAgent::new(self.config, kept)
    }
}

/// A step of the start.
#[derive(Debug, Clone, Copy, PartialEq, Eq, Structural)]
pub enum StartStep {
    /// Start the transports. Where this fails, so does the start.
    StartTransport,
    /// Map the TCP port.
    MapTcp(u16),
    /// Map the UDP port.
    MapUdp(u16),
    /// Tell how the mappings stand.
    ReportNatStatus,
    /// Pass on what is found as events.
    ForwardDiscoveries,
    /// Look for nodes by multicast.
    StartLpd,
    /// Start the registered search at this position.
    StartDiscovery(usize),
    /// Keep the cache of nodes on disk, again and again after so many seconds.
    SaveCacheEvery(u64),
}

/// The positions of the registered searches that are switched on, as steps.
pub open spec fn discovery_steps(enabled: Seq<bool>) -> Seq<StartStep>
    decreases enabled.len(),
{
    if enabled.len() == 0 {
        Seq::empty()
    } else {
        let before = discovery_steps(enabled.drop_last());
        if enabled.last() {
            before.push(StartStep::StartDiscovery((enabled.len() - 1) as usize))
        } else {
            before
        }
    }
}

/// The steps of a start, in order.
pub open spec fn start_steps(config: NetAgentConfig, enabled: Seq<bool>) -> Seq<StartStep> {
    seq![StartStep::StartTransport] + (if config.nat_enabled {
        seq![
            StartStep::MapTcp(config.listen_port),
            StartStep::MapUdp(config.listen_port),
            StartStep::ReportNatStatus,
        ]
    } else {
        Seq::empty()
    }) + seq![StartStep::ForwardDiscoveries] + (if config.lpd_enabled {
        seq![StartStep::StartLpd]
    } else {
        Seq::empty()
    }) + discovery_steps(enabled) + (if config.peer_cache_enabled {
        seq![StartStep::SaveCacheEvery(CACHE_SAVE_SECS)]
    } else {
        Seq::empty()
    })
}

/// What a step leads to.
#[derive(Debug, Clone, Copy, PartialEq, Eq, Structural)]
pub enum StepVerdict {
    /// Go on with the next step.
    Continue,
    /// The start has failed.
    Abort,
}

/// An address and how it is written.
#[derive(Debug, Clone)]
pub struct WrittenAddr {
    pub addr: SocketAddr,
    pub text: String,
}

/// What the transports tell of a connection that they made.
#[derive(Debug)]
pub struct TransportEnd {
    /// Where it leads, if they know.
    pub connected_addr: Option<WrittenAddr>,
    pub kind: TransportKind,
    /// How long it took.
    pub latency: Duration,
}

/// What is told of a connection.
#[derive(Debug)]
pub enum ConnectEvent {
    /// It was made.
    Connected { node_id: NodeId, addr: SocketAddr, method: String, latency: Duration },
    /// It was not, for the given reason.
    ConnectFailed { node_id: NodeId, reason: String },
}

/// How a request for a connection ended.
#[derive(Debug)]
pub struct ConnectReport {
    /// What is told of it.
    pub event: ConnectEvent,
    /// What the caller gets beside the connection: the method and how long it took,
    /// or why there is none.
    pub result: Result<(ConnectMethod, Duration), String>,
}

impl ConnectReport {
    /// Whether this reports that there is no connection, for the given reason.
    pub open spec fn is_failure(self, node_id: NodeId, reason: Seq<char>) -> bool {
        &&& self.event is ConnectFailed
        &&& self.event->ConnectFailed_node_id == node_id
        &&& self.event->ConnectFailed_reason@ == reason
        &&& self.result is Err
        &&& self.result->Err_0@ == reason
    }

    /// Whether this reports a connection to the given address.
    pub open spec fn is_success(
        self,
        node_id: NodeId,
        addr: SocketAddr,
        method: ConnectMethod,
        latency: Duration,
    ) -> bool {
        &&& self.event is Connected
        &&& self.event->Connected_node_id == node_id
        &&& self.event->Connected_addr == addr
        &&& self.event->Connected_method@ == method.name()
        &&& self.event->Connected_latency == latency
        &&& self.result == Ok::<(ConnectMethod, Duration), String>((method, latency))
    }
}

/// The address to report of a connection: the one that the transports tell, or the
/// first known one.
pub open spec fn reported_addr(addrs: Seq<WrittenAddr>, told: Option<WrittenAddr>) -> WrittenAddr {
    match told {
        Some(a) => a,
        None => addrs[0],
    }
}

/// The state of an agent; sockets and tasks are elsewhere.
#[derive(Debug)]
pub struct NetAgent {
    pub config: NetAgentConfig,
    pub peer_cache: PeerCache,
    pub started: bool,
}

impl NetAgent {
    /// Begins to build an agent.
    pub fn builder(node_id: [u8; 20], listen_port: u16, data_dir: &str) -> (r: NetAgentBuilder)
        ensures
            r.config.is_default_for(node_id, listen_port, data_dir@),
    {
        NetAgentBuilder::new(node_id, listen_port, data_dir)
    }

    /// An agent that was not started. `kept` is the cache that was kept on disk;
    /// it is used where the settings keep connected nodes.
    pub fn new(config: NetAgentConfig, kept: PeerCache) -> (r: Self)
        ensures
            r.config == config,
            !r.started,
            config.peer_cache_enabled ==> r.peer_cache == kept,
            !config.peer_cache_enabled ==> r.peer_cache.nodes@.len() == 0
                && r.peer_cache.last_updated == 0,
    {
        let peer_cache = if config.peer_cache_enabled {
            kept
        } else {
            PeerCache::default()
        };
        NetAgent { config, peer_cache, started: false }
    }

    /// The steps of the start; none where the agent was started before.
    /// `discoveries` says of each registered search whether it is switched on.
    pub fn start(&self, discoveries: &Vec<bool>) -> (r: Option<Vec<StartStep>>)
        ensures
            match r {
                Some(v) => !self.started && v@ == start_steps(self.config, discoveries@),
                None => self.started,
            },
    {
        if self.started {
            return None;
        }
        let ghost c = self.config;
        let ghost p0 = seq![StartStep::StartTransport];
        let ghost p1 = if c.nat_enabled {
            seq![
                StartStep::MapTcp(c.listen_port),
                StartStep::MapUdp(c.listen_port),
                StartStep::ReportNatStatus,
            ]
        } else {
            Seq::empty()
        };
        let ghost p2 = seq![StartStep::ForwardDiscoveries];
        let ghost p3 = if c.lpd_enabled {
            seq![StartStep::StartLpd]
        } else {
            Seq::empty()
        };
        let mut out: Vec<StartStep> = Vec::new();
        out.push(StartStep::StartTransport);
        if self.config.nat_enabled {
            out.push(StartStep::MapTcp(self.config.listen_port));
            out.push(StartStep::MapUdp(self.config.listen_port));
            out.push(StartStep::ReportNatStatus);
        }
        out.push(StartStep::ForwardDiscoveries);
        if self.config.lpd_enabled {
            out.push(StartStep::StartLpd);
        }
        let ghost head = p0 + p1 + p2 + p3;
        proof {
            assert(out@ =~= head);
            assert(discoveries@.take(0) =~= Seq::<bool>::empty());
            assert(head + discovery_steps(discoveries@.take(0)) =~= head);
        }
        let mut i: usize = 0;
        while i < discoveries.len()
            invariant
                i <= discoveries@.len(),
                out@ == head + discovery_steps(discoveries@.take(i as int)),
            decreases discoveries@.len() - i,
        {
            let ghost before = out@;
            proof {
                assert(discoveries@.take(i + 1).drop_last() =~= discoveries@.take(i as int));
            }
            if discoveries[i] {
                out.push(StartStep::StartDiscovery(i));
                proof {
                    assert(out@ =~= head + discovery_steps(discoveries@.take(i + 1)));
                }
            }
            i = i + 1;
        }
        proof {
            assert(discoveries@.take(i as int) =~= discoveries@);
        }
        if self.config.peer_cache_enabled {
            out.push(StartStep::SaveCacheEvery(CACHE_SAVE_SECS));
        }
        proof {
            assert(out@ =~= start_steps(c, discoveries@));
        }
        Some(out)
    }

    /// The steps of a start of the transports alone; none where the agent was
    /// started before.
    pub fn start_transport_only(&self) -> (r: Option<Vec<StartStep>>)
        ensures
            match r {
                Some(v) => !self.started && v@ == transport_steps(),
                None => self.started,
            },
            match r {
                Some(v) => !self.started && v@ == seq![StartStep::StartTransport],
                None => self.started,
            },
    {
        if self.started {
            return None;
        }
        let mut out: Vec<StartStep> = Vec::new();
        out.push(StartStep::StartTransport);
        assert(out@ =~= seq![StartStep::StartTransport]);
        Some(out)
    }

    /// What a step leads to: only the transports have to start.
    pub fn on_step(step: StartStep, ok: bool) -> (r: StepVerdict)
        ensures
            r == verdict_on(step, ok),
            r == if !ok && step is StartTransport {
                StepVerdict::Abort
            } else {
                StepVerdict::Continue
            },
    {
        if ok {
            return StepVerdict::Continue;
        }
        match step {
            StartStep::StartTransport => StepVerdict::Abort,
            _ => StepVerdict::Continue,
        }
    }

    /// All steps were made: the agent is started.
    pub fn finish_start(&mut self)
        ensures
            *final(self) == (NetAgent { started: true, ..*old(self) }),
    {
        self.started = true;
    }

    /// Whether a peer with these addresses is dialled at all: without an address the
    /// request has failed.
    pub fn connect_to(node_id: NodeId, addrs: &Vec<WrittenAddr>) -> (r: Result<(), ConnectReport>)
        ensures
            match r {
                Ok(_) => addrs@.len() > 0,
                Err(report) => addrs@.len() == 0 && report.is_failure(node_id, "对端没有已知地址"@),
            },
    {
        if addrs.len() == 0 {
            Err(Self::failed(node_id, "对端没有已知地址".to_owned()))
        } else {
            Ok(())
        }
    }

    fn failed(node_id: NodeId, reason: String) -> (r: ConnectReport)
        ensures
            r.is_failure(node_id, reason@),
    {
        ConnectReport {
            event: ConnectEvent::ConnectFailed { node_id, reason: reason.clone() },
            result: Err(reason),
        }
    }

    /// Takes what the transports gave for a peer, at the given time. A connection is
    /// reported with its address, its method and how long it took, and kept where the
    /// settings keep connected nodes; a failure is reported and changes nothing.
    pub fn end_connect_at(
        &mut self,
        node_id: NodeId,
        addrs: &Vec<WrittenAddr>,
        outcome: Result<TransportEnd, String>,
        now: u64,
    ) -> (r: ConnectReport)
        requires
            addrs@.len() > 0,
        ensures
            is_report_of(node_id, addrs@, outcome, r),
            final(self).config == old(self).config,
            final(self).started == old(self).started,
            match outcome {
                Ok(end) => {
                    let told = reported_addr(addrs@, end.connected_addr);
                    &&& r.is_success(node_id, told.addr, end.kind.reported(), end.latency)
                    &&& old(self).config.peer_cache_enabled ==> final(self).peer_cache.entries()
                        == upserted(
                        old(self).peer_cache.entries(),
                        node_id.0@,
                        told.text@,
                        true,
                        now,
                    ) && final(self).peer_cache.last_updated == now
                    &&& !old(self).config.peer_cache_enabled ==> *final(self) == *old(self)
                },
                Err(e) => r.is_failure(node_id, e@) && *final(self) == *old(self),
            },
    {
        match outcome {
            Ok(end) => {
                let method = end.kind.method();
                let addr = match &end.connected_addr {
                    Some(a) => {
                        self.note_connected_at(&node_id, a.text.as_str(), now);
                        a.addr
                    },
                    None => {
                        self.note_connected_at(&node_id, addrs[0].text.as_str(), now);
                        addrs[0].addr
                    },
                };
                ConnectReport {
                    event: ConnectEvent::Connected {
                        node_id,
                        addr,
                        method: method.to_string(),
                        latency: end.latency,
                    },
                    result: Ok((method, end.latency)),
                }
            },
            Err(e) => Self::failed(node_id, e),
        }
    }

    /// Takes what the transports gave for a peer, now.
    pub fn end_connect(
        &mut self,
        node_id: NodeId,
        addrs: &Vec<WrittenAddr>,
        outcome: Result<TransportEnd, String>,
    ) -> (r: ConnectReport)
        requires
            addrs@.len() > 0,
        ensures
            final(self).config == old(self).config,
            final(self).started == old(self).started,
            match outcome {
                Ok(end) => {
                    let told = reported_addr(addrs@, end.connected_addr);
                    &&& r.is_success(node_id, told.addr, end.kind.reported(), end.latency)
                    &&& old(self).config.peer_cache_enabled ==> is_unix_secs(
                        final(self).peer_cache.last_updated,
                    ) && final(self).peer_cache.entries() == upserted(
                        old(self).peer_cache.entries(),
                        node_id.0@,
                        told.text@,
                        true,
                        final(self).peer_cache.last_updated,
                    )
                    &&& !old(self).config.peer_cache_enabled ==> *final(self) == *old(self)
                },
                Err(e) => r.is_failure(node_id, e@) && *final(self) == *old(self),
            },
    {
        let now: u64 = current_unix_secs();
        self.end_connect_at(node_id, addrs, outcome, now)
    }

    /// Takes note of a connection that was made at the given time, where the
    /// settings keep connected nodes.
    pub fn note_connected_at(&mut self, node_id: &NodeId, addr_text: &str, now: u64)
        ensures
            final(self).peer_cache.entries() == noted(
                old(self).config.peer_cache_enabled,
                old(self).peer_cache.entries(),
                node_id.0@,
                addr_text@,
                now,
            ),
            final(self).config == old(self).config,
            final(self).started == old(self).started,
            old(self).config.peer_cache_enabled ==> final(self).peer_cache.entries() == upserted(
                old(self).peer_cache.entries(),
                node_id.0@,
                addr_text@,
                true,
                now,
            ) && final(self).peer_cache.last_updated == now,
            !old(self).config.peer_cache_enabled ==> *final(self) == *old(self),
    {
        if self.config.peer_cache_enabled {
            self.peer_cache.upsert_at(&node_id.0, addr_text, true, now);
        }
    }

    /// Takes note of a connection that was made now, where the settings keep
    /// connected nodes.
    pub fn note_connected(&mut self, node_id: &NodeId, addr_text: &str)
        ensures
            final(self).config == old(self).config,
            final(self).started == old(self).started,
            old(self).config.peer_cache_enabled ==> is_unix_secs(
                final(self).peer_cache.last_updated,
            ) && final(self).peer_cache.entries() == upserted(
                old(self).peer_cache.entries(),
                node_id.0@,
                addr_text@,
                true,
                final(self).peer_cache.last_updated,
            ),
            !old(self).config.peer_cache_enabled ==> *final(self) == *old(self),
    {
        let now: u64 = current_unix_secs();
        self.note_connected_at(node_id, addr_text, now);
    }

    /// The addresses of the `n` kept nodes with the most successes, most first.
    pub fn cached_peers(&self, n: usize) -> (r: Vec<String>)
        ensures
            exists|best: Seq<NodeModel>| #[trigger]
                is_best(self.peer_cache.entries(), best, n as nat) && texts(r@)
                    == best.map_values(|m: NodeModel| m.addr),
    {
        self.peer_cache.top_addrs(n)
    }

    /// What is kept on disk: the cache, where the settings keep connected nodes.
    pub fn cache_to_save(&self) -> (r: Option<&PeerCache>)
        ensures
            r == if self.config.peer_cache_enabled {
                Some(&self.peer_cache)
            } else {
                None
            },
    {
        if self.config.peer_cache_enabled {
            Some(&self.peer_cache)
        } else {
            None
        }
    }
}

/// The outer port of the first mapping of TCP.
pub open spec fn tcp_port(mappings: Seq<(String, u16)>) -> Option<u16>
    decreases mappings.len(),
{
    if mappings.len() == 0 {
        None
    } else if mappings[0].0@ == "TCP"@ {
        Some(mappings[0].1)
    } else {
        tcp_port(mappings.drop_first())
    }
}

/// The address at which the node is reached from outside: the external address and the
/// port of the first mapping of TCP, where there are both.
pub open spec fn mapped_text(external_ip: Option<&str>, mappings: Seq<(String, u16)>) -> Option<
    Seq<char>,
> {
    match (external_ip, tcp_port(mappings)) {
        (Some(ip), Some(port)) => Some(ip@ + seq![':'] + decimal(port as nat)),
        _ => None,
    }
}

/// Whether the start goes on after a step: it ends only where the transports do not
/// start.
pub open spec fn verdict_on(step: StartStep, ok: bool) -> StepVerdict {
    if !ok && step is StartTransport {
        StepVerdict::Abort
    } else {
        StepVerdict::Continue
    }
}

/// Where holes are punched from.
pub open spec fn punch_addr(enabled: bool, listen_port: nat) -> Option<SocketAddr> {
    if enabled {
        Some(
            SocketAddr {
                ip: IpAddr::V4(Ipv4Addr { a: 0, b: 0, c: 0, d: 0 }),
                port: (listen_port + 1) as u16,
            },
        )
    } else {
        None
    }
}

/// The node's outer address as text: the outer address of the gateway and, behind
/// a colon, the outer port of the first mapping of TCP.
pub fn mapped_address(external_ip: Option<&str>, mappings: &Vec<(String, u16)>) -> (r: Option<
    String,
>)
    ensures
        match r {
            Some(text) => mapped_text(external_ip, mappings@) == Some(text@),
            None => mapped_text(external_ip, mappings@) is None,
        },
        match (external_ip, tcp_port(mappings@)) {
            (Some(ip), Some(port)) => r is Some && r->0@ == ip@ + seq![':'] + decimal(port as nat),
            _ => r is None,
        },
{
    let ip = match external_ip {
        Some(x) => x,
        None => {
            return None;
        },
    };
    let mut i: usize = 0;
    proof {
        assert(mappings@.skip(0) =~= mappings@);
    }
    while i < mappings.len()
        invariant
            i <= mappings@.len(),
            external_ip == Some(ip),
            tcp_port(mappings@) == tcp_port(mappings@.skip(i as int)),
        decreases mappings@.len() - i,
    {
        proof {
            assert(mappings@.skip(i as int).drop_first() =~= mappings@.skip(i + 1));
        }
        if same_text(mappings[i].0.as_str(), "TCP") {
            let mut out = ip.to_owned();
            out.push(':');
            out.append(to_decimal(mappings[i].1 as u64).as_str());
            proof {
                assert(out@ =~= ip@ + seq![':'] + decimal(mappings@[i as int].1 as nat));
            }
            return Some(out);
        }
        i = i + 1;
    }
    None
}

/// The transports are started first, whatever the settings, and nothing is
/// started twice.
pub proof fn lemma_transport_starts_first(config: NetAgentConfig, enabled: Seq<bool>)
    requires
        enabled.len() <= usize::MAX,
    ensures
        start_steps(config, enabled).len() > 0,
        start_steps(config, enabled)[0] == StartStep::StartTransport,
        forall|i: int|
            0 < i < start_steps(config, enabled).len() ==> !(start_steps(config, enabled)[i]
                is StartTransport),
{
    lemma_discovery_steps(enabled);
    let d = discovery_steps(enabled);
    assert forall|i: int| 0 < i < start_steps(config, enabled).len() implies !(start_steps(
        config,
        enabled,
    )[i] is StartTransport) by {
        let head = start_steps(config, enabled).len() - d.len() - (if config.peer_cache_enabled {
            1int
        } else {
            0
        });
        if head <= i < head + d.len() {
            assert(start_steps(config, enabled)[i] == d[i - head]);
        }
    }
}

/// Each registered search that is switched on is started once, in order.
pub proof fn lemma_discovery_steps(enabled: Seq<bool>)
    requires
        enabled.len() <= usize::MAX,
    ensures
        forall|i: int|
            0 <= i < discovery_steps(enabled).len() ==> (#[trigger] discovery_steps(enabled)[i])
                is StartDiscovery && discovery_steps(enabled)[i]->StartDiscovery_0 < enabled.len()
                && enabled[discovery_steps(enabled)[i]->StartDiscovery_0 as int],
        forall|i: int, j: int|
            0 <= i < j < discovery_steps(enabled).len() ==> (
            #[trigger] discovery_steps(enabled)[i])->StartDiscovery_0 < (
            #[trigger] discovery_steps(enabled)[j])->StartDiscovery_0,
    decreases enabled.len(),
{
    if enabled.len() > 0 {
        let e = enabled.drop_last();
        lemma_discovery_steps(e);
        let before = discovery_steps(e);
        let after = discovery_steps(enabled);
        assert forall|i: int| 0 <= i < after.len() implies (#[trigger] after[i]) is StartDiscovery
            && after[i]->StartDiscovery_0 < enabled.len()
            && enabled[after[i]->StartDiscovery_0 as int] by {
            if i < before.len() {
                assert(after[i] == before[i]);
            }
        }
        assert forall|i: int, j: int|
            0 <= i < j < after.len() implies (
        #[trigger] after[i])->StartDiscovery_0 < (#[trigger] after[j])->StartDiscovery_0 by {
            assert(after[i] == before[i]);
            if j < before.len() {
                assert(after[j] == before[j]);
            }
        }
    }
}

/// What a start does follows from the settings: the listening port is mapped, for both
/// protocols, exactly where ports are mapped; nodes are looked for by multicast, and the
/// cache is kept every five minutes, exactly where those are switched on; what is found
/// is always passed on.
pub proof fn lemma_start_follows_the_settings(config: NetAgentConfig, enabled: Seq<bool>, p: u16)
    requires
        enabled.len() <= usize::MAX,
    ensures
        ({
            let s = start_steps(config, enabled);
            &&& s.contains(StartStep::MapTcp(p)) <==> config.nat_enabled && p == config.listen_port
            &&& s.contains(StartStep::MapUdp(p)) <==> config.nat_enabled && p == config.listen_port
            &&& s.contains(StartStep::ReportNatStatus) <==> config.nat_enabled
            &&& s.contains(StartStep::ForwardDiscoveries)
            &&& s.contains(StartStep::StartLpd) <==> config.lpd_enabled
            &&& s.contains(StartStep::SaveCacheEvery(300)) <==> config.peer_cache_enabled
            &&& config.nat_enabled ==> s.len() > 4 && s[1] == StartStep::MapTcp(config.listen_port)
                && s[2] == StartStep::MapUdp(config.listen_port) && s[3]
                == StartStep::ReportNatStatus && s[4] == StartStep::ForwardDiscoveries
        }),
{
    let s = start_steps(config, enabled);
    let d = discovery_steps(enabled);
    lemma_discovery_steps(enabled);
    let a = if config.nat_enabled {
        3int
    } else {
        0
    };
    let b = if config.lpd_enabled {
        1int
    } else {
        0
    };
    let head = 2 + a + b;
    assert(s[1 + a] == StartStep::ForwardDiscoveries);
    if config.nat_enabled {
        assert(s[1] == StartStep::MapTcp(config.listen_port));
        assert(s[2] == StartStep::MapUdp(config.listen_port));
        assert(s[3] == StartStep::ReportNatStatus);
    }
    if config.lpd_enabled {
        assert(s[2 + a] == StartStep::StartLpd);
    }
    if config.peer_cache_enabled {
        assert(s[s.len() - 1] == StartStep::SaveCacheEvery(300));
    }
    assert forall|i: int| 0 <= i < s.len() implies (#[trigger] s[i] is MapTcp
        ==> config.nat_enabled && s[i] == StartStep::MapTcp(config.listen_port)) && (s[i] is MapUdp
        ==> config.nat_enabled && s[i] == StartStep::MapUdp(config.listen_port)) && (s[i]
        is ReportNatStatus ==> config.nat_enabled) && (s[i] is StartLpd ==> config.lpd_enabled) && (
    s[i] is SaveCacheEvery ==> config.peer_cache_enabled) by {
        if head <= i < head + d.len() {
            assert(s[i] == d[i - head]);
        }
    }
}

/// Every registered search that is switched on is started.
pub proof fn lemma_enabled_searches_are_started(enabled: Seq<bool>, i: int)
    requires
        enabled.len() <= usize::MAX,
        0 <= i < enabled.len(),
    ensures
        discovery_steps(enabled).contains(StartStep::StartDiscovery(i as usize)) <==> enabled[i],
    decreases enabled.len(),
{
    let d = enabled.drop_last();
    let before = discovery_steps(d);
    let after = discovery_steps(enabled);
    lemma_discovery_steps(enabled);
    if i < d.len() {
        lemma_enabled_searches_are_started(d, i);
        if before.contains(StartStep::StartDiscovery(i as usize)) {
            let k = choose|k: int|
                0 <= k < before.len() && before[k] == StartStep::StartDiscovery(i as usize);
            assert(after[k] == before[k]);
        }
    } else if enabled[i] {
        assert(after[after.len() - 1] == StartStep::StartDiscovery(i as usize));
    }
}

/// The port that is told is that of the first mapping of TCP, wherever mappings of other
/// protocols stand.
pub proof fn lemma_first_tcp_mapping(mappings: Seq<(String, u16)>, k: int)
    ensures
        0 <= k < mappings.len() && mappings[k].0@ == "TCP"@ && (forall|j: int|
            0 <= j < k ==> (#[trigger] mappings[j]).0@ != "TCP"@) ==> tcp_port(mappings) == Some(
            mappings[k].1,
        ),
        (forall|j: int| 0 <= j < mappings.len() ==> (#[trigger] mappings[j]).0@ != "TCP"@)
            ==> tcp_port(mappings) is None,
    decreases mappings.len(),
{
    if mappings.len() > 0 {
        let d = mappings.drop_first();
        lemma_first_tcp_mapping(d, k - 1);
        if 0 < k < mappings.len() && (forall|j: int|
            0 <= j < k ==> (#[trigger] mappings[j]).0@ != "TCP"@) {
            assert(mappings[0].0@ != "TCP"@);
            assert forall|j: int| 0 <= j < k - 1 implies (#[trigger] d[j]).0@ != "TCP"@ by {
                assert(d[j] == mappings[j + 1]);
            }
        }
        if forall|j: int| 0 <= j < mappings.len() ==> (#[trigger] mappings[j]).0@ != "TCP"@ {
            assert(mappings[0].0@ != "TCP"@);
            assert forall|j: int| 0 <= j < d.len() implies (#[trigger] d[j]).0@ != "TCP"@ by {
                assert(d[j] == mappings[j + 1]);
            }
        }
    }
}

/// The address that is reported is the one that the transports tell; only where they
/// tell none is it the first known one.
pub proof fn lemma_reported_address(addrs: Seq<WrittenAddr>, told: WrittenAddr)
    ensures
        reported_addr(addrs, Some(told)) == told,
        reported_addr(addrs, None) == addrs[0],
{
}

/// The settings of an agent of which nothing was set.
pub proof fn lemma_default_agent(c: NetAgentConfig, id: [u8; 20], port: u16, dir: Seq<char>)
    requires
        c.is_default_for(id, port, dir),
    ensures
        c.node_id == id && c.listen_port == port && c.data_dir@ == dir && c.api_port == 0,
        c.lpd_multicast_port == 6771,
        c.lpd_enabled && c.peer_cache_enabled && c.nat_enabled && c.hole_punch_enabled,
        c.connect_config.tcp_config.connect_timeout@ == 5_000_000_000,
        c.connect_config.tcp_config.max_retries == 2,
        c.connect_config.hole_punch_timeout@ == 10_000_000_000,
        c.connect_config.hole_punch_enabled && c.connect_config.fallback_to_hole_punch,
        c.transport_mode is TcpOnly && c.iroh_config is None,
{
}

/// A start is given up after the first step alone, and only where that failed; every
/// other step may fail.
pub proof fn lemma_start_goes_on(step: StartStep, ok: bool)
    ensures
        verdict_on(step, true) is Continue,
        verdict_on(StartStep::StartTransport, false) is Abort,
        !(step is StartTransport) ==> verdict_on(step, ok) is Continue,
{
}

/// Holes are punched from the port after the listening one, on every interface, and from
/// none where that is switched off.
pub proof fn lemma_punching_port(enabled: bool, listen_port: u16)
    requires
        listen_port < u16::MAX,
    ensures
        match punch_addr(enabled, listen_port as nat) {
            Some(a) => enabled && a.port - 1 == listen_port && a.ip == IpAddr::V4(
                Ipv4Addr { a: 0, b: 0, c: 0, d: 0 },
            ),
            None => !enabled,
        },
{
}

/// The address from outside needs both an external address and a mapping of TCP, and
/// consists of that address, a colon and the mapped port.
pub proof fn lemma_address_from_outside(ip: &str, first: (String, u16), rest: Seq<(String, u16)>)
    ensures
        first.0@ == "TCP"@ ==> mapped_text(Some(ip), seq![first] + rest) == Some(
            ip@ + ":"@ + decimal(first.1 as nat),
        ),
        first.0@ != "TCP"@ ==> mapped_text(Some(ip), seq![first] + rest) == mapped_text(
            Some(ip),
            rest,
        ),
        mapped_text(None, seq![first] + rest) is None,
        mapped_text(Some(ip), Seq::empty()) is None,
{
    reveal_strlit(":");
    assert(":"@ =~= seq![':']);
    assert((seq![first] + rest).drop_first() =~= rest);
}

/// A failed connection is reported and told with the same words; a made one with the
/// same method and time, under the method's own name.
pub proof fn lemma_reports_agree(
    r: ConnectReport,
    id: NodeId,
    reason: Seq<char>,
    addr: SocketAddr,
    method: ConnectMethod,
    latency: Duration,
)
    ensures
        r.is_failure(id, reason) ==> r.result is Err && r.event is ConnectFailed
            && r.event->ConnectFailed_reason@ == r.result->Err_0@ && r.result->Err_0@ == reason
            && r.event->ConnectFailed_node_id == id,
        r.is_success(id, addr, method, latency) ==> r.result is Ok && r.result->Ok_0.0 == method
            && r.result->Ok_0.1 == latency && r.event is Connected && r.event->Connected_node_id
            == id && r.event->Connected_addr == addr && r.event->Connected_latency == latency
            && r.event->Connected_method@ == method.name(),
{
}

/// The steps of a start of the transports alone.
pub open spec fn transport_steps() -> Seq<StartStep> {
    seq![StartStep::StartTransport]
}

/// How many steps are of this kind: one where it is switched on, and none otherwise.
pub open spec fn steps_for(enabled: bool) -> int {
    if enabled {
        1
    } else {
        0
    }
}

/// A start of the transports alone makes the first step of every start, and no other. A
/// start makes no step but those that the settings ask for.
pub proof fn lemma_no_other_steps(config: NetAgentConfig, enabled: Seq<bool>)
    ensures
        start_steps(config, enabled).take(1) == transport_steps(),
        start_steps(config, enabled).len() == 2 + 3 * steps_for(config.nat_enabled) + steps_for(
            config.lpd_enabled,
        ) + steps_for(config.peer_cache_enabled) + discovery_steps(enabled).len(),
        config.peer_cache_enabled ==> start_steps(config, enabled).last()
            == StartStep::SaveCacheEvery(300),
{
    assert(start_steps(config, enabled).take(1) =~= transport_steps());
}

/// The searches are started in the order in which they were registered.
pub proof fn lemma_searches_in_order(enabled: Seq<bool>)
    ensures
        discovery_steps(enabled.push(true)) == discovery_steps(enabled).push(
            StartStep::StartDiscovery(enabled.len() as usize),
        ),
        discovery_steps(enabled.push(false)) == discovery_steps(enabled),
        discovery_steps(Seq::empty()).len() == 0,
{
    assert(enabled.push(true).drop_last() =~= enabled);
    assert(enabled.push(false).drop_last() =~= enabled);
}

/// The nodes of the cache after a connection to one of them.
pub open spec fn noted(
    enabled: bool,
    nodes: Seq<NodeModel>,
    id: Seq<u8>,
    addr: Seq<char>,
    now: u64,
) -> Seq<NodeModel> {
    if enabled {
        upserted(nodes, id, addr, true, now)
    } else {
        nodes
    }
}

/// A connection counts as one more success of the node, at the address that it was made
/// to; without a cache nothing is noted.
pub proof fn lemma_connections_are_noted(
    nodes: Seq<NodeModel>,
    id: Seq<u8>,
    addr: Seq<char>,
    now: u64,
    i: int,
)
    requires
        crate::discovery::peer_cache::unique_ids(nodes),
        0 <= i < nodes.len(),
        nodes[i].node_id == id,
        nodes[i].success_count < u32::MAX,
    ensures
        ({
            let after = noted(true, nodes, id, addr, now);
            &&& after.len() == nodes.len()
            &&& after[i].success_count == nodes[i].success_count + 1
            &&& after[i].addr == addr && after[i].last_seen == now && after[i].node_id == id
        }),
        noted(false, nodes, id, addr, now) == nodes,
{
    crate::discovery::peer_cache::lemma_success_counts_once(nodes, id, addr, true, now, i);
}

/// The first connection to a node adds it with one success.
pub proof fn lemma_new_connections_are_noted(
    nodes: Seq<NodeModel>,
    id: Seq<u8>,
    addr: Seq<char>,
    now: u64,
)
    requires
        forall|i: int| 0 <= i < nodes.len() ==> (#[trigger] nodes[i]).node_id != id,
    ensures
        noted(true, nodes, id, addr, now) == nodes.push(
            NodeModel { node_id: id, addr, last_seen: now, success_count: 1 },
        ),
{
    crate::discovery::peer_cache::lemma_new_node_is_added(nodes, id, addr, true, now);
}

/// Whether this is what is reported of the end of an attempt to connect.
pub open spec fn is_report_of(
    node_id: NodeId,
    addrs: Seq<WrittenAddr>,
    outcome: Result<TransportEnd, String>,
    r: ConnectReport,
) -> bool {
    match outcome {
        Ok(end) => r.is_success(
            node_id,
            reported_addr(addrs, end.connected_addr).addr,
            end.kind.reported(),
            end.latency,
        ),
        Err(e) => r.is_failure(node_id, e@),
    }
}

/// An attempt is reported as it ended: with the node, the address that was reached and how
/// long it took, or with the reason.
pub proof fn lemma_attempts_are_reported(
    node_id: NodeId,
    addrs: Seq<WrittenAddr>,
    end: TransportEnd,
    e: String,
    r: ConnectReport,
    f: ConnectReport,
)
    requires
        addrs.len() > 0,
        is_report_of(node_id, addrs, Ok(end), r),
        is_report_of(node_id, addrs, Err(e), f),
    ensures
        r.result is Ok && r.event is Connected,
        r.event->Connected_node_id == node_id,
        end.connected_addr is Some ==> r.event->Connected_addr == end.connected_addr->0.addr,
        end.connected_addr is None ==> r.event->Connected_addr == addrs[0].addr,
        r.event->Connected_latency == end.latency && (r.result->Ok_0).1 == end.latency,
        end.kind is UdpHolePunch <==> (r.result->Ok_0).0 is UdpHolePunch,
        end.kind is TcpRelay <==> (r.result->Ok_0).0 is Relay,
        f.result is Err && f.event is ConnectFailed,
        f.event->ConnectFailed_node_id == node_id,
        f.event->ConnectFailed_reason@ == e@ && f.result->Err_0@ == e@,
{
}

} // verus!
