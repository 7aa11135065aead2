//! Resolving names through several public servers.

use vstd::prelude::*;

use crate::addr::{IpAddr, Ipv4Addr, SocketAddr};
use crate::time::{secs, Duration};

verus! {

/// How names are resolved.
#[derive(Debug)]
pub struct DnsConfig {
    /// The servers, all asked at the same time.
    pub servers: Vec<SocketAddr>,
    /// How long an answer may take.
    pub timeout: Duration,
    /// How often a server is asked.
    pub attempts: usize,
    /// How many servers are asked at once.
    pub concurrent: usize,
}

/// A server's address: the DNS port at `a.b.c.d`.
pub open spec fn dns_server(a: u8, b: u8, c: u8, d: u8) -> SocketAddr {
    SocketAddr { ip: IpAddr::V4(Ipv4Addr { a, b, c, d }), port: 53 }
}

fn server(a: u8, b: u8, c: u8, d: u8) -> (r: SocketAddr)
    ensures
        r == dns_server(a, b, c, d),
{
    SocketAddr { ip: IpAddr::V4(Ipv4Addr { a, b, c, d }), port: 53 }
}

impl DnsConfig {
    /// Five public servers, all asked at once, twice at most, for three seconds.
    pub fn new() -> (r: Self)
        ensures
            r.servers@ == default_servers(),
            r.servers@ == seq![
                dns_server(114, 114, 114, 114),
                dns_server(223, 5, 5, 5),
                dns_server(119, 29, 29, 29),
                dns_server(8, 8, 8, 8),
                dns_server(1, 1, 1, 1),
            ],
            r.timeout@ == secs(3),
            r.attempts == 2,
            r.concurrent == r.servers@.len(),
    {
        let mut servers: Vec<SocketAddr> = Vec::new();
        servers.push(server(114, 114, 114, 114));
        servers.push(server(223, 5, 5, 5));
        servers.push(server(119, 29, 29, 29));
        servers.push(server(8, 8, 8, 8));
        servers.push(server(1, 1, 1, 1));
        proof {
            assert(servers@ =~= seq![
                dns_server(114, 114, 114, 114),
                dns_server(223, 5, 5, 5),
                dns_server(119, 29, 29, 29),
                dns_server(8, 8, 8, 8),
                dns_server(1, 1, 1, 1),
            ]);
        }
        let concurrent: usize = servers.len();
        DnsConfig { servers, timeout: Duration::from_secs(3), attempts: 2, concurrent }
    }
}

/// A name resolved to no address.
#[derive(Debug, Clone, Copy, PartialEq, Eq, Structural)]
pub struct NoRecord;

/// The addresses that a name resolved to, with the port that was asked for.
pub fn resolve(ips: &Vec<IpAddr>, port: u16) -> (r: Result<Vec<SocketAddr>, NoRecord>)
    ensures
        match r {
            Ok(v) => ips@.len() > 0 && v@ == at_port(ips@, port),
            Err(_) => ips@.len() == 0,
        },
        match r {
            Ok(v) => ips@.len() > 0 && v@ == ips@.map_values(
                |ip: IpAddr| SocketAddr { ip, port },
            ),
            Err(_) => ips@.len() == 0,
        },
{
    if ips.len() == 0 {
        return Err(NoRecord);
    }
    let mut out: Vec<SocketAddr> = Vec::new();
    let mut i: usize = 0;
    while i < ips.len()
        invariant
            i <= ips@.len(),
            out@.len() == i,
            forall|j: int| 0 <= j < i ==> out@[j] == (SocketAddr { ip: ips@[j], port }),
        decreases ips@.len() - i,
    {
        out.push(SocketAddr { ip: ips[i], port });
        i = i + 1;
    }
    proof {
        assert(out@ =~= ips@.map_values(|ip: IpAddr| SocketAddr { ip, port }));
    }
    Ok(out)
}

/// The servers that are asked.
pub open spec fn default_servers() -> Seq<SocketAddr> {
    seq![
        dns_server(114, 114, 114, 114),
        dns_server(223, 5, 5, 5),
        dns_server(119, 29, 29, 29),
        dns_server(8, 8, 8, 8),
        dns_server(1, 1, 1, 1),
    ]
}

/// The addresses, each at the port.
pub open spec fn at_port(ips: Seq<IpAddr>, port: u16) -> Seq<SocketAddr> {
    ips.map_values(|ip: IpAddr| SocketAddr { ip, port })
}

/// Every server is asked at the port of name service, at an address of the fourth version,
/// and no two are the same.
pub proof fn lemma_servers(i: int, j: int)
    requires
        0 <= i < j < 5,
    ensures
        default_servers().len() == 5,
        default_servers()[i].port == 53 && default_servers()[i].ip is V4,
        default_servers()[j].port == 53 && default_servers()[j].ip is V4,
        default_servers()[i] != default_servers()[j],
        default_servers()[0].ip == IpAddr::V4(Ipv4Addr { a: 114, b: 114, c: 114, d: 114 }),
{
}

/// Each address that a name has is given once, in its order, at the port that was asked
/// for.
pub proof fn lemma_resolved(ips: Seq<IpAddr>, port: u16, i: int)
    ensures
        at_port(ips, port).len() == ips.len(),
        0 <= i < ips.len() ==> at_port(ips, port)[i].ip == ips[i] && at_port(ips, port)[i].port
            == port,
{
}

} // verus!
