//! Opening a direct datagram path between two nodes behind translators.

use vstd::prelude::*;

use crate::addr::SocketAddr;
use crate::string_map::{entries_with, key_position, lemma_key_position, StringMap};
use crate::text::texts;
use crate::traversal::stun::{succeeded, two_probe_type, detect_nat_type, NatType, StunResult};

verus! {

/// How a path is opened.
#[derive(Debug, Clone)]
pub struct HolePunchConfig {
    /// How long to wait for the peer, in milliseconds.
    pub punch_timeout_ms: u64,
    /// How often to try.
    pub max_retries: u32,
    /// Pause between packets, in milliseconds.
    pub punch_interval_ms: u64,
    /// Packets per try.
    pub punch_packet_count: u32,
    /// Servers that tell the outer address.
    pub stun_servers: Vec<String>,
    /// Whether ports are guessed behind a symmetric translator.
    pub enable_port_prediction: bool,
    /// How many ports are guessed.
    pub port_prediction_range: u16,
}

impl Default for HolePunchConfig {
    fn default() -> (r: Self)
        ensures
            r.punch_timeout_ms == 5000,
            r.max_retries == 3,
            r.punch_interval_ms == 100,
            r.punch_packet_count == 10,
            texts(r.stun_servers@) == seq![
                "stun.l.google.com:19302"@,
                "stun1.l.google.com:19302"@,
            ],
            r.enable_port_prediction,
            r.port_prediction_range == 100,
    {
        let mut servers: Vec<String> = Vec::new();
        servers.push("stun.l.google.com:19302".to_owned());
        servers.push("stun1.l.google.com:19302".to_owned());
        proof {
            assert(texts(servers@) =~= seq![
                "stun.l.google.com:19302"@,
                "stun1.l.google.com:19302"@,
            ]);
        }
        HolePunchConfig {
            punch_timeout_ms: 5000,
            max_retries: 3,
            punch_interval_ms: 100,
            punch_packet_count: 10,
            stun_servers: servers,
            enable_port_prediction: true,
            port_prediction_range: 100,
        }
    }
}

/// How an attempt to open a path ended.
#[derive(Debug, Clone)]
pub struct HolePunchResult {
    /// Whether the peer answered.
    pub success: bool,
    /// Where the peer answered from.
    pub peer_addr: Option<SocketAddr>,
    /// The own outer address.
    pub local_mapped_addr: Option<SocketAddr>,
    /// Milliseconds that it took.
    pub duration_ms: u64,
    /// The number of the last try, from zero.
    pub retries: u32,
    /// Name of the own translator's type.
    pub nat_type: String,
    /// What went wrong with the last try, if all failed.
    pub error: Option<String>,
    /// Name of the way in which packets were sent.
    pub strategy: String,
}

/// How often opening a path went well or failed.
#[derive(Debug, Clone)]
pub struct HolePunchStats {
    pub total_attempts: u64,
    pub success_count: u64,
    pub failure_count: u64,
    /// Milliseconds that all attempts took; the mean is their quotient by the
    /// number of attempts.
    pub total_duration_ms: u128,
    /// Successes by the own translator's type.
    pub nat_type_success: StringMap<u64>,
    /// Failures by the own translator's type.
    pub nat_type_failure: StringMap<u64>,
}

/// The count of a name, zero where nothing was counted.
pub open spec fn count_of(m: Map<Seq<char>, u64>, name: Seq<char>) -> u64 {
    if m.dom().contains(name) {
        m[name]
    } else {
        0
    }
}

/// The sum of the counts of all names.
pub open spec fn count_sum(es: Seq<(String, u64)>) -> nat
    decreases es.len(),
{
    if es.len() == 0 {
        0
    } else {
        count_sum(es.drop_last()) + es.last().1 as nat
    }
}

proof fn lemma_count_sum_update(es: Seq<(String, u64)>, i: int, e: (String, u64))
    requires
        0 <= i < es.len(),
    ensures
        count_sum(es.update(i, e)) == count_sum(es) - es[i].1 + e.1,
        es[i].1 <= count_sum(es),
    decreases es.len(),
{
    let us = es.update(i, e);
    if i == es.len() - 1 {
        assert(us.drop_last() =~= es.drop_last());
    } else {
        lemma_count_sum_update(es.drop_last(), i, e);
        assert(us.drop_last() =~= es.drop_last().update(i, e));
    }
}

/// The counts after one more attempt with the given result.
pub open spec fn counts_one(
    before: HolePunchStats,
    after: HolePunchStats,
    result: HolePunchResult,
) -> bool {
    &&& after.total_attempts == before.total_attempts + 1
    &&& after.total_duration_ms == before.total_duration_ms + result.duration_ms
    &&& if result.success {
        &&& after.success_count == before.success_count + 1
        &&& after.failure_count == before.failure_count
        &&& after.nat_type_success@ == before.nat_type_success@.insert(
            result.nat_type@,
            (count_of(before.nat_type_success@, result.nat_type@) + 1) as u64,
        )
        &&& after.nat_type_failure == before.nat_type_failure
    } else {
        &&& after.failure_count == before.failure_count + 1
        &&& after.success_count == before.success_count
        &&& after.nat_type_failure@ == before.nat_type_failure@.insert(
            result.nat_type@,
            (count_of(before.nat_type_failure@, result.nat_type@) + 1) as u64,
        )
        &&& after.nat_type_success == before.nat_type_success
    }
}

impl HolePunchStats {
    /// The parts are sound, every attempt is counted once, and the counts by type
    /// add up to those of all.
    pub open spec fn wf(self) -> bool {
        &&& self.nat_type_success.wf()
        &&& self.nat_type_failure.wf()
        &&& self.total_attempts == self.success_count + self.failure_count
        &&& count_sum(self.nat_type_success.entries@) == self.success_count
        &&& count_sum(self.nat_type_failure.entries@) == self.failure_count
        &&& self.total_duration_ms <= self.total_attempts * u64::MAX
    }

    /// How many attempts succeeded, of how many; the success rate is their
    /// quotient, and zero where there was none.
    pub fn success_ratio(&self) -> (r: (u64, u64))
        ensures
            r == (self.success_count, self.total_attempts),
    {
        (self.success_count, self.total_attempts)
    }

    /// Counts one attempt.
    pub fn record(&mut self, result: &HolePunchResult)
        requires
            old(self).wf(),
            old(self).total_attempts < u64::MAX,
        ensures
            final(self).wf(),
            counts_one(*old(self), *final(self), *result),
    {
        proof {
            assert((self.total_attempts + 1) * u64::MAX == self.total_attempts * u64::MAX
                + u64::MAX) by (nonlinear_arith);
            assert(self.total_attempts * u64::MAX <= u64::MAX * u64::MAX) by (nonlinear_arith)
                requires
                    self.total_attempts <= u64::MAX,
            ;
        }
        self.total_attempts = self.total_attempts + 1;
        self.total_duration_ms = self.total_duration_ms + result.duration_ms as u128;
        if result.success {
            self.success_count = self.success_count + 1;
            bump(&mut self.nat_type_success, result.nat_type.as_str());
        } else {
            self.failure_count = self.failure_count + 1;
            bump(&mut self.nat_type_failure, result.nat_type.as_str());
        }
    }
}

impl Default for HolePunchStats {
    fn default() -> (r: Self)
        ensures
            r.wf(),
            r.total_attempts == 0,
            r.total_duration_ms == 0,
            r.nat_type_success@ == Map::<Seq<char>, u64>::empty(),
            r.nat_type_failure@ == Map::<Seq<char>, u64>::empty(),
            tallies(r, Seq::empty()),
    {
        HolePunchStats {
            total_attempts: 0,
            success_count: 0,
            failure_count: 0,
            total_duration_ms: 0,
            nat_type_success: StringMap::new(),
            nat_type_failure: StringMap::new(),
        }
    }
}

/// How many results are of the given outcome.
pub open spec fn ended(results: Seq<HolePunchResult>, success: bool) -> nat
    decreases results.len(),
{
    if results.len() == 0 {
        0
    } else {
        ended(results.drop_last(), success) + (if results.last().success == success {
            1nat
        } else {
            0
        })
    }
}

/// How many results are of the given outcome and type.
pub open spec fn ended_of(results: Seq<HolePunchResult>, success: bool, name: Seq<char>) -> nat
    decreases results.len(),
{
    if results.len() == 0 {
        0
    } else {
        ended_of(results.drop_last(), success, name) + (if results.last().success == success
            && results.last().nat_type@ == name {
            1nat
        } else {
            0
        })
    }
}

/// How long all of them took.
pub open spec fn duration_sum(results: Seq<HolePunchResult>) -> nat
    decreases results.len(),
{
    if results.len() == 0 {
        0
    } else {
        duration_sum(results.drop_last()) + results.last().duration_ms as nat
    }
}

/// Whether the counts are those of the given results, in all and by type.
pub open spec fn tallies(s: HolePunchStats, results: Seq<HolePunchResult>) -> bool {
    &&& s.total_attempts == results.len()
    &&& s.success_count == ended(results, true)
    &&& s.failure_count == ended(results, false)
    &&& s.total_duration_ms == duration_sum(results)
    &&& forall|n: Seq<char>|
        #[trigger] count_of(s.nat_type_success@, n) == ended_of(results, true, n)
    &&& forall|n: Seq<char>|
        #[trigger] count_of(s.nat_type_failure@, n) == ended_of(results, false, n)
}

/// Counting one attempt more keeps the counts those of all results so far.
pub proof fn lemma_record_tallies(
    before: HolePunchStats,
    after: HolePunchStats,
    results: Seq<HolePunchResult>,
    result: HolePunchResult,
)
    requires
        before.wf(),
        before.total_attempts < u64::MAX,
        tallies(before, results),
        counts_one(before, after, result),
    ensures
        tallies(after, results.push(result)),
{
    let all = results.push(result);
    assert(all.drop_last() =~= results);
    lemma_count_at_most_sum(before.nat_type_success, result.nat_type@);
    lemma_count_at_most_sum(before.nat_type_failure, result.nat_type@);
    assert forall|n: Seq<char>|
        #[trigger] count_of(after.nat_type_success@, n) == ended_of(all, true, n) by {
        assert(count_of(before.nat_type_success@, n) == ended_of(results, true, n));
    }
    assert forall|n: Seq<char>|
        #[trigger] count_of(after.nat_type_failure@, n) == ended_of(all, false, n) by {
        assert(count_of(before.nat_type_failure@, n) == ended_of(results, false, n));
    }
}

/// The counts by type add up to the successes and to the failures, and these to all
/// attempts.
pub proof fn lemma_types_add_up(s: HolePunchStats)
    requires
        s.wf(),
    ensures
        count_sum(s.nat_type_success.entries@) == s.success_count,
        count_sum(s.nat_type_failure.entries@) == s.failure_count,
        s.success_count + s.failure_count == s.total_attempts,
{
}

proof fn lemma_count_at_most_sum(m: StringMap<u64>, name: Seq<char>)
    ensures
        count_of(m@, name) <= count_sum(m.entries@),
{
    let es = m.entries@;
    lemma_key_position(es, name);
    let i = key_position(es, name);
    if i < es.len() {
        lemma_count_sum_update(es, i, es[i]);
    }
}

/// Adds one to the count of a name.
fn bump(m: &mut StringMap<u64>, name: &str)
    requires
        old(m).wf(),
        count_sum(old(m).entries@) < u64::MAX,
    ensures
        final(m).wf(),
        final(m)@ == old(m)@.insert(name@, (count_of(old(m)@, name@) + 1) as u64),
        count_sum(final(m).entries@) == count_sum(old(m).entries@) + 1,
{
    proof {
        let es = m.entries@;
        lemma_count_at_most_sum(*m, name@);
        lemma_key_position(es, name@);
        assert forall|k: String, v: u64|
            k@ == name@ implies #[trigger] count_sum(entries_with(es, k, v)) == count_sum(es)
            - count_of(m@, name@) + v by {
            let i = key_position(es, name@);
            if i < es.len() {
                lemma_count_sum_update(es, i, (k, v));
            } else {
                assert(es.push((k, v)).drop_last() =~= es);
            }
        }
    }
    let had: u64 = match m.get(name) {
        Some(v) => *v,
        None => 0,
    };
    m.insert(name.to_owned(), had + 1);
}

/// The way in which packets are sent, by the own translator's type.
pub open spec fn strategy_name(nat_type: NatType, enable_port_prediction: bool) -> Seq<char> {
    match nat_type {
        NatType::OpenInternet => "direct_connection"@,
        NatType::FullCone => "simple_punch"@,
        NatType::RestrictedCone => "sequential_punch"@,
        NatType::PortRestrictedCone => "simultaneous_punch"@,
        NatType::Symmetric => if enable_port_prediction {
            "port_prediction"@
        } else {
            "simultaneous_punch"@
        },
        NatType::Unknown => "simultaneous_punch"@,
    }
}

/// The name of a translator's type as results carry it.
pub open spec fn type_label(nat_type: NatType) -> Seq<char> {
    match nat_type {
        NatType::OpenInternet => "OpenInternet"@,
        NatType::FullCone => "FullCone"@,
        NatType::RestrictedCone => "RestrictedCone"@,
        NatType::PortRestrictedCone => "PortRestrictedCone"@,
        NatType::Symmetric => "Symmetric"@,
        NatType::Unknown => "Unknown"@,
    }
}

fn label_of(nat_type: NatType) -> (r: &'static str)
    ensures
        r@ == type_label(nat_type),
{
    match nat_type {
        NatType::OpenInternet => "OpenInternet",
        NatType::FullCone => "FullCone",
        NatType::RestrictedCone => "RestrictedCone",
        NatType::PortRestrictedCone => "PortRestrictedCone",
        NatType::Symmetric => "Symmetric",
        NatType::Unknown => "Unknown",
    }
}

/// Chooses the way in which packets are sent.
pub fn choose_strategy(nat_type: NatType, enable_port_prediction: bool) -> (r: &'static str)
    ensures
        r@ == strategy_name(nat_type, enable_port_prediction),
{
    match nat_type {
        NatType::OpenInternet => "direct_connection",
        NatType::FullCone => "simple_punch",
        NatType::RestrictedCone => "sequential_punch",
        NatType::PortRestrictedCone => "simultaneous_punch",
        NatType::Symmetric => {
            if enable_port_prediction {
                "port_prediction"
            } else {
                "simultaneous_punch"
            }
        },
        NatType::Unknown => "simultaneous_punch",
    }
}

/// What the packets that open a path hold.
pub fn punch_payload() -> (r: &'static str)
    ensures
        r@ == "PDC_HOLE_PUNCH"@,
{
    "PDC_HOLE_PUNCH"
}

/// One step of a try.
#[derive(Debug, Clone, Copy, PartialEq, Eq, Structural)]
pub enum PunchStep {
    /// Send a packet there.
    Send(SocketAddr),
    /// Do nothing for so many milliseconds.
    Pause(u64),
    /// Wait for the peer for so many milliseconds; an answer ends the try, none
    /// does not.
    Poll(u64),
    /// Wait for the peer for so many milliseconds; the try ends either way.
    Await(u64),
}

/// `n` packets to one address with a pause after each.
pub open spec fn paced_steps(peer: SocketAddr, interval_ms: u64, n: nat) -> Seq<PunchStep>
    decreases n,
{
    if n == 0 {
        Seq::empty()
    } else {
        paced_steps(peer, interval_ms, (n - 1) as nat).push(PunchStep::Send(peer)).push(
            PunchStep::Pause(interval_ms),
        )
    }
}

/// `n` packets to one address at once.
pub open spec fn burst_steps(peer: SocketAddr, n: nat) -> Seq<PunchStep> {
    Seq::new(n, |i: int| PunchStep::Send(peer))
}

/// The address `offset` ports further on; the ports go round.
pub open spec fn guessed(peer: SocketAddr, offset: int) -> SocketAddr {
    SocketAddr { ip: peer.ip, port: ((peer.port + offset) % 0x1_0000) as u16 }
}

/// One packet to each of `n` ports, with a look at the answers at every tenth.
pub open spec fn guess_steps(peer: SocketAddr, n: nat) -> Seq<PunchStep>
    decreases n,
{
    if n == 0 {
        Seq::empty()
    } else {
        let sent = guess_steps(peer, (n - 1) as nat).push(PunchStep::Send(guessed(peer, n - 1)));
        if (n - 1) % 10 == 0 {
            sent.push(PunchStep::Poll(50))
        } else {
            sent
        }
    }
}

/// The steps of one try.
pub open spec fn punch_steps(
    config: HolePunchConfig,
    nat_type: NatType,
    peer: SocketAddr,
) -> Seq<PunchStep> {
    let sent = if nat_type is OpenInternet || nat_type is FullCone {
        paced_steps(peer, config.punch_interval_ms, config.punch_packet_count as nat)
    } else if nat_type is Symmetric && config.enable_port_prediction {
        guess_steps(peer, config.port_prediction_range as nat)
    } else {
        burst_steps(peer, config.punch_packet_count as nat)
    };
    sent.push(PunchStep::Await(config.punch_timeout_ms))
}

/// Plans the steps of one try.
pub fn plan_punch(config: &HolePunchConfig, nat_type: NatType, peer: SocketAddr) -> (r: Vec<
    PunchStep,
>)
    ensures
        r@ == punch_steps(*config, nat_type, peer),
{
    let mut out: Vec<PunchStep> = Vec::new();
    if matches!(nat_type, NatType::OpenInternet | NatType::FullCone) {
        let mut i: u32 = 0;
        while i < config.punch_packet_count
            invariant
                i <= config.punch_packet_count,
                out@ == paced_steps(peer, config.punch_interval_ms, i as nat),
            decreases config.punch_packet_count - i,
        {
            out.push(PunchStep::Send(peer));
            out.push(PunchStep::Pause(config.punch_interval_ms));
            i = i + 1;
        }
    } else if matches!(nat_type, NatType::Symmetric) && config.enable_port_prediction {
        let mut i: u16 = 0;
        while i < config.port_prediction_range
            invariant
                i <= config.port_prediction_range,
                out@ == guess_steps(peer, i as nat),
            decreases config.port_prediction_range - i,
        {
            let target = SocketAddr { ip: peer.ip, port: peer.port.wrapping_add(i) };
            proof {
                assert(target == guessed(peer, i as int));
            }
            out.push(PunchStep::Send(target));
            if i % 10 == 0 {
                out.push(PunchStep::Poll(50));
            }
            i = i + 1;
        }
    } else {
        let mut i: u32 = 0;
        proof {
            assert(out@ =~= burst_steps(peer, 0));
        }
        while i < config.punch_packet_count
            invariant
                i <= config.punch_packet_count,
                out@ == burst_steps(peer, i as nat),
            decreases config.punch_packet_count - i,
        {
            out.push(PunchStep::Send(peer));
            i = i + 1;
            proof {
                assert(out@ =~= burst_steps(peer, i as nat));
            }
        }
    }
    out.push(PunchStep::Await(config.punch_timeout_ms));
    out
}

/// The packet to the `i`-th guessed port is among the steps.
pub proof fn lemma_every_guess_is_sent(peer: SocketAddr, n: nat, i: int)
    requires
        0 <= i < n,
    ensures
        guess_steps(peer, n).contains(PunchStep::Send(guessed(peer, i))),
    decreases n,
{
    let before = guess_steps(peer, (n - 1) as nat);
    let s = PunchStep::Send(guessed(peer, i));
    let all = guess_steps(peer, n);
    if i == n - 1 {
        assert(all[before.len() as int] == s);
    } else {
        lemma_every_guess_is_sent(peer, (n - 1) as nat, i);
        let k = choose|k: int| 0 <= k < before.len() && before[k] == s;
        assert(all[k] == s);
    }
}

/// An attempt under way with one peer.
#[derive(Debug)]
pub struct HolePunchSession {
    pub peer_id: String,
    pub peer_addr: SocketAddr,
    pub start_time: std::time::Instant,
    pub retries: u32,
    pub success: bool,
}

/// Opens paths to peers; the socket is elsewhere.
#[derive(Debug)]
pub struct HolePuncher {
    pub config: HolePunchConfig,
    pub mapped_addr: Option<SocketAddr>,
    pub nat_type: NatType,
    pub stats: HolePunchStats,
    pub active_sessions: StringMap<HolePunchSession>,
}

/// What to do next in an attempt.
#[derive(Debug, Clone, Copy, PartialEq, Eq, Structural)]
pub enum PunchAction {
    /// Make a try.
    Try,
    /// Wait for so many milliseconds, then make a try.
    WaitThenTry(u64),
    /// Wait for so many milliseconds, then finish.
    WaitThenFinish(u64),
    /// Finish.
    Finish,
}

/// An attempt: the result so far.
#[derive(Debug)]
pub struct PunchRun {
    pub max_retries: u32,
    pub interval_ms: u64,
    pub peer_addr: SocketAddr,
    pub nat_type: NatType,
    /// How many tries were made.
    pub tries: u32,
    pub result: HolePunchResult,
}

/// No server told the outer address.
#[derive(Debug, Clone, Copy, PartialEq, Eq, Structural)]
pub struct NoMappedAddress;

/// The first address that a successful probe reports.
pub open spec fn first_mapped(outcomes: Seq<Option<StunResult>>) -> Option<SocketAddr>
    decreases outcomes.len(),
{
    if outcomes.len() == 0 {
        None
    } else if succeeded(outcomes[0]) && outcomes[0]->0.mapped_addr is Some {
        outcomes[0]->0.mapped_addr
    } else {
        first_mapped(outcomes.drop_first())
    }
}

impl HolePuncher {
    /// The statistics and the sessions are sound.
    pub open spec fn wf(self) -> bool {
        self.stats.wf() && self.active_sessions.wf()
    }

    /// Nothing is known of the own translator yet.
    pub fn new(config: HolePunchConfig) -> (r: Self)
        ensures
            r.wf(),
            r.config == config,
            r.mapped_addr is None,
            r.nat_type is Unknown,
            r.stats.total_attempts == 0,
            r.stats.total_duration_ms == 0,
            r.stats.nat_type_success@ == Map::<Seq<char>, u64>::empty(),
            r.stats.nat_type_failure@ == Map::<Seq<char>, u64>::empty(),
            r.active_sessions.entries@.len() == 0,
    {
        HolePuncher {
            config,
            mapped_addr: None,
            nat_type: NatType::Unknown,
            stats: HolePunchStats::default(),
            active_sessions: StringMap::new(),
        }
    }

    /// Keeps the outer address that the first server told, given what each
    /// server gave in order; `None` stands for one that could not be asked.
    pub fn discover_mapped_address(&mut self, outcomes: &Vec<Option<StunResult>>) -> (r: Result<
        SocketAddr,
        NoMappedAddress,
    >)
        ensures
            match r {
                Ok(a) => first_mapped(outcomes@) == Some(a) && *final(self) == (HolePuncher {
                    mapped_addr: Some(a),
                    ..*old(self)
                }),
                Err(_) => first_mapped(outcomes@) is None && *final(self) == *old(self),
            },
    {
        let mut i: usize = 0;
        proof {
            assert(outcomes@.skip(0) =~= outcomes@);
        }
        while i < outcomes.len()
            invariant
                i <= outcomes@.len(),
                *self == *old(self),
                first_mapped(outcomes@) == first_mapped(outcomes@.skip(i as int)),
            decreases outcomes@.len() - i,
        {
            proof {
                assert(outcomes@.skip(i as int).drop_first() =~= outcomes@.skip(i + 1));
            }
            if let Some(x) = &outcomes[i] {
                if x.success {
                    if let Some(a) = x.mapped_addr {
                        self.mapped_addr = Some(a);
                        return Ok(a);
                    }
                }
            }
            i = i + 1;
        }
        Err(NoMappedAddress)
    }

    /// Keeps the type of the own translator, from what the first two servers
    /// gave. Fewer than two servers leave it unknown; where the socket's own
    /// address cannot be told, nothing is kept.
    pub fn detect_nat_type(
        &mut self,
        local_known: bool,
        result_a: Option<&StunResult>,
        result_b: Option<&StunResult>,
    ) -> (r: NatType)
        ensures
            final(self).nat_type == kept_type(
                old(self).config.stun_servers@.len(),
                local_known,
                r,
                old(self).nat_type,
            ),
            old(self).config.stun_servers@.len() < 2 || !local_known ==> r is Unknown,
            r == if old(self).config.stun_servers@.len() < 2 || !local_known {
                NatType::Unknown
            } else {
                two_probe_type(
                    match result_a {
                        Some(x) => Some(*x),
                        None => None,
                    },
                    match result_b {
                        Some(x) => Some(*x),
                        None => None,
                    },
                )
            },
            *final(self) == (HolePuncher {
                nat_type: if old(self).config.stun_servers@.len() >= 2 && !local_known {
                    old(self).nat_type
                } else {
                    r
                },
                ..*old(self)
            }),
    {
        if self.config.stun_servers.len() < 2 {
            self.nat_type = NatType::Unknown;
            return NatType::Unknown;
        }
        if !local_known {
            return NatType::Unknown;
        }
        let t = detect_nat_type(result_a, result_b);
        self.nat_type = t;
        t
    }

    /// Begins an attempt: a session is kept under the peer's id.
    pub fn begin_punch(&mut self, peer_addr: SocketAddr, peer_id: &str, start: std::time::Instant) -> (r:
        PunchRun)
        requires
            old(self).wf(),
        ensures
            r.is_begun(old(self).config, old(self).mapped_addr, old(self).nat_type, peer_addr),
            final(self).wf(),
            final(self).config == old(self).config,
            final(self).mapped_addr == old(self).mapped_addr,
            final(self).nat_type == old(self).nat_type,
            final(self).stats == old(self).stats,
            final(self).active_sessions@.dom() == old(self).active_sessions@.dom().insert(peer_id@),
            final(self).active_sessions@[peer_id@].peer_id@ == peer_id@,
            final(self).active_sessions@[peer_id@].peer_addr == peer_addr,
            final(self).active_sessions@[peer_id@].start_time == start,
            final(self).active_sessions@[peer_id@].retries == 0,
            !final(self).active_sessions@[peer_id@].success,
            forall|k: Seq<char>|
                k != peer_id@ && old(self).active_sessions@.dom().contains(k)
                    ==> #[trigger] final(self).active_sessions@[k] == old(self).active_sessions@[k],
            r.max_retries == old(self).config.max_retries,
            r.interval_ms == old(self).config.punch_interval_ms,
            r.peer_addr == peer_addr,
            r.nat_type == old(self).nat_type,
            r.fresh(),
            r.result.local_mapped_addr == old(self).mapped_addr,
            r.result.nat_type@ == type_label(old(self).nat_type),
            r.result.strategy@ == strategy_name(
                old(self).nat_type,
                old(self).config.enable_port_prediction,
            ),
    {
        let session = HolePunchSession {
            peer_id: peer_id.to_owned(),
            peer_addr,
            start_time: start,
            retries: 0,
            success: false,
        };
        let ghost before = self.active_sessions@;
        self.active_sessions.insert(peer_id.to_owned(), session);
        proof {
            assert(self.active_sessions@.dom() =~= before.dom().insert(peer_id@));
        }
        PunchRun {
            max_retries: self.config.max_retries,
            interval_ms: self.config.punch_interval_ms,
            peer_addr,
            nat_type: self.nat_type,
            tries: 0,
            result: HolePunchResult {
                success: false,
                peer_addr: None,
                local_mapped_addr: self.mapped_addr,
                duration_ms: 0,
                retries: 0,
                nat_type: label_of(self.nat_type).to_owned(),
                error: None,
                strategy: choose_strategy(
                    self.nat_type,
                    self.config.enable_port_prediction,
                ).to_owned(),
            },
        }
    }

    /// Ends an attempt that took so many milliseconds: it is counted, and the
    /// session takes note of it.
    pub fn finish_punch(&mut self, run: PunchRun, peer_id: &str, duration_ms: u64) -> (r:
        HolePunchResult)
        requires
            old(self).wf(),
            old(self).stats.total_attempts < u64::MAX,
        ensures
            final(self).wf(),
            r == (HolePunchResult { duration_ms, ..run.result }),
            counts_one(old(self).stats, final(self).stats, r),
            final(self).config == old(self).config,
            final(self).mapped_addr == old(self).mapped_addr,
            final(self).nat_type == old(self).nat_type,
            final(self).active_sessions@.dom() == old(self).active_sessions@.dom(),
            old(self).active_sessions@.dom().contains(peer_id@)
                ==> final(self).active_sessions@[peer_id@] == (HolePunchSession {
                success: r.success,
                retries: r.retries,
                ..old(self).active_sessions@[peer_id@]
            }),
            forall|k: Seq<char>|
                k != peer_id@ && old(self).active_sessions@.dom().contains(k)
                    ==> #[trigger] final(self).active_sessions@[k] == old(self).active_sessions@[k],
    {
        let mut result = run.result;
        result.duration_ms = duration_ms;
        self.stats.record(&result);
        let ghost before = self.active_sessions@;
        match self.active_sessions.remove(peer_id) {
            Some(s) => {
                let mut session = s;
                session.success = result.success;
                session.retries = result.retries;
                self.active_sessions.insert(peer_id.to_owned(), session);
                proof {
                    assert(self.active_sessions@.dom() =~= before.dom());
                }
            },
            None => {
                proof {
                    assert(self.active_sessions@.dom() =~= before.dom());
                }
            },
        }
        result
    }

    /// The outer address, where it is known.
    pub fn mapped_address(&self) -> (r: Option<SocketAddr>)
        ensures
            r == self.mapped_addr,
    {
        self.mapped_addr
    }

    /// The type of the own translator.
    pub fn nat_type(&self) -> (r: NatType)
        ensures
            r == self.nat_type,
    {
        self.nat_type
    }

    /// The counts.
    pub fn stats(&self) -> (r: &HolePunchStats)
        ensures
            *r == self.stats,
    {
        &self.stats
    }

    /// How many peers a session is kept for.
    pub fn active_session_count(&self) -> (r: usize)
        ensures
            r == self.active_sessions.entries@.len(),
    {
        self.active_sessions.len()
    }
}

impl PunchRun {
    /// Whether this run was begun with these settings, for this peer.
    pub open spec fn is_begun(
        self,
        config: HolePunchConfig,
        mapped_addr: Option<SocketAddr>,
        nat_type: NatType,
        peer_addr: SocketAddr,
    ) -> bool {
        &&& self.fresh()
        &&& self.max_retries == config.max_retries
        &&& self.interval_ms == config.punch_interval_ms
        &&& self.peer_addr == peer_addr
        &&& self.nat_type == nat_type
        &&& self.result.local_mapped_addr == mapped_addr
        &&& self.result.nat_type@ == type_label(nat_type)
        &&& self.result.strategy@ == strategy_name(nat_type, config.enable_port_prediction)
    }

    /// No try was made yet.
    pub open spec fn fresh(self) -> bool {
        &&& self.tries == 0
        &&& !self.result.success
        &&& self.result.peer_addr is None
        &&& self.result.error is None
        &&& self.result.retries == 0
        &&& self.result.duration_ms == 0
    }

    /// What to do first.
    pub fn first_action(&self) -> (r: PunchAction)
        ensures
            r == opening(self.max_retries),
            r == if self.max_retries == 0 {
                PunchAction::Finish
            } else {
                PunchAction::Try
            },
    {
        if self.max_retries == 0 {
            PunchAction::Finish
        } else {
            PunchAction::Try
        }
    }

    /// Takes the outcome of one more try: the address that the peer answered from, or
    /// what went wrong. A success ends the attempt; after
    /// a failure there is a pause of twice the interval, and another try unless
    /// this was the last, whose error is then kept.
    pub fn on_try(&mut self, outcome: Result<SocketAddr, String>) -> (r: PunchAction)
        requires
            old(self).tries < old(self).max_retries,
            outcome is Err ==> 2 * old(self).interval_ms <= u64::MAX,
        ensures
            r == next_action(
                old(self).tries as nat,
                old(self).max_retries as nat,
                old(self).interval_ms as nat,
                outcome is Ok,
            ),
            *final(self) == (PunchRun {
                tries: (old(self).tries + 1) as u32,
                result: after_try(
                    old(self).result,
                    old(self).max_retries,
                    old(self).tries,
                    outcome,
                ),
                ..*old(self)
            }),
            r == match outcome {
                Ok(_) => PunchAction::Finish,
                Err(_) => if old(self).tries == old(self).max_retries - 1 {
                    PunchAction::WaitThenFinish((2 * old(self).interval_ms) as u64)
                } else {
                    PunchAction::WaitThenTry((2 * old(self).interval_ms) as u64)
                },
            },
    {
        let retry: u32 = self.tries;
        self.tries = retry + 1;
        self.result.retries = retry;
        match outcome {
            Ok(a) => {
                self.result.success = true;
                self.result.peer_addr = Some(a);
                PunchAction::Finish
            },
            Err(e) => {
                let pause: u64 = self.interval_ms * 2;
                if retry == self.max_retries - 1 {
                    self.result.error = Some(e);
                    PunchAction::WaitThenFinish(pause)
                } else {
                    PunchAction::WaitThenTry(pause)
                }
            },
        }
    }
}

/// The result after one more try, with the given number and outcome.
pub open spec fn after_try(
    before: HolePunchResult,
    max_retries: u32,
    retry: u32,
    outcome: Result<SocketAddr, String>,
) -> HolePunchResult {
    match outcome {
        Ok(a) => HolePunchResult { success: true, peer_addr: Some(a), retries: retry, ..before },
        Err(e) => if retry == max_retries - 1 {
            HolePunchResult { error: Some(e), retries: retry, ..before }
        } else {
            HolePunchResult { retries: retry, ..before }
        },
    }
}

/// The result after the tries with the given outcomes, in order.
pub open spec fn result_after(
    start: HolePunchResult,
    max_retries: u32,
    outcomes: Seq<Result<SocketAddr, String>>,
) -> HolePunchResult
    decreases outcomes.len(),
{
    if outcomes.len() == 0 {
        start
    } else {
        after_try(
            result_after(start, max_retries, outcomes.drop_last()),
            max_retries,
            (outcomes.len() - 1) as u32,
            outcomes.last(),
        )
    }
}

/// An attempt that ends with an answer, after tries that failed, succeeds with
/// the answer's address, counts those tries and keeps no error.
pub proof fn lemma_punch_success(
    start: HolePunchResult,
    max_retries: u32,
    outcomes: Seq<Result<SocketAddr, String>>,
)
    requires
        0 < outcomes.len() <= max_retries,
        outcomes.last() is Ok,
        forall|i: int| 0 <= i < outcomes.len() - 1 ==> (#[trigger] outcomes[i]) is Err,
        !start.success,
        start.error is None,
    ensures
        ({
            let r = result_after(start, max_retries, outcomes);
            &&& r.success
            &&& r.peer_addr == Some(outcomes.last()->Ok_0)
            &&& r.retries == outcomes.len() - 1
            &&& r.error is None
        }),
{
    lemma_punch_failures(start, max_retries, outcomes.drop_last());
}

/// An attempt whose tries all failed is no success; once the last allowed try
/// has failed, its error is kept.
pub proof fn lemma_punch_failures(
    start: HolePunchResult,
    max_retries: u32,
    outcomes: Seq<Result<SocketAddr, String>>,
)
    requires
        outcomes.len() <= max_retries,
        forall|i: int| 0 <= i < outcomes.len() ==> (#[trigger] outcomes[i]) is Err,
        !start.success,
        start.error is None,
    ensures
        ({
            let r = result_after(start, max_retries, outcomes);
            &&& !r.success
            &&& r.peer_addr == start.peer_addr
            &&& outcomes.len() > 0 ==> r.retries == outcomes.len() - 1
            &&& outcomes.len() < max_retries ==> r.error is None
            &&& 0 < outcomes.len() == max_retries ==> r.error == Some(outcomes.last()->Err_0)
        }),
    decreases outcomes.len(),
{
    if outcomes.len() > 0 {
        let d = outcomes.drop_last();
        assert forall|i: int| 0 <= i < d.len() implies (#[trigger] d[i]) is Err by {
            assert(outcomes[i] is Err);
        }
        lemma_punch_failures(start, max_retries, d);
        assert(outcomes[outcomes.len() - 1] is Err);
    }
}

/// Which way of sending goes with which type of translator, and how ways and types are
/// named.
pub proof fn lemma_strategies(t: NatType, predict: bool)
    ensures
        t is OpenInternet ==> strategy_name(t, predict) == "direct_connection"@,
        t is FullCone ==> strategy_name(t, predict) == "simple_punch"@,
        t is RestrictedCone ==> strategy_name(t, predict) == "sequential_punch"@,
        t is PortRestrictedCone || t is Unknown ==> strategy_name(t, predict)
            == "simultaneous_punch"@,
        t is Symmetric && predict ==> strategy_name(t, predict) == "port_prediction"@,
        t is Symmetric && !predict ==> strategy_name(t, predict) == "simultaneous_punch"@,
        t is OpenInternet ==> type_label(t) == "OpenInternet"@,
        t is FullCone ==> type_label(t) == "FullCone"@,
        t is RestrictedCone ==> type_label(t) == "RestrictedCone"@,
        t is PortRestrictedCone ==> type_label(t) == "PortRestrictedCone"@,
        t is Symmetric ==> type_label(t) == "Symmetric"@,
        t is Unknown ==> type_label(t) == "Unknown"@,
{
}

/// How many packets the steps send.
pub open spec fn packets(steps: Seq<PunchStep>) -> nat
    decreases steps.len(),
{
    if steps.len() == 0 {
        0
    } else {
        packets(steps.drop_last()) + (if steps.last() is Send {
            1nat
        } else {
            0
        })
    }
}

proof fn lemma_push_packets(steps: Seq<PunchStep>, s: PunchStep)
    ensures
        packets(steps.push(s)) == packets(steps) + (if s is Send {
            1nat
        } else {
            0
        }),
{
    assert(steps.push(s).drop_last() =~= steps);
}

proof fn lemma_paced_packets(peer: SocketAddr, interval_ms: u64, n: nat)
    ensures
        paced_steps(peer, interval_ms, n).len() == 2 * n,
        packets(paced_steps(peer, interval_ms, n)) == n,
        forall|i: int|
            0 <= i < n ==> #[trigger] paced_steps(peer, interval_ms, n)[2 * i] == PunchStep::Send(
                peer,
            ),
        forall|i: int|
            0 <= i < n ==> #[trigger] paced_steps(peer, interval_ms, n)[2 * i + 1]
                == PunchStep::Pause(interval_ms),
    decreases n,
{
    if n > 0 {
        let m = (n - 1) as nat;
        let before = paced_steps(peer, interval_ms, m);
        lemma_paced_packets(peer, interval_ms, m);
        lemma_push_packets(before, PunchStep::Send(peer));
        lemma_push_packets(before.push(PunchStep::Send(peer)), PunchStep::Pause(interval_ms));
        let all = paced_steps(peer, interval_ms, n);
        assert forall|i: int| 0 <= i < n implies #[trigger] all[2 * i] == PunchStep::Send(peer) by {
            if i < m {
                assert(all[2 * i] == before[2 * i]);
            }
        }
        assert forall|i: int| 0 <= i < n implies #[trigger] all[2 * i + 1] == PunchStep::Pause(
            interval_ms,
        ) by {
            if i < m {
                assert(all[2 * i + 1] == before[2 * i + 1]);
            }
        }
    }
}

proof fn lemma_burst_packets(peer: SocketAddr, n: nat)
    ensures
        packets(burst_steps(peer, n)) == n,
    decreases n,
{
    if n > 0 {
        let m = (n - 1) as nat;
        assert(burst_steps(peer, n).drop_last() =~= burst_steps(peer, m));
        lemma_burst_packets(peer, m);
    }
}

proof fn lemma_guess_packets(peer: SocketAddr, n: nat)
    ensures
        packets(guess_steps(peer, n)) == n,
        forall|i: int|
            0 <= i < guess_steps(peer, n).len() ==> ((#[trigger] guess_steps(peer, n)[i]) is Send
                && guess_steps(peer, n)[i]->Send_0.ip == peer.ip) || guess_steps(peer, n)[i]
                == PunchStep::Poll(50),
    decreases n,
{
    if n > 0 {
        let m = (n - 1) as nat;
        lemma_guess_packets(peer, m);
        let before = guess_steps(peer, m);
        let sent = before.push(PunchStep::Send(guessed(peer, n - 1)));
        lemma_push_packets(before, PunchStep::Send(guessed(peer, n - 1)));
        lemma_push_packets(sent, PunchStep::Poll(50));
        let all = guess_steps(peer, n);
        assert forall|i: int| 0 <= i < all.len() implies ((#[trigger] all[i]) is Send
            && all[i]->Send_0.ip == peer.ip) || all[i] == PunchStep::Poll(50) by {
            if i < before.len() {
                assert(all[i] == before[i]);
            }
        }
    }
}

/// A try ends by waiting for the peer for the configured time. Before that it sends as
/// many packets as are configured, all of them to the peer's address: one after the
/// other with the configured pause where nothing or a full cone translates, one to each
/// guessed port behind a symmetric translator where ports are guessed, and all at once
/// else.
pub proof fn lemma_punch_plan(config: HolePunchConfig, t: NatType, peer: SocketAddr, i: int)
    ensures
        ({
            let steps = punch_steps(config, t, peer);
            let guesses = t is Symmetric && config.enable_port_prediction;
            let paced = t is OpenInternet || t is FullCone;
            &&& steps.len() > 0
            &&& steps.last() == PunchStep::Await(config.punch_timeout_ms)
            &&& guesses ==> packets(steps) == config.port_prediction_range
            &&& !guesses ==> packets(steps) == config.punch_packet_count
            &&& 0 <= i < steps.len() && steps[i] is Send ==> steps[i]->Send_0.ip == peer.ip && (
            !guesses ==> steps[i]->Send_0.port == peer.port)
            &&& paced && 0 <= i < config.punch_packet_count ==> steps[2 * i] == PunchStep::Send(peer)
                && steps[2 * i + 1] == PunchStep::Pause(config.punch_interval_ms)
            &&& !paced && !guesses && 0 <= i < config.punch_packet_count ==> steps[i]
                == PunchStep::Send(peer)
        }),
{
    let n = config.punch_packet_count as nat;
    let p = paced_steps(peer, config.punch_interval_ms, n);
    let g = guess_steps(peer, config.port_prediction_range as nat);
    let b = burst_steps(peer, n);
    let last = PunchStep::Await(config.punch_timeout_ms);
    lemma_paced_packets(peer, config.punch_interval_ms, n);
    lemma_guess_packets(peer, config.port_prediction_range as nat);
    lemma_burst_packets(peer, n);
    lemma_push_packets(p, last);
    lemma_push_packets(g, last);
    lemma_push_packets(b, last);
    let steps = punch_steps(config, t, peer);
    if 0 <= i < steps.len() - 1 && (t is OpenInternet || t is FullCone) {
        assert(steps[i] == p[i]);
        if i % 2 == 0 {
            assert(p[2 * (i / 2)] == PunchStep::Send(peer));
        } else {
            assert(p[2 * (i / 2) + 1] == PunchStep::Pause(config.punch_interval_ms));
        }
    }
}

/// The guessed ports begin with the peer's own and follow each other, round the end of
/// the range; no two of a range of ports are the same.
pub proof fn lemma_guessed_ports(peer: SocketAddr, i: int, j: int)
    requires
        0 <= i < j < 0x1_0000,
    ensures
        guessed(peer, 0) == peer,
        guessed(peer, i).ip == peer.ip,
        guessed(peer, i).port != guessed(peer, j).port,
        guessed(peer, i + 1).port == if guessed(peer, i).port == 65535 {
            0
        } else {
            guessed(peer, i).port + 1
        },
{
}

/// The outer address is the one that the first successful probe tells.
pub proof fn lemma_first_mapped(outcomes: Seq<Option<StunResult>>, k: int)
    ensures
        0 <= k < outcomes.len() && outcomes[k] is Some && outcomes[k]->0.success
            && outcomes[k]->0.mapped_addr is Some && (forall|j: int|
            0 <= j < k ==> ((#[trigger] outcomes[j]) is None || !outcomes[j]->0.success
                || outcomes[j]->0.mapped_addr is None)) ==> first_mapped(outcomes)
            == outcomes[k]->0.mapped_addr,
        (forall|j: int|
            0 <= j < outcomes.len() ==> ((#[trigger] outcomes[j]) is None || !outcomes[j]->0.success
                || outcomes[j]->0.mapped_addr is None)) ==> first_mapped(outcomes) is None,
    decreases outcomes.len(),
{
    if outcomes.len() > 0 {
        let d = outcomes.drop_first();
        lemma_first_mapped(d, k - 1);
        if 0 < k < outcomes.len() && (forall|j: int|
            0 <= j < k ==> ((#[trigger] outcomes[j]) is None || !outcomes[j]->0.success
                || outcomes[j]->0.mapped_addr is None)) {
            assert(outcomes[0] is None || !outcomes[0]->0.success || outcomes[0]->0.mapped_addr
                is None);
            assert forall|j: int| 0 <= j < k - 1 implies ((#[trigger] d[j]) is None
                || !d[j]->0.success || d[j]->0.mapped_addr is None) by {
                assert(d[j] == outcomes[j + 1]);
            }
        }
        if forall|j: int|
            0 <= j < outcomes.len() ==> ((#[trigger] outcomes[j]) is None || !outcomes[j]->0.success
                || outcomes[j]->0.mapped_addr is None) {
            assert(outcomes[0] is None || !outcomes[0]->0.success || outcomes[0]->0.mapped_addr
                is None);
            assert forall|j: int| 0 <= j < d.len() implies ((#[trigger] d[j]) is None
                || !d[j]->0.success || d[j]->0.mapped_addr is None) by {
                assert(d[j] == outcomes[j + 1]);
            }
        }
    }
}

/// What a run begins with.
pub open spec fn opening(max_retries: u32) -> PunchAction {
    if max_retries == 0 {
        PunchAction::Finish
    } else {
        PunchAction::Try
    }
}

/// What follows a try.
pub open spec fn next_action(
    tries: nat,
    max_retries: nat,
    interval_ms: nat,
    reached: bool,
) -> PunchAction {
    if reached {
        PunchAction::Finish
    } else if tries + 1 == max_retries {
        PunchAction::WaitThenFinish((2 * interval_ms) as u64)
    } else {
        PunchAction::WaitThenTry((2 * interval_ms) as u64)
    }
}

/// The type that is known after it was looked for.
pub open spec fn kept_type(
    servers: nat,
    local_known: bool,
    found: NatType,
    known: NatType,
) -> NatType {
    if servers >= 2 && !local_known {
        known
    } else {
        found
    }
}

/// There are as many tries as were allowed, and never one more; each failed try is
/// followed by a pause of twice the interval, and a try that reaches the peer by nothing.
pub proof fn lemma_tries(tries: nat, max_retries: nat, interval_ms: nat)
    requires
        tries < max_retries,
        2 * interval_ms <= u64::MAX,
    ensures
        next_action(tries, max_retries, interval_ms, true) is Finish,
        next_action(tries, max_retries, interval_ms, false) is WaitThenTry <==> tries + 1
            < max_retries,
        next_action(tries, max_retries, interval_ms, false) is WaitThenFinish <==> tries + 1
            >= max_retries,
        tries + 1 < max_retries ==> next_action(tries, max_retries, interval_ms, false)
            == PunchAction::WaitThenTry((interval_ms + interval_ms) as u64),
        tries + 1 == max_retries ==> next_action(tries, max_retries, interval_ms, false)
            == PunchAction::WaitThenFinish((interval_ms + interval_ms) as u64),
        opening(0) is Finish,
        forall|m: u32| m > 0 ==> (#[trigger] opening(m)) is Try,
{
}

/// Without the node's own address the known type stays; with fewer than two servers
/// it is lost; otherwise it is what was found.
pub proof fn lemma_kept_type(servers: nat, found: NatType, known: NatType)
    ensures
        servers >= 2 ==> kept_type(servers, false, found, known) == known,
        servers < 2 ==> kept_type(servers, false, found, known) == found,
        kept_type(servers, true, found, known) == found,
{
}

/// Guessing looks for an answer after the first guess and after every tenth from there,
/// for fifty milliseconds each time.
pub proof fn lemma_guesses_look_for_answers(peer: SocketAddr, tens: nat, more: nat)
    requires
        more < 10,
    ensures
        ({
            let n = 10 * tens + more;
            let after = guess_steps(peer, n + 1);
            &&& more == 0 ==> after == guess_steps(peer, n).push(
                PunchStep::Send(guessed(peer, n as int)),
            ).push(PunchStep::Poll(50))
            &&& more != 0 ==> after == guess_steps(peer, n).push(
                PunchStep::Send(guessed(peer, n as int)),
            )
        }),
{
}

/// What a try changes: one that reaches the peer says so and where, a failed one says
/// why only if it is the last, and each counts itself from zero.
pub proof fn lemma_after_try(
    before: HolePunchResult,
    max_retries: u32,
    retry: u32,
    a: SocketAddr,
    e: String,
)
    requires
        retry < max_retries,
    ensures
        ({
            let r = after_try(before, max_retries, retry, Ok(a));
            r.success && r.peer_addr == Some(a) && r.retries == retry && r.error == before.error
        }),
        ({
            let r = after_try(before, max_retries, retry, Err(e));
            &&& r.success == before.success && r.peer_addr == before.peer_addr && r.retries == retry
            &&& retry + 1 == max_retries ==> r.error == Some(e)
            &&& retry + 1 < max_retries ==> r.error == before.error
        }),
{
}

/// An attempt counts once in all and once for how it ended, in general and for the type
/// of the NAT; its time is added, and no other type is touched.
pub proof fn lemma_attempt_counts_once(
    before: HolePunchStats,
    after: HolePunchStats,
    result: HolePunchResult,
    other: Seq<char>,
)
    requires
        before.wf(),
        before.total_attempts < u64::MAX,
        counts_one(before, after, result),
        other != result.nat_type@,
        count_of(before.nat_type_success@, result.nat_type@) < u64::MAX,
        count_of(before.nat_type_failure@, result.nat_type@) < u64::MAX,
    ensures
        after.total_attempts == before.total_attempts + 1,
        after.total_duration_ms == before.total_duration_ms + result.duration_ms,
        after.success_count == before.success_count + (if result.success {
            1int
        } else {
            0
        }),
        after.failure_count == before.failure_count + (if result.success {
            0int
        } else {
            1
        }),
        result.success ==> after.nat_type_success@[result.nat_type@] == count_of(
            before.nat_type_success@,
            result.nat_type@,
        ) + 1 && after.nat_type_failure@ == before.nat_type_failure@,
        !result.success ==> after.nat_type_failure@[result.nat_type@] == count_of(
            before.nat_type_failure@,
            result.nat_type@,
        ) + 1 && after.nat_type_success@ == before.nat_type_success@,
        count_of(after.nat_type_success@, other) == count_of(before.nat_type_success@, other),
        count_of(after.nat_type_failure@, other) == count_of(before.nat_type_failure@, other),
{
}

/// The count of a type is what is kept for it, and nothing where nothing is.
pub proof fn lemma_counts_of_types(m: Map<Seq<char>, u64>, name: Seq<char>, n: u64)
    ensures
        count_of(m.insert(name, n), name) == n,
        count_of(m.remove(name), name) == 0,
{
}

/// A fresh run has tried nothing and tells nothing.
pub proof fn lemma_fresh_runs(run: PunchRun)
    requires
        run.fresh(),
    ensures
        run.tries == 0 && run.result.retries == 0 && run.result.duration_ms == 0,
        !run.result.success && run.result.peer_addr is None && run.result.error is None,
{
}

/// A run that was begun goes to its peer, as often as the settings allow and in the way
/// that the type of the NAT asks for, and has tried nothing yet.
pub proof fn lemma_begun_runs(
    run: PunchRun,
    config: HolePunchConfig,
    mapped_addr: Option<SocketAddr>,
    nat_type: NatType,
    peer_addr: SocketAddr,
)
    requires
        run.is_begun(config, mapped_addr, nat_type, peer_addr),
    ensures
        run.tries == 0 && !run.result.success,
        run.peer_addr == peer_addr,
        run.max_retries == config.max_retries && run.interval_ms == config.punch_interval_ms,
        run.result.local_mapped_addr == mapped_addr,
        nat_type is Symmetric && config.enable_port_prediction <==> run.result.strategy@
            == "port_prediction"@,
        nat_type is FullCone <==> run.result.strategy@ == "simple_punch"@,
        nat_type is OpenInternet <==> run.result.strategy@ == "direct_connection"@,
        nat_type is RestrictedCone <==> run.result.strategy@ == "sequential_punch"@,
{
    reveal_strlit("port_prediction");
    reveal_strlit("simple_punch");
    reveal_strlit("direct_connection");
    reveal_strlit("sequential_punch");
    reveal_strlit("simultaneous_punch");
    assert("port_prediction"@[0] == 'p' && "simple_punch"@[0] == 's' && "direct_connection"@[0]
        == 'd' && "sequential_punch"@[0] == 's' && "simultaneous_punch"@[0] == 's');
    assert("simple_punch"@.len() == 12 && "sequential_punch"@.len() == 16
        && "simultaneous_punch"@.len() == 18);
}

/// A plan holds nothing but its packets, the pauses between them where it is paced, and
/// the wait at its end.
pub proof fn lemma_length_of_a_plan(config: HolePunchConfig, t: NatType, peer: SocketAddr)
    ensures
        t is OpenInternet || t is FullCone ==> punch_steps(config, t, peer).len() == 2
            * config.punch_packet_count + 1,
        t is RestrictedCone || t is PortRestrictedCone || t is Unknown ==> punch_steps(
            config,
            t,
            peer,
        ).len() == config.punch_packet_count + 1,
        t is Symmetric && !config.enable_port_prediction ==> punch_steps(config, t, peer).len()
            == config.punch_packet_count + 1,
{
    lemma_paced_len(peer, config.punch_interval_ms, config.punch_packet_count as nat);
}

proof fn lemma_paced_len(peer: SocketAddr, interval_ms: u64, n: nat)
    ensures
        paced_steps(peer, interval_ms, n).len() == 2 * n,
    decreases n,
{
    if n > 0 {
        lemma_paced_len(peer, interval_ms, (n - 1) as nat);
    }
}

} // verus!
