//! Requests to a tracker over UDP.

use vstd::prelude::*;

use crate::bench::echo::{echo_reply, ECHO_CONNECTION_ID};
use crate::bench::scenario::BenchContext;
use crate::bytes::{
    be_bytes, be_value, field, get_be32, get_be64, lemma_be_bytes_len, lemma_be_round_trip,
    lemma_pow256_values, pow256, put_be16, put_be32, put_be64, put_zeros, zeros,
};
use crate::text::same_text;
use crate::types::NodeId;

verus! {

/// The number that every first packet begins with.
pub const PROTOCOL_ID: u64 = 0x417_2710_1980;

/// Action of a packet that connects.
pub const ACTION_CONNECT: u32 = 0;

/// Action of a packet that announces.
pub const ACTION_ANNOUNCE: u32 = 1;

/// Action of a packet that scrapes.
pub const ACTION_SCRAPE: u32 = 2;

/// A packet that connects: protocol, action, transaction.
pub open spec fn connect_packet(tx_id: u32) -> Seq<u8> {
    be_bytes(PROTOCOL_ID as nat, 8) + be_bytes(ACTION_CONNECT as nat, 4) + be_bytes(tx_id as nat, 4)
}

/// A packet that announces: connection, action, transaction, info hash, peer id,
/// nothing downloaded, a thousand left, nothing uploaded, no event, no address,
/// key, any number of peers wanted, port.
pub open spec fn announce_packet(
    connection_id: u64,
    info_hash: Seq<u8>,
    peer_id: Seq<u8>,
    port: u16,
    tx_id: u32,
    key: u32,
) -> Seq<u8> {
    be_bytes(connection_id as nat, 8) + be_bytes(ACTION_ANNOUNCE as nat, 4) + be_bytes(
        tx_id as nat,
        4,
    ) + info_hash + peer_id + zeros(8) + be_bytes(1000, 8) + zeros(16) + be_bytes(key as nat, 4)
        + be_bytes(0xffff_ffff, 4) + be_bytes(port as nat, 2)
}

/// The bytes of several info hashes behind each other.
pub open spec fn joined(hashes: Seq<[u8; 20]>) -> Seq<u8>
    decreases hashes.len(),
{
    if hashes.len() == 0 {
        Seq::empty()
    } else {
        joined(hashes.drop_last()) + hashes.last()@
    }
}

/// A packet that scrapes: connection, action, transaction, info hashes.
pub open spec fn scrape_packet(connection_id: u64, hashes: Seq<[u8; 20]>, tx_id: u32) -> Seq<u8> {
    be_bytes(connection_id as nat, 8) + be_bytes(ACTION_SCRAPE as nat, 4) + be_bytes(
        tx_id as nat,
        4,
    ) + joined(hashes)
}

/// Builds a packet that connects.
pub fn build_connect(tx_id: u32) -> (r: Vec<u8>)
    ensures
        r@ == connect_packet(tx_id),
        r@.len() == 16,
{
    let mut buf: Vec<u8> = Vec::new();
    put_be64(&mut buf, PROTOCOL_ID);
    put_be32(&mut buf, ACTION_CONNECT);
    put_be32(&mut buf, tx_id);
    proof {
        lemma_be_bytes_len(PROTOCOL_ID as nat, 8);
        lemma_be_bytes_len(ACTION_CONNECT as nat, 4);
        lemma_be_bytes_len(tx_id as nat, 4);
        assert(buf@ =~= connect_packet(tx_id));
    }
    buf
}

/// Builds a packet that announces.
pub fn build_announce(
    connection_id: u64,
    info_hash: &[u8; 20],
    peer_id: &[u8; 20],
    port: u16,
    tx_id: u32,
    key: u32,
) -> (r: Vec<u8>)
    ensures
        r@ == announce_packet(connection_id, info_hash@, peer_id@, port, tx_id, key),
        r@.len() == 98,
{
    let mut buf: Vec<u8> = Vec::new();
    put_be64(&mut buf, connection_id);
    put_be32(&mut buf, ACTION_ANNOUNCE);
    put_be32(&mut buf, tx_id);
    buf.extend_from_slice(info_hash.as_slice());
    buf.extend_from_slice(peer_id.as_slice());
    put_zeros(&mut buf, 8);
    put_be64(&mut buf, 1000);
    put_zeros(&mut buf, 16);
    put_be32(&mut buf, key);
    put_be32(&mut buf, 0xffff_ffff);
    put_be16(&mut buf, port);
    proof {
        lemma_be_bytes_len(connection_id as nat, 8);
        lemma_be_bytes_len(ACTION_ANNOUNCE as nat, 4);
        lemma_be_bytes_len(tx_id as nat, 4);
        lemma_be_bytes_len(1000, 8);
        lemma_be_bytes_len(key as nat, 4);
        lemma_be_bytes_len(0xffff_ffff, 4);
        lemma_be_bytes_len(port as nat, 2);
        assert(buf@ =~= announce_packet(connection_id, info_hash@, peer_id@, port, tx_id, key));
    }
    buf
}

/// Builds a packet that scrapes.
pub fn build_scrape(connection_id: u64, hashes: &Vec<[u8; 20]>, tx_id: u32) -> (r: Vec<u8>)
    ensures
        r@ == scrape_packet(connection_id, hashes@, tx_id),
{
    let mut buf: Vec<u8> = Vec::new();
    put_be64(&mut buf, connection_id);
    put_be32(&mut buf, ACTION_SCRAPE);
    put_be32(&mut buf, tx_id);
    let ghost head = be_bytes(connection_id as nat, 8) + be_bytes(ACTION_SCRAPE as nat, 4)
        + be_bytes(tx_id as nat, 4);
    let mut i: usize = 0;
    proof {
        assert(hashes@.take(0) =~= Seq::<[u8; 20]>::empty());
        assert(buf@ =~= head + joined(hashes@.take(0)));
    }
    while i < hashes.len()
        invariant
            i <= hashes@.len(),
            buf@ == head + joined(hashes@.take(i as int)),
        decreases hashes@.len() - i,
    {
        let h: [u8; 20] = hashes[i];
        buf.extend_from_slice(h.as_slice());
        proof {
            assert(hashes@.take(i + 1).drop_last() =~= hashes@.take(i as int));
            assert(buf@ =~= head + joined(hashes@.take(i + 1)));
        }
        i = i + 1;
    }
    proof {
        assert(hashes@.take(i as int) =~= hashes@);
    }
    buf
}

/// Why a tracker's answer is not accepted.
#[derive(Debug, Clone, Copy, PartialEq, Eq, Structural)]
pub enum TrackerError {
    /// It is too short; its length.
    TooShort(usize),
    /// It is of another action; that action.
    WrongAction(u32),
}

/// The connection id in the answer to connecting.
pub open spec fn connect_answer(b: Seq<u8>) -> Result<u64, TrackerError> {
    if b.len() < 16 {
        Err(TrackerError::TooShort(b.len() as usize))
    } else {
        Ok(be_value(field(b, 8, 16)) as u64)
    }
}

/// Whether an answer of at least so many bytes is of the given action.
pub open spec fn action_answer(b: Seq<u8>, min: int, action: u32) -> Result<(), TrackerError> {
    if b.len() < min {
        Err(TrackerError::TooShort(b.len() as usize))
    } else if be_value(field(b, 0, 4)) != action {
        Err(TrackerError::WrongAction(be_value(field(b, 0, 4)) as u32))
    } else {
        Ok(())
    }
}

/// Reads the answer to connecting.
pub fn udp_connect(buf: &[u8]) -> (r: Result<u64, TrackerError>)
    ensures
        r == connect_answer(buf@),
{
    if buf.len() < 16 {
        return Err(TrackerError::TooShort(buf.len()));
    }
    Ok(get_be64(buf, 8))
}

/// Reads the answer to announcing.
pub fn udp_announce(buf: &[u8]) -> (r: Result<(), TrackerError>)
    ensures
        r == action_answer(buf@, 20, ACTION_ANNOUNCE),
{
    if buf.len() < 20 {
        return Err(TrackerError::TooShort(buf.len()));
    }
    let action: u32 = get_be32(buf, 0);
    if action != ACTION_ANNOUNCE {
        return Err(TrackerError::WrongAction(action));
    }
    Ok(())
}

/// Reads the answer to scraping.
pub fn udp_scrape(buf: &[u8]) -> (r: Result<(), TrackerError>)
    ensures
        r == action_answer(buf@, 8, ACTION_SCRAPE),
{
    if buf.len() < 8 {
        return Err(TrackerError::TooShort(buf.len()));
    }
    let action: u32 = get_be32(buf, 0);
    if action != ACTION_SCRAPE {
        return Err(TrackerError::WrongAction(action));
    }
    Ok(())
}

/// The echo server is a tracker: it gives its connection id to a client that
/// connects, and its answers to announcing and scraping are accepted.
pub proof fn lemma_echo_answers_are_accepted(
    tx_id: u32,
    connection_id: u64,
    info_hash: Seq<u8>,
    peer_id: Seq<u8>,
    port: u16,
    key: u32,
    hashes: Seq<[u8; 20]>,
)
    requires
        info_hash.len() == 20,
        peer_id.len() == 20,
    ensures
        ({
            let c = echo_reply(connect_packet(tx_id));
            let a = echo_reply(
                announce_packet(connection_id, info_hash, peer_id, port, tx_id, key),
            );
            let s = echo_reply(scrape_packet(connection_id, hashes, tx_id));
            &&& c is Some && connect_answer(c->0) == Ok::<u64, TrackerError>(ECHO_CONNECTION_ID)
            &&& a is Some && action_answer(a->0, 20, ACTION_ANNOUNCE) == Ok::<(), TrackerError>(())
            &&& s is Some && action_answer(s->0, 8, ACTION_SCRAPE) == Ok::<(), TrackerError>(())
        }),
{
    lemma_pow256_values();
    lemma_be_round_trip(PROTOCOL_ID as nat, 8);
    lemma_be_round_trip(connection_id as nat, 8);
    lemma_be_round_trip(ECHO_CONNECTION_ID as nat, 8);
    lemma_be_round_trip(tx_id as nat, 4);
    lemma_be_round_trip(ACTION_CONNECT as nat, 4);
    lemma_be_round_trip(ACTION_ANNOUNCE as nat, 4);
    lemma_be_round_trip(ACTION_SCRAPE as nat, 4);
    let c = connect_packet(tx_id);
    assert(field(c, 8, 12) =~= be_bytes(ACTION_CONNECT as nat, 4));
    assert(field(c, 12, 16) =~= be_bytes(tx_id as nat, 4));
    assert(field(echo_reply(c)->0, 8, 16) =~= be_bytes(ECHO_CONNECTION_ID as nat, 8));
    let a = announce_packet(connection_id, info_hash, peer_id, port, tx_id, key);
    assert(field(a, 8, 12) =~= be_bytes(ACTION_ANNOUNCE as nat, 4));
    assert(field(a, 12, 16) =~= be_bytes(tx_id as nat, 4));
    assert(field(echo_reply(a)->0, 0, 4) =~= be_bytes(1, 4));
    let s = scrape_packet(connection_id, hashes, tx_id);
    assert(field(s, 8, 12) =~= be_bytes(ACTION_SCRAPE as nat, 4));
    assert(field(s, 12, 16) =~= be_bytes(tx_id as nat, 4));
    assert(field(echo_reply(s)->0, 0, 4) =~= be_bytes(2, 4));
}

/// What a request asks for.
#[derive(Debug, Clone, Copy, PartialEq, Eq, Structural)]
pub enum TrackerAction {
    Announce,
    Scrape,
}

/// A request to be sent.
#[derive(Debug)]
pub struct TrackerRequest {
    pub action: TrackerAction,
    pub packet: Vec<u8>,
}

/// The data from which requests are made, and how far each of it was used.
#[derive(Debug)]
pub struct UdpTrackerScenario {
    /// Connection ids that the tracker gave.
    pub connections: Vec<u64>,
    /// How many sockets there are.
    pub socket_count: usize,
    pub socket_idx: usize,
    pub infohashes: Vec<[u8; 20]>,
    pub peer_ids: Vec<[u8; 20]>,
    pub tx_ids: Vec<u32>,
    pub keys: Vec<u32>,
    pub tx_idx: usize,
    pub key_idx: usize,
}

/// The index that follows; after the last one they begin anew.
pub open spec fn bumped(i: usize) -> usize {
    if i == usize::MAX {
        0
    } else {
        (i + 1) as usize
    }
}

/// Whether a mode announces, given the number that decides in the mixed mode: it
/// announces eight times out of ten.
pub open spec fn announces(mode: Seq<char>, decider: u32) -> bool {
    if mode == "scrape"@ {
        false
    } else if mode == "mixed"@ {
        decider % 10 < 8
    } else {
        true
    }
}

/// The info hashes from `start` on, going round.
pub open spec fn rotated(hashes: Seq<[u8; 20]>, start: int, count: nat) -> Seq<[u8; 20]> {
    Seq::new(count, |i: int| hashes[(start + i) % (hashes.len() as int)])
}

/// How many sockets there are for so many workers: one for each, and 64 at least.
pub fn pool_size(concurrency: u32) -> (r: usize)
    ensures
        r as int == wanted_sockets(concurrency),
        r == if concurrency >= 64 {
            concurrency as int
        } else {
            64
        },
{
    if concurrency >= 64 {
        concurrency as usize
    } else {
        64
    }
}

/// `rand::Rng::gen` on the thread's generator. Nothing is known of the number.
#[verifier::external_body]
fn random_word() -> (r: u32) {
    rand::Rng::gen(&mut rand::thread_rng())
}

/// So many random numbers.
fn random_words(n: usize) -> (r: Vec<u32>)
    ensures
        r@.len() == n,
{
    let mut out: Vec<u32> = Vec::new();
    let mut i: usize = 0;
    while i < n
        invariant
            i <= n,
            out@.len() == i,
        decreases n - i,
    {
        out.push(random_word());
        i = i + 1;
    }
    out
}

/// So many rows of twenty random bytes.
fn random_rows(n: usize) -> (r: Vec<[u8; 20]>)
    ensures
        r@.len() == n,
{
    let mut out: Vec<[u8; 20]> = Vec::new();
    let mut i: usize = 0;
    while i < n
        invariant
            i <= n,
            out@.len() == i,
        decreases n - i,
    {
        out.push(NodeId::random().0);
        i = i + 1;
    }
    out
}

impl Default for UdpTrackerScenario {
    /// A thousand random info hashes and peer ids, 65536 random transaction ids and
    /// keys, and no socket.
    fn default() -> (r: Self)
        ensures
            r.wf(),
            r.infohashes@.len() == 1000,
            r.peer_ids@.len() == 1000,
            r.tx_ids@.len() == 65536,
            r.keys@.len() == 65536,
            r.socket_count == 0,
            r.connections@.len() == 0,
            r.socket_idx == 0,
            r.tx_idx == 0,
            r.key_idx == 0,
    {
        Self::new(random_rows(1000), random_rows(1000), random_words(65536), random_words(65536), 0)
    }
}

/// How many connections are made before the run.
pub const PREPARED_CONNECTIONS: usize = 200;

impl UdpTrackerScenario {
    /// There is something of everything.
    pub open spec fn wf(self) -> bool {
        &&& self.infohashes@.len() > 0
        &&& self.peer_ids@.len() > 0
        &&& self.tx_ids@.len() > 0
        &&& self.keys@.len() > 0
    }

    /// A scenario with the given data, nothing of which was used.
    pub fn new(
        infohashes: Vec<[u8; 20]>,
        peer_ids: Vec<[u8; 20]>,
        tx_ids: Vec<u32>,
        keys: Vec<u32>,
        socket_count: usize,
    ) -> (r: Self)
        ensures
            r.infohashes == infohashes,
            r.peer_ids == peer_ids,
            r.tx_ids == tx_ids,
            r.keys == keys,
            r.socket_count == socket_count,
            r.connections@.len() == 0,
            r.socket_idx == 0,
            r.tx_idx == 0,
            r.key_idx == 0,
    {
        UdpTrackerScenario {
            connections: Vec::new(),
            socket_count,
            socket_idx: 0,
            infohashes,
            peer_ids,
            tx_ids,
            keys,
            tx_idx: 0,
            key_idx: 0,
        }
    }

    /// The next transaction id, in turn.
    pub fn next_tx_id(&mut self) -> (r: u32)
        requires
            old(self).tx_ids@.len() > 0,
        ensures
            r == taken(old(self).tx_ids@, old(self).tx_idx),
            r == old(self).tx_ids@[old(self).tx_idx as int % old(self).tx_ids@.len() as int],
            *final(self) == (UdpTrackerScenario { tx_idx: bumped(old(self).tx_idx), ..*old(self) }),
    {
        let i: usize = self.tx_idx % self.tx_ids.len();
        self.tx_idx = self.tx_idx.wrapping_add(1);
        self.tx_ids[i]
    }

    /// The next key, in turn.
    pub fn next_key(&mut self) -> (r: u32)
        requires
            old(self).keys@.len() > 0,
        ensures
            r == taken(old(self).keys@, old(self).key_idx),
            r == old(self).keys@[old(self).key_idx as int % old(self).keys@.len() as int],
            *final(self) == (UdpTrackerScenario {
                key_idx: bumped(old(self).key_idx),
                ..*old(self)
            }),
    {
        let i: usize = self.key_idx % self.keys.len();
        self.key_idx = self.key_idx.wrapping_add(1);
        self.keys[i]
    }

    /// The transaction id of the `i`-th connection that is made before the run.
    pub fn prepared_tx_id(&self, i: usize) -> (r: u32)
        requires
            self.tx_ids@.len() > 0,
        ensures
            r == taken(self.tx_ids@, i),
            r == self.tx_ids@[i as int % self.tx_ids@.len() as int],
    {
        self.tx_ids[i % self.tx_ids.len()]
    }

    /// The position of the next socket, in turn.
    pub fn next_socket(&mut self) -> (r: usize)
        requires
            old(self).socket_count > 0,
        ensures
            r as int == in_turn(old(self).socket_idx, old(self).socket_count as int),
            r == old(self).socket_idx % old(self).socket_count,
            *final(self) == (UdpTrackerScenario {
                socket_idx: bumped(old(self).socket_idx),
                ..*old(self)
            }),
    {
        let i: usize = self.socket_idx % self.socket_count;
        self.socket_idx = self.socket_idx.wrapping_add(1);
        i
    }

    /// The connection id for the next request, in turn; none where a connection has
    /// to be made first.
    pub fn choose_connection(&self, ctx: &mut BenchContext) -> (r: Option<u64>)
        ensures
            r == connection_for(self.connections@, old(ctx).request_count as usize),
            self.connections@.len() == 0 ==> r is None && *final(ctx) == *old(ctx),
            self.connections@.len() > 0 ==> r == Some(
                self.connections@[(old(ctx).request_count as usize) as int
                    % self.connections@.len() as int],
            ) && *final(ctx) == (BenchContext {
                request_count: if old(ctx).request_count == u64::MAX {
                    0
                } else {
                    (old(ctx).request_count + 1) as u64
                },
                ..*old(ctx)
            }),
    {
        if self.connections.len() == 0 {
            return None;
        }
        let id: u64 = ctx.next_request_id();
        let idx: usize = (id as usize) % self.connections.len();
        Some(self.connections[idx])
    }

    /// Keeps a connection id that the tracker gave.
    pub fn add_connection(&mut self, connection_id: u64)
        ensures
            final(self).connections@ == old(self).connections@.push(connection_id),
            *final(self) == (UdpTrackerScenario {
                connections: final(self).connections,
                ..*old(self)
            }),
    {
        self.connections.push(connection_id);
    }

    /// The next request on the given connection. The mode says whether it announces
    /// or scrapes; the mixed mode goes by the transaction id after the one that is
    /// used. What is announced or scraped goes by the request's number.
    pub fn plan_request(&mut self, ctx: &mut BenchContext, mode: &str, connection_id: u64) -> (r:
        TrackerRequest)
        requires
            old(self).wf(),
        ensures
            (r.action, r.packet@) == planned(
                *old(self),
                old(ctx).request_count as usize,
                mode@,
                connection_id,
            ),
            final(self).wf(),
            *final(self) == (UdpTrackerScenario {
                tx_idx: bumped(old(self).tx_idx),
                key_idx: bumped(old(self).key_idx),
                ..*old(self)
            }),
            *final(ctx) == (BenchContext {
                request_count: if old(ctx).request_count == u64::MAX {
                    0
                } else {
                    (old(ctx).request_count + 1) as u64
                },
                ..*old(ctx)
            }),
            ({
                let o = *old(self);
                let tx_id = o.tx_ids@[o.tx_idx as int % o.tx_ids@.len() as int];
                let decider = o.tx_ids@[bumped(o.tx_idx) as int % o.tx_ids@.len() as int];
                let key = o.keys@[o.key_idx as int % o.keys@.len() as int];
                let id = (old(ctx).request_count as usize) as int;
                if announces(mode@, decider) {
                    r.action is Announce && r.packet@ == announce_packet(
                        connection_id,
                        o.infohashes@[id % o.infohashes@.len() as int]@,
                        o.peer_ids@[id % o.peer_ids@.len() as int]@,
                        (6881 + id % 1000) as u16,
                        tx_id,
                        key,
                    )
                } else {
                    r.action is Scrape && r.packet@ == scrape_packet(
                        connection_id,
                        rotated(
                            o.infohashes@,
                            id % o.infohashes@.len() as int,
                            (key % 5 + 1) as nat,
                        ),
                        tx_id,
                    )
                }
            }),
    {
        let ghost o = *self;
        let tx_id: u32 = self.next_tx_id();
        let decider: u32 = self.tx_ids[self.tx_idx % self.tx_ids.len()];
        let announce: bool = if same_text(mode, "scrape") {
            false
        } else if same_text(mode, "mixed") {
            decider % 10 < 8
        } else {
            true
        };
        let req_id: usize = ctx.next_request_id() as usize;
        let key: u32 = self.next_key();
        if announce {
            let ih: [u8; 20] = self.infohashes[req_id % self.infohashes.len()];
            let pid: [u8; 20] = self.peer_ids[req_id % self.peer_ids.len()];
            let port: u16 = 6881 + (req_id % 1000) as u16;
            TrackerRequest {
                action: TrackerAction::Announce,
                packet: build_announce(connection_id, &ih, &pid, port, tx_id, key),
            }
        } else {
            let count: u32 = key % 5 + 1;
            let n: usize = self.infohashes.len();
            let start: usize = req_id % n;
            let mut hashes: Vec<[u8; 20]> = Vec::new();
            let mut i: u32 = 0;
            let mut at: usize = start;
            proof {
                vstd::arithmetic::div_mod::lemma_small_mod(start as nat, n as nat);
                assert(hashes@ =~= rotated(o.infohashes@, start as int, 0));
            }
            while i < count
                invariant
                    i <= count,
                    n == self.infohashes@.len(),
                    n > 0,
                    self.infohashes == o.infohashes,
                    at < n,
                    at as int == (start + i) % (n as int),
                    hashes@ == rotated(o.infohashes@, start as int, i as nat),
                decreases count - i,
            {
                hashes.push(self.infohashes[at]);
                proof {
                    lemma_next_mod(start + i, n as int);
                }
                at = if at == n - 1 {
                    0
                } else {
                    at + 1
                };
                i = i + 1;
                proof {
                    assert(hashes@ =~= rotated(o.infohashes@, start as int, i as nat));
                }
            }
            TrackerRequest {
                action: TrackerAction::Scrape,
                packet: build_scrape(connection_id, &hashes, tx_id),
            }
        }
    }
}

proof fn lemma_next_mod(x: int, n: int)
    requires
        0 <= x,
        0 < n,
    ensures
        (x + 1) % n == if x % n == n - 1 {
            0
        } else {
            x % n + 1
        },
{
    vstd::arithmetic::div_mod::lemma_fundamental_div_mod(x, n);
    vstd::arithmetic::div_mod::lemma_mod_bound(x, n);
    let q = x / n;
    assert(n * q == q * n) by (nonlinear_arith);
    if x % n == n - 1 {
        assert(x + 1 == n * (q + 1)) by (nonlinear_arith)
            requires
                x == n * q + (n - 1),
        ;
        vstd::arithmetic::div_mod::lemma_fundamental_div_mod_converse(x + 1, n, q + 1, 0);
    } else {
        vstd::arithmetic::div_mod::lemma_fundamental_div_mod_converse(x + 1, n, q, x % n + 1);
    }
}

/// A scrape asks for one to five info hashes, each of those that there are.
pub proof fn lemma_scrape_stays_in_pool(hashes: Seq<[u8; 20]>, start: int, key: u32, i: int)
    requires
        hashes.len() > 0,
        0 <= start,
        0 <= i < key % 5 + 1,
    ensures
        1 <= key % 5 + 1 <= 5,
        hashes.contains(rotated(hashes, start, (key % 5 + 1) as nat)[i]),
{
    let k = (start + i) % (hashes.len() as int);
    assert(0 <= k < hashes.len()) by (nonlinear_arith)
        requires
            hashes.len() > 0,
            k == (start + i) % (hashes.len() as int),
    ;
    assert(rotated(hashes, start, (key % 5 + 1) as nat)[i] == hashes[k]);
}

/// In the mixed mode the last decimal digit of the deciding number decides: eight of
/// the ten digits announce, zero to seven, and two scrape, eight and nine. The other
/// modes do not heed the number.
pub proof fn lemma_mixed_is_eight_to_two(tens: u32, digit: u32, mode: Seq<char>)
    requires
        digit <= 9,
        10 * tens + digit <= u32::MAX,
    ensures
        mode == "mixed"@ && digit <= 7 ==> announces(mode, (10 * tens + digit) as u32),
        mode == "mixed"@ && digit >= 8 ==> !announces(mode, (10 * tens + digit) as u32),
        mode == "scrape"@ ==> !announces(mode, (10 * tens + digit) as u32),
        mode != "mixed"@ && mode != "scrape"@ ==> announces(mode, (10 * tens + digit) as u32),
{
    lemma_mode_names();
}

proof fn lemma_mode_names()
    ensures
        "mixed"@ != "scrape"@,
        "announce"@ != "scrape"@,
        "announce"@ != "mixed"@,
{
    reveal_strlit("mixed");
    reveal_strlit("scrape");
    reveal_strlit("announce");
    assert("mixed"@.len() == 5 && "scrape"@.len() == 6 && "announce"@.len() == 8);
}

/// Which of so many comes at a turn.
pub open spec fn in_turn(turn: usize, count: int) -> int {
    turn as int % count
}

/// The word that comes at a turn.
pub open spec fn taken(pool: Seq<u32>, turn: usize) -> u32 {
    pool[in_turn(turn, pool.len() as int)]
}

/// The connection of a request: each in turn, or none where there is none.
pub open spec fn connection_for(connections: Seq<u64>, request: usize) -> Option<u64> {
    if connections.len() == 0 {
        None
    } else {
        Some(connections[in_turn(request, connections.len() as int)])
    }
}

/// How many sockets there are for so many workers.
pub open spec fn wanted_sockets(concurrency: u32) -> int {
    if concurrency >= 64 {
        concurrency as int
    } else {
        64
    }
}

/// The request that comes at a turn: what it asks for, and its packet.
pub open spec fn planned(
    o: UdpTrackerScenario,
    request: usize,
    mode: Seq<char>,
    connection_id: u64,
) -> (TrackerAction, Seq<u8>) {
    let tx_id = taken(o.tx_ids@, o.tx_idx);
    let decider = taken(o.tx_ids@, bumped(o.tx_idx));
    let key = taken(o.keys@, o.key_idx);
    if announces(mode, decider) {
        (
            TrackerAction::Announce,
            announce_packet(
                connection_id,
                o.infohashes@[in_turn(request, o.infohashes@.len() as int)]@,
                o.peer_ids@[in_turn(request, o.peer_ids@.len() as int)]@,
                (6881 + request as int % 1000) as u16,
                tx_id,
                key,
            ),
        )
    } else {
        (
            TrackerAction::Scrape,
            scrape_packet(
                connection_id,
                rotated(
                    o.infohashes@,
                    in_turn(request, o.infohashes@.len() as int),
                    (key % 5 + 1) as nat,
                ),
                tx_id,
            ),
        )
    }
}

/// Everything comes in turn: the first again after the last, and each once in between.
pub proof fn lemma_everything_comes_in_turn(turn: usize, count: int, rounds: int, place: int)
    requires
        0 < count,
        0 <= place < count,
        turn as int == rounds * count + place,
    ensures
        in_turn(turn, count) == place,
        turn < usize::MAX ==> in_turn(bumped(turn), count) == if place + 1 == count {
            0
        } else {
            place + 1
        },
{
    vstd::arithmetic::div_mod::lemma_fundamental_div_mod_converse(
        turn as int,
        count,
        rounds,
        place,
    );
    if turn < usize::MAX {
        if place + 1 == count {
            assert((rounds + 1) * count == rounds * count + count) by (nonlinear_arith);
            vstd::arithmetic::div_mod::lemma_fundamental_div_mod_converse(
                turn + 1,
                count,
                rounds + 1,
                0,
            );
        } else {
            vstd::arithmetic::div_mod::lemma_fundamental_div_mod_converse(
                turn + 1,
                count,
                rounds,
                place + 1,
            );
        }
    }
}

/// A turn is followed by the next, and the last that can be counted by the first.
pub proof fn lemma_turns(turn: usize)
    ensures
        turn < usize::MAX ==> bumped(turn) == turn + 1,
        bumped(usize::MAX) == 0,
{
}

/// A connection is chosen where there is one, and each in turn.
pub proof fn lemma_connections_in_turn(
    connections: Seq<u64>,
    rounds: int,
    place: int,
    request: usize,
)
    requires
        0 <= place < connections.len(),
        request as int == rounds * connections.len() + place,
    ensures
        connection_for(connections, request) == Some(connections[place]),
        connection_for(Seq::empty(), request) is None,
{
    lemma_everything_comes_in_turn(request, connections.len() as int, rounds, place);
}

/// There is a socket for each worker, and never fewer than sixty-four.
pub proof fn lemma_sockets(concurrency: u32)
    ensures
        wanted_sockets(concurrency) >= 64,
        wanted_sockets(concurrency) >= concurrency,
        wanted_sockets(concurrency) == 64 || wanted_sockets(concurrency) == concurrency,
{
}

proof fn lemma_head(a: nat, b: nat, c: nat, rest: Seq<u8>)
    requires
        a < pow256(8),
        b < pow256(4),
        c < pow256(4),
    ensures
        ({
            let p = be_bytes(a, 8) + be_bytes(b, 4) + be_bytes(c, 4) + rest;
            &&& p.len() == 16 + rest.len()
            &&& be_value(field(p, 0, 8)) == a
            &&& be_value(field(p, 8, 12)) == b
            &&& be_value(field(p, 12, 16)) == c
            &&& p.skip(16) == rest
        }),
{
    let p = be_bytes(a, 8) + be_bytes(b, 4) + be_bytes(c, 4) + rest;
    lemma_be_round_trip(a, 8);
    lemma_be_round_trip(b, 4);
    lemma_be_round_trip(c, 4);
    assert(field(p, 0, 8) =~= be_bytes(a, 8));
    assert(field(p, 8, 12) =~= be_bytes(b, 4));
    assert(field(p, 12, 16) =~= be_bytes(c, 4));
    assert(p.skip(16) =~= rest);
}

/// A packet that connects, read field by field: the number of the protocol, the action 0
/// and the transaction.
pub proof fn lemma_connect_fields(tx_id: u32)
    ensures
        ({
            let p = connect_packet(tx_id);
            &&& p.len() == 16
            &&& be_value(field(p, 0, 8)) == 0x41727101980
            &&& be_value(field(p, 8, 12)) == 0
            &&& be_value(field(p, 12, 16)) == tx_id
        }),
{
    lemma_pow256_values();
    lemma_head(PROTOCOL_ID as nat, 0, tx_id as nat, Seq::empty());
    assert(connect_packet(tx_id) =~= be_bytes(PROTOCOL_ID as nat, 8) + be_bytes(0, 4) + be_bytes(
        tx_id as nat,
        4,
    ) + Seq::empty());
}

/// A packet that announces, read field by field: the connection, the action 1, the
/// transaction, the hash, the peer, nothing downloaded, a thousand bytes left, nothing
/// uploaded, no event and no address, the key, as many peers as there are, and the port.
pub proof fn lemma_announce_fields(
    connection_id: u64,
    info_hash: Seq<u8>,
    peer_id: Seq<u8>,
    port: u16,
    tx_id: u32,
    key: u32,
)
    requires
        info_hash.len() == 20,
        peer_id.len() == 20,
    ensures
        ({
            let p = announce_packet(connection_id, info_hash, peer_id, port, tx_id, key);
            &&& p.len() == 98
            &&& be_value(field(p, 0, 8)) == connection_id
            &&& be_value(field(p, 8, 12)) == 1
            &&& be_value(field(p, 12, 16)) == tx_id
            &&& field(p, 16, 36) == info_hash
            &&& field(p, 36, 56) == peer_id
            &&& (forall|i: int| 56 <= i < 64 ==> #[trigger] p[i] == 0)
            &&& be_value(field(p, 64, 72)) == 1000
            &&& (forall|i: int| 72 <= i < 88 ==> #[trigger] p[i] == 0)
            &&& be_value(field(p, 88, 92)) == key
            &&& be_value(field(p, 92, 96)) == 0xffff_ffff
            &&& be_value(field(p, 96, 98)) == port
        }),
{
    lemma_pow256_values();
    let p = announce_packet(connection_id, info_hash, peer_id, port, tx_id, key);
    lemma_be_round_trip(connection_id as nat, 8);
    lemma_be_round_trip(1, 4);
    lemma_be_round_trip(tx_id as nat, 4);
    lemma_be_round_trip(1000, 8);
    lemma_be_round_trip(key as nat, 4);
    lemma_be_round_trip(0xffff_ffff, 4);
    lemma_be_round_trip(port as nat, 2);
    assert(field(p, 0, 8) =~= be_bytes(connection_id as nat, 8));
    assert(field(p, 8, 12) =~= be_bytes(1, 4));
    assert(field(p, 12, 16) =~= be_bytes(tx_id as nat, 4));
    assert(field(p, 16, 36) =~= info_hash);
    assert(field(p, 36, 56) =~= peer_id);
    assert(field(p, 64, 72) =~= be_bytes(1000, 8));
    assert(field(p, 88, 92) =~= be_bytes(key as nat, 4));
    assert(field(p, 92, 96) =~= be_bytes(0xffff_ffff, 4));
    assert(field(p, 96, 98) =~= be_bytes(port as nat, 2));
}

proof fn lemma_joined(hashes: Seq<[u8; 20]>)
    ensures
        joined(hashes).len() == 20 * hashes.len(),
        forall|j: int|
            0 <= j < hashes.len() ==> field(joined(hashes), 20 * j, 20 * j + 20) == (
            #[trigger] hashes[j])@,
    decreases hashes.len(),
{
    if hashes.len() > 0 {
        let d = hashes.drop_last();
        lemma_joined(d);
        assert forall|j: int| 0 <= j < hashes.len() implies field(
            joined(hashes),
            20 * j,
            20 * j + 20,
        ) == (#[trigger] hashes[j])@ by {
            if j < d.len() {
                assert(d[j] == hashes[j]);
                assert(field(joined(hashes), 20 * j, 20 * j + 20) =~= field(
                    joined(d),
                    20 * j,
                    20 * j + 20,
                ));
            } else {
                assert(field(joined(hashes), 20 * j, 20 * j + 20) =~= hashes[j]@);
            }
        }
    }
}

/// A packet that scrapes, read field by field: the connection, the action 2, the
/// transaction, and the hashes one behind the other.
pub proof fn lemma_scrape_fields(connection_id: u64, hashes: Seq<[u8; 20]>, tx_id: u32)
    ensures
        ({
            let p = scrape_packet(connection_id, hashes, tx_id);
            &&& p.len() == 16 + 20 * hashes.len()
            &&& be_value(field(p, 0, 8)) == connection_id
            &&& be_value(field(p, 8, 12)) == 2
            &&& be_value(field(p, 12, 16)) == tx_id
            &&& forall|j: int|
                0 <= j < hashes.len() ==> field(p, 16 + 20 * j, 36 + 20 * j) == (
                #[trigger] hashes[j])@
        }),
{
    lemma_pow256_values();
    let p = scrape_packet(connection_id, hashes, tx_id);
    lemma_head(connection_id as nat, 2, tx_id as nat, joined(hashes));
    lemma_joined(hashes);
    assert forall|j: int| 0 <= j < hashes.len() implies field(p, 16 + 20 * j, 36 + 20 * j) == (
    #[trigger] hashes[j])@ by {
        assert(field(p, 16 + 20 * j, 36 + 20 * j) =~= field(p.skip(16), 20 * j, 20 * j + 20));
    }
}

/// What the packet of a planned request holds: the connection, the transaction that is
/// due, and whether it announces is settled by the mode and, where both are mixed, by
/// the last digit of the transaction after it.
pub proof fn lemma_planned_request(
    o: UdpTrackerScenario,
    request: usize,
    mode: Seq<char>,
    connection_id: u64,
)
    requires
        o.wf(),
    ensures
        ({
            let p = planned(o, request, mode, connection_id);
            let digit = taken(o.tx_ids@, bumped(o.tx_idx)) % 10;
            &&& mode == "scrape"@ ==> p.0 is Scrape
            &&& mode == "mixed"@ ==> (p.0 is Announce <==> digit <= 7)
            &&& mode != "scrape"@ && mode != "mixed"@ ==> p.0 is Announce
            &&& p.0 is Announce <==> be_value(field(p.1, 8, 12)) == 1
            &&& p.0 is Scrape <==> be_value(field(p.1, 8, 12)) == 2
            &&& be_value(field(p.1, 0, 8)) == connection_id
            &&& be_value(field(p.1, 12, 16)) == taken(o.tx_ids@, o.tx_idx)
        }),
{
    lemma_mode_names();
    let n = o.tx_ids@.len() as int;
    let tx_id = taken(o.tx_ids@, o.tx_idx);
    let key = taken(o.keys@, o.key_idx);
    let ih = o.infohashes@[in_turn(request, o.infohashes@.len() as int)]@;
    let pid = o.peer_ids@[in_turn(request, o.peer_ids@.len() as int)]@;
    lemma_announce_fields(
        connection_id,
        ih,
        pid,
        (6881 + request as int % 1000) as u16,
        tx_id,
        key,
    );
    lemma_scrape_fields(
        connection_id,
        rotated(
            o.infohashes@,
            in_turn(request, o.infohashes@.len() as int),
            (key % 5 + 1) as nat,
        ),
        tx_id,
    );
}

proof fn lemma_announced_as(
    o: UdpTrackerScenario,
    request: usize,
    mode: Seq<char>,
    connection_id: u64,
)
    requires
        planned(o, request, mode, connection_id).0 is Announce,
    ensures
        planned(o, request, mode, connection_id).1 == announce_packet(
            connection_id,
            o.infohashes@[in_turn(request, o.infohashes@.len() as int)]@,
            o.peer_ids@[in_turn(request, o.peer_ids@.len() as int)]@,
            (6881 + request as int % 1000) as u16,
            taken(o.tx_ids@, o.tx_idx),
            taken(o.keys@, o.key_idx),
        ),
{
}

/// A planned announcement is of the hash and the peer whose turn it is, from one of the
/// thousand ports from 6881 on, in turn too, with the key that is due.
pub proof fn lemma_planned_announcement(
    o: UdpTrackerScenario,
    request: usize,
    mode: Seq<char>,
    connection_id: u64,
    thousands: int,
    place: int,
)
    requires
        o.wf(),
        planned(o, request, mode, connection_id).0 is Announce,
        0 <= place < 1000,
        request as int == 1000 * thousands + place,
    ensures
        ({
            let p = planned(o, request, mode, connection_id).1;
            &&& p.len() == 98
            &&& field(p, 16, 36) == o.infohashes@[in_turn(request, o.infohashes@.len() as int)]@
            &&& field(p, 36, 56) == o.peer_ids@[in_turn(request, o.peer_ids@.len() as int)]@
            &&& be_value(field(p, 96, 98)) == 6881 + place
            &&& be_value(field(p, 88, 92)) == taken(o.keys@, o.key_idx)
        }),
{
    vstd::arithmetic::div_mod::lemma_fundamental_div_mod_converse(
        request as int,
        1000,
        thousands,
        place,
    );
    let ih = o.infohashes@[in_turn(request, o.infohashes@.len() as int)]@;
    let pid = o.peer_ids@[in_turn(request, o.peer_ids@.len() as int)]@;
    let port = (6881 + place) as u16;
    let tx_id = taken(o.tx_ids@, o.tx_idx);
    let key = taken(o.keys@, o.key_idx);
    lemma_announce_fields(connection_id, ih, pid, port, tx_id, key);
    lemma_announced_as(o, request, mode, connection_id);
    assert(planned(o, request, mode, connection_id).1 == announce_packet(
        connection_id,
        ih,
        pid,
        port,
        tx_id,
        key,
    ));
}

/// A planned scrape is of one to five hashes, as many as the key that is due says; the
/// first is the one whose turn it is, and the others follow it in the pool.
pub proof fn lemma_planned_scrape(
    o: UdpTrackerScenario,
    request: usize,
    mode: Seq<char>,
    connection_id: u64,
    fives: int,
    more: int,
    j: int,
)
    requires
        o.wf(),
        planned(o, request, mode, connection_id).0 is Scrape,
        0 <= more < 5,
        taken(o.keys@, o.key_idx) as int == 5 * fives + more,
        0 <= j <= more,
    ensures
        ({
            let p = planned(o, request, mode, connection_id).1;
            let n = o.infohashes@.len() as int;
            &&& p.len() == 36 + 20 * more
            &&& field(p, 16 + 20 * j, 36 + 20 * j) == o.infohashes@[(request + j) % n]@
        }),
{
    let n = o.infohashes@.len() as int;
    let start = in_turn(request, n);
    let key = taken(o.keys@, o.key_idx);
    let hashes = rotated(o.infohashes@, start, (key % 5 + 1) as nat);
    lemma_scrape_fields(connection_id, hashes, taken(o.tx_ids@, o.tx_idx));
    vstd::arithmetic::div_mod::lemma_add_mod_noop_right(j, request as int, n);
    assert((start + j) % n == (request + j) % n);
    assert(hashes[j] == o.infohashes@[(request + j) % n]);
}

/// The answer to a connecting packet gives the connection in its last eight bytes, and
/// anything shorter than it is refused with its length.
pub proof fn lemma_connection_is_read(
    head: Seq<u8>,
    connection_id: u64,
    rest: Seq<u8>,
    short: Seq<u8>,
)
    requires
        head.len() == 8,
        short.len() < 16,
    ensures
        connect_answer(head + be_bytes(connection_id as nat, 8) + rest) == Ok::<u64, TrackerError>(
            connection_id,
        ),
        connect_answer(short) == Err::<u64, TrackerError>(
            TrackerError::TooShort(short.len() as usize),
        ),
{
    lemma_pow256_values();
    lemma_be_round_trip(connection_id as nat, 8);
    let b = head + be_bytes(connection_id as nat, 8) + rest;
    assert(field(b, 8, 16) =~= be_bytes(connection_id as nat, 8));
}

/// Another answer is accepted exactly where it is long enough and begins with its action;
/// what it begins with in place of that is reported.
pub proof fn lemma_actions_are_compared(found: u32, rest: Seq<u8>, min: int, action: u32)
    requires
        4 <= min <= 4 + rest.len(),
    ensures
        found == action ==> action_answer(be_bytes(found as nat, 4) + rest, min, action) == Ok::<
            (),
            TrackerError,
        >(()),
        found != action ==> action_answer(be_bytes(found as nat, 4) + rest, min, action) == Err::<
            (),
            TrackerError,
        >(TrackerError::WrongAction(found)),
{
    lemma_pow256_values();
    lemma_be_round_trip(found as nat, 4);
    let b = be_bytes(found as nat, 4) + rest;
    assert(field(b, 0, 4) =~= be_bytes(found as nat, 4));
}

/// An answer that is too short is refused with its length, whatever it holds.
pub proof fn lemma_short_answers_are_refused(b: Seq<u8>, min: int, action: u32)
    requires
        b.len() < min,
    ensures
        action_answer(b, min, action) == Err::<(), TrackerError>(
            TrackerError::TooShort(b.len() as usize),
        ),
{
}

/// Each word of a pool is taken in turn.
pub proof fn lemma_words_in_turn(pool: Seq<u32>, turn: usize, rounds: int, place: int)
    requires
        0 <= place < pool.len(),
        turn as int == rounds * pool.len() + place,
    ensures
        taken(pool, turn) == pool[place],
        turn < usize::MAX ==> taken(pool, bumped(turn)) == if place + 1 == pool.len() {
            pool[0]
        } else {
            pool[place + 1]
        },
{
    lemma_everything_comes_in_turn(turn, pool.len() as int, rounds, place);
}

} // verus!
