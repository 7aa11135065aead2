//! Finding nodes through public message brokers.

use vstd::prelude::*;
use vstd::utf8::encode_utf8;

use crate::addr::SocketAddr;
use crate::bytes::copy_range;
use crate::text::{concat, same_text};
use crate::time::{current_unix_secs, is_unix_secs};
use crate::types::{
    cuts_cleanly, hex_encode, hex_text, node_id_of, DiscoveredNode, DiscoverySource, NodeId,
    Reachability,
};

verus! {

/// The topic that all nodes share.
pub const MQTT_DISCOVERY_TOPIC: &'static str = "pnos/discovery/v1";

/// Seconds between two heartbeats.
pub const DEFAULT_MQTT_HEARTBEAT_SECS: u64 = 30;

/// Port of the brokers.
pub const BROKER_PORT: u16 = 1883;

/// Seconds after which a message is out of date.
pub const MAX_MESSAGE_AGE_SECS: u64 = 300;

/// How often in a row a broker may fail.
pub const MAX_BROKER_FAILURES: u32 = 3;

/// Seconds to wait before a broker is tried again.
pub const BROKER_RETRY_SECS: u64 = 5;

/// The names of the public brokers.
pub fn public_brokers() -> (r: Vec<(String, u16)>)
    ensures
        hosts_of(r@) == seq![
            ("test.mosquitto.org"@, 1883u16),
            ("broker.hivemq.com"@, 1883u16),
            ("mqtt.eclipseprojects.io"@, 1883u16),
        ],
{
    let mut out: Vec<(String, u16)> = Vec::new();
    out.push(("test.mosquitto.org".to_owned(), 1883));
    out.push(("broker.hivemq.com".to_owned(), 1883));
    out.push(("mqtt.eclipseprojects.io".to_owned(), 1883));
    proof {
        assert(hosts_of(out@) =~= seq![
            ("test.mosquitto.org"@, 1883u16),
            ("broker.hivemq.com"@, 1883u16),
            ("mqtt.eclipseprojects.io"@, 1883u16),
        ]);
    }
    out
}

/// The addresses of the public brokers, for networks in which names cannot be
/// resolved.
pub fn broker_ip_fallback() -> (r: Vec<(String, String)>)
    ensures
        r@.len() == 3,
        r@[0].0@ == "test.mosquitto.org"@ && r@[0].1@ == "54.36.178.49"@,
        r@[1].0@ == "broker.hivemq.com"@ && r@[1].1@ == "35.156.188.238"@,
        r@[2].0@ == "mqtt.eclipseprojects.io"@ && r@[2].1@ == "137.135.83.217"@,
{
    let mut out: Vec<(String, String)> = Vec::new();
    out.push(("test.mosquitto.org".to_owned(), "54.36.178.49".to_owned()));
    out.push(("broker.hivemq.com".to_owned(), "35.156.188.238".to_owned()));
    out.push(("mqtt.eclipseprojects.io".to_owned(), "137.135.83.217".to_owned()));
    out
}

/// Hosts and ports as values.
pub open spec fn hosts_of(v: Seq<(String, u16)>) -> Seq<(Seq<char>, u16)> {
    v.map_values(|p: (String, u16)| (p.0@, p.1))
}

/// Whether a host is among the targets.
pub open spec fn has_host(targets: Seq<(Seq<char>, u16)>, host: Seq<char>) -> bool {
    exists|i: int| 0 <= i < targets.len() && (#[trigger] targets[i]).0 == host
}

/// The targets with each fallback address added that is not among them yet.
pub open spec fn with_fallback(
    targets: Seq<(Seq<char>, u16)>,
    fallback: Seq<(String, String)>,
) -> Seq<(Seq<char>, u16)>
    decreases fallback.len(),
{
    if fallback.len() == 0 {
        targets
    } else {
        let before = with_fallback(targets, fallback.drop_last());
        let ip = fallback.last().1@;
        if has_host(before, ip) {
            before
        } else {
            before.push((ip, BROKER_PORT))
        }
    }
}

/// What to connect to: the brokers, and each fallback address that is not among
/// them yet.
pub fn connection_targets(brokers: Vec<(String, u16)>, fallback: &Vec<(String, String)>) -> (r: Vec<
    (String, u16),
>)
    ensures
        hosts_of(r@) == with_fallback(hosts_of(brokers@), fallback@),
{
    let ghost start = hosts_of(brokers@);
    let mut targets = brokers;
    let mut i: usize = 0;
    proof {
        assert(fallback@.take(0) =~= Seq::<(String, String)>::empty());
    }
    while i < fallback.len()
        invariant
            i <= fallback@.len(),
            hosts_of(targets@) == with_fallback(start, fallback@.take(i as int)),
        decreases fallback@.len() - i,
    {
        let ghost before = hosts_of(targets@);
        let ip = &fallback[i].1;
        let mut found: bool = false;
        let mut j: usize = 0;
        while j < targets.len() && !found
            invariant
                j <= targets@.len(),
                before == hosts_of(targets@),
                found ==> has_host(before, ip@),
                !found ==> forall|k: int| 0 <= k < j ==> (#[trigger] before[k]).0 != ip@,
            decreases targets@.len() - j + (if found {
                0int
            } else {
                1
            }),
        {
            proof {
                assert(before[j as int].0 == targets@[j as int].0@);
            }
            if same_text(targets[j].0.as_str(), ip.as_str()) {
                found = true;
            } else {
                j = j + 1;
            }
        }
        proof {
            assert(fallback@.take(i + 1).drop_last() =~= fallback@.take(i as int));
            if !found {
                assert(!has_host(before, ip@));
            }
        }
        if !found {
            targets.push((ip.clone(), BROKER_PORT));
            proof {
                assert(hosts_of(targets@) =~= before.push((ip@, BROKER_PORT)));
            }
        }
        i = i + 1;
    }
    proof {
        assert(fallback@.take(i as int) =~= fallback@);
    }
    targets
}

/// Every fallback address is a target, and every broker stays one.
pub proof fn lemma_fallback_is_complete(
    targets: Seq<(Seq<char>, u16)>,
    fallback: Seq<(String, String)>,
)
    ensures
        targets.is_prefix_of(with_fallback(targets, fallback)),
        forall|i: int|
            0 <= i < fallback.len() ==> has_host(
                with_fallback(targets, fallback),
                (#[trigger] fallback[i]).1@,
            ),
    decreases fallback.len(),
{
    if fallback.len() > 0 {
        let d = fallback.drop_last();
        let before = with_fallback(targets, d);
        let after = with_fallback(targets, fallback);
        lemma_fallback_is_complete(targets, d);
        assert forall|i: int| 0 <= i < fallback.len() implies has_host(
            after,
            (#[trigger] fallback[i]).1@,
        ) by {
            if i < d.len() {
                assert(d[i] == fallback[i]);
                let k = choose|k: int|
                    0 <= k < before.len() && (#[trigger] before[k]).0 == fallback[i].1@;
                assert(after[k].0 == fallback[i].1@);
            } else if !has_host(before, fallback[i].1@) {
                assert(after[before.len() as int].0 == fallback[i].1@);
            }
        }
    }
}

/// A message of a node about itself.
#[derive(Debug, Clone)]
pub struct MqttDiscoveryMessage {
    /// Version of the message.
    pub version: u8,
    /// The node's id in hexadecimal.
    pub node_id: String,
    /// Addresses at which the node can be connected to, as texts.
    pub addresses: Vec<String>,
    /// The node's API port.
    pub api_port: u16,
    /// The node's federation port.
    pub federation_port: u16,
    /// What it can do; not used yet.
    pub capabilities: u32,
    /// When it was sent, in seconds since the epoch.
    pub timestamp: u64,
}

/// The addresses that could be read, in order.
pub open spec fn readable(parsed: Seq<Option<SocketAddr>>) -> Seq<SocketAddr>
    decreases parsed.len(),
{
    if parsed.len() == 0 {
        Seq::empty()
    } else {
        match parsed.last() {
            Some(a) => readable(parsed.drop_last()).push(a),
            None => readable(parsed.drop_last()),
        }
    }
}

impl MqttDiscoveryMessage {
    /// The message of a node at the given time.
    pub fn new_at(
        node_id: [u8; 20],
        addresses: Vec<String>,
        api_port: u16,
        federation_port: u16,
        now: u64,
    ) -> (r: Self)
        ensures
            r.version == 1,
            r.node_id@ == hex_text(node_id@),
            r.addresses == addresses,
            r.api_port == api_port,
            r.federation_port == federation_port,
            r.capabilities == 0,
            r.timestamp == now,
    {
        MqttDiscoveryMessage {
            version: 1,
            node_id: hex_encode(node_id.as_slice()),
            addresses,
            api_port,
            federation_port,
            capabilities: 0,
            timestamp: now,
        }
    }

    /// The message of a node now.
    pub fn new(
        node_id: [u8; 20],
        addresses: Vec<String>,
        api_port: u16,
        federation_port: u16,
    ) -> (r: Self)
        ensures
            r.version == 1,
            r.node_id@ == hex_text(node_id@),
            r.addresses == addresses,
            r.api_port == api_port,
            r.federation_port == federation_port,
            r.capabilities == 0,
            is_unix_secs(r.timestamp),
    {
        let now: u64 = current_unix_secs();
        Self::new_at(node_id, addresses, api_port, federation_port, now)
    }

    /// The addresses of the message that could be read, given what reading each
    /// of them gave.
    pub fn parsed_addresses(parsed: &Vec<Option<SocketAddr>>) -> (r: Vec<SocketAddr>)
        ensures
            r@ == readable(parsed@),
    {
        let mut out: Vec<SocketAddr> = Vec::new();
        let mut i: usize = 0;
        proof {
            assert(parsed@.take(0) =~= Seq::<Option<SocketAddr>>::empty());
        }
        while i < parsed.len()
            invariant
                i <= parsed@.len(),
                out@ == readable(parsed@.take(i as int)),
            decreases parsed@.len() - i,
        {
            proof {
                assert(parsed@.take(i + 1).drop_last() =~= parsed@.take(i as int));
            }
            if let Some(a) = parsed[i] {
                out.push(a);
            }
            i = i + 1;
        }
        proof {
            assert(parsed@.take(i as int) =~= parsed@);
        }
        out
    }
}

/// Whether a message is older than is accepted.
pub open spec fn out_of_date(timestamp: u64, now: u64) -> bool {
    now - timestamp > MAX_MESSAGE_AGE_SECS
}

/// Whether a message is passed over before its sender's id is read: it is the
/// node's own, out of date, or without an address that could be read.
pub open spec fn passed_over(
    me: Seq<u8>,
    sender: Seq<char>,
    timestamp: u64,
    parsed: Seq<Option<SocketAddr>>,
    now: u64,
) -> bool {
    sender == hex_text(me) || out_of_date(timestamp, now) || readable(parsed).len() == 0
}

/// Whether a text is the id of a node.
pub open spec fn names_a_node(sender: Seq<char>) -> bool {
    cuts_cleanly(encode_utf8(sender)) && node_id_of(encode_utf8(sender)) is Ok
}

/// Announces a node to brokers and finds others; the connections are elsewhere.
#[derive(Debug, Clone)]
pub struct MqttDiscoveryService {
    pub my_node_id: [u8; 20],
    pub federation_port: u16,
    pub api_port: u16,
    /// Addresses at which this node can be connected to, as texts.
    pub my_addresses: Vec<String>,
    pub heartbeat_secs: u64,
}

impl MqttDiscoveryService {
    /// A service with the default heartbeat.
    pub fn new(
        my_node_id: [u8; 20],
        federation_port: u16,
        api_port: u16,
        my_addresses: Vec<String>,
    ) -> (r: Self)
        ensures
            r == (MqttDiscoveryService {
                my_node_id,
                federation_port,
                api_port,
                my_addresses,
                heartbeat_secs: 30,
            }),
    {
        MqttDiscoveryService {
            my_node_id,
            federation_port,
            api_port,
            my_addresses,
            heartbeat_secs: DEFAULT_MQTT_HEARTBEAT_SECS,
        }
    }

    /// The same service with another heartbeat.
    pub fn with_heartbeat(self, secs: u64) -> (r: Self)
        ensures
            r == (MqttDiscoveryService { heartbeat_secs: secs, ..self }),
    {
        let mut s = self;
        s.heartbeat_secs = secs;
        s
    }

    /// The name under which the node connects: the first eight bytes of its id in
    /// hexadecimal behind `pnos-`.
    pub fn client_id(&self) -> (r: String)
        ensures
            r@ == client_name(self.my_node_id@),
            r@ == "pnos-"@ + hex_text(self.my_node_id@.take(8)),
    {
        let head = copy_range(self.my_node_id.as_slice(), 0, 8);
        proof {
            assert(head@ =~= self.my_node_id@.take(8));
        }
        concat("pnos-", hex_encode(head.as_slice()).as_str())
    }

    /// Whether the service hears of exactly this node from a message.
    pub open spec fn has_heard(
        &self,
        msg: &MqttDiscoveryMessage,
        parsed: Seq<Option<SocketAddr>>,
        checked_at: u64,
        found_at: u64,
        r: Option<DiscoveredNode>,
    ) -> bool {
        if passed_over(self.my_node_id@, msg.node_id@, msg.timestamp, parsed, checked_at)
            || !names_a_node(msg.node_id@) {
            r is None
        } else {
            r is Some && r->0.is_new_find(
                node_id_of(encode_utf8(msg.node_id@))->Ok_0,
                readable(parsed),
                DiscoverySource::Mqtt,
                found_at,
            )
        }
    }

    /// The node that a message tells of, checked and found at the given times. One
    /// whose sender is no node's id tells of none.
    /// `parsed` is what reading each of the message's addresses gave.
    pub fn handle_notification_at(
        &self,
        msg: &MqttDiscoveryMessage,
        parsed: &Vec<Option<SocketAddr>>,
        checked_at: u64,
        found_at: u64,
    ) -> (r: Option<DiscoveredNode>)
        ensures
            self.has_heard(msg, parsed@, checked_at, found_at, r),
            match r {
                Some(n) => !passed_over(
                    self.my_node_id@,
                    msg.node_id@,
                    msg.timestamp,
                    parsed@,
                    checked_at,
                ) && names_a_node(msg.node_id@) && n.is_new_find(
                    node_id_of(encode_utf8(msg.node_id@))->Ok_0,
                    readable(parsed@),
                    DiscoverySource::Mqtt,
                    found_at,
                ),
                None => passed_over(
                    self.my_node_id@,
                    msg.node_id@,
                    msg.timestamp,
                    parsed@,
                    checked_at,
                ) || !names_a_node(msg.node_id@),
            },
    {
        let own = hex_encode(self.my_node_id.as_slice());
        if same_text(msg.node_id.as_str(), own.as_str()) {
            return None;
        }
        if checked_at.saturating_sub(msg.timestamp) > MAX_MESSAGE_AGE_SECS {
            return None;
        }
        let addresses = MqttDiscoveryMessage::parsed_addresses(parsed);
        if addresses.len() == 0 {
            return None;
        }
        if !NodeId::can_cut_hex(msg.node_id.as_str()) {
            return None;
        }
        match NodeId::from_hex(msg.node_id.as_str()) {
            Ok(node_id) => Some(
                DiscoveredNode {
                    node_id,
                    addresses,
                    reachability: Reachability::Unknown,
                    nat_type: None,
                    source: DiscoverySource::Mqtt,
                    last_seen: found_at,
                },
            ),
            Err(_) => None,
        }
    }

    /// The node that a message tells of, by the clock.
    pub fn handle_notification(
        &self,
        msg: &MqttDiscoveryMessage,
        parsed: &Vec<Option<SocketAddr>>,
    ) -> (r: Option<DiscoveredNode>)
        ensures
            match r {
                Some(n) => (exists|checked_at: u64|
                    is_unix_secs(checked_at) && !(#[trigger] passed_over(
                        self.my_node_id@,
                        msg.node_id@,
                        msg.timestamp,
                        parsed@,
                        checked_at,
                    ))) && names_a_node(msg.node_id@) && is_unix_secs(n.last_seen)
                    && n.is_new_find(
                    node_id_of(encode_utf8(msg.node_id@))->Ok_0,
                    readable(parsed@),
                    DiscoverySource::Mqtt,
                    n.last_seen,
                ),
                None => (exists|checked_at: u64|
                    is_unix_secs(checked_at) && #[trigger] passed_over(
                        self.my_node_id@,
                        msg.node_id@,
                        msg.timestamp,
                        parsed@,
                        checked_at,
                    )) || !names_a_node(msg.node_id@),
            },
    {
        let checked_at: u64 = current_unix_secs();
        let found_at: u64 = current_unix_secs();
        self.handle_notification_at(msg, parsed, checked_at, found_at)
    }
}

/// A node never finds itself: its own message is passed over, whenever it is read
/// and whatever its addresses are.
pub proof fn lemma_own_message_is_passed_over(
    me: Seq<u8>,
    timestamp: u64,
    parsed: Seq<Option<SocketAddr>>,
    now: u64,
)
    ensures
        passed_over(me, hex_text(me), timestamp, parsed, now),
{
}

/// A fresh message of another node, with an address that can be read, is not
/// passed over, and the id in it is the sender's.
pub proof fn lemma_fresh_message_is_heard(
    me: Seq<u8>,
    other: Seq<u8>,
    timestamp: u64,
    parsed: Seq<Option<SocketAddr>>,
    now: u64,
)
    requires
        me.len() == 20,
        other.len() == 20,
        me != other,
        now <= timestamp + MAX_MESSAGE_AGE_SECS,
        readable(parsed).len() > 0,
    ensures
        !passed_over(me, hex_text(other), timestamp, parsed, now),
        cuts_cleanly(encode_utf8(hex_text(other))),
        node_id_of(encode_utf8(hex_text(other))) == Ok::<Seq<u8>, crate::types::NodeIdError>(other),
{
    crate::types::lemma_node_id_hex_round_trip(me);
    crate::types::lemma_node_id_hex_round_trip(other);
}

/// What to do after a broker's connection ended.
#[derive(Debug, Clone, Copy, PartialEq, Eq, Structural)]
pub enum BrokerStep {
    /// Leave it: it ended on purpose.
    Done,
    /// Leave it: it failed too often.
    GiveUp,
    /// Wait for so many seconds and connect again.
    RetryAfter(u64),
}

/// What follows the end of a connection to a broker that has failed so often before.
pub open spec fn broker_step(failures: nat, failed: bool) -> BrokerStep {
    if !failed {
        BrokerStep::Done
    } else if failures + 1 >= MAX_BROKER_FAILURES {
        BrokerStep::GiveUp
    } else {
        BrokerStep::RetryAfter(BROKER_RETRY_SECS)
    }
}

/// How often a broker has failed.
#[derive(Debug, Clone, Copy, PartialEq, Eq, Structural)]
pub struct BrokerRun {
    pub failures: u32,
}

impl BrokerRun {
    /// No failure yet.
    pub fn new() -> (r: Self)
        ensures
            r.failures == 0,
    {
        BrokerRun { failures: 0 }
    }

    /// The connection ended: on purpose, or by a failure. The third failure is
    /// the last.
    pub fn on_end(&mut self, failed: bool) -> (r: BrokerStep)
        requires
            old(self).failures < MAX_BROKER_FAILURES,
        ensures
            r == broker_step(old(self).failures as nat, failed),
            !failed ==> r == BrokerStep::Done && *final(self) == *old(self),
            failed ==> final(self).failures == old(self).failures + 1 && r == if old(self).failures
                + 1 >= MAX_BROKER_FAILURES {
                BrokerStep::GiveUp
            } else {
                BrokerStep::RetryAfter(BROKER_RETRY_SECS)
            },
    {
        if !failed {
            return BrokerStep::Done;
        }
        self.failures = self.failures + 1;
        if self.failures >= MAX_BROKER_FAILURES {
            BrokerStep::GiveUp
        } else {
            BrokerStep::RetryAfter(BROKER_RETRY_SECS)
        }
    }
}

/// What happened on a broker's connection.
#[derive(Debug, Clone, Copy, PartialEq, Eq, Structural)]
pub enum BrokerEvent {
    /// Something came from the broker.
    Notification,
    /// The connection failed.
    ConnectionError,
    /// The heartbeat is due.
    Heartbeat,
    /// The node is shutting down.
    Shutdown,
}

/// What to do on a broker's connection.
#[derive(Debug, Clone, Copy, PartialEq, Eq, Structural)]
pub enum BrokerAction {
    /// Handle what came.
    Handle,
    /// Publish the node's message, kept by the broker; a failure is passed over.
    Publish,
    /// Leave the connection as failed.
    Fail,
    /// Disconnect and leave the connection as ended.
    Disconnect,
}

/// What an event on a broker's connection leads to.
pub open spec fn broker_action(event: BrokerEvent) -> BrokerAction {
    match event {
        BrokerEvent::Notification => BrokerAction::Handle,
        BrokerEvent::ConnectionError => BrokerAction::Fail,
        BrokerEvent::Heartbeat => BrokerAction::Publish,
        BrokerEvent::Shutdown => BrokerAction::Disconnect,
    }
}

/// The host to connect to where the name resolved to these addresses.
pub open spec fn host_for(host: Seq<char>, resolved: Seq<String>) -> Seq<char> {
    if resolved.len() > 0 {
        resolved[0]@
    } else {
        host
    }
}

/// What to do after an event on a broker's connection.
pub fn on_broker_event(event: BrokerEvent) -> (r: BrokerAction)
    ensures
        r == broker_action(event),
        r == match event {
            BrokerEvent::Notification => BrokerAction::Handle,
            BrokerEvent::ConnectionError => BrokerAction::Fail,
            BrokerEvent::Heartbeat => BrokerAction::Publish,
            BrokerEvent::Shutdown => BrokerAction::Disconnect,
        },
{
    match event {
        BrokerEvent::Notification => BrokerAction::Handle,
        BrokerEvent::ConnectionError => BrokerAction::Fail,
        BrokerEvent::Heartbeat => BrokerAction::Publish,
        BrokerEvent::Shutdown => BrokerAction::Disconnect,
    }
}

/// The host to connect to: the first address that the name resolved to, or the
/// name itself where it did not resolve.
pub fn connect_host(host: &str, resolved: Option<&Vec<String>>) -> (r: String)
    ensures
        r@ == host_for(host@, match resolved {
            Some(v) => v@,
            None => Seq::empty(),
        }),
        r@ == match resolved {
            Some(v) => if v@.len() > 0 {
                v@[0]@
            } else {
                host@
            },
            None => host@,
        },
{
    match resolved {
        Some(v) => {
            if v.len() > 0 {
                v[0].clone()
            } else {
                host.to_owned()
            }
        },
        None => host.to_owned(),
    }
}

/// A message counts for five minutes and no longer; one from the future counts.
pub proof fn lemma_messages_count_for_five_minutes(timestamp: u64, now: u64)
    ensures
        now <= timestamp ==> !out_of_date(timestamp, now),
        timestamp <= now <= timestamp + 300 ==> !out_of_date(timestamp, now),
        now > timestamp + 300 ==> out_of_date(timestamp, now),
{
}

/// The addresses that could be read are kept in order, and nothing else is.
pub proof fn lemma_readable_addresses(
    a: Seq<Option<SocketAddr>>,
    b: Seq<Option<SocketAddr>>,
    x: SocketAddr,
)
    ensures
        readable(a + b) == readable(a) + readable(b),
        readable(seq![Some(x)]) == seq![x],
        readable(seq![None::<SocketAddr>]) == Seq::<SocketAddr>::empty(),
    decreases b.len(),
{
    reveal_with_fuel(readable, 2);
    assert(seq![Some(x)].drop_last() =~= Seq::empty());
    assert(seq![None::<SocketAddr>].drop_last() =~= Seq::empty());
    assert(readable(seq![Some(x)]) =~= seq![x]);
    if b.len() > 0 {
        assert((a + b).drop_last() =~= a + b.drop_last());
        lemma_readable_addresses(a, b.drop_last(), x);
        assert(readable(a + b) =~= readable(a) + readable(b));
    } else {
        assert(a + b =~= a);
        assert(readable(a + b) =~= readable(a) + readable(b));
    }
}

/// A message is passed over for one of three reasons and for no other: it is the node's
/// own, it is too old, or none of its addresses could be read.
pub proof fn lemma_why_messages_are_passed_over(
    me: Seq<u8>,
    sender: Seq<char>,
    timestamp: u64,
    parsed: Seq<Option<SocketAddr>>,
    now: u64,
    i: int,
)
    requires
        0 <= i < parsed.len(),
        parsed[i] is Some,
    ensures
        passed_over(me, sender, timestamp, parsed, now) <==> sender == hex_text(me) || now
            - timestamp > 300,
        passed_over(me, sender, timestamp, seq![None::<SocketAddr>], now),
{
    lemma_some_readable(parsed, i);
    lemma_readable_addresses(Seq::empty(), Seq::empty(), parsed[i]->0);
}

proof fn lemma_some_readable(parsed: Seq<Option<SocketAddr>>, i: int)
    requires
        0 <= i < parsed.len(),
        parsed[i] is Some,
    ensures
        readable(parsed).len() > 0,
    decreases parsed.len(),
{
    if i < parsed.len() - 1 {
        lemma_some_readable(parsed.drop_last(), i);
    }
}

/// A fallback address is added once, at the brokers' port, and not at all where it is
/// among the targets already.
pub proof fn lemma_fallback_is_added_once(
    targets: Seq<(Seq<char>, u16)>,
    fallback: Seq<(String, String)>,
    next: (String, String),
)
    ensures
        ({
            let before = with_fallback(targets, fallback);
            let after = with_fallback(targets, fallback.push(next));
            &&& has_host(before, next.1@) ==> after == before
            &&& !has_host(before, next.1@) ==> after == before.push((next.1@, 1883u16))
        }),
        with_fallback(targets, Seq::empty()) == targets,
{
    assert(fallback.push(next).drop_last() =~= fallback);
}

/// A broker is left after its third failure; before that it is tried again after five
/// seconds; one that was left on purpose is not tried again.
pub proof fn lemma_brokers_are_left_after_three_failures(failures: nat)
    requires
        failures < 3,
    ensures
        broker_step(failures, true) is GiveUp <==> failures == 2,
        failures < 2 ==> broker_step(failures, true) == BrokerStep::RetryAfter(5),
        broker_step(failures, false) is Done,
{
}

/// Each event on a broker's connection has an answer of its own: only what came is
/// handled, only the heartbeat publishes, only an error fails the connection, and only
/// the end of the node disconnects it.
pub proof fn lemma_broker_answers(event: BrokerEvent)
    ensures
        broker_action(event) is Handle <==> event is Notification,
        broker_action(event) is Publish <==> event is Heartbeat,
        broker_action(event) is Fail <==> event is ConnectionError,
        broker_action(event) is Disconnect <==> event is Shutdown,
{
}

/// The host is the first address of those that the name resolved to, whatever follows it,
/// and the name itself where there is none.
pub proof fn lemma_host_is_the_first_address(host: Seq<char>, first: String, rest: Seq<String>)
    ensures
        host_for(host, seq![first] + rest) == first@,
        host_for(host, Seq::empty()) == host,
{
}

/// What is heard from a fresh message of another node is that node, found by this
/// service, at the addresses that could be read; one whose sender is this node, or that
/// is older than five minutes, is not heard.
pub proof fn lemma_what_is_heard(
    s: MqttDiscoveryService,
    msg: MqttDiscoveryMessage,
    sender: Seq<u8>,
    parsed: Seq<Option<SocketAddr>>,
    i: int,
    checked_at: u64,
    found_at: u64,
    r: Option<DiscoveredNode>,
)
    requires
        sender.len() == 20,
        msg.node_id@ == hex_text(sender),
        0 <= i < parsed.len(),
        parsed[i] is Some,
        s.has_heard(&msg, parsed, checked_at, found_at, r),
    ensures
        r is Some <==> sender != s.my_node_id@ && checked_at <= msg.timestamp + 300,
        match r {
            Some(n) => n.node_id.0@ == sender && n.addresses@ == readable(parsed)
                && n.source is Mqtt && n.last_seen == found_at && n.reachability is Unknown
                && n.nat_type is None,
            None => true,
        },
{
    lemma_some_readable(parsed, i);
    crate::types::lemma_node_id_hex_round_trip(s.my_node_id@);
    crate::types::lemma_node_id_hex_round_trip(sender);
}

/// A target is a host and a port, each as it is.
pub proof fn lemma_hosts(v: Seq<(String, u16)>, i: int)
    ensures
        hosts_of(v).len() == v.len(),
        0 <= i < v.len() ==> hosts_of(v)[i].0 == v[i].0@ && hosts_of(v)[i].1 == v[i].1,
{
}

/// Only a sender whose name is forty bytes long names a node.
pub proof fn lemma_names_of_nodes(sender: Seq<char>)
    ensures
        names_a_node(sender) ==> encode_utf8(sender).len() == 40,
        forall|id: Seq<u8>| id.len() == 20 ==> names_a_node(#[trigger] hex_text(id)),
{
    assert forall|id: Seq<u8>| id.len() == 20 implies names_a_node(#[trigger] hex_text(id)) by {
        crate::types::lemma_node_id_hex_round_trip(id);
    }
}

/// The name that a node has at a broker.
pub open spec fn client_name(id: Seq<u8>) -> Seq<char> {
    "pnos-"@ + hex_text(id.take(8))
}

/// A node's name at a broker is the prefix and the first sixteen digits of its id.
pub proof fn lemma_client_names(id: Seq<u8>)
    requires
        id.len() == 20,
    ensures
        client_name(id).len() == 21,
        client_name(id).take(5) == "pnos-"@,
        client_name(id).skip(5) == hex_text(id).take(16),
{
    reveal_strlit("pnos-");
    let f = id.take(8);
    crate::types::lemma_hex_text_at(id);
    crate::types::lemma_hex_text_at(f);
    assert forall|k: int| 0 <= k < 16 implies hex_text(id)[k] == #[trigger] hex_text(f)[k] by {
        let i = k / 2;
        assert(f[i] == id[i]);
        assert(k == 2 * i || k == 2 * i + 1);
    }
    assert(client_name(id).take(5) =~= "pnos-"@);
    assert(client_name(id).skip(5) =~= hex_text(id).take(16));
}

/// A host is among targets exactly where one of them is of that name, at any port.
pub proof fn lemma_hosts_among_targets(
    targets: Seq<(Seq<char>, u16)>,
    host: Seq<char>,
    port: u16,
    i: int,
)
    ensures
        has_host(targets.push((host, port)), host),
        0 <= i < targets.len() ==> has_host(targets, targets[i].0),
        !has_host(targets, host) && 0 <= i < targets.len() ==> targets[i].0 != host,
        !has_host(Seq::empty(), host),
{
    let t = targets.push((host, port));
    assert(t[targets.len() as int].0 == host);
}

} // verus!
