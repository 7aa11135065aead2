//! Nodes, their addresses and where they were found.

use vstd::prelude::*;
use vstd::utf8::{encode_utf8, is_char_boundary};

use crate::addr::SocketAddr;
use crate::bytes::same_bytes;
use crate::numbers::{digit, digit_char, digit_of, digit_value, lemma_digit_round_trip};
use crate::text::take_chars;

verus! {

/// The id of a node: twenty bytes.
#[derive(Clone, Copy, Debug, Hash)]
pub struct NodeId(pub [u8; 20]);

impl PartialEq for NodeId {
    fn eq(&self, other: &Self) -> (r: bool) {
        same_bytes(self.0.as_slice(), other.0.as_slice())
    }
}

impl vstd::std_specs::cmp::PartialEqSpecImpl for NodeId {
    open spec fn obeys_eq_spec() -> bool {
        true
    }

    open spec fn eq_spec(&self, other: &Self) -> bool {
        self.0@ == other.0@
    }
}

impl Eq for NodeId {

}

/// Why a text is no node id.
#[derive(Debug, Clone, Copy, PartialEq, Eq, Structural)]
pub enum NodeIdError {
    /// The text is not forty bytes long; the length that it has.
    Length(usize),
    /// A pair of characters is no hexadecimal number.
    Digit,
}

/// The two digits of a byte, high first, letters in lower case.
pub open spec fn hex_pair(b: u8) -> Seq<char> {
    seq![digit_char((b / 16) as nat), digit_char((b % 16) as nat)]
}

/// The bytes of `s` in hexadecimal, two characters each.
pub open spec fn hex_text(s: Seq<u8>) -> Seq<char>
    decreases s.len(),
{
    if s.len() == 0 {
        Seq::empty()
    } else {
        hex_text(s.drop_last()) + hex_pair(s.last())
    }
}

/// The value of a pair of bytes read as a number in base sixteen: two digits in
/// either case, or a plus sign and a digit.
pub open spec fn pair_value(hi: u8, lo: u8) -> Option<u8> {
    match digit_of(lo as char, 16) {
        None => None,
        Some(l) => match digit_of(hi as char, 16) {
            Some(h) => Some((16 * h + l) as u8),
            None => if hi == 0x2b {
                Some(l as u8)
            } else {
                None
            },
        },
    }
}

/// The value of the `i`-th pair of bytes of `b`.
pub open spec fn nth_pair(b: Seq<u8>, i: int) -> Option<u8> {
    pair_value(b[2 * i], b[2 * i + 1])
}

/// Whether `b` can be cut into pairs up to the first one that is no number:
/// no cut falls inside a character.
pub open spec fn cuts_cleanly(b: Seq<u8>) -> bool {
    b.len() == 40 ==> forall|i: int|
        0 <= i < 20 && (forall|j: int| 0 <= j < i ==> nth_pair(b, j) is Some)
            ==> #[trigger] is_char_boundary(b, 2 * i + 2)
}

/// Whether every pair of bytes of `b` is a number.
pub open spec fn all_pairs(b: Seq<u8>) -> bool {
    forall|i: int| 0 <= i < 20 ==> (#[trigger] nth_pair(b, i)) is Some
}

/// What reading the bytes of a text as a node id gives.
pub open spec fn node_id_of(b: Seq<u8>) -> Result<Seq<u8>, NodeIdError> {
    if b.len() != 40 {
        Err(NodeIdError::Length(b.len() as usize))
    } else if all_pairs(b) {
        Ok(Seq::new(20, |i: int| nth_pair(b, i)->0))
    } else {
        Err(NodeIdError::Digit)
    }
}

/// Reads a pair of bytes as a number in base sixteen.
fn read_pair(hi: u8, lo: u8) -> (r: Option<u8>)
    ensures
        r == pair_value(hi, lo),
{
    match digit_value(lo as char, 16) {
        None => None,
        Some(l) => match digit_value(hi as char, 16) {
            Some(h) => Some((16 * h + l) as u8),
            None => if hi == 0x2b {
                Some(l as u8)
            } else {
                None
            },
        },
    }
}

/// Appends the two digits of a byte.
pub fn push_hex(out: &mut String, b: u8)
    ensures
        final(out)@ == old(out)@ + hex_pair(b),
{
    out.push(digit(b / 16));
    out.push(digit(b % 16));
    proof {
        assert(out@ =~= old(out)@ + hex_pair(b));
    }
}

impl NodeId {
    /// The id with the given bytes, if there are twenty.
    pub fn from_slice(bytes: &[u8]) -> (r: Option<Self>)
        ensures
            match r {
                Some(id) => bytes@.len() == 20 && id.0@ == bytes@,
                None => bytes@.len() != 20,
            },
    {
        if bytes.len() != 20 {
            return None;
        }
        let mut id: [u8; 20] = [0u8; 20];
        let mut i: usize = 0;
        while i < 20
            invariant
                i <= 20,
                bytes@.len() == 20,
                forall|j: int| 0 <= j < i ==> id@[j] == bytes@[j],
            decreases 20 - i,
        {
            id[i] = bytes[i];
            i = i + 1;
        }
        proof {
            assert(id@ =~= bytes@);
        }
        Some(NodeId(id))
    }

    /// Whether reading `s` as an id finds a character boundary at each cut that
    /// it makes.
    pub fn can_cut_hex(s: &str) -> (r: bool)
        ensures
            r == cuts_cleanly(encode_utf8(s@)),
    {
        let b = s.as_bytes();
        if b.len() != 40 {
            return true;
        }
        let mut i: usize = 0;
        while i < 20
            invariant
                i <= 20,
                b@ == encode_utf8(s@),
                b@.len() == 40,
                forall|j: int| 0 <= j < i ==> nth_pair(b@, j) is Some,
                forall|j: int| 0 <= j < i ==> #[trigger] is_char_boundary(b@, 2 * j + 2),
            decreases 20 - i,
        {
            if !s.is_char_boundary(2 * i + 2) {
                return false;
            }
            if read_pair(b[2 * i], b[2 * i + 1]).is_none() {
                proof {
                    assert(nth_pair(b@, i as int) is None);
                    assert forall|k: int|
                        0 <= k < 20 && (forall|j: int| 0 <= j < k ==> nth_pair(b@, j) is Some)
                        implies #[trigger] is_char_boundary(b@, 2 * k + 2) by {
                        if k > i {
                            assert(nth_pair(b@, i as int) is Some);
                        }
                    }
                }
                return true;
            }
            i = i + 1;
        }
        true
    }

    /// Reads an id from forty hexadecimal digits.
    pub fn from_hex(s: &str) -> (r: Result<Self, NodeIdError>)
        requires
            cuts_cleanly(encode_utf8(s@)),
        ensures
            match (r, node_id_of(encode_utf8(s@))) {
                (Ok(id), Ok(b)) => id.0@ == b,
                (Err(e), Err(f)) => e == f,
                _ => false,
            },
    {
        let b = s.as_bytes();
        if b.len() != 40 {
            return Err(NodeIdError::Length(b.len()));
        }
        let mut id: [u8; 20] = [0u8; 20];
        let mut i: usize = 0;
        while i < 20
            invariant
                i <= 20,
                b@ == encode_utf8(s@),
                b@.len() == 40,
                forall|j: int| 0 <= j < i ==> nth_pair(b@, j) == Some(id@[j]),
            decreases 20 - i,
        {
            match read_pair(b[2 * i], b[2 * i + 1]) {
                Some(v) => {
                    id[i] = v;
                },
                None => {
                    proof {
                        assert(nth_pair(b@, i as int) is None);
                    }
                    return Err(NodeIdError::Digit);
                },
            }
            i = i + 1;
        }
        proof {
            assert(id@ =~= Seq::new(20, |i: int| nth_pair(b@, i)->0));
        }
        Ok(NodeId(id))
    }

    /// The id in forty hexadecimal digits.
    pub fn to_hex(&self) -> (r: String)
        ensures
            r@ == hex_text(self.0@),
            r@.len() == 40,
    {
        let mut out: String = String::new();
        let mut i: usize = 0;
        proof {
            assert(self.0@.take(0) =~= Seq::<u8>::empty());
        }
        while i < 20
            invariant
                i <= 20,
                out@ == hex_text(self.0@.take(i as int)),
                out@.len() == 2 * i,
            decreases 20 - i,
        {
            push_hex(&mut out, self.0[i]);
            proof {
                assert(self.0@.take(i + 1).drop_last() =~= self.0@.take(i as int));
            }
            i = i + 1;
        }
        proof {
            assert(self.0@.take(20) =~= self.0@);
        }
        out
    }

    /// The first eight digits, enough to tell nodes apart in a log.
    pub fn to_short(&self) -> (r: String)
        ensures
            r@ == short_text(self.0@),
            r@ == hex_text(self.0@).take(8),
    {
        let all = self.to_hex();
        take_chars(all.as_str(), 8)
    }

    /// The bytes of the id.
    pub fn as_bytes(&self) -> (r: &[u8; 20])
        ensures
            *r == self.0,
    {
        &self.0
    }
}

/// The digits of the `i`-th byte stand at `2 * i`.
pub proof fn lemma_hex_text_at(s: Seq<u8>)
    ensures
        hex_text(s).len() == 2 * s.len(),
        forall|i: int|
            #![trigger s[i]]
            0 <= i < s.len() ==> hex_text(s)[2 * i] == hex_pair(s[i])[0] && hex_text(s)[2 * i + 1]
                == hex_pair(s[i])[1],
    decreases s.len(),
{
    if s.len() > 0 {
        lemma_hex_text_at(s.drop_last());
        assert forall|i: int| #![trigger s[i]] 0 <= i < s.len() implies hex_text(s)[2 * i]
            == hex_pair(s[i])[0] && hex_text(s)[2 * i + 1] == hex_pair(s[i])[1] by {
            if i < s.len() - 1 {
                assert(s.drop_last()[i] == s[i]);
            }
        }
    }
}

proof fn lemma_digit_char_ascii(v: nat)
    requires
        v < 16,
    ensures
        (digit_char(v) as u8) as char == digit_char(v),
        '\0' <= digit_char(v) <= '\u{7f}',
{
}

/// A text of ASCII characters can be cut anywhere.
pub proof fn lemma_ascii_cuts_cleanly(t: Seq<char>)
    requires
        vstd::utf8::is_ascii_chars(t),
    ensures
        cuts_cleanly(encode_utf8(t)),
{
    let b = encode_utf8(t);
    vstd::utf8::is_ascii_chars_encode_utf8(t);
    vstd::utf8::encode_utf8_valid_utf8(t);
    if b.len() == 40 {
        assert forall|i: int| 0 <= i < 20 implies #[trigger] is_char_boundary(b, 2 * i + 2) by {
            vstd::utf8::is_char_boundary_start_end_of_seq(b);
            if i == 19 {
                assert(2 * i + 2 == b.len());
            } else {
                vstd::utf8::is_char_boundary_iff_not_is_continuation_byte(b, 2 * i + 2);
                assert(b[2 * i + 2] == t[2 * i + 2] as u8);
                assert('\0' <= t[2 * i + 2] <= '\u{7f}');
            }
        }
    }
}

/// The id of a node reads back from its text.
pub proof fn lemma_node_id_hex_round_trip(id: Seq<u8>)
    requires
        id.len() == 20,
    ensures
        cuts_cleanly(encode_utf8(hex_text(id))),
        node_id_of(encode_utf8(hex_text(id))) == Ok::<Seq<u8>, NodeIdError>(id),
{
    let t = hex_text(id);
    let b = encode_utf8(t);
    lemma_hex_text_at(id);
    assert forall|k: int| 0 <= k < t.len() implies '\0' <= #[trigger] t[k] <= '\u{7f}' by {
        let i = k / 2;
        let v = id[i];
        lemma_digit_char_ascii((v / 16) as nat);
        lemma_digit_char_ascii((v % 16) as nat);
        assert(k == 2 * i || k == 2 * i + 1);
    }
    vstd::utf8::is_ascii_chars_encode_utf8(t);
    assert forall|i: int| 0 <= i < 20 implies #[trigger] nth_pair(b, i) == Some(id[i]) by {
        let v = id[i];
        lemma_digit_round_trip((v / 16) as nat, 16);
        lemma_digit_round_trip((v % 16) as nat, 16);
        lemma_digit_char_ascii((v / 16) as nat);
        lemma_digit_char_ascii((v % 16) as nat);
        assert(b[2 * i] == t[2 * i] as u8);
        assert(b[2 * i + 1] == t[2 * i + 1] as u8);
    }
    assert(Seq::new(20, |i: int| nth_pair(b, i)->0) =~= id);
    lemma_ascii_cuts_cleanly(t);
}

/// `rand::RngCore::fill_bytes` on the thread's generator. Nothing is known of the
/// bytes.
#[verifier::external_body]
fn random_bytes() -> (r: [u8; 20]) {
    let mut id = [0u8; 20];
    rand::RngCore::fill_bytes(&mut rand::thread_rng(), &mut id);
    id
}

impl NodeId {
    /// An id of random bytes.
    pub fn random() -> Self {
        NodeId(random_bytes())
    }

    /// The id with its type's name round it.
    pub fn to_debug(&self) -> (r: String)
        ensures
            r@ == "NodeId("@ + hex_text(self.0@) + ")"@,
    {
        let mut out = "NodeId(".to_owned();
        out.append(self.to_hex().as_str());
        out.append(")");
        out
    }
}

/// How a node can be reached.
#[derive(Debug, Clone, Copy, PartialEq, Eq, Hash, Structural)]
pub enum Reachability {
    PublicIpv6,
    Mapped,
    HolePunchable,
    OutboundOnly,
    Unknown,
}

impl Reachability {
    /// The name of the level.
    pub open spec fn name(self) -> Seq<char> {
        match self {
            Reachability::PublicIpv6 => "PublicIpv6"@,
            Reachability::Mapped => "Mapped"@,
            Reachability::HolePunchable => "HolePunchable"@,
            Reachability::OutboundOnly => "OutboundOnly"@,
            Reachability::Unknown => "Unknown"@,
        }
    }

    /// The name of the level.
    pub fn to_string(&self) -> (r: String)
        ensures
            r@ == self.name(),
    {
        match self {
            Reachability::PublicIpv6 => "PublicIpv6".to_owned(),
            Reachability::Mapped => "Mapped".to_owned(),
            Reachability::HolePunchable => "HolePunchable".to_owned(),
            Reachability::OutboundOnly => "OutboundOnly".to_owned(),
            Reachability::Unknown => "Unknown".to_owned(),
        }
    }
}

/// What is known of a node's addresses.
#[derive(Debug, Clone)]
pub struct NodeAddress {
    pub node_id: [u8; 20],
    pub ipv4_addr: Option<SocketAddr>,
    pub ipv6_addr: Option<SocketAddr>,
    pub reachability: Reachability,
    pub last_seen: u64,
    pub nat_type: Option<String>,
}

impl NodeAddress {
    /// The fourth-version address, else the sixth-version one.
    pub fn preferred_addr(&self) -> (r: Option<SocketAddr>)
        ensures
            r == preferred(self.ipv4_addr, self.ipv6_addr),
            r == if self.ipv4_addr is Some {
                self.ipv4_addr
            } else {
                self.ipv6_addr
            },
    {
        if self.ipv4_addr.is_some() {
            self.ipv4_addr
        } else {
            self.ipv6_addr
        }
    }
}

/// A node that was found.
#[derive(Debug, Clone)]
pub struct DiscoveredNode {
    /// Its id.
    pub node_id: NodeId,
    /// Its known addresses.
    pub addresses: Vec<SocketAddr>,
    /// How it can be reached.
    pub reachability: Reachability,
    /// The type of its translator, if known.
    pub nat_type: Option<String>,
    /// Where it was found.
    pub source: DiscoverySource,
    /// When it was found last, in seconds since the epoch.
    pub last_seen: u64,
}

impl DiscoveredNode {
    /// Whether this is a node of which no more is known than its id, its
    /// addresses, where it was found and when.
    pub open spec fn is_new_find(
        self,
        node_id: Seq<u8>,
        addresses: Seq<SocketAddr>,
        source: DiscoverySource,
        last_seen: u64,
    ) -> bool {
        &&& self.node_id.0@ == node_id
        &&& self.addresses@ == addresses
        &&& self.reachability is Unknown
        &&& self.nat_type is None
        &&& self.source == source
        &&& self.last_seen == last_seen
    }
}

/// Where a node was found.
#[derive(Debug, Clone, Copy, PartialEq, Eq, Hash, Structural)]
pub enum DiscoverySource {
    /// The distributed hash table.
    Dht,
    /// Multicast in the local network.
    Lpd,
    /// The cache of nodes that were connected before.
    PeerCache,
    /// The configured seeds.
    Seed,
    /// Exchange with connected nodes.
    Pex,
    /// A public broker.
    Mqtt,
}

impl DiscoverySource {
    /// The name of the source.
    pub open spec fn name(self) -> Seq<char> {
        match self {
            DiscoverySource::Dht => "DHT"@,
            DiscoverySource::Lpd => "LPD"@,
            DiscoverySource::PeerCache => "PeerCache"@,
            DiscoverySource::Seed => "Seed"@,
            DiscoverySource::Pex => "PEX"@,
            DiscoverySource::Mqtt => "MQTT"@,
        }
    }

    /// The name of the source.
    pub fn to_string(&self) -> (r: String)
        ensures
            r@ == self.name(),
    {
        match self {
            DiscoverySource::Dht => "DHT".to_owned(),
            DiscoverySource::Lpd => "LPD".to_owned(),
            DiscoverySource::PeerCache => "PeerCache".to_owned(),
            DiscoverySource::Seed => "Seed".to_owned(),
            DiscoverySource::Pex => "PEX".to_owned(),
            DiscoverySource::Mqtt => "MQTT".to_owned(),
        }
    }
}

/// `hex::encode`: two lower-case digits for each byte, in order.
#[verifier::external_body]
pub(crate) fn hex_encode(data: &[u8]) -> (r: String)
    ensures
        r@ == hex_text(data@),
{
    hex::encode(data)
}

/// The address to reach a node at.
pub open spec fn preferred(ipv4: Option<SocketAddr>, ipv6: Option<SocketAddr>) -> Option<
    SocketAddr,
> {
    if ipv4 is Some {
        ipv4
    } else {
        ipv6
    }
}

/// The short form of an id.
pub open spec fn short_text(id: Seq<u8>) -> Seq<char> {
    hex_text(id).take(8)
}

/// An address of the fourth version is preferred, whatever the other is; one of the sixth
/// serves where there is none.
pub proof fn lemma_preferred(a: SocketAddr, b: Option<SocketAddr>)
    ensures
        preferred(Some(a), b) == Some(a),
        preferred(None, b) == b,
{
}

/// The short form of an id is the text of its first four bytes.
pub proof fn lemma_short_text(id: Seq<u8>)
    requires
        id.len() >= 4,
    ensures
        short_text(id) == hex_text(id.take(4)),
        short_text(id).len() == 8,
{
    let f = id.take(4);
    lemma_hex_text_at(id);
    lemma_hex_text_at(f);
    assert forall|k: int| 0 <= k < 8 implies short_text(id)[k] == #[trigger] hex_text(f)[k] by {
        let i = k / 2;
        assert(f[i] == id[i]);
        assert(k == 2 * i || k == 2 * i + 1);
    }
    assert(short_text(id) =~= hex_text(f));
}

/// A byte is written as its two digits, the more significant first, in small letters.
pub proof fn lemma_byte_in_digits(hi: u8, lo: u8)
    requires
        hi < 16,
        lo < 16,
    ensures
        hex_pair((16 * hi + lo) as u8).len() == 2,
        hex_pair((16 * hi + lo) as u8)[0] as int == if hi < 10 {
            48 + hi
        } else {
            87 + hi
        },
        hex_pair((16 * hi + lo) as u8)[1] as int == if lo < 10 {
            48 + lo
        } else {
            87 + lo
        },
{
}

/// A byte is read from two digits, the more significant first, in small or capital
/// letters; anything else is not read.
pub proof fn lemma_pairs_are_read(h: u8, l: u8)
    ensures
        h < 10 && l < 10 ==> pair_value((48 + h) as u8, (48 + l) as u8) == Some((16 * h + l) as u8),
        h < 6 && l < 6 ==> pair_value((97 + h) as u8, (97 + l) as u8) == Some(
            (16 * (10 + h) + 10 + l) as u8,
        ),
        h < 6 && l < 6 ==> pair_value((65 + h) as u8, (65 + l) as u8) == Some(
            (16 * (10 + h) + 10 + l) as u8,
        ),
        h < 6 && l < 10 ==> pair_value((97 + h) as u8, (48 + l) as u8) == Some(
            (16 * (10 + h) + l) as u8,
        ),
        h < 10 && l < 6 ==> pair_value((48 + h) as u8, (97 + l) as u8) == Some(
            (16 * h + 10 + l) as u8,
        ),
        l < 48 || 57 < l < 65 || 70 < l < 97 || 102 < l ==> pair_value(h, l) is None,
        (h < 48 && h != 0x2b) || 57 < h < 65 || 70 < h < 97 || 102 < h ==> pair_value(h, l) is None,
{
}

/// An id is read exactly from forty bytes that are twenty pairs of digits; the length is
/// looked at first, and reported.
pub proof fn lemma_what_ids_are_read(b: Seq<u8>)
    requires
        b.len() <= usize::MAX,
    ensures
        node_id_of(b) is Ok <==> b.len() == 40 && forall|i: int|
            0 <= i < 20 ==> pair_value(b[2 * i], #[trigger] b[2 * i + 1]) is Some,
        b.len() != 40 <==> node_id_of(b) == Err::<Seq<u8>, NodeIdError>(
            NodeIdError::Length(b.len() as usize),
        ),
        node_id_of(b) is Ok ==> node_id_of(b)->Ok_0.len() == 20 && forall|i: int|
            0 <= i < 20 ==> Some(#[trigger] node_id_of(b)->Ok_0[i]) == pair_value(
                b[2 * i],
                b[2 * i + 1],
            ),
{
    if b.len() == 40 {
        if forall|i: int| 0 <= i < 20 ==> pair_value(b[2 * i], #[trigger] b[2 * i + 1]) is Some {
            assert forall|i: int| 0 <= i < 20 implies (#[trigger] nth_pair(b, i)) is Some by {
                assert(pair_value(b[2 * i], b[2 * i + 1]) is Some);
            }
        }
        if all_pairs(b) {
            assert forall|i: int| 0 <= i < 20 implies pair_value(
                b[2 * i],
                #[trigger] b[2 * i + 1],
            ) is Some by {
                assert(nth_pair(b, i) is Some);
            }
            assert forall|i: int| 0 <= i < 20 implies Some(#[trigger] node_id_of(b)->Ok_0[i])
                == pair_value(b[2 * i], b[2 * i + 1]) by {
                assert(nth_pair(b, i) is Some);
            }
        }
    }
}

/// The names under which a node's reach, and where it was found, are shown.
pub proof fn lemma_shown_names()
    ensures
        Reachability::PublicIpv6.name() == "PublicIpv6"@,
        Reachability::Mapped.name() == "Mapped"@,
        Reachability::HolePunchable.name() == "HolePunchable"@,
        Reachability::OutboundOnly.name() == "OutboundOnly"@,
        Reachability::Unknown.name() == "Unknown"@,
        DiscoverySource::Dht.name() == "DHT"@,
        DiscoverySource::Lpd.name() == "LPD"@,
        DiscoverySource::PeerCache.name() == "PeerCache"@,
        DiscoverySource::Seed.name() == "Seed"@,
        DiscoverySource::Pex.name() == "PEX"@,
        DiscoverySource::Mqtt.name() == "MQTT"@,
{
}

} // verus!
