//! Addresses of the sixth version: their kinds, the choice between the two
//! versions, and fourth-version addresses written as sixth-version ones.

use vstd::arithmetic::div_mod::{lemma_div_denominator, lemma_fundamental_div_mod};
use vstd::prelude::*;

use crate::addr::{IpAddr, Ipv4Addr, Ipv6Addr, SocketAddr};
use crate::text::{
    before_char, contains, first_char, lemma_first_char_bound, occurs_in, split_words, texts, words,
};

verus! {

/// How addresses of the sixth version are used.
#[derive(Debug, Clone)]
pub struct Ipv6Config {
    /// Whether they are used at all.
    pub enabled: bool,
    /// Whether they come first where both versions can be used.
    pub prefer_ipv6: bool,
    /// Where to listen.
    pub listen_addr: String,
    /// Whether multicast is used.
    pub enable_multicast: bool,
    /// Hop limit of what is sent.
    pub hop_limit: u32,
    /// Whether connectivity is detected.
    pub auto_detect: bool,
}

impl Default for Ipv6Config {
    fn default() -> (r: Self)
        ensures
            r.enabled,
            r.prefer_ipv6,
            r.listen_addr@ == "[::]:0"@,
            !r.enable_multicast,
            r.hop_limit == 64,
            r.auto_detect,
    {
        Ipv6Config {
            enabled: true,
            prefer_ipv6: true,
            listen_addr: "[::]:0".to_owned(),
            enable_multicast: false,
            hop_limit: 64,
            auto_detect: true,
        }
    }
}

/// How far the node's addresses of the sixth version reach.
#[derive(Debug, Clone, Copy, PartialEq, Eq, Structural)]
pub enum Ipv6Connectivity {
    /// Not detected yet.
    Unknown,
    /// There is none.
    NoIpv6,
    /// Only addresses of the own link.
    LinkLocalOnly,
    /// Only unique local addresses.
    UlaOnly,
    /// A global address.
    Global,
}

impl Ipv6Connectivity {
    /// Whether peers can connect directly.
    pub fn is_direct_connectable(&self) -> (r: bool)
        ensures
            r == (self is Global),
    {
        matches!(self, Ipv6Connectivity::Global)
    }

    /// The name in snake case.
    pub open spec fn name(self) -> Seq<char> {
        match self {
            Ipv6Connectivity::Unknown => "unknown"@,
            Ipv6Connectivity::NoIpv6 => "no_ipv6"@,
            Ipv6Connectivity::LinkLocalOnly => "link_local_only"@,
            Ipv6Connectivity::UlaOnly => "ula_only"@,
            Ipv6Connectivity::Global => "global"@,
        }
    }

    /// The name in snake case.
    pub fn as_str(&self) -> (r: &'static str)
        ensures
            r@ == self.name(),
    {
        match self {
            Ipv6Connectivity::Unknown => "unknown",
            Ipv6Connectivity::NoIpv6 => "no_ipv6",
            Ipv6Connectivity::LinkLocalOnly => "link_local_only",
            Ipv6Connectivity::UlaOnly => "ula_only",
            Ipv6Connectivity::Global => "global",
        }
    }
}

/// The first sixteen bits of an address.
pub open spec fn first_group(a: Ipv6Addr) -> int {
    a.bits as int / 0x1_0000_0000_0000_0000_0000_0000_0000
}

/// `fe80::/10`.
pub open spec fn link_local(a: Ipv6Addr) -> bool {
    0xfe80 <= first_group(a) <= 0xfebf
}

/// `fc00::/7`.
pub open spec fn unique_local(a: Ipv6Addr) -> bool {
    0xfc00 <= first_group(a) <= 0xfdff
}

/// `ff00::/8`.
pub open spec fn multicast(a: Ipv6Addr) -> bool {
    0xff00 <= first_group(a)
}

/// Neither of the own link, nor unique local, nor multicast, nor `::1` or `::`.
pub open spec fn global_unicast(a: Ipv6Addr) -> bool {
    !link_local(a) && !unique_local(a) && !multicast(a) && a.bits > 1
}

/// The first sixteen bits of an address.
fn group0(a: &Ipv6Addr) -> (r: u16)
    ensures
        r as int == first_group(*a),
{
    (a.bits / 0x1_0000_0000_0000_0000_0000_0000_0000) as u16
}

/// The words of a line, each up to a percent sign, in which an address may
/// stand; `None` where the line does not speak of the sixth version.
pub open spec fn candidate_texts(line: Seq<char>) -> Option<Seq<Seq<char>>> {
    if occurs_in(line, "IPv6"@) || occurs_in(line, "ipv6"@) {
        Some(words(line).map_values(|w: Seq<char>| w.take(first_char(w, '%'))))
    } else {
        None
    }
}

/// The first global address.
pub open spec fn first_global(addrs: Seq<Ipv6Addr>) -> Option<Ipv6Addr>
    decreases addrs.len(),
{
    if addrs.len() == 0 {
        None
    } else if global_unicast(addrs[0]) {
        Some(addrs[0])
    } else {
        first_global(addrs.drop_first())
    }
}

/// How far addresses reach.
pub open spec fn reach_of(addrs: Seq<Ipv6Addr>) -> Ipv6Connectivity {
    if first_global(addrs) is Some {
        Ipv6Connectivity::Global
    } else if exists|i: int| 0 <= i < addrs.len() && unique_local(#[trigger] addrs[i]) {
        Ipv6Connectivity::UlaOnly
    } else if exists|i: int| 0 <= i < addrs.len() && link_local(#[trigger] addrs[i]) {
        Ipv6Connectivity::LinkLocalOnly
    } else {
        Ipv6Connectivity::NoIpv6
    }
}

/// The first candidate of the sixth or of the fourth version.
pub open spec fn first_of_version(candidates: Seq<SocketAddr>, v6: bool) -> Option<SocketAddr>
    decreases candidates.len(),
{
    if candidates.len() == 0 {
        None
    } else if (candidates[0].ip is V6) == v6 {
        Some(candidates[0])
    } else {
        first_of_version(candidates.drop_first(), v6)
    }
}

/// What is known of the node's own addresses of the sixth version.
#[derive(Debug, Clone)]
pub struct Ipv6Manager {
    pub config: Ipv6Config,
    pub connectivity: Ipv6Connectivity,
    pub global_address: Option<Ipv6Addr>,
}

impl Ipv6Manager {
    /// Nothing is known yet.
    pub fn new(config: Ipv6Config) -> (r: Self)
        ensures
            r.config == config,
            r.connectivity is Unknown,
            r.global_address is None,
    {
        Ipv6Manager { config, connectivity: Ipv6Connectivity::Unknown, global_address: None }
    }

    /// Whether an address is a global one.
    pub fn is_global_ipv6(addr: &Ipv6Addr) -> (r: bool)
        ensures
            r == global_unicast(*addr),
    {
        let g: u16 = group0(addr);
        if 0xfe80 <= g && g <= 0xfebf {
            return false;
        }
        if 0xfc00 <= g && g <= 0xfdff {
            return false;
        }
        if g >= 0xff00 {
            return false;
        }
        addr.bits > 1
    }

    /// The words of a line in which an address may stand, without zone suffixes.
    pub fn extract_ipv6_candidates(line: &str) -> (r: Option<Vec<String>>)
        ensures
            match r {
                Some(v) => candidate_texts(line@) == Some(texts(v@)),
                None => candidate_texts(line@) is None,
            },
    {
        if !contains(line, "IPv6") && !contains(line, "ipv6") {
            return None;
        }
        let parts = split_words(line);
        let mut out: Vec<String> = Vec::new();
        let mut i: usize = 0;
        let ghost ws = words(line@);
        let ghost f = |w: Seq<char>| w.take(first_char(w, '%'));
        while i < parts.len()
            invariant
                i <= parts@.len(),
                texts(parts@) == ws,
                out@.len() == i,
                f == (|w: Seq<char>| w.take(first_char(w, '%'))),
                forall|j: int| 0 <= j < i ==> (#[trigger] out@[j])@ == f(ws[j]),
            decreases parts@.len() - i,
        {
            proof {
                assert(ws[i as int] == parts@[i as int]@);
            }
            out.push(before_char(parts[i].as_str(), '%'));
            i = i + 1;
        }
        proof {
            assert(texts(out@) =~= ws.map_values(f));
        }
        Some(out)
    }

    /// The first global address among those of the interfaces.
    pub fn find_global_ipv6_address(addrs: &Vec<Ipv6Addr>) -> (r: Option<Ipv6Addr>)
        ensures
            r == first_global(addrs@),
    {
        let mut i: usize = 0;
        proof {
            assert(addrs@.skip(0) =~= addrs@);
        }
        while i < addrs.len()
            invariant
                i <= addrs@.len(),
                first_global(addrs@) == first_global(addrs@.skip(i as int)),
            decreases addrs@.len() - i,
        {
            proof {
                assert(addrs@.skip(i as int).drop_first() =~= addrs@.skip(i + 1));
            }
            if Self::is_global_ipv6(&addrs[i]) {
                return Some(addrs[i]);
            }
            i = i + 1;
        }
        None
    }

    /// Whether one of the addresses is unique local.
    pub fn has_ula_address(addrs: &Vec<Ipv6Addr>) -> (r: bool)
        ensures
            r == exists|i: int| 0 <= i < addrs@.len() && unique_local(#[trigger] addrs@[i]),
    {
        let mut i: usize = 0;
        while i < addrs.len()
            invariant
                i <= addrs@.len(),
                forall|j: int| 0 <= j < i ==> !unique_local(#[trigger] addrs@[j]),
            decreases addrs@.len() - i,
        {
            let g: u16 = group0(&addrs[i]);
            if 0xfc00 <= g && g <= 0xfdff {
                assert(unique_local(addrs@[i as int]));
                return true;
            }
            i = i + 1;
        }
        false
    }

    /// Whether one of the addresses is of the own link.
    pub fn has_link_local_address(addrs: &Vec<Ipv6Addr>) -> (r: bool)
        ensures
            r == exists|i: int| 0 <= i < addrs@.len() && link_local(#[trigger] addrs@[i]),
    {
        let mut i: usize = 0;
        while i < addrs.len()
            invariant
                i <= addrs@.len(),
                forall|j: int| 0 <= j < i ==> !link_local(#[trigger] addrs@[j]),
            decreases addrs@.len() - i,
        {
            let g: u16 = group0(&addrs[i]);
            if 0xfe80 <= g && g <= 0xfebf {
                assert(link_local(addrs@[i as int]));
                return true;
            }
            i = i + 1;
        }
        false
    }

    /// Finds out how far the addresses of the interfaces reach, and keeps it.
    pub fn detect_connectivity(&mut self, addrs: &Vec<Ipv6Addr>) -> (r: Ipv6Connectivity)
        ensures
            r == detected(old(self).config.enabled, addrs@),
            final(self).global_address == kept_global(
                r,
                first_global(addrs@),
                old(self).global_address,
            ),
            r == if old(self).config.enabled {
                reach_of(addrs@)
            } else {
                Ipv6Connectivity::NoIpv6
            },
            final(self).config == old(self).config,
            final(self).connectivity == r,
            final(self).global_address == if r is Global {
                first_global(addrs@)
            } else {
                old(self).global_address
            },
    {
        if !self.config.enabled {
            self.connectivity = Ipv6Connectivity::NoIpv6;
            return Ipv6Connectivity::NoIpv6;
        }
        let found = Self::find_global_ipv6_address(addrs);
        if found.is_some() {
            self.global_address = found;
            self.connectivity = Ipv6Connectivity::Global;
            return Ipv6Connectivity::Global;
        }
        if Self::has_ula_address(addrs) {
            self.connectivity = Ipv6Connectivity::UlaOnly;
            return Ipv6Connectivity::UlaOnly;
        }
        if Self::has_link_local_address(addrs) {
            self.connectivity = Ipv6Connectivity::LinkLocalOnly;
            return Ipv6Connectivity::LinkLocalOnly;
        }
        self.connectivity = Ipv6Connectivity::NoIpv6;
        Ipv6Connectivity::NoIpv6
    }

    /// What was found out last.
    pub fn connectivity(&self) -> (r: Ipv6Connectivity)
        ensures
            r == self.connectivity,
    {
        self.connectivity
    }

    /// The global address that was found.
    pub fn global_address(&self) -> (r: Option<Ipv6Addr>)
        ensures
            r == self.global_address,
    {
        self.global_address
    }

    /// Whether peers can connect directly.
    pub fn is_direct_connectable(&self) -> (r: bool)
        ensures
            r == (self.connectivity is Global),
    {
        self.connectivity.is_direct_connectable()
    }

    /// The first candidate of one version.
    fn first_candidate(candidates: &Vec<SocketAddr>, v6: bool) -> (r: Option<SocketAddr>)
        ensures
            r == first_of_version(candidates@, v6),
    {
        let mut i: usize = 0;
        proof {
            assert(candidates@.skip(0) =~= candidates@);
        }
        while i < candidates.len()
            invariant
                i <= candidates@.len(),
                first_of_version(candidates@, v6) == first_of_version(
                    candidates@.skip(i as int),
                    v6,
                ),
            decreases candidates@.len() - i,
        {
            proof {
                assert(candidates@.skip(i as int).drop_first() =~= candidates@.skip(i + 1));
            }
            if candidates[i].is_ipv6() == v6 {
                return Some(candidates[i]);
            }
            i = i + 1;
        }
        None
    }

    /// The candidate to use: the first of the sixth version where that is
    /// preferred and reaches globally, else the first of the fourth, else the
    /// first of the sixth.
    pub fn select_best_address(&self, candidates: &Vec<SocketAddr>) -> (r: Option<SocketAddr>)
        ensures
            r == chosen(self.config.prefer_ipv6, self.connectivity, candidates@),
            r == ({
                let six = first_of_version(candidates@, true);
                let four = first_of_version(candidates@, false);
                if self.config.prefer_ipv6 && self.connectivity is Global && six is Some {
                    six
                } else if four is Some {
                    four
                } else {
                    six
                }
            }),
    {
        let six = Self::first_candidate(candidates, true);
        let four = Self::first_candidate(candidates, false);
        if self.config.prefer_ipv6 && self.is_direct_connectable() && six.is_some() {
            return six;
        }
        if four.is_some() {
            return four;
        }
        six
    }

    /// The configuration.
    pub fn config(&self) -> (r: &Ipv6Config)
        ensures
            *r == self.config,
    {
        &self.config
    }
}

/// Whether an address is of the sixth version.
pub fn is_ipv6(addr: &SocketAddr) -> (r: bool)
    ensures
        r == (addr.ip is V6),
{
    addr.is_ipv6()
}

/// Whether an address is of the fourth version.
pub fn is_ipv4(addr: &SocketAddr) -> (r: bool)
    ensures
        r == (addr.ip is V4),
{
    addr.is_ipv4()
}

/// The sixth-version form of a fourth-version address: `::ffff:a.b.c.d`.
pub open spec fn mapped_form(v4: Ipv4Addr) -> Ipv6Addr {
    Ipv6Addr {
        bits: (0xffff_0000_0000 + v4.a * 0x100_0000 + v4.b * 0x1_0000 + v4.c * 0x100 + v4.d) as u128,
    }
}

/// Whether an address is the form of a fourth-version one: eighty zero bits,
/// then sixteen ones.
pub open spec fn in_mapped_form(a: Ipv6Addr) -> bool {
    a.bits as int / 0x1_0000_0000 == 0xffff
}

/// The last four octets of an address.
pub open spec fn last_octets(a: Ipv6Addr) -> Ipv4Addr {
    Ipv4Addr {
        a: (a.bits / 0x100_0000 % 0x100) as u8,
        b: (a.bits / 0x1_0000 % 0x100) as u8,
        c: (a.bits / 0x100 % 0x100) as u8,
        d: (a.bits % 0x100) as u8,
    }
}

/// An address in its sixth-version form.
pub fn ipv4_to_ipv6_mapped(addr: &SocketAddr) -> (r: Option<SocketAddr>)
    ensures
        r == Some(in_version_six(*addr)),
        r == Some(
            match addr.ip {
                IpAddr::V4(v4) => SocketAddr { ip: IpAddr::V6(mapped_form(v4)), port: addr.port },
                IpAddr::V6(_) => *addr,
            },
        ),
{
    match addr.ip {
        IpAddr::V4(v4) => {
            let bits: u128 = 0xffff_0000_0000 + (v4.a as u128) * 0x100_0000 + (v4.b as u128)
                * 0x1_0000 + (v4.c as u128) * 0x100 + v4.d as u128;
            Some(SocketAddr { ip: IpAddr::V6(Ipv6Addr { bits }), port: addr.port })
        },
        IpAddr::V6(_) => Some(*addr),
    }
}

/// Whether an address is the form of a fourth-version one.
pub fn is_ipv4_mapped(addr: &Ipv6Addr) -> (r: bool)
    ensures
        r == in_mapped_form(*addr),
{
    addr.bits / 0x1_0000_0000 == 0xffff
}

/// The fourth-version address that an address is the form of.
pub fn ipv6_mapped_to_ipv4(addr: &Ipv6Addr) -> (r: Option<Ipv4Addr>)
    ensures
        r == in_version_four(*addr),
        r == if in_mapped_form(*addr) {
            Some(last_octets(*addr))
        } else {
            None
        },
{
    if is_ipv4_mapped(addr) {
        Some(
            Ipv4Addr {
                a: (addr.bits / 0x100_0000 % 0x100) as u8,
                b: (addr.bits / 0x1_0000 % 0x100) as u8,
                c: (addr.bits / 0x100 % 0x100) as u8,
                d: (addr.bits % 0x100) as u8,
            },
        )
    } else {
        None
    }
}

/// A fourth-version address comes back from its sixth-version form.
pub proof fn lemma_mapped_round_trip(v4: Ipv4Addr)
    ensures
        in_mapped_form(mapped_form(v4)),
        last_octets(mapped_form(v4)) == v4,
{
    let n: int = mapped_form(v4).bits as int;
    let x3: int = 0xffff * 0x100 + v4.a;
    let x2: int = x3 * 0x100 + v4.b;
    let x1: int = x2 * 0x100 + v4.c;
    let low: int = v4.a * 0x100_0000 + v4.b * 0x1_0000 + v4.c * 0x100 + v4.d;
    assert(n == 0xffff * 0x1_0000_0000 + low && 0 <= low < 0x1_0000_0000);
    assert(n / 0x1_0000_0000 == 0xffff);
    assert(n == x1 * 0x100 + v4.d);
    assert(n / 0x100 == x1 && n % 0x100 == v4.d);
    assert(n == x2 * 0x1_0000 + (v4.c * 0x100 + v4.d));
    assert(n / 0x1_0000 == x2);
    assert(n == x3 * 0x100_0000 + (v4.b * 0x1_0000 + v4.c * 0x100 + v4.d));
    assert(n / 0x100_0000 == x3);
    assert(x3 % 0x100 == v4.a && x2 % 0x100 == v4.b && x1 % 0x100 == v4.c);
}

/// The first global address is global and stands before every other global one;
/// where there is none, no address is global.
pub proof fn lemma_first_global(addrs: Seq<Ipv6Addr>)
    ensures
        match first_global(addrs) {
            Some(a) => exists|i: int|
                0 <= i < addrs.len() && addrs[i] == a && global_unicast(#[trigger] addrs[i])
                    && forall|j: int| 0 <= j < i ==> !global_unicast(#[trigger] addrs[j]),
            None => forall|i: int| 0 <= i < addrs.len() ==> !global_unicast(#[trigger] addrs[i]),
        },
    decreases addrs.len(),
{
    if addrs.len() > 0 {
        let d = addrs.drop_first();
        if global_unicast(addrs[0]) {
        } else {
            lemma_first_global(d);
            match first_global(d) {
                Some(a) => {
                    let i = choose|i: int|
                        0 <= i < d.len() && d[i] == a && global_unicast(#[trigger] d[i])
                            && forall|j: int| 0 <= j < i ==> !global_unicast(#[trigger] d[j]);
                    assert(addrs[i + 1] == d[i]);
                    assert forall|j: int| 0 <= j < i + 1 implies !global_unicast(
                        #[trigger] addrs[j],
                    ) by {
                        if j > 0 {
                            assert(d[j - 1] == addrs[j]);
                        }
                    }
                },
                None => {
                    assert forall|i: int| 0 <= i < addrs.len() implies !global_unicast(
                        #[trigger] addrs[i],
                    ) by {
                        if i > 0 {
                            assert(d[i - 1] == addrs[i]);
                        }
                    }
                },
            }
        }
    }
}

/// Every candidate list gives an address to use, unless it is empty.
pub proof fn lemma_some_version(candidates: Seq<SocketAddr>)
    requires
        candidates.len() > 0,
    ensures
        first_of_version(candidates, true) is Some || first_of_version(candidates, false) is Some,
{
}

/// The candidate to connect to.
pub open spec fn chosen(
    prefer_ipv6: bool,
    connectivity: Ipv6Connectivity,
    candidates: Seq<SocketAddr>,
) -> Option<SocketAddr> {
    if prefer_ipv6 && connectivity is Global && first_of_version(candidates, true) is Some {
        first_of_version(candidates, true)
    } else if first_of_version(candidates, false) is Some {
        first_of_version(candidates, false)
    } else {
        first_of_version(candidates, true)
    }
}

/// Where the first address of a version stands: at the first position that holds one.
pub proof fn lemma_first_of_version(candidates: Seq<SocketAddr>, v6: bool, k: int)
    ensures
        0 <= k < candidates.len() && (candidates[k].ip is V6) == v6 && (forall|j: int|
            0 <= j < k ==> ((#[trigger] candidates[j]).ip is V6) != v6) ==> first_of_version(
            candidates,
            v6,
        ) == Some(candidates[k]),
        (forall|j: int| 0 <= j < candidates.len() ==> ((#[trigger] candidates[j]).ip is V6) != v6)
            ==> first_of_version(candidates, v6) is None,
    decreases candidates.len(),
{
    if candidates.len() > 0 {
        let d = candidates.drop_first();
        lemma_first_of_version(d, v6, k - 1);
        if 0 < k < candidates.len() && (forall|j: int|
            0 <= j < k ==> ((#[trigger] candidates[j]).ip is V6) != v6) {
            assert((candidates[0].ip is V6) != v6);
            assert forall|j: int| 0 <= j < k - 1 implies ((#[trigger] d[j]).ip is V6) != v6 by {
                assert(d[j] == candidates[j + 1]);
            }
        }
        if forall|j: int| 0 <= j < candidates.len() ==> ((#[trigger] candidates[j]).ip is V6) != v6 {
            assert((candidates[0].ip is V6) != v6);
            assert forall|j: int| 0 <= j < d.len() implies ((#[trigger] d[j]).ip is V6) != v6 by {
                assert(d[j] == candidates[j + 1]);
            }
        }
    }
}

/// An address of the sixth version is chosen before one of the fourth exactly where it
/// is preferred and there is a global address; an address is chosen wherever there is
/// one, and always one of the candidates.
pub proof fn lemma_chosen_address(
    prefer_ipv6: bool,
    connectivity: Ipv6Connectivity,
    candidates: Seq<SocketAddr>,
    four: int,
    six: int,
)
    requires
        0 <= four < candidates.len(),
        0 <= six < candidates.len(),
        candidates[four].ip is V4,
        candidates[six].ip is V6,
        forall|j: int| 0 <= j < four ==> (#[trigger] candidates[j]).ip is V6,
        forall|j: int| 0 <= j < six ==> (#[trigger] candidates[j]).ip is V4,
    ensures
        prefer_ipv6 && connectivity is Global ==> chosen(prefer_ipv6, connectivity, candidates)
            == Some(candidates[six]),
        !prefer_ipv6 || !(connectivity is Global) ==> chosen(prefer_ipv6, connectivity, candidates)
            == Some(candidates[four]),
        chosen(prefer_ipv6, connectivity, seq![candidates[four]]) == Some(candidates[four]),
        chosen(prefer_ipv6, connectivity, seq![candidates[six]]) == Some(candidates[six]),
        chosen(prefer_ipv6, connectivity, Seq::empty()) is None,
{
    lemma_first_of_version(candidates, true, six);
    lemma_first_of_version(candidates, false, four);
    lemma_first_of_version(seq![candidates[four]], false, 0);
    lemma_first_of_version(seq![candidates[six]], false, 0);
    lemma_first_of_version(seq![candidates[six]], true, 0);
    lemma_first_of_version(seq![candidates[four]], true, 0);
}

/// The ranges of addresses by their leading bits: link-local ones begin with the ten
/// bits of `fe80`, unique local ones with the seven of `fc00`, multicast ones with eight
/// ones.
pub proof fn lemma_ranges_by_leading_bits(a: Ipv6Addr)
    ensures
        link_local(a) <==> first_group(a) / 64 == 0x3fa,
        unique_local(a) <==> first_group(a) / 512 == 0x7e,
        multicast(a) <==> first_group(a) / 256 == 0xff,
        0 <= first_group(a) <= 0xffff,
{
    assert(0 <= first_group(a) <= 0xffff);
}

/// An address written in its eight groups has the first of them in front.
pub proof fn lemma_first_group(first: int, rest: int, a: Ipv6Addr)
    requires
        0 <= first <= 0xffff,
        0 <= rest < 0x1_0000_0000_0000_0000_0000_0000_0000,
        a.bits == first * 0x1_0000_0000_0000_0000_0000_0000_0000 + rest,
    ensures
        first_group(a) == first,
{
}

/// What is global: anything but the unspecified and the loopback address, addresses of
/// the own link, unique local and multicast ones.
pub proof fn lemma_global_addresses(a: Ipv6Addr)
    ensures
        a.bits == 0 || a.bits == 1 ==> !global_unicast(a),
        link_local(a) || unique_local(a) || multicast(a) ==> !global_unicast(a),
        a.bits > 1 && !(link_local(a) || unique_local(a) || multicast(a)) ==> global_unicast(a),
{
}

/// How far addresses reach: global with any global one, unique local with any such one
/// and no global one, only the own link with nothing better, and not at all else.
pub proof fn lemma_reach_follows_the_best_address(addrs: Seq<Ipv6Addr>)
    ensures
        reach_of(addrs) is Global <==> exists|i: int|
            0 <= i < addrs.len() && global_unicast(#[trigger] addrs[i]),
        reach_of(addrs) is UlaOnly <==> (exists|i: int|
            0 <= i < addrs.len() && unique_local(#[trigger] addrs[i])) && !(exists|i: int|
            0 <= i < addrs.len() && global_unicast(#[trigger] addrs[i])),
        reach_of(addrs) is LinkLocalOnly <==> (exists|i: int|
            0 <= i < addrs.len() && link_local(#[trigger] addrs[i])) && !(exists|i: int|
            0 <= i < addrs.len() && unique_local(#[trigger] addrs[i])) && !(exists|i: int|
            0 <= i < addrs.len() && global_unicast(#[trigger] addrs[i])),
        !(reach_of(addrs) is Unknown),
{
    lemma_first_global(addrs);
}

/// An address is in mapped form exactly where it is the mapped form of some address of
/// the fourth version, and that one is read back from it.
pub proof fn lemma_mapped_form_is_exact(a: Ipv6Addr, v4: Ipv4Addr)
    ensures
        in_mapped_form(a) <==> a == mapped_form(last_octets(a)),
        a == mapped_form(v4) ==> in_mapped_form(a) && last_octets(a) == v4,
        mapped_form(v4).bits == 0xffff_0000_0000 + 0x100_0000 * v4.a + 0x1_0000 * v4.b + 0x100 * v4.c
            + v4.d,
{
    lemma_mapped_round_trip(v4);
    lemma_mapped_round_trip(last_octets(a));
    let n = a.bits as int;
    lemma_fundamental_div_mod(n, 0x1_0000_0000);
    lemma_fundamental_div_mod(n, 0x100);
    lemma_fundamental_div_mod(n / 0x100, 0x100);
    lemma_fundamental_div_mod(n / 0x1_0000, 0x100);
    lemma_fundamental_div_mod(n / 0x100_0000, 0x100);
    lemma_div_denominator(n, 0x100, 0x100);
    lemma_div_denominator(n, 0x1_0000, 0x100);
    lemma_div_denominator(n, 0x100_0000, 0x100);
}

/// The words of a line that speaks of addresses of the sixth version, each up to the
/// name of its interface; a line that does not gives nothing.
pub proof fn lemma_candidate_words(line: Seq<char>, i: int)
    requires
        0 <= i < words(line).len(),
    ensures
        (occurs_in(line, "IPv6"@) || occurs_in(line, "ipv6"@)) ==> candidate_texts(line) is Some
            && candidate_texts(line)->0.len() == words(line).len() && candidate_texts(line)->0[i].is_prefix_of(
            words(line)[i],
        ) && !candidate_texts(line)->0[i].contains('%') && (candidate_texts(line)->0[i]
            == words(line)[i] || words(line)[i][candidate_texts(line)->0[i].len() as int] == '%'),
        !(occurs_in(line, "IPv6"@) || occurs_in(line, "ipv6"@)) ==> candidate_texts(line) is None,
{
    let w = words(line)[i];
    lemma_first_char_bound(w, '%');
    let t = w.take(first_char(w, '%'));
    assert(first_char(w, '%') == w.len() ==> t =~= w);
    if t.contains('%') {
        let j = choose|j: int| 0 <= j < t.len() && t[j] == '%';
        assert(w[j] == '%');
    }
}

/// The names of the kinds of connectivity.
pub proof fn lemma_connectivity_names(c: Ipv6Connectivity)
    ensures
        c is Unknown ==> c.name() == "unknown"@,
        c is NoIpv6 ==> c.name() == "no_ipv6"@,
        c is LinkLocalOnly ==> c.name() == "link_local_only"@,
        c is UlaOnly ==> c.name() == "ula_only"@,
        c is Global ==> c.name() == "global"@,
{
}

/// The reach that is found where the sixth version is switched on or not.
pub open spec fn detected(enabled: bool, addrs: Seq<Ipv6Addr>) -> Ipv6Connectivity {
    if enabled {
        reach_of(addrs)
    } else {
        Ipv6Connectivity::NoIpv6
    }
}

/// The global address that is known after a search.
pub open spec fn kept_global(
    reach: Ipv6Connectivity,
    found: Option<Ipv6Addr>,
    known: Option<Ipv6Addr>,
) -> Option<Ipv6Addr> {
    if reach is Global {
        found
    } else {
        known
    }
}

/// An address as one of the sixth version.
pub open spec fn in_version_six(a: SocketAddr) -> SocketAddr {
    match a.ip {
        IpAddr::V4(v4) => SocketAddr { ip: IpAddr::V6(mapped_form(v4)), port: a.port },
        IpAddr::V6(_) => a,
    }
}

/// The address of the fourth version that an address of the sixth stands for.
pub open spec fn in_version_four(a: Ipv6Addr) -> Option<Ipv4Addr> {
    if in_mapped_form(a) {
        Some(last_octets(a))
    } else {
        None
    }
}

/// What is switched off has no reach, whatever addresses there are.
pub proof fn lemma_switched_off(addrs: Seq<Ipv6Addr>)
    ensures
        detected(false, addrs) is NoIpv6,
        detected(true, addrs) == reach_of(addrs),
        detected(true, Seq::empty()) is NoIpv6,
{
    lemma_first_global(Seq::empty());
}

/// A new global address takes the place of the known one, which otherwise stays.
pub proof fn lemma_known_address(addrs: Seq<Ipv6Addr>, known: Option<Ipv6Addr>)
    ensures
        first_global(addrs) is Some ==> kept_global(
            detected(true, addrs),
            first_global(addrs),
            known,
        ) == first_global(addrs),
        first_global(addrs) is None ==> kept_global(
            detected(true, addrs),
            first_global(addrs),
            known,
        ) == known,
        kept_global(detected(false, addrs), first_global(addrs), known) == known,
{
}

/// An address of the fourth version comes back from its form in the sixth, with its port;
/// one of the sixth is left as it is.
pub proof fn lemma_versions(a: SocketAddr, v4: Ipv4Addr)
    ensures
        in_version_six(a).port == a.port,
        in_version_six(a).ip is V6,
        a.ip is V6 ==> in_version_six(a) == a,
        a.ip == IpAddr::V4(v4) ==> in_version_four(in_version_six(a).ip->V6_0) == Some(v4),
{
    lemma_mapped_round_trip(v4);
}

} // verus!
