//! Internet addresses as plain values.

use vstd::prelude::*;

use crate::bytes::{be_value, field, get_be64, lemma_be_concat, lemma_pow256_values};
use crate::numbers::{
    all_digits, decimal, digit_of, digits_value, lemma_decimal_digits, parse_unsigned, to_decimal,
};
use crate::text::{chars_of, find_char, first_char, lemma_first_char_bound};

verus! {

/// An IPv4 address: its four octets in order.
#[derive(Debug, Clone, Copy, PartialEq, Eq, Hash, Structural)]
pub struct Ipv4Addr {
    pub a: u8,
    pub b: u8,
    pub c: u8,
    pub d: u8,
}

/// An IPv6 address: its sixteen octets as one number, first octet highest.
#[derive(Debug, Clone, Copy, PartialEq, Eq, Hash, Structural)]
pub struct Ipv6Addr {
    pub bits: u128,
}

/// An address of either family.
#[derive(Debug, Clone, Copy, PartialEq, Eq, Hash, Structural)]
pub enum IpAddr {
    V4(Ipv4Addr),
    V6(Ipv6Addr),
}

/// An address with a port.
#[derive(Debug, Clone, Copy, PartialEq, Eq, Hash, Structural)]
pub struct SocketAddr {
    pub ip: IpAddr,
    pub port: u16,
}

impl Ipv4Addr {
    /// The address `a.b.c.d`.
    pub fn new(a: u8, b: u8, c: u8, d: u8) -> (r: Self)
        ensures
            r == (Ipv4Addr { a, b, c, d }),
    {
        Ipv4Addr { a, b, c, d }
    }

    /// The four octets in order.
    pub open spec fn spec_octets(self) -> Seq<u8> {
        seq![self.a, self.b, self.c, self.d]
    }

    /// The address whose octets are the four bytes of `s`.
    pub open spec fn of_octets(s: Seq<u8>) -> Ipv4Addr {
        Ipv4Addr { a: s[0], b: s[1], c: s[2], d: s[3] }
    }

    /// The four octets in order.
    pub fn octets(&self) -> (r: [u8; 4])
        ensures
            r@ == self.spec_octets(),
    {
        let r = [self.a, self.b, self.c, self.d];
        proof {
            assert(r@ =~= self.spec_octets());
        }
        r
    }

    /// Whether this is `0.0.0.0`.
    pub fn is_unspecified(&self) -> (r: bool)
        ensures
            r == (*self == Ipv4Addr { a: 0, b: 0, c: 0, d: 0 }),
    {
        self.a == 0 && self.b == 0 && self.c == 0 && self.d == 0
    }

    /// Whether this is one of `127.0.0.0/8`.
    pub fn is_loopback(&self) -> (r: bool)
        ensures
            r == (self.a == 127),
    {
        self.a == 127
    }
}

impl Ipv6Addr {
    /// The address with the given octets.
    pub open spec fn of_octets(s: Seq<u8>) -> Ipv6Addr {
        Ipv6Addr { bits: be_value(s) as u128 }
    }

    /// The address with the given eight groups.
    pub fn new(a: u16, b: u16, c: u16, d: u16, e: u16, f: u16, g: u16, h: u16) -> (r: Self)
        ensures
            r.bits as nat == (((((((a as nat * 0x1_0000 + b as nat) * 0x1_0000 + c as nat) * 0x1_0000
                + d as nat) * 0x1_0000 + e as nat) * 0x1_0000 + f as nat) * 0x1_0000 + g as nat)
                * 0x1_0000 + h as nat),
    {
        let hi: u64 = (((a as u64) * 0x1_0000 + b as u64) * 0x1_0000 + c as u64) * 0x1_0000
            + d as u64;
        let lo: u64 = (((e as u64) * 0x1_0000 + f as u64) * 0x1_0000 + g as u64) * 0x1_0000
            + h as u64;
        join64(hi, lo)
    }
}

/// The address made of two halves.
pub fn join64(hi: u64, lo: u64) -> (r: Ipv6Addr)
    ensures
        r.bits as nat == hi as nat * 0x1_0000_0000_0000_0000 + lo as nat,
{
    let top: u128 = hi as u128;
    assert(top * 0x1_0000_0000_0000_0000 <= 0xffff_ffff_ffff_ffff * 0x1_0000_0000_0000_0000)
        by (nonlinear_arith)
        requires
            top <= 0xffff_ffff_ffff_ffff,
    ;
    Ipv6Addr { bits: top * 0x1_0000_0000_0000_0000 + lo as u128 }
}

/// Reads sixteen octets at `at`.
pub fn read_ipv6(buf: &[u8], at: usize) -> (r: Ipv6Addr)
    requires
        at + 16 <= buf@.len(),
    ensures
        r == Ipv6Addr::of_octets(field(buf@, at as int, at + 16)),
{
    let _len: usize = buf.len();
    let hi: u64 = get_be64(buf, at);
    let lo: u64 = get_be64(buf, at + 8);
    proof {
        lemma_pow256_values();
        let a = field(buf@, at as int, at + 8);
        let b = field(buf@, at + 8, at + 16);
        lemma_be_concat(a, b);
        assert(a + b =~= field(buf@, at as int, at + 16));
    }
    join64(hi, lo)
}

/// Reads four octets at `at`.
pub fn read_ipv4(buf: &[u8], at: usize) -> (r: Ipv4Addr)
    requires
        at + 4 <= buf@.len(),
    ensures
        r == Ipv4Addr::of_octets(field(buf@, at as int, at + 4)),
{
    let _len: usize = buf.len();
    Ipv4Addr { a: buf[at], b: buf[at + 1], c: buf[at + 2], d: buf[at + 3] }
}

impl SocketAddr {
    /// The address `ip` with the port `port`.
    pub fn new(ip: IpAddr, port: u16) -> (r: Self)
        ensures
            r == (SocketAddr { ip, port }),
    {
        SocketAddr { ip, port }
    }

    /// Whether the address is of the fourth version.
    pub fn is_ipv4(&self) -> (r: bool)
        ensures
            r == (self.ip is V4),
    {
        matches!(self.ip, IpAddr::V4(_))
    }

    /// Whether the address is of the sixth version.
    pub fn is_ipv6(&self) -> (r: bool)
        ensures
            r == (self.ip is V6),
    {
        matches!(self.ip, IpAddr::V6(_))
    }
}

/// One octet in decimal: one to three digits, no leading zero, at most 255.
pub open spec fn octet_value(s: Seq<char>) -> Option<u8> {
    if 1 <= s.len() <= 3 && all_digits(s, 10) && (s[0] == '0' ==> s.len() == 1) && digits_value(
        s,
        10,
    ) <= 255 {
        Some(digits_value(s, 10) as u8)
    } else {
        None
    }
}

/// The `n` octets that `s` writes, divided by dots.
pub open spec fn dotted_octets(s: Seq<char>, n: nat) -> Option<Seq<u8>>
    decreases n,
{
    let at = first_char(s, '.');
    if n == 0 {
        None
    } else if n == 1 {
        match octet_value(s) {
            Some(v) => Some(seq![v]),
            None => None,
        }
    } else if at < s.len() {
        match (octet_value(s.take(at)), dotted_octets(s.skip(at + 1), (n - 1) as nat)) {
            (Some(v), Some(rest)) => Some(seq![v] + rest),
            _ => None,
        }
    } else {
        None
    }
}

/// The IPv4 address that `s` writes: four decimal octets divided by dots.
pub open spec fn ipv4_of_text(s: Seq<char>) -> Option<Ipv4Addr> {
    match dotted_octets(s, 4) {
        Some(o) => Some(Ipv4Addr::of_octets(o)),
        None => None,
    }
}

/// `a` in decimal octets divided by dots.
pub open spec fn ipv4_text(a: Ipv4Addr) -> Seq<char> {
    decimal(a.a as nat) + seq!['.'] + (decimal(a.b as nat) + seq!['.'] + (decimal(a.c as nat) + seq![
        '.',
    ] + decimal(a.d as nat)))
}

/// Reads one octet.
fn parse_octet(cs: &[char]) -> (r: Option<u8>)
    ensures
        r == octet_value(cs@),
{
    if cs.len() == 0 || cs.len() > 3 {
        return None;
    }
    if cs[0] == '+' || (cs[0] == '0' && cs.len() > 1) {
        proof {
            assert(digit_of('+', 10) is None);
        }
        return None;
    }
    match parse_unsigned(cs, 10, 255) {
        Some(v) => Some(v as u8),
        None => None,
    }
}

/// Reads `n` octets divided by dots, from `from` to the end.
fn parse_dotted(cs: &[char], from: usize, n: usize) -> (r: Option<Vec<u8>>)
    requires
        from <= cs@.len(),
    ensures
        match r {
            Some(v) => v@.len() == n && dotted_octets(cs@.skip(from as int), n as nat) == Some(v@),
            None => dotted_octets(cs@.skip(from as int), n as nat) is None,
        },
    decreases n,
{
    if n == 0 {
        return None;
    }
    let ghost s = cs@.skip(from as int);
    if n == 1 {
        proof {
            assert(s =~= cs@.subrange(from as int, cs@.len() as int));
        }
        return match parse_octet(&cs[from..cs.len()]) {
            Some(v) => {
                let mut out: Vec<u8> = Vec::new();
                out.push(v);
                assert(out@ =~= seq![v]);
                Some(out)
            },
            None => None,
        };
    }
    let at: usize = find_char(cs, from, '.');
    if at >= cs.len() {
        return None;
    }
    proof {
        assert(s.take(at - from) =~= cs@.subrange(from as int, at as int));
        assert(s.skip(at - from + 1) =~= cs@.skip(at + 1));
    }
    match (parse_octet(&cs[from..at]), parse_dotted(cs, at + 1, n - 1)) {
        (Some(v), Some(rest)) => {
            let mut out: Vec<u8> = Vec::new();
            out.push(v);
            let mut tail = rest;
            out.append(&mut tail);
            assert(out@ =~= seq![v] + rest@);
            Some(out)
        },
        _ => None,
    }
}

impl Ipv4Addr {
    /// Reads an address in decimal octets divided by dots.
    pub fn parse(s: &str) -> (r: Option<Ipv4Addr>)
        ensures
            r == ipv4_of_text(s@),
    {
        let cs = chars_of(s);
        proof {
            assert(cs@.skip(0) =~= s@);
        }
        match parse_dotted(cs.as_slice(), 0, 4) {
            Some(o) => Some(Ipv4Addr { a: o[0], b: o[1], c: o[2], d: o[3] }),
            None => None,
        }
    }

    /// The address in decimal octets divided by dots.
    pub fn to_text(&self) -> (r: String)
        ensures
            r@ == ipv4_text(*self),
    {
        let mut out = to_decimal(self.a as u64);
        out.push('.');
        out.append(to_decimal(self.b as u64).as_str());
        out.push('.');
        out.append(to_decimal(self.c as u64).as_str());
        out.push('.');
        out.append(to_decimal(self.d as u64).as_str());
        proof {
            assert(out@ =~= ipv4_text(*self));
        }
        out
    }
}

proof fn lemma_octet_text(v: u8)
    ensures
        octet_value(decimal(v as nat)) == Some(v),
        forall|i: int| 0 <= i < decimal(v as nat).len() ==> decimal(v as nat)[i] != '.',
{
    lemma_decimal_digits(v as nat);
    reveal_with_fuel(decimal, 4);
    let s = decimal(v as nat);
    assert forall|i: int| 0 <= i < s.len() implies s[i] != '.' by {
        assert(digit_of(s[i], 10) is Some);
    }
}

proof fn lemma_first_char_of_concat(a: Seq<char>, c: char, b: Seq<char>)
    requires
        forall|i: int| 0 <= i < a.len() ==> a[i] != c,
    ensures
        first_char(a + seq![c] + b, c) == a.len(),
{
    let s = a + seq![c] + b;
    lemma_first_char_bound(s, c);
    let n = first_char(s, c);
    if n < a.len() {
        assert(s[n] == a[n]);
    } else if n > a.len() {
        assert(s[a.len() as int] == c);
    }
}

/// An address reads back from its text.
pub proof fn lemma_ipv4_text_round_trip(a: Ipv4Addr)
    ensures
        ipv4_of_text(ipv4_text(a)) == Some(a),
{
    lemma_octet_text(a.a);
    lemma_octet_text(a.b);
    lemma_octet_text(a.c);
    lemma_octet_text(a.d);
    let ta = decimal(a.a as nat);
    let tb = decimal(a.b as nat);
    let tc = decimal(a.c as nat);
    let td = decimal(a.d as nat);
    let s3 = tc + seq!['.'] + td;
    let s2 = tb + seq!['.'] + s3;
    let s1 = ta + seq!['.'] + s2;
    lemma_first_char_of_concat(ta, '.', s2);
    lemma_first_char_of_concat(tb, '.', s3);
    lemma_first_char_of_concat(tc, '.', td);
    assert(ipv4_text(a) =~= s1);
    assert(s3.take(tc.len() as int) =~= tc && s3.skip(tc.len() as int + 1) =~= td);
    assert(dotted_octets(td, 1) == Some(seq![a.d]));
    assert(dotted_octets(s3, 2) == Some(seq![a.c] + seq![a.d]));
    assert(s2.take(tb.len() as int) =~= tb && s2.skip(tb.len() as int + 1) =~= s3);
    assert(dotted_octets(s2, 3) == Some(seq![a.b] + (seq![a.c] + seq![a.d])));
    assert(s1.take(ta.len() as int) =~= ta && s1.skip(ta.len() as int + 1) =~= s2);
    assert(dotted_octets(s1, 4) == Some(seq![a.a] + (seq![a.b] + (seq![a.c] + seq![a.d]))));
}

/// An octet is read exactly from a number up to 255 that is written without zeros before
/// it.
pub proof fn lemma_octets_are_read(n: nat, s: Seq<char>)
    ensures
        n <= 255 ==> octet_value(decimal(n)) == Some(n as u8),
        n > 255 ==> octet_value(decimal(n)) is None,
        s.len() > 0 ==> octet_value(seq!['0'] + s) is None,
        octet_value(Seq::empty()) is None,
{
    lemma_decimal_digits(n);
    if n <= 255 {
        lemma_octet_round_trip(n);
    }
}

proof fn lemma_octet_round_trip(n: nat)
    requires
        n <= 255,
    ensures
        octet_value(decimal(n)) == Some(n as u8),
{
    lemma_decimal_digits(n);
    reveal_with_fuel(decimal, 4);
    if n >= 10 {
        crate::numbers::lemma_written_numbers(n, 0);
    }
}

/// An address is written with its first octet first and its last octet last, and its
/// octets count in this order.
pub proof fn lemma_octets_in_order(a: Ipv4Addr)
    ensures
        a.spec_octets()[0] == a.a && a.spec_octets()[1] == a.b && a.spec_octets()[2] == a.c
            && a.spec_octets()[3] == a.d,
        Ipv4Addr::of_octets(a.spec_octets()) == a,
        ipv4_text(a) == decimal(a.a as nat) + "."@ + decimal(a.b as nat) + "."@ + decimal(
            a.c as nat,
        ) + "."@ + decimal(a.d as nat),
{
    reveal_strlit(".");
    assert("."@ =~= seq!['.']);
    assert(ipv4_text(a) =~= decimal(a.a as nat) + "."@ + decimal(a.b as nat) + "."@ + decimal(
        a.c as nat,
    ) + "."@ + decimal(a.d as nat));
}

/// An address of the sixth version is the number that its bytes are, the first byte being
/// the most significant.
pub proof fn lemma_ipv6_of_bytes(s: Seq<u8>, v: u128)
    requires
        s.len() == 16,
    ensures
        be_value(s) == v ==> Ipv6Addr::of_octets(s).bits == v,
        Ipv6Addr::of_octets(s).bits == be_value(s),
{
    crate::bytes::lemma_be_value_bytes(s);
    crate::bytes::lemma_pow256_values();
}

proof fn lemma_octet_is_written(s: Seq<char>)
    requires
        octet_value(s) is Some,
    ensures
        s == decimal(octet_value(s)->0 as nat),
{
    let n = s.len() as int;
    reveal_with_fuel(digits_value, 4);
    reveal_with_fuel(decimal, 4);
    assert(digit_of(s[0], 10) is Some);
    let d = s.drop_last();
    let d2 = d.drop_last();
    if n == 1 {
        assert(d =~= Seq::empty());
        assert(s =~= seq![s[0]]);
    } else if n == 2 {
        assert(digit_of(s[1], 10) is Some);
        assert(d2 =~= Seq::empty());
        assert(d =~= seq![s[0]]);
        assert(s =~= d.push(s[1]));
    } else {
        assert(digit_of(s[1], 10) is Some);
        assert(digit_of(s[2], 10) is Some);
        assert(d2.drop_last() =~= Seq::empty());
        assert(d2 =~= seq![s[0]]);
        assert(d =~= d2.push(s[1]));
        assert(s =~= d.push(s[2]));
    }
}

/// A text is read as an address only where it is how that address is written: no other
/// text is.
pub proof fn lemma_only_written_addresses_are_read(s: Seq<char>)
    requires
        ipv4_of_text(s) is Some,
    ensures
        s == ipv4_text(ipv4_of_text(s)->0),
{
    reveal_with_fuel(dotted_octets, 5);
    let i1 = first_char(s, '.');
    let s1 = s.skip(i1 + 1);
    let i2 = first_char(s1, '.');
    let s2 = s1.skip(i2 + 1);
    let i3 = first_char(s2, '.');
    let s3 = s2.skip(i3 + 1);
    crate::text::lemma_first_char_bound(s, '.');
    crate::text::lemma_first_char_bound(s1, '.');
    crate::text::lemma_first_char_bound(s2, '.');
    lemma_octet_is_written(s.take(i1));
    lemma_octet_is_written(s1.take(i2));
    lemma_octet_is_written(s2.take(i3));
    lemma_octet_is_written(s3);
    assert(s =~= s.take(i1) + seq!['.'] + s1);
    assert(s1 =~= s1.take(i2) + seq!['.'] + s2);
    assert(s2 =~= s2.take(i3) + seq!['.'] + s3);
}

} // verus!
