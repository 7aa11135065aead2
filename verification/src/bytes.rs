//! Integers as byte sequences, in both byte orders.

use vstd::prelude::*;

verus! {

/// 256 to the power `n`: how many values `n` bytes can hold.
pub open spec fn pow256(n: nat) -> nat
    decreases n,
{
    if n == 0 {
        1
    } else {
        256 * pow256((n - 1) as nat)
    }
}

/// The value of `s` read with the most significant byte first.
pub open spec fn be_value(s: Seq<u8>) -> nat
    decreases s.len(),
{
    if s.len() == 0 {
        0
    } else {
        be_value(s.drop_last()) * 256 + s.last() as nat
    }
}

/// The `n` low bytes of `v`, most significant first.
pub open spec fn be_bytes(v: nat, n: nat) -> Seq<u8>
    decreases n,
{
    if n == 0 {
        Seq::empty()
    } else {
        be_bytes(v / 256, (n - 1) as nat).push((v % 256) as u8)
    }
}

/// The value of `s` read with the least significant byte first.
pub open spec fn le_value(s: Seq<u8>) -> nat
    decreases s.len(),
{
    if s.len() == 0 {
        0
    } else {
        s.first() as nat + 256 * le_value(s.drop_first())
    }
}

/// The `n` low bytes of `v`, least significant first.
pub open spec fn le_bytes(v: nat, n: nat) -> Seq<u8>
    decreases n,
{
    if n == 0 {
        Seq::empty()
    } else {
        seq![(v % 256) as u8] + le_bytes(v / 256, (n - 1) as nat)
    }
}

/// `n` zero bytes.
pub open spec fn zeros(n: nat) -> Seq<u8> {
    Seq::new(n, |i: int| 0u8)
}

/// The bytes of `s` from `from` up to and without `to`.
pub open spec fn field(s: Seq<u8>, from: int, to: int) -> Seq<u8> {
    s.subrange(from, to)
}

/// `be_bytes` gives as many bytes as it was asked for.
pub proof fn lemma_be_bytes_len(v: nat, n: nat)
    ensures
        be_bytes(v, n).len() == n,
    decreases n,
{
    if n > 0 {
        lemma_be_bytes_len(v / 256, (n - 1) as nat);
    }
}

/// Reading what was written gives the value back, whenever it fits.
pub proof fn lemma_be_round_trip(v: nat, n: nat)
    requires
        v < pow256(n),
    ensures
        be_bytes(v, n).len() == n,
        be_value(be_bytes(v, n)) == v,
    decreases n,
{
    if n > 0 {
        assert(v / 256 < pow256((n - 1) as nat)) by (nonlinear_arith)
            requires
                v < 256 * pow256((n - 1) as nat),
        ;
        lemma_be_round_trip(v / 256, (n - 1) as nat);
        assert(be_bytes(v, n).drop_last() =~= be_bytes(v / 256, (n - 1) as nat));
    }
}

/// `n` bytes hold a value below `pow256(n)`, and writing it gives the bytes back.
pub proof fn lemma_be_value_bytes(s: Seq<u8>)
    ensures
        be_value(s) < pow256(s.len()),
        be_bytes(be_value(s), s.len()) == s,
    decreases s.len(),
{
    if s.len() > 0 {
        let d = s.drop_last();
        lemma_be_value_bytes(d);
        let v = be_value(s);
        assert(v / 256 == be_value(d) && v % 256 == s.last() as nat);
        assert(be_bytes(v, s.len()) =~= s);
    } else {
        assert(be_bytes(be_value(s), s.len()) =~= s);
    }
}

/// `le_bytes` gives as many bytes as it was asked for, and reading them gives
/// the value back, whenever it fits.
pub proof fn lemma_le_round_trip(v: nat, n: nat)
    ensures
        le_bytes(v, n).len() == n,
        v < pow256(n) ==> le_value(le_bytes(v, n)) == v,
    decreases n,
{
    if n > 0 {
        assert(v < 256 * pow256((n - 1) as nat) ==> v / 256 < pow256((n - 1) as nat))
            by (nonlinear_arith);
        lemma_le_round_trip(v / 256, (n - 1) as nat);
        assert(le_bytes(v, n).drop_first() =~= le_bytes(v / 256, (n - 1) as nat));
    }
}

/// The powers that bound the machine integers.
pub proof fn lemma_pow256_values()
    ensures
        pow256(1) == 0x100,
        pow256(2) == 0x1_0000,
        pow256(4) == 0x1_0000_0000,
        pow256(8) == 0x1_0000_0000_0000_0000,
        pow256(16) == 0x1_0000_0000_0000_0000 * 0x1_0000_0000_0000_0000,
{
    reveal_with_fuel(pow256, 17);
}

/// Appends `v` in two bytes, most significant first.
pub fn put_be16(out: &mut Vec<u8>, v: u16)
    ensures
        final(out)@ == old(out)@ + be_bytes(v as nat, 2),
{
    out.push(((v / 256) % 256) as u8);
    out.push((v % 256) as u8);
    proof {
        reveal_with_fuel(be_bytes, 3);
        assert(out@ =~= old(out)@ + be_bytes(v as nat, 2));
    }
}

/// Appends `v` in four bytes, most significant first.
pub fn put_be32(out: &mut Vec<u8>, v: u32)
    ensures
        final(out)@ == old(out)@ + be_bytes(v as nat, 4),
{
    let q1: u32 = v / 256;
    let q2: u32 = q1 / 256;
    let q3: u32 = q2 / 256;
    out.push((q3 % 256) as u8);
    out.push((q2 % 256) as u8);
    out.push((q1 % 256) as u8);
    out.push((v % 256) as u8);
    proof {
        reveal_with_fuel(be_bytes, 5);
        assert(out@ =~= old(out)@ + be_bytes(v as nat, 4));
    }
}

/// Appends `v` in eight bytes, most significant first.
pub fn put_be64(out: &mut Vec<u8>, v: u64)
    ensures
        final(out)@ == old(out)@ + be_bytes(v as nat, 8),
{
    let q1: u64 = v / 256;
    let q2: u64 = q1 / 256;
    let q3: u64 = q2 / 256;
    let q4: u64 = q3 / 256;
    let q5: u64 = q4 / 256;
    let q6: u64 = q5 / 256;
    let q7: u64 = q6 / 256;
    out.push((q7 % 256) as u8);
    out.push((q6 % 256) as u8);
    out.push((q5 % 256) as u8);
    out.push((q4 % 256) as u8);
    out.push((q3 % 256) as u8);
    out.push((q2 % 256) as u8);
    out.push((q1 % 256) as u8);
    out.push((v % 256) as u8);
    proof {
        reveal_with_fuel(be_bytes, 9);
        assert(out@ =~= old(out)@ + be_bytes(v as nat, 8));
    }
}

/// Reading a longer string is reading its two parts.
pub proof fn lemma_be_concat(a: Seq<u8>, b: Seq<u8>)
    ensures
        be_value(a + b) == be_value(a) * pow256(b.len()) + be_value(b),
    decreases b.len(),
{
    if b.len() == 0 {
        assert(a + b =~= a);
        assert(be_value(a) * pow256(0) == be_value(a)) by (nonlinear_arith)
            requires
                pow256(0) == 1,
        ;
    } else {
        let d = b.drop_last();
        lemma_be_concat(a, d);
        assert((a + b).drop_last() =~= a + d);
        assert((a + b).last() == b.last());
        assert((be_value(a) * pow256(d.len()) + be_value(d)) * 256 == be_value(a) * (256 * pow256(
            d.len(),
        )) + be_value(d) * 256) by (nonlinear_arith);
    }
}

/// Reads two bytes at `at`, most significant first.
pub fn get_be16(buf: &[u8], at: usize) -> (r: u16)
    requires
        at + 2 <= buf@.len(),
    ensures
        r as nat == be_value(field(buf@, at as int, at + 2)),
{
    proof {
        reveal_with_fuel(be_value, 3);
    }
    (buf[at] as u16) * 256 + buf[at + 1] as u16
}

/// Reads four bytes at `at`, most significant first.
pub fn get_be32(buf: &[u8], at: usize) -> (r: u32)
    requires
        at + 4 <= buf@.len(),
    ensures
        r as nat == be_value(field(buf@, at as int, at + 4)),
{
    proof {
        reveal_with_fuel(be_value, 5);
    }
    (((buf[at] as u32) * 256 + buf[at + 1] as u32) * 256 + buf[at + 2] as u32) * 256 + buf[at
        + 3] as u32
}

/// Reads eight bytes at `at`, most significant first.
pub fn get_be64(buf: &[u8], at: usize) -> (r: u64)
    requires
        at + 8 <= buf@.len(),
    ensures
        r as nat == be_value(field(buf@, at as int, at + 8)),
{
    let _len: usize = buf.len();
    proof {
        lemma_pow256_values();
        lemma_be_concat(field(buf@, at as int, at + 4), field(buf@, at + 4, at + 8));
        assert(field(buf@, at as int, at + 4) + field(buf@, at + 4, at + 8) =~= field(
            buf@,
            at as int,
            at + 8,
        ));
    }
    let hi: u32 = get_be32(buf, at);
    let lo: u32 = get_be32(buf, at + 4);
    let top: u64 = hi as u64;
    assert(top * 0x1_0000_0000 <= 0xffff_ffff_0000_0000) by (nonlinear_arith)
        requires
            top <= 0xffff_ffff,
    ;
    top * 0x1_0000_0000 + lo as u64
}

/// Copies the bytes of `buf` from `from` up to and without `to`.
pub fn copy_range(buf: &[u8], from: usize, to: usize) -> (r: Vec<u8>)
    requires
        from <= to <= buf@.len(),
    ensures
        r@ == field(buf@, from as int, to as int),
{
    let mut out: Vec<u8> = Vec::new();
    let mut i: usize = from;
    while i < to
        invariant
            from <= i <= to <= buf@.len(),
            out@ == buf@.subrange(from as int, i as int),
        decreases to - i,
    {
        out.push(buf[i]);
        proof {
            assert(buf@.subrange(from as int, i + 1) =~= buf@.subrange(from as int, i as int).push(
                buf@[i as int],
            ));
        }
        i = i + 1;
    }
    out
}

/// Appends `n` zero bytes.
pub fn put_zeros(out: &mut Vec<u8>, n: usize)
    ensures
        final(out)@ == old(out)@ + zeros(n as nat),
{
    let ghost start = out@;
    let mut i: usize = 0;
    proof {
        assert(out@ =~= start + zeros(0));
    }
    while i < n
        invariant
            i <= n,
            out@ == start + zeros(i as nat),
        decreases n - i,
    {
        out.push(0u8);
        i = i + 1;
        proof {
            assert(out@ =~= start + zeros(i as nat));
        }
    }
}

/// Whether two byte strings are the same.
pub fn same_bytes(a: &[u8], b: &[u8]) -> (r: bool)
    ensures
        r == (a@ == b@),
{
    if a.len() != b.len() {
        return false;
    }
    let mut i: usize = 0;
    while i < a.len()
        invariant
            a@.len() == b@.len(),
            i <= a@.len(),
            forall|j: int| 0 <= j < i ==> a@[j] == b@[j],
        decreases a@.len() - i,
    {
        if a[i] != b[i] {
            return false;
        }
        i = i + 1;
    }
    proof {
        assert(a@ =~= b@);
    }
    true
}

/// Whether the bytes of `buf` from `from` up to and without `to` are all zero.
pub fn all_zero(buf: &[u8], from: usize, to: usize) -> (r: bool)
    requires
        from <= to <= buf@.len(),
    ensures
        r == (field(buf@, from as int, to as int) == zeros((to - from) as nat)),
{
    let mut i: usize = from;
    while i < to
        invariant
            from <= i <= to <= buf@.len(),
            forall|j: int| from <= j < i ==> buf@[j] == 0,
        decreases to - i,
    {
        if buf[i] != 0 {
            proof {
                assert(field(buf@, from as int, to as int)[i - from] == buf@[i as int]);
            }
            return false;
        }
        i = i + 1;
    }
    proof {
        assert(field(buf@, from as int, to as int) =~= zeros((to - from) as nat));
    }
    true
}

/// A number of two bytes, with the more significant byte first or last.
pub proof fn lemma_two_bytes(hi: u8, lo: u8)
    ensures
        be_bytes((256 * hi + lo) as nat, 2) == seq![hi, lo],
        be_value(seq![hi, lo]) == 256 * hi + lo,
        le_bytes((256 * hi + lo) as nat, 2) == seq![lo, hi],
        le_value(seq![lo, hi]) == 256 * hi + lo,
{
    reveal_with_fuel(be_bytes, 3);
    reveal_with_fuel(le_bytes, 3);
    reveal_with_fuel(be_value, 3);
    reveal_with_fuel(le_value, 3);
    assert(be_bytes((256 * hi + lo) as nat, 2) =~= seq![hi, lo]);
    assert(le_bytes((256 * hi + lo) as nat, 2) =~= seq![lo, hi]);
    assert(seq![hi, lo].drop_last() =~= seq![hi]);
    assert(seq![hi].drop_last() =~= Seq::<u8>::empty());
    assert(seq![lo, hi].drop_first() =~= seq![hi]);
    assert(seq![hi].drop_first() =~= Seq::<u8>::empty());
}

/// A byte before the others counts for all of them at once; one behind them makes the
/// others 256 times as large.
pub proof fn lemma_one_more_byte(s: Seq<u8>, b: u8)
    ensures
        be_value(s.push(b)) == 256 * be_value(s) + b,
        be_value(seq![b]) == b,
        be_value(Seq::empty()) == 0,
        le_value(seq![b] + s) == b + 256 * le_value(s),
        le_value(seq![b]) == b,
{
    reveal_with_fuel(be_value, 2);
    reveal_with_fuel(le_value, 2);
    assert(s.push(b).drop_last() =~= s);
    assert(seq![b].drop_last() =~= Seq::<u8>::empty());
    assert((seq![b] + s).drop_first() =~= s);
    assert(seq![b].drop_first() =~= Seq::<u8>::empty());
}

/// A field is what stands between its ends, and zeros are zeros.
pub proof fn lemma_fields(a: Seq<u8>, b: Seq<u8>, c: Seq<u8>, n: nat, i: int)
    ensures
        field(a + b + c, a.len() as int, (a.len() + b.len()) as int) == b,
        zeros(n).len() == n,
        0 <= i < n ==> zeros(n)[i] == 0,
{
    assert(field(a + b + c, a.len() as int, (a.len() + b.len()) as int) =~= b);
}

} // verus!
