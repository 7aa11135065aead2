//! Numbers written in digits.

use vstd::prelude::*;

verus! {

/// The value of a digit character in a radix of at most 36, if it is one.
pub open spec fn digit_of(c: char, radix: nat) -> Option<nat> {
    let v: int = if '0' <= c && c <= '9' {
        c as int - '0' as int
    } else if 'a' <= c && c <= 'z' {
        c as int - 'a' as int + 10
    } else if 'A' <= c && c <= 'Z' {
        c as int - 'A' as int + 10
    } else {
        36
    };
    if v < radix {
        Some(v as nat)
    } else {
        None
    }
}

/// The value of a digit, zero for any other character.
pub open spec fn weight(c: char, radix: nat) -> nat {
    match digit_of(c, radix) {
        Some(v) => v,
        None => 0,
    }
}

/// Whether every character is a digit.
pub open spec fn all_digits(s: Seq<char>, radix: nat) -> bool {
    forall|i: int| 0 <= i < s.len() ==> digit_of(#[trigger] s[i], radix) is Some
}

/// The value of a row of digits, most significant first.
pub open spec fn digits_value(s: Seq<char>, radix: nat) -> nat
    decreases s.len(),
{
    if s.len() == 0 {
        0
    } else {
        digits_value(s.drop_last(), radix) * radix + weight(s.last(), radix)
    }
}

/// `s` without one plus sign at its start.
pub open spec fn without_plus(s: Seq<char>) -> Seq<char> {
    if s.len() > 0 && s[0] == '+' {
        s.drop_first()
    } else {
        s
    }
}

/// The number that `s` writes: an optional plus sign, then at least one digit
/// and nothing else, with a value of at most `max`.
pub open spec fn unsigned_value(s: Seq<char>, radix: nat, max: nat) -> Option<nat> {
    let d = without_plus(s);
    if d.len() > 0 && all_digits(d, radix) && digits_value(d, radix) <= max {
        Some(digits_value(d, radix))
    } else {
        None
    }
}

/// The character of a digit below 16, letters in lower case.
pub open spec fn digit_char(v: nat) -> char {
    if v < 10 {
        (v + '0' as nat) as char
    } else {
        (v - 10 + 'a' as nat) as char
    }
}

/// `n` in decimal, without leading zeros.
pub open spec fn decimal(n: nat) -> Seq<char>
    decreases n,
{
    if n < 10 {
        seq![digit_char(n)]
    } else {
        decimal(n / 10).push(digit_char(n % 10))
    }
}

proof fn lemma_value_grows(s: Seq<char>, radix: nat, i: int)
    requires
        radix >= 1,
        0 <= i <= s.len(),
    ensures
        digits_value(s.take(i), radix) <= digits_value(s, radix),
    decreases s.len() - i,
{
    if i < s.len() {
        lemma_value_grows(s, radix, i + 1);
        let t = s.take(i + 1);
        assert(t.drop_last() =~= s.take(i));
        assert(digits_value(s.take(i), radix) <= digits_value(s.take(i), radix) * radix)
            by (nonlinear_arith)
            requires
                radix >= 1,
        ;
    } else {
        assert(s.take(i) =~= s);
    }
}

/// The value of a digit character.
pub fn digit_value(c: char, radix: u32) -> (r: Option<u32>)
    requires
        2 <= radix <= 36,
    ensures
        match r {
            Some(v) => digit_of(c, radix as nat) == Some(v as nat),
            None => digit_of(c, radix as nat) is None,
        },
{
    let n: u32 = c as u32;
    let v: u32 = if '0' <= c && c <= '9' {
        n - 48
    } else if 'a' <= c && c <= 'z' {
        n - 97 + 10
    } else if 'A' <= c && c <= 'Z' {
        n - 65 + 10
    } else {
        36
    };
    if v < radix {
        Some(v)
    } else {
        None
    }
}

/// Reads an unsigned number of at most `max`.
pub fn parse_unsigned(cs: &[char], radix: u32, max: u64) -> (r: Option<u64>)
    requires
        2 <= radix <= 36,
    ensures
        match r {
            Some(v) => unsigned_value(cs@, radix as nat, max as nat) == Some(v as nat),
            None => unsigned_value(cs@, radix as nat, max as nat) is None,
        },
{
    let ghost d = without_plus(cs@);
    let mut i: usize = 0;
    if cs.len() > 0 && cs[0] == '+' {
        i = 1;
    }
    let start: usize = i;
    proof {
        assert(d =~= cs@.skip(start as int));
        assert(d.take(0) =~= Seq::<char>::empty());
    }
    if i == cs.len() {
        return None;
    }
    let mut acc: u64 = 0;
    while i < cs.len()
        invariant
            2 <= radix <= 36,
            start <= i <= cs@.len(),
            d == without_plus(cs@),
            d == cs@.skip(start as int),
            acc <= max,
            acc as nat == digits_value(d.take(i - start), radix as nat),
            forall|j: int| 0 <= j < i - start ==> digit_of(#[trigger] d[j], radix as nat) is Some,
        decreases cs@.len() - i,
    {
        proof {
            assert(d[i - start] == cs@[i as int]);
            assert(d.take(i - start + 1).drop_last() =~= d.take(i - start));
            lemma_value_grows(d, radix as nat, i - start + 1);
        }
        match digit_value(cs[i], radix) {
            None => {
                return None;
            },
            Some(v) => {
                assert((acc as u128) * (radix as u128) <= 0xffff_ffff_ffff_ffff * 36)
                    by (nonlinear_arith)
                    requires
                        acc <= 0xffff_ffff_ffff_ffff,
                        radix <= 36,
                ;
                let next: u128 = (acc as u128) * (radix as u128) + v as u128;
                if next > max as u128 {
                    return None;
                }
                acc = next as u64;
            },
        }
        i = i + 1;
    }
    proof {
        assert(d.take(i - start) =~= d);
    }
    Some(acc)
}

/// `n` in decimal.
pub fn to_decimal(n: u64) -> (r: String)
    ensures
        r@ == decimal(n as nat),
    decreases n,
{
    if n < 10 {
        let mut out: String = String::new();
        out.push(digit(n as u8));
        proof {
            assert(out@ =~= decimal(n as nat));
        }
        out
    } else {
        let mut out = to_decimal(n / 10);
        out.push(digit((n % 10) as u8));
        out
    }
}

/// The character of a digit below 16.
pub fn digit(v: u8) -> (r: char)
    requires
        v < 16,
    ensures
        r == digit_char(v as nat),
{
    if v < 10 {
        (v + 48) as char
    } else {
        (v - 10 + 97) as char
    }
}

/// A digit character reads back as the digit.
pub proof fn lemma_digit_round_trip(v: nat, radix: nat)
    requires
        v < radix <= 16,
    ensures
        digit_of(digit_char(v), radix) == Some(v),
{
}

/// A decimal text reads back as the number it was made from.
pub proof fn lemma_decimal_round_trip(n: nat, max: nat)
    requires
        n <= max,
    ensures
        unsigned_value(decimal(n), 10, max) == Some(n),
{
    lemma_decimal_digits(n);
    let d = decimal(n);
    assert(digit_of(d[0], 10) is Some);
    assert(d[0] != '+');
}

/// A decimal text is a row of digits with the value it was made from.
pub proof fn lemma_decimal_digits(n: nat)
    ensures
        decimal(n).len() > 0,
        all_digits(decimal(n), 10),
        digits_value(decimal(n), 10) == n,
    decreases n,
{
    if n < 10 {
        lemma_digit_round_trip(n, 10);
        reveal_with_fuel(digits_value, 2);
        assert(decimal(n).drop_last() =~= Seq::<char>::empty());
    } else {
        lemma_decimal_digits(n / 10);
        lemma_digit_round_trip(n % 10, 10);
        assert(decimal(n).drop_last() =~= decimal(n / 10));
    }
}

/// The digits below ten are those of ASCII, and the others the small letters.
pub proof fn lemma_digit_chars(v: nat)
    requires
        v < 16,
    ensures
        v < 10 ==> digit_char(v) as int == 48 + v,
        v >= 10 ==> digit_char(v) as int == 97 + (v - 10),
{
}

/// In base ten only the ten figures are digits; in base sixteen the first six letters
/// are too, small or capital.
pub proof fn lemma_digits(c: char)
    ensures
        digit_of(c, 10) == if 48 <= c as int <= 57 {
            Some((c as int - 48) as nat)
        } else {
            None
        },
        digit_of(c, 16) == if 48 <= c as int <= 57 {
            Some((c as int - 48) as nat)
        } else if 97 <= c as int <= 102 {
            Some((c as int - 87) as nat)
        } else if 65 <= c as int <= 70 {
            Some((c as int - 55) as nat)
        } else {
            None
        },
{
}

/// A number is written without zeros before it, and one more digit behind it makes it ten
/// times as large and adds the digit.
pub proof fn lemma_written_numbers(q: nat, d: nat)
    requires
        d < 10,
    ensures
        q > 0 ==> decimal(10 * q + d) == decimal(q).push(digit_char(d)),
        decimal(d) == seq![digit_char(d)],
        q > 0 ==> decimal(q)[0] != '0',
    decreases q,
{
    if q >= 10 {
        lemma_written_numbers(q / 10, q % 10);
        lemma_decimal_digits(q / 10);
        assert(decimal(q)[0] == decimal(q / 10)[0]);
    }
}

/// One plus sign before a number changes nothing; a sign alone, nothing at all, or a
/// number that is too large is none.
pub proof fn lemma_read_numbers(n: nat, max: nat)
    ensures
        unsigned_value(seq!['+'] + decimal(n), 10, max) == unsigned_value(decimal(n), 10, max),
        n <= max ==> unsigned_value(decimal(n), 10, max) == Some(n),
        n > max ==> unsigned_value(decimal(n), 10, max) is None,
        unsigned_value(seq!['+'], 10, max) is None,
        unsigned_value(Seq::empty(), 10, max) is None,
        unsigned_value(decimal(n).push('-'), 10, max) is None,
{
    lemma_decimal_digits(n);
    let d = decimal(n);
    assert(digit_of(d[0], 10) is Some);
    assert((seq!['+'] + d).drop_first() =~= d);
    let e = d.push('-');
    assert(digit_of(e[d.len() as int], 10) is None);
}

/// One more digit makes a value so many times as large and adds itself; what is no digit
/// makes a text no number.
pub proof fn lemma_one_more_digit(s: Seq<char>, c: char, radix: nat)
    ensures
        digit_of(c, radix) is Some ==> digits_value(s.push(c), radix) == digits_value(s, radix)
            * radix + digit_of(c, radix)->0,
        digits_value(Seq::empty(), radix) == 0,
        all_digits(s.push(c), radix) <==> all_digits(s, radix) && digit_of(c, radix) is Some,
{
    assert(s.push(c).drop_last() =~= s);
    if all_digits(s.push(c), radix) {
        assert(digit_of(s.push(c)[s.len() as int], radix) is Some);
        assert forall|i: int| 0 <= i < s.len() implies digit_of(#[trigger] s[i], radix) is Some by {
            assert(s.push(c)[i] == s[i]);
        }
    }
}

} // verus!
