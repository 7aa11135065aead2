//! What the command line says.

use vstd::prelude::*;

use crate::bench::report::ReportFormat;
use crate::numbers::{
    decimal, digit_of, lemma_decimal_digits, lemma_decimal_round_trip, parse_unsigned,
    unsigned_value,
};
use crate::string_map::StringMap;
use crate::text::{
    char_is_whitespace, chars_of, first_char, lemma_trimmed, same_text, split_once, trim, trimmed,
};
use crate::time::{secs, Duration};

verus! {

/// The number that `s` writes, or `default` where it writes none.
pub open spec fn number_or(s: Seq<char>, default: nat) -> nat {
    match unsigned_value(s, 10, u64::MAX as nat) {
        Some(n) => n,
        None => default,
    }
}

/// The seconds that a text without whitespace round it means: a number with `s`,
/// `m` or `h` behind it, or a number of seconds alone. Where no number stands,
/// one minute, one minute, one hour and one minute are meant.
pub open spec fn duration_secs(s: Seq<char>) -> nat {
    if s.len() > 0 && s.last() == 's' {
        number_or(s.drop_last(), 60)
    } else if s.len() > 0 && s.last() == 'm' {
        number_or(s.drop_last(), 1) * 60
    } else if s.len() > 0 && s.last() == 'h' {
        number_or(s.drop_last(), 1) * 3600
    } else {
        number_or(s, 60)
    }
}

/// The number that characters write, or `default`.
fn read_number(cs: &[char], default: u64) -> (r: u64)
    ensures
        r as nat == number_or(cs@, default as nat),
{
    match parse_unsigned(cs, 10, u64::MAX) {
        Some(n) => n,
        None => default,
    }
}

/// Reads a time span that has no whitespace round it; `None` where it is too long
/// to be held.
fn checked_duration(s: &str) -> (r: Option<Duration>)
    ensures
        match r {
            Some(d) => duration_secs(s@) <= u64::MAX && d@ == secs(duration_secs(s@)),
            None => duration_secs(s@) > u64::MAX,
        },
{
    let cs = chars_of(s);
    let n: usize = cs.len();
    if n > 0 {
        let last: char = cs[n - 1];
        proof {
            assert(s@.drop_last() =~= cs@.subrange(0, n - 1));
        }
        if last == 's' {
            return Some(Duration::from_secs(read_number(&cs.as_slice()[0..n - 1], 60)));
        }
        if last == 'm' {
            let v: u64 = read_number(&cs.as_slice()[0..n - 1], 1);
            return match v.checked_mul(60) {
                Some(x) => Some(Duration::from_secs(x)),
                None => None,
            };
        }
        if last == 'h' {
            let v: u64 = read_number(&cs.as_slice()[0..n - 1], 1);
            return match v.checked_mul(3600) {
                Some(x) => Some(Duration::from_secs(x)),
                None => None,
            };
        }
    }
    Some(Duration::from_secs(read_number(cs.as_slice(), 60)))
}

/// Reads a time span that has no whitespace round it and can be held.
pub fn parse_trimmed_duration(s: &str) -> (r: Duration)
    requires
        duration_secs(s@) <= u64::MAX,
    ensures
        r@ == secs(duration_secs(s@)),
{
    match checked_duration(s) {
        Some(d) => d,
        None => Duration::from_secs(0),
    }
}

/// Reads a time span; `None` where it is too long to be held.
pub fn parse_duration(s: &str) -> (r: Option<Duration>)
    ensures
        match r {
            Some(d) => read_duration(s@) == Some(d@),
            None => read_duration(s@) is None,
        },
        match r {
            Some(d) => duration_secs(trimmed(s@)) <= u64::MAX && d@ == secs(
                duration_secs(trimmed(s@)),
            ),
            None => duration_secs(trimmed(s@)) > u64::MAX,
        },
{
    let t = trim(s);
    checked_duration(t.as_str())
}

/// Names and values divided by the first equals sign; an argument without one is
/// passed over, and the last of several with the same name counts.
pub open spec fn args_map(args: Seq<String>) -> Map<Seq<char>, Seq<char>>
    decreases args.len(),
{
    if args.len() == 0 {
        Map::empty()
    } else {
        let before = args_map(args.drop_last());
        let a = args.last()@;
        let n = first_char(a, '=');
        if n < a.len() {
            before.insert(a.take(n), a.skip(n + 1))
        } else {
            before
        }
    }
}

/// Whether a map of strings reads the same as a map of texts.
pub open spec fn reads_as(m: Map<Seq<char>, String>, t: Map<Seq<char>, Seq<char>>) -> bool {
    m.dom() =~= t.dom() && forall|k: Seq<char>| m.dom().contains(k) ==> (#[trigger] m[k])@ == t[k]
}

/// Reads arguments of the form `name=value`.
pub fn parse_args(args: &Vec<String>) -> (r: StringMap<String>)
    ensures
        r.wf(),
        reads_as(r@, args_map(args@)),
{
    let mut map: StringMap<String> = StringMap::new();
    let mut i: usize = 0;
    proof {
        assert(args@.take(0) =~= Seq::<String>::empty());
    }
    while i < args.len()
        invariant
            i <= args@.len(),
            map.wf(),
            reads_as(map@, args_map(args@.take(i as int))),
        decreases args@.len() - i,
    {
        proof {
            assert(args@.take(i + 1).drop_last() =~= args@.take(i as int));
        }
        if let Some(p) = split_once(args[i].as_str(), '=') {
            map.insert(p.0, p.1);
        }
        i = i + 1;
    }
    proof {
        assert(args@.take(i as int) =~= args@);
    }
    map
}

/// The format that a report is asked for in: anything but `json` means text.
pub fn report_format(s: &str) -> (r: ReportFormat)
    ensures
        r == format_named(s@),
        r == if s@ == "json"@ {
            ReportFormat::Json
        } else {
            ReportFormat::Text
        },
{
    if same_text(s, "json") {
        ReportFormat::Json
    } else {
        ReportFormat::Text
    }
}

/// How much is logged.
#[derive(Debug, Clone, Copy, PartialEq, Eq, Structural)]
pub enum LogLevel {
    Debug,
    Info,
    Warn,
    Error,
}

/// The level that a text names: `info` where it names none.
pub fn log_level(s: &str) -> (r: LogLevel)
    ensures
        r == level_named(s@),
        r == if s@ == "debug"@ {
            LogLevel::Debug
        } else if s@ == "warn"@ {
            LogLevel::Warn
        } else if s@ == "error"@ {
            LogLevel::Error
        } else {
            LogLevel::Info
        },
{
    if same_text(s, "debug") {
        LogLevel::Debug
    } else if same_text(s, "warn") {
        LogLevel::Warn
    } else if same_text(s, "error") {
        LogLevel::Error
    } else {
        LogLevel::Info
    }
}

/// The format of a name: JSON under its own, and text under every other.
pub open spec fn format_named(s: Seq<char>) -> ReportFormat {
    if s == "json"@ {
        ReportFormat::Json
    } else {
        ReportFormat::Text
    }
}

/// The level of a name.
pub open spec fn level_named(s: Seq<char>) -> LogLevel {
    if s == "debug"@ {
        LogLevel::Debug
    } else if s == "warn"@ {
        LogLevel::Warn
    } else if s == "error"@ {
        LogLevel::Error
    } else {
        LogLevel::Info
    }
}

/// Only its own name chooses JSON.
pub proof fn lemma_formats(s: Seq<char>)
    ensures
        format_named(s) is Json <==> s == "json"@,
        format_named(s) is Text <==> s != "json"@,
{
}

/// Three names choose a level of their own, and all others the usual one.
pub proof fn lemma_levels(s: Seq<char>)
    ensures
        level_named(s) is Debug <==> s == "debug"@,
        level_named(s) is Warn <==> s == "warn"@,
        level_named(s) is Error <==> s == "error"@,
        level_named("info"@) is Info,
{
    reveal_strlit("debug");
    reveal_strlit("warn");
    reveal_strlit("error");
    reveal_strlit("info");
    assert("debug"@.len() == 5 && "warn"@.len() == 4 && "error"@.len() == 5 && "info"@.len() == 4);
    assert("debug"@[0] == 'd' && "warn"@[0] == 'w' && "error"@[0] == 'e' && "info"@[0] == 'i');
}

/// A number is of seconds, by itself or with an `s`, of minutes with an `m` and of hours
/// with an `h`.
pub proof fn lemma_units_of_durations(n: nat)
    requires
        n <= u64::MAX,
    ensures
        duration_secs(decimal(n)) == n,
        duration_secs(decimal(n).push('s')) == n,
        duration_secs(decimal(n).push('m')) == 60 * n,
        duration_secs(decimal(n).push('h')) == 3600 * n,
{
    lemma_decimal_digits(n);
    lemma_decimal_round_trip(n, u64::MAX as nat);
    let d = decimal(n);
    assert(digit_of(d[d.len() - 1], 10) is Some);
    assert(d.push('s').drop_last() =~= d);
    assert(d.push('m').drop_last() =~= d);
    assert(d.push('h').drop_last() =~= d);
}

/// What is no number is a minute, or an hour where it is to be of hours.
pub proof fn lemma_unreadable_durations(t: Seq<char>)
    requires
        unsigned_value(t, 10, u64::MAX as nat) is None,
    ensures
        duration_secs(t.push('s')) == 60,
        duration_secs(t.push('m')) == 60,
        duration_secs(t.push('h')) == 3600,
        t.len() > 0 && t.last() != 's' && t.last() != 'm' && t.last() != 'h' ==> duration_secs(t)
            == 60,
        duration_secs(Seq::empty()) == 60,
{
    assert(t.push('s').drop_last() =~= t);
    assert(t.push('m').drop_last() =~= t);
    assert(t.push('h').drop_last() =~= t);
}

/// An argument is a name and a value with an equals sign between them, the first one
/// where the value holds others; a later one of the same name takes the place of an
/// earlier one, and what holds no such sign is passed over.
pub proof fn lemma_arguments(args: Seq<String>, a: String, k: Seq<char>, v: Seq<char>)
    ensures
        !k.contains('=') && a@ == k + seq!['='] + v ==> args_map(args.push(a)) == args_map(
            args,
        ).insert(k, v),
        !a@.contains('=') ==> args_map(args.push(a)) == args_map(args),
        args_map(Seq::empty()) == Map::<Seq<char>, Seq<char>>::empty(),
{
    assert(args.push(a).drop_last() =~= args);
    if !k.contains('=') && a@ == k + seq!['='] + v {
        crate::text::lemma_first_char(k, '=', v);
        assert(a@.take(k.len() as int) =~= k);
        assert(a@.skip(k.len() as int + 1) =~= v);
    }
    if !a@.contains('=') {
        crate::text::lemma_first_char(a@, '=', Seq::empty());
    }
}

/// Arguments that read as others have the same names, each with the same text.
pub proof fn lemma_read_arguments(
    m: Map<Seq<char>, String>,
    t: Map<Seq<char>, Seq<char>>,
    k: Seq<char>,
)
    requires
        reads_as(m, t),
    ensures
        m.dom().contains(k) <==> t.dom().contains(k),
        m.dom().contains(k) ==> m[k]@ == t[k],
{
}

/// The time, in nanoseconds, that a text stands for, or none where it is too long.
pub open spec fn read_duration(s: Seq<char>) -> Option<nat> {
    let n = duration_secs(trimmed(s));
    if n <= u64::MAX {
        Some(secs(n))
    } else {
        None
    }
}

/// White space around a time does not matter, and each unit is what it is, in
/// nanoseconds; only a time of more seconds than can be counted is none.
pub proof fn lemma_durations(before: Seq<char>, after: Seq<char>, n: nat)
    requires
        forall|i: int| 0 <= i < before.len() ==> char_is_whitespace(#[trigger] before[i]),
        forall|i: int| 0 <= i < after.len() ==> char_is_whitespace(#[trigger] after[i]),
        n <= u64::MAX,
    ensures
        read_duration(before + decimal(n) + after) == Some(1_000_000_000 * n),
        read_duration(before + decimal(n).push('s') + after) == Some(1_000_000_000 * n),
        60 * n <= u64::MAX ==> read_duration(before + decimal(n).push('m') + after) == Some(
            60_000_000_000 * n,
        ),
        60 * n > u64::MAX ==> read_duration(before + decimal(n).push('m') + after) is None,
        3600 * n <= u64::MAX ==> read_duration(before + decimal(n).push('h') + after) == Some(
            3_600_000_000_000 * n,
        ),
        3600 * n > u64::MAX ==> read_duration(before + decimal(n).push('h') + after) is None,
{
    let d = decimal(n);
    lemma_units_of_durations(n);
    lemma_decimal_digits(n);
    assert(digit_of(d[0], 10) is Some);
    assert(digit_of(d[d.len() - 1], 10) is Some);
    lemma_trimmed(before, d, after);
    lemma_trimmed(before, d.push('s'), after);
    lemma_trimmed(before, d.push('m'), after);
    lemma_trimmed(before, d.push('h'), after);
}

} // verus!
