//! The report of a run.

use vstd::prelude::*;

use crate::numbers::{decimal, to_decimal};
use crate::text::concat;

verus! {

/// How a report is written.
#[derive(Debug, Clone, Copy, PartialEq, Eq, Structural)]
pub enum ReportFormat {
    Text,
    Json,
}

/// How the latency is judged.
#[derive(Debug, Clone, Copy, PartialEq, Eq, Structural)]
pub enum LatencyVerdict {
    Good,
    Fair,
    Poor,
}

/// How a 99th percentile in microseconds is judged: below a hundred it is good,
/// below a thousand fair, else poor.
pub open spec fn verdict_of(p99: u64) -> LatencyVerdict {
    if p99 < 100 {
        LatencyVerdict::Good
    } else if p99 < 1000 {
        LatencyVerdict::Fair
    } else {
        LatencyVerdict::Poor
    }
}

/// Judges the latency by its 99th percentile.
pub fn latency_verdict(p99: u64) -> (r: LatencyVerdict)
    ensures
        r == verdict_of(p99),
{
    if p99 < 100 {
        LatencyVerdict::Good
    } else if p99 < 1000 {
        LatencyVerdict::Fair
    } else {
        LatencyVerdict::Poor
    }
}

/// The line of the report that judges the latency.
pub fn latency_line(p99: u64) -> (r: String)
    ensures
        r@ == verdict_line(p99),
        r@ == match verdict_of(p99) {
            LatencyVerdict::Good => "  ✅ 延迟达标 (P99 < 100μs)"@,
            LatencyVerdict::Fair => "  ⚠️  延迟一般 (P99 = "@ + decimal(p99 as nat) + "μs)"@,
            LatencyVerdict::Poor => "  ❌ 延迟超标 (P99 = "@ + decimal(p99 as nat) + "μs)"@,
        },
{
    match latency_verdict(p99) {
        LatencyVerdict::Good => "  ✅ 延迟达标 (P99 < 100μs)".to_owned(),
        LatencyVerdict::Fair => {
            let a = concat("  ⚠️  延迟一般 (P99 = ", to_decimal(p99).as_str());
            concat(a.as_str(), "μs)")
        },
        LatencyVerdict::Poor => {
            let a = concat("  ❌ 延迟超标 (P99 = ", to_decimal(p99).as_str());
            concat(a.as_str(), "μs)")
        },
    }
}

/// `n` in decimal, with spaces before it up to the given width.
pub open spec fn padded_number(n: nat, width: nat) -> Seq<char> {
    let d = decimal(n);
    Seq::new(
        if d.len() < width {
            (width - d.len()) as nat
        } else {
            0
        },
        |i: int| ' ',
    ) + d
}

/// A number that is written to the right of a field of the given width.
pub fn right_aligned(n: u64, width: usize) -> (r: String)
    ensures
        r@ == padded_number(n as nat, width as nat),
{
    let d = to_decimal(n);
    let cs = crate::text::chars_of(d.as_str());
    let pad: usize = if cs.len() < width {
        width - cs.len()
    } else {
        0
    };
    let mut out: String = String::new();
    let mut i: usize = 0;
    proof {
        assert(out@ =~= Seq::new(0, |i: int| ' '));
    }
    while i < pad
        invariant
            i <= pad,
            out@ == Seq::new(i as nat, |i: int| ' '),
        decreases pad - i,
    {
        out.push(' ');
        i = i + 1;
        proof {
            assert(out@ =~= Seq::new(i as nat, |i: int| ' '));
        }
    }
    out.append(d.as_str());
    proof {
        assert(out@ =~= padded_number(n as nat, width as nat));
    }
    out
}

/// A larger percentile is never judged better.
pub proof fn lemma_verdict_is_monotone(a: u64, b: u64)
    requires
        a <= b,
    ensures
        verdict_of(b) is Good ==> verdict_of(a) is Good,
        verdict_of(a) is Poor ==> verdict_of(b) is Poor,
{
}

/// The line that tells how good the latency is.
pub open spec fn verdict_line(p99: u64) -> Seq<char> {
    match verdict_of(p99) {
        LatencyVerdict::Good => "  ✅ 延迟达标 (P99 < 100μs)"@,
        LatencyVerdict::Fair => "  ⚠️  延迟一般 (P99 = "@ + decimal(p99 as nat) + "μs)"@,
        LatencyVerdict::Poor => "  ❌ 延迟超标 (P99 = "@ + decimal(p99 as nat) + "μs)"@,
    }
}

/// A latency is good below a hundred microseconds, poor from a millisecond on, and fair
/// in between.
pub proof fn lemma_verdicts(p99: u64)
    ensures
        verdict_of(p99) is Good <==> p99 <= 99,
        verdict_of(p99) is Fair <==> 100 <= p99 <= 999,
        verdict_of(p99) is Poor <==> p99 >= 1000,
        p99 <= 99 ==> verdict_line(p99) == "  ✅ 延迟达标 (P99 < 100μs)"@,
        100 <= p99 <= 999 ==> verdict_line(p99) == "  ⚠️  延迟一般 (P99 = "@ + decimal(p99 as nat)
            + "μs)"@,
        p99 >= 1000 ==> verdict_line(p99) == "  ❌ 延迟超标 (P99 = "@ + decimal(p99 as nat)
            + "μs)"@,
{
}

/// A number stands at the right end of its column, behind blanks; one that is wider than
/// the column is not cut.
pub proof fn lemma_columns(n: nat, width: nat, i: int)
    ensures
        decimal(n).len() <= width ==> padded_number(n, width).len() == width,
        decimal(n).len() >= width ==> padded_number(n, width) == decimal(n),
        padded_number(n, width).skip(padded_number(n, width).len() - decimal(n).len()) == decimal(
            n,
        ),
        0 <= i < padded_number(n, width).len() - decimal(n).len() ==> padded_number(n, width)[i]
            == ' ',
{
    let p = padded_number(n, width);
    let d = decimal(n);
    assert(p.skip(p.len() - d.len()) =~= d);
    if d.len() >= width {
        assert(p =~= d);
    }
}

} // verus!
