//! Spans of time and readings of the system's clocks.

use vstd::prelude::*;

verus! {

/// A span of time, in nanoseconds.
#[derive(Debug, Clone, Copy, PartialEq, Eq, PartialOrd, Ord, Hash, Structural)]
pub struct Duration {
    nanos: u128,
}

impl View for Duration {
    type V = nat;

    /// The span in nanoseconds.
    closed spec fn view(&self) -> nat {
        self.nanos as nat
    }
}

/// Nanoseconds in `s` seconds.
pub open spec fn secs(s: nat) -> nat {
    s * 1_000_000_000
}

/// Nanoseconds in `ms` milliseconds.
pub open spec fn millis(ms: nat) -> nat {
    ms * 1_000_000
}

impl Duration {
    #[verifier::type_invariant]
    spec fn bounded(self) -> bool {
        self.nanos <= 18_446_744_073_709_551_615_999_999_999
    }

    /// A span of `s` seconds.
    pub fn from_secs(s: u64) -> (r: Self)
        ensures
            r@ == secs(s as nat),
    {
        Duration { nanos: (s as u128) * 1_000_000_000 }
    }

    /// A span of `ms` milliseconds.
    pub fn from_millis(ms: u64) -> (r: Self)
        ensures
            r@ == millis(ms as nat),
    {
        Duration { nanos: (ms as u128) * 1_000_000 }
    }

    /// A span of `ns` nanoseconds.
    pub fn from_nanos(ns: u64) -> (r: Self)
        ensures
            r@ == ns as nat,
    {
        Duration { nanos: ns as u128 }
    }

    /// The span in whole seconds.
    pub fn as_secs(&self) -> (r: u64)
        ensures
            r as nat == whole(self@, 1_000_000_000),
            r as nat == self@ / 1_000_000_000,
    {
        proof {
            use_type_invariant(self);
        }
        (self.nanos / 1_000_000_000) as u64
    }

    /// The span in whole milliseconds.
    pub fn as_millis(&self) -> (r: u128)
        ensures
            r as nat == whole(self@, 1_000_000),
            r as nat == self@ / 1_000_000,
    {
        self.nanos / 1_000_000
    }

    /// The span in whole microseconds.
    pub fn as_micros(&self) -> (r: u128)
        ensures
            r as nat == whole(self@, 1_000),
            r as nat == self@ / 1_000,
    {
        self.nanos / 1_000
    }

    /// The span in nanoseconds.
    pub fn as_nanos(&self) -> (r: u128)
        ensures
            r as nat == self@,
    {
        self.nanos
    }

    /// Whether this span is shorter than `other`.
    pub fn is_shorter(&self, other: &Duration) -> (r: bool)
        ensures
            r == (self@ < other@),
    {
        self.nanos < other.nanos
    }

    /// What is left of this span after `other`, nothing where `other` is longer.
    pub fn saturating_sub(&self, other: &Duration) -> (r: Duration)
        ensures
            r@ == what_is_left(self@, other@),
            r@ == if self@ >= other@ {
                (self@ - other@) as nat
            } else {
                0
            },
    {
        proof {
            use_type_invariant(self);
        }
        if self.nanos >= other.nanos {
            Duration { nanos: self.nanos - other.nanos }
        } else {
            Duration { nanos: 0 }
        }
    }

    /// Twice this span, but no more than `max`.
    pub fn doubled_up_to(&self, max: &Duration) -> (r: Duration)
        ensures
            r@ == twice_up_to(self@, max@),
            r@ == if 2 * self@ <= max@ {
                2 * self@
            } else {
                max@
            },
    {
        proof {
            use_type_invariant(self);
            use_type_invariant(max);
        }
        if self.nanos * 2 <= max.nanos {
            Duration { nanos: self.nanos * 2 }
        } else {
            Duration { nanos: max.nanos }
        }
    }
}

/// `std::time::SystemTime`, a reading of the wall clock.
#[verifier::external_type_specification]
#[verifier::external_body]
pub struct ExSystemTime(std::time::SystemTime);

/// `std::time::SystemTimeError`: the reading lies before the epoch.
#[verifier::external_type_specification]
#[verifier::external_body]
pub struct ExSystemTimeError(std::time::SystemTimeError);

/// `std::time::Instant`, a reading of the monotonic clock.
#[verifier::external_type_specification]
#[verifier::external_body]
pub struct ExInstant(std::time::Instant);

/// `SystemTime::now`. Nothing is known of the reading.
pub assume_specification[ std::time::SystemTime::now ]() -> (r: std::time::SystemTime)
;

/// `SystemTime::duration_since`. Nothing is known of the span.
pub assume_specification[ std::time::SystemTime::duration_since ](
    t: &std::time::SystemTime,
    earlier: std::time::SystemTime,
) -> (r: Result<std::time::Duration, std::time::SystemTimeError>)
;

/// `std::time::UNIX_EPOCH`, read through the clock's own constant.
#[verifier::external_body]
fn unix_epoch() -> (r: std::time::SystemTime) {
    std::time::UNIX_EPOCH
}

/// What `Duration::as_nanos` tells of a span of the standard library.
pub uninterp spec fn span_nanos(d: std::time::Duration) -> nat;

/// `Duration::as_nanos`: the nanoseconds of the span.
pub assume_specification[ std::time::Duration::as_nanos ](d: &std::time::Duration) -> (r: u128)
    ensures
        r as nat == span_nanos(*d),
;

/// `Instant::now`. Nothing is known of the reading.
pub assume_specification[ std::time::Instant::now ]() -> (r: std::time::Instant)
;

/// What `Instant::duration_since` tells of two readings of the monotonic clock: the
/// time from the earlier one to the later one.
pub uninterp spec fn instant_gap(
    later: std::time::Instant,
    earlier: std::time::Instant,
) -> std::time::Duration;

/// `Instant::duration_since`: the time from one reading to another, which follows
/// from the two readings.
pub assume_specification[ std::time::Instant::duration_since ](
    t: &std::time::Instant,
    earlier: std::time::Instant,
) -> (r: std::time::Duration)
    ensures
        r == instant_gap(*t, earlier),
;

/// The low 64 bits of a number.
pub open spec fn low64(n: nat) -> nat {
    n % 0x1_0000_0000_0000_0000
}

/// The whole seconds of a span, in 64 bits.
pub open spec fn secs_in(d: std::time::Duration) -> nat {
    low64(span_nanos(d) / 1_000_000_000)
}

/// The whole milliseconds of a span, in 64 bits.
pub open spec fn millis_in(d: std::time::Duration) -> nat {
    low64(span_nanos(d) / 1_000_000)
}

/// The seconds since the epoch that a reading of the wall clock stands for, zero
/// where it lies before the epoch.
pub open spec fn unix_secs_in(
    reading: Result<std::time::Duration, std::time::SystemTimeError>,
) -> nat {
    match reading {
        Ok(d) => secs_in(d),
        Err(_) => 0,
    }
}

/// The low 64 bits of the nanoseconds since the epoch that a reading of the wall
/// clock stands for, zero where it lies before the epoch.
pub open spec fn unix_nanos_in(
    reading: Result<std::time::Duration, std::time::SystemTimeError>,
) -> nat {
    match reading {
        Ok(d) => low64(span_nanos(d)),
        Err(_) => 0,
    }
}

/// Whether a number is the seconds since the epoch of some reading.
pub open spec fn is_unix_secs(n: u64) -> bool {
    exists|reading: Result<std::time::Duration, std::time::SystemTimeError>|
        n as nat == #[trigger] unix_secs_in(reading)
}

/// Whether a number is the nanoseconds since the epoch of some reading.
pub open spec fn is_unix_nanos(n: u64) -> bool {
    exists|reading: Result<std::time::Duration, std::time::SystemTimeError>|
        n as nat == #[trigger] unix_nanos_in(reading)
}

/// Whether a number is the whole seconds from `start` to some reading.
pub open spec fn is_secs_since(n: u64, start: std::time::Instant) -> bool {
    exists|now: std::time::Instant| n as nat == secs_in(#[trigger] instant_gap(now, start))
}

/// Whether a number is the whole milliseconds from `start` to some reading.
pub open spec fn is_millis_since(n: u64, start: std::time::Instant) -> bool {
    exists|now: std::time::Instant| n as nat == millis_in(#[trigger] instant_gap(now, start))
}

fn low_bits(n: u128) -> (r: u64)
    ensures
        r as nat == low64(n as nat),
{
    (n % 0x1_0000_0000_0000_0000) as u64
}

/// The whole seconds of a span.
pub fn span_secs(d: &std::time::Duration) -> (r: u64)
    ensures
        r as nat == secs_in(*d),
{
    low_bits(d.as_nanos() / 1_000_000_000)
}

/// The low 64 bits of the milliseconds of a span.
pub fn span_millis(d: &std::time::Duration) -> (r: u64)
    ensures
        r as nat == millis_in(*d),
{
    low_bits(d.as_nanos() / 1_000_000)
}

/// The seconds since the epoch that a reading of the wall clock stands for, zero
/// where it lies before the epoch.
pub fn unix_secs_of(reading: &Result<std::time::Duration, std::time::SystemTimeError>) -> (r: u64)
    ensures
        r as nat == unix_secs_in(*reading),
{
    match reading {
        Ok(d) => span_secs(d),
        Err(_) => 0,
    }
}

/// The low 64 bits of the nanoseconds since the epoch that a reading of the wall
/// clock stands for, zero where it lies before the epoch.
pub fn unix_nanos_of(reading: &Result<std::time::Duration, std::time::SystemTimeError>) -> (r: u64)
    ensures
        r as nat == unix_nanos_in(*reading),
{
    match reading {
        Ok(d) => low_bits(d.as_nanos()),
        Err(_) => 0,
    }
}

/// Seconds since the epoch, zero where the clock stands before it. Which reading
/// the clock gives is not known; the result is what that reading stands for.
pub fn current_unix_secs() -> (r: u64)
    ensures
        is_unix_secs(r),
{
    let reading = std::time::SystemTime::now().duration_since(unix_epoch());
    let r: u64 = unix_secs_of(&reading);
    proof {
        assert(r as nat == unix_secs_in(reading));
    }
    r
}

/// The low 64 bits of the nanoseconds since the epoch, zero where the clock
/// stands before it. Which reading the clock gives is not known; the result is
/// what that reading stands for.
pub fn current_unix_nanos() -> (r: u64)
    ensures
        is_unix_nanos(r),
{
    let reading = std::time::SystemTime::now().duration_since(unix_epoch());
    let r: u64 = unix_nanos_of(&reading);
    proof {
        assert(r as nat == unix_nanos_in(reading));
    }
    r
}

/// The time that has passed since `start`, up to a reading that is not known.
pub fn time_since(start: &std::time::Instant) -> (r: std::time::Duration)
    ensures
        exists|now: std::time::Instant| r == #[trigger] instant_gap(now, *start),
{
    let now = std::time::Instant::now();
    now.duration_since(*start)
}

/// The whole seconds that have passed since `start`, up to a reading that is not
/// known.
pub fn secs_since(start: &std::time::Instant) -> (r: u64)
    ensures
        is_secs_since(r, *start),
{
    let d = time_since(start);
    span_secs(&d)
}

/// The low 64 bits of the milliseconds that have passed since `start`, up to a
/// reading that is not known.
pub fn millis_since(start: &std::time::Instant) -> (r: u64)
    ensures
        is_millis_since(r, *start),
{
    let d = time_since(start);
    span_millis(&d)
}

/// How often a unit goes into a time as a whole.
pub open spec fn whole(nanos: nat, unit: nat) -> nat
    recommends
        unit > 0,
{
    nanos / unit
}

/// What is left of a time after another.
pub open spec fn what_is_left(a: nat, b: nat) -> nat {
    if a >= b {
        (a - b) as nat
    } else {
        0
    }
}

/// Twice a time, and no more than the given one.
pub open spec fn twice_up_to(a: nat, max: nat) -> nat {
    if 2 * a <= max {
        2 * a
    } else {
        max
    }
}

/// A second is a thousand milliseconds and a thousand million nanoseconds.
pub proof fn lemma_units(n: nat)
    ensures
        secs(n) == millis(1000 * n),
        secs(1) == 1_000_000_000,
        millis(1) == 1_000_000,
        secs(n + 1) == secs(n) + 1_000_000_000,
        millis(n + 1) == millis(n) + 1_000_000,
{
}

/// As many whole units as are counted have passed, and not one more.
pub proof fn lemma_whole_units(nanos: nat, unit: nat)
    requires
        unit > 0,
    ensures
        unit * whole(nanos, unit) <= nanos < unit * (whole(nanos, unit) + 1),
{
    vstd::arithmetic::div_mod::lemma_fundamental_div_mod(nanos as int, unit as int);
    vstd::arithmetic::div_mod::lemma_mod_bound(nanos as int, unit as int);
    assert(unit * (nanos / unit + 1) == unit * (nanos / unit) + unit) by (nonlinear_arith);
}

/// What is left and what was taken make up the whole, and nothing is left of less; what
/// is doubled never passes the bound.
pub proof fn lemma_left_and_doubled(a: nat, b: nat)
    ensures
        a >= b ==> what_is_left(a, b) + b == a,
        a <= b ==> what_is_left(a, b) == 0,
        a + a <= b ==> twice_up_to(a, b) == a + a,
        a + a > b ==> twice_up_to(a, b) == b,
{
}

/// The seconds and milliseconds of a span that fit into sixty-four bits are the whole ones
/// that have passed.
pub proof fn lemma_spans(d: std::time::Duration)
    requires
        span_nanos(d) / 1_000_000 < 0x1_0000_0000_0000_0000,
    ensures
        1_000_000_000 * secs_in(d) <= span_nanos(d) < 1_000_000_000 * (secs_in(d) + 1),
        1_000_000 * millis_in(d) <= span_nanos(d) < 1_000_000 * (millis_in(d) + 1),
        1000 * secs_in(d) <= millis_in(d) < 1000 * (secs_in(d) + 1),
{
}

/// A clock that stands before the epoch reads as zero; another as the span since then.
pub proof fn lemma_readings(reading: Result<std::time::Duration, std::time::SystemTimeError>)
    ensures
        reading is Err ==> unix_secs_in(reading) == 0 && unix_nanos_in(reading) == 0,
        reading is Ok && span_nanos(reading->Ok_0) < 0x1_0000_0000_0000_0000 ==> unix_nanos_in(
            reading,
        ) == span_nanos(reading->Ok_0) && 1_000_000_000 * unix_secs_in(reading) <= unix_nanos_in(
            reading,
        ) < 1_000_000_000 * (unix_secs_in(reading) + 1),
{
}

/// A time that was read is that of some reading of a clock, and a span that has passed is
/// that between its start and some later look at the clock.
pub proof fn lemma_times_come_from_clocks(n: u64, start: std::time::Instant)
    ensures
        is_unix_secs(n) ==> exists|r: Result<std::time::Duration, std::time::SystemTimeError>|
            n == #[trigger] unix_secs_in(r),
        is_unix_nanos(n) ==> exists|r: Result<std::time::Duration, std::time::SystemTimeError>|
            n == #[trigger] unix_nanos_in(r),
        is_secs_since(n, start) ==> exists|now: std::time::Instant|
            n == secs_in(#[trigger] instant_gap(now, start)),
        is_millis_since(n, start) ==> exists|now: std::time::Instant|
            n == millis_in(#[trigger] instant_gap(now, start)),
{
}

} // verus!
