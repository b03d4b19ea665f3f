//! Points in time and spans between them.
//!
//! The calendar belongs to `chrono`; this module holds a time as plain numbers, in the form in
//! which `chrono` hands it out: whole seconds since the Unix epoch and nanoseconds within the
//! second.
use vstd::prelude::*;

verus! {

/// The first second that `chrono` can represent: midnight on 1 January of the year -262143.
pub const MIN_SECS: i64 = -8_334_601_228_800;

/// The last second that `chrono` can represent: 23:59:59 on 31 December of the year 262142.
pub const MAX_SECS: i64 = 8_210_266_876_799;

/// The whole seconds of the longest span that `chrono` can represent.
pub const MAX_SPAN_SECS: i64 = 9_223_372_036_854_775;

/// The nanoseconds of the longest span that `chrono` can represent.
pub const MAX_SPAN_NANOS: u32 = 807_000_000;

/// Whether `chrono` can represent this time. A leap second is written as a second that ends a
/// minute with more than 1,000,000,000 nanoseconds.
pub open spec fn valid_time(secs: i64, nanos: u32) -> bool {
    &&& MIN_SECS <= secs <= MAX_SECS
    &&& nanos < 1_000_000_000 || (nanos < 2_000_000_000 && secs as int % 60 == 59)
}

/// A point in time, in UTC.
#[derive(Clone, Copy, PartialEq, Eq, Structural, Debug)]
pub struct Timestamp {
    secs: i64,
    nanos: u32,
}

impl Timestamp {
    #[verifier::type_invariant]
    pub closed spec fn valid(self) -> bool {
        valid_time(self.secs, self.nanos)
    }

    /// Whole seconds since the Unix epoch.
    pub closed spec fn spec_secs(self) -> i64 {
        self.secs
    }

    /// Nanoseconds within the second.
    pub closed spec fn spec_nanos(self) -> u32 {
        self.nanos
    }

    /// Whether this time is earlier than `other`.
    pub open spec fn spec_before(self, other: Timestamp) -> bool {
        self.spec_secs() < other.spec_secs() || (self.spec_secs() == other.spec_secs()
            && self.spec_nanos() < other.spec_nanos())
    }

    /// A time from its parts; `None` where `chrono` has no such time.
    pub fn new(secs: i64, nanos: u32) -> (time: Option<Timestamp>)
        ensures
            time is Some <==> valid_time(secs, nanos),
            time matches Some(t) ==> t.spec_secs() == secs && t.spec_nanos() == nanos,
    {
        if secs < MIN_SECS || secs > MAX_SECS || nanos >= 2_000_000_000 {
            return None;
        }
        if nanos < 1_000_000_000 {
            return Some(Timestamp { secs, nanos });
        }
        let ends_minute: bool = if secs >= 0 {
            secs % 60 == 59
        } else {
            (-secs) % 60 == 1
        };
        if ends_minute {
            Some(Timestamp { secs, nanos })
        } else {
            None
        }
    }

    /// Whole seconds since the Unix epoch.
    #[verifier::when_used_as_spec(spec_secs)]
    pub fn secs(self) -> (secs: i64)
        ensures
            secs == self.spec_secs(),
    {
        self.secs
    }

    /// Nanoseconds within the second.
    #[verifier::when_used_as_spec(spec_nanos)]
    pub fn nanos(self) -> (nanos: u32)
        ensures
            nanos == self.spec_nanos(),
    {
        self.nanos
    }

    /// Whether this time is earlier than `other`.
    #[verifier::when_used_as_spec(spec_before)]
    pub fn before(self, other: Timestamp) -> (before: bool)
        ensures
            before == self.spec_before(other),
    {
        self.secs < other.secs || (self.secs == other.secs && self.nanos < other.nanos)
    }
}

/// The nanoseconds that these seconds and nanoseconds come to.
pub open spec fn epoch_nanos(secs: int, nanos: int) -> int {
    secs * 1_000_000_000 + nanos
}

/// Whether `chrono` can represent a span of this many seconds and nanoseconds.
pub open spec fn valid_span(secs: i64, nanos: u32) -> bool {
    let longest = epoch_nanos(MAX_SPAN_SECS as int, MAX_SPAN_NANOS as int);
    &&& nanos < 1_000_000_000
    &&& -longest <= epoch_nanos(secs as int, nanos as int) <= longest
}

/// A span of time: whole seconds, which may be negative, and the nanoseconds to add to them.
#[derive(Clone, Copy, PartialEq, Eq, Structural, Debug)]
pub struct TimeSpan {
    secs: i64,
    nanos: u32,
}

impl TimeSpan {
    #[verifier::type_invariant]
    pub closed spec fn valid(self) -> bool {
        valid_span(self.secs, self.nanos)
    }

    /// Whole seconds.
    pub closed spec fn spec_secs(self) -> i64 {
        self.secs
    }

    /// Nanoseconds on top of the whole seconds.
    pub closed spec fn spec_nanos(self) -> u32 {
        self.nanos
    }

    /// A span from its parts; `None` for one that is too long or has more than a second's worth
    /// of nanoseconds.
    pub fn new(secs: i64, nanos: u32) -> (span: Option<TimeSpan>)
        ensures
            span is Some <==> valid_span(secs, nanos),
            span matches Some(s) ==> s.spec_secs() == secs && s.spec_nanos() == nanos,
    {
        let too_long: bool = secs > MAX_SPAN_SECS || (secs == MAX_SPAN_SECS && nanos
            > MAX_SPAN_NANOS);
        let too_short: bool = secs < -MAX_SPAN_SECS - 1 || (secs == -MAX_SPAN_SECS - 1 && nanos
            < 1_000_000_000 - MAX_SPAN_NANOS);
        if too_long || too_short || nanos >= 1_000_000_000 {
            None
        } else {
            Some(TimeSpan { secs, nanos })
        }
    }

    /// A span of whole seconds.
    pub fn from_secs(secs: u32) -> (span: TimeSpan)
        ensures
            span.spec_secs() == secs,
            span.spec_nanos() == 0,
    {
        TimeSpan { secs: secs as i64, nanos: 0 }
    }

    /// Whole seconds.
    #[verifier::when_used_as_spec(spec_secs)]
    pub fn secs(self) -> (secs: i64)
        ensures
            secs == self.spec_secs(),
    {
        self.secs
    }

    /// Nanoseconds on top of the whole seconds.
    #[verifier::when_used_as_spec(spec_nanos)]
    pub fn nanos(self) -> (nanos: u32)
        ensures
            nanos == self.spec_nanos(),
    {
        self.nanos
    }
}

/// What `chrono` gives for a time less a span; `None` where the result is out of its range.
pub uninterp spec fn time_less_span(
    secs: i64,
    nanos: u32,
    span_secs: i64,
    span_nanos: u32,
) -> Option<(i64, u32)>;

/// `earlier` is exactly the time `at` less the span, and is missing only where its second is out
/// of range. Each is given as seconds and nanoseconds.
pub open spec fn is_exact_difference(
    earlier: Option<(i64, u32)>,
    at: (i64, u32),
    span: (i64, u32),
) -> bool {
    let exact = epoch_nanos(at.0 as int, at.1 as int) - epoch_nanos(span.0 as int, span.1 as int);
    match earlier {
        Some(time) => time.1 < 1_000_000_000 && epoch_nanos(time.0 as int, time.1 as int) == exact
            && MIN_SECS <= time.0 <= MAX_SECS,
        None => !(MIN_SECS <= exact / 1_000_000_000 <= MAX_SECS),
    }
}

/// Calls `chrono::DateTime::checked_sub_signed`: the time `span` before `at`, or `None` where
/// `chrono` cannot represent it. Claimed: the outcome depends on the two arguments alone, a time
/// that comes out is a valid one, and away from leap seconds the outcome is the exact difference,
/// given whenever its second is in range. What becomes of a leap second is not stated.
#[verifier::external_body]
fn less_span(at: Timestamp, span: TimeSpan) -> (earlier: Option<(i64, u32)>)
    requires
        at.valid(),
        span.valid(),
    ensures
        earlier == time_less_span(at.secs(), at.nanos(), span.secs(), span.nanos()),
        earlier matches Some(t) ==> valid_time(t.0, t.1),
        at.nanos() < 1_000_000_000 ==> is_exact_difference(
            earlier,
            (at.secs(), at.nanos()),
            (span.secs(), span.nanos()),
        ),
{
    let time = chrono::DateTime::from_timestamp(at.secs, at.nanos)?;
    let delta = chrono::TimeDelta::new(span.secs, span.nanos)?;
    let earlier = time.checked_sub_signed(delta)?;
    Some((earlier.timestamp(), earlier.timestamp_subsec_nanos()))
}

/// Calls `chrono::Utc::now`. Claimed: the reading is a valid time at or after the Unix epoch and
/// no leap second. Which one it is depends on the clock.
#[verifier::external_body]
fn clock() -> (reading: (i64, u32))
    ensures
        valid_time(reading.0, reading.1),
        0 <= reading.0,
        reading.1 < 1_000_000_000,
{
    let now = chrono::Utc::now();
    (now.timestamp(), now.timestamp_subsec_nanos())
}

/// What `chrono` prints for a time in UTC.
pub uninterp spec fn time_text(secs: i64, nanos: u32) -> Seq<char>;

/// Calls the `Display` of `chrono::DateTime<Utc>`. Claimed: the text depends on the time alone.
#[verifier::external_body]
fn print_time(at: Timestamp) -> (text: String)
    requires
        at.valid(),
    ensures
        text@ == time_text(at.secs(), at.nanos()),
{
    let time: chrono::DateTime<chrono::Utc> = chrono::DateTime::from_timestamp(at.secs, at.nanos)
        .expect("a valid time");
    time.to_string()
}

/// The seconds and nanoseconds of a time that may be missing.
pub open spec fn time_parts(time: Option<Timestamp>) -> Option<(i64, u32)> {
    match time {
        Some(t) => Some((t.secs(), t.nanos())),
        None => None,
    }
}

impl Timestamp {
    /// The time now. It is no leap second.
    pub fn now() -> (now: Timestamp)
        ensures
            0 <= now.secs(),
            now.nanos() < 1_000_000_000,
    {
        let reading: (i64, u32) = clock();
        Timestamp { secs: reading.0, nanos: reading.1 }
    }

    /// The time `span` before this one, where there is one.
    pub fn checked_sub(self, span: TimeSpan) -> (earlier: Option<Timestamp>)
        ensures
            time_parts(earlier) == time_less_span(
                self.secs(),
                self.nanos(),
                span.secs(),
                span.nanos(),
            ),
            self.nanos() < 1_000_000_000 ==> is_exact_difference(
                time_parts(earlier),
                (self.secs(), self.nanos()),
                (span.secs(), span.nanos()),
            ),
            0 <= self.secs() && self.nanos() < 1_000_000_000 && 0 <= span.secs() < -MIN_SECS
                ==> earlier is Some,
    {
        proof {
            use_type_invariant(self);
            use_type_invariant(span);
        }
        match less_span(self, span) {
            Some(parts) => Some(Timestamp { secs: parts.0, nanos: parts.1 }),
            None => None,
        }
    }

    /// The time as `chrono` prints it, such as `1970-01-01 00:00:00 UTC`.
    pub fn text(self) -> (text: String)
        ensures
            text@ == time_text(self.secs(), self.nanos()),
    {
        proof {
            use_type_invariant(self);
        }
        print_time(self)
    }
}

/// Times are in order as their seconds are and, within a second, as their nanoseconds are: of any two
/// different times exactly one is earlier, and away from leap seconds it is the one with fewer
/// nanoseconds since the epoch.
pub proof fn law_earlier_times_have_fewer_nanoseconds(a: Timestamp, b: Timestamp, c: Timestamp)
    ensures
        !a.before(a),
        a.before(b) ==> !b.before(a),
        a.before(b) && b.before(c) ==> a.before(c),
        !a.before(b) && !b.before(a) ==> a.secs() == b.secs() && a.nanos() == b.nanos(),
        a.nanos() < 1_000_000_000 && b.nanos() < 1_000_000_000 ==> (a.before(b) <==> a.secs()
            * 1_000_000_000 + a.nanos() < b.secs() * 1_000_000_000 + b.nanos()),
{
}

} // verus!
