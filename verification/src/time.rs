//! Spans of time, points of the monotonic clock, and calendar times.
use vstd::prelude::*;

verus! {

/// Nanoseconds in a second.
pub const NANOS_PER_SEC: u128 = 1_000_000_000;

/// A span of time.
#[derive(Clone, Copy, PartialEq, Eq, Structural, Debug)]
pub struct Duration {
    /// The length of the span in nanoseconds.
    pub nanos: u128,
}

impl Duration {
    /// A span of `secs` seconds.
    pub fn from_secs(secs: u64) -> (r: Duration)
        ensures
            r.nanos == secs * 1_000_000_000,
    {
        Duration { nanos: secs as u128 * NANOS_PER_SEC }
    }

    /// A span of `millis` thousandths of a second.
    pub fn from_millis(millis: u64) -> (r: Duration)
        ensures
            r.nanos == millis * 1_000_000,
    {
        Duration { nanos: millis as u128 * 1_000_000 }
    }

    /// Whether this span is shorter than `other`.
    pub fn is_shorter_than(&self, other: &Duration) -> (r: bool)
        ensures
            r == (self.nanos < other.nanos),
    {
        self.nanos < other.nanos
    }

    /// Half of this span, in whole nanoseconds.
    pub fn half(&self) -> (r: Duration)
        ensures
            r.nanos == self.nanos / 2,
    {
        Duration { nanos: self.nanos / 2 }
    }
}

/// A point of the monotonic clock.
#[derive(Clone, Copy, PartialEq, Eq, Structural, Debug)]
pub struct Instant {
    /// Nanoseconds since the clock's origin.
    pub nanos: u128,
}

/// Whether `secs` seconds after 1970-01-01T00:00:00Z and `nanos` nanoseconds name a time
/// between the first day of year -262143 and the last day of year 262142. A second may
/// run on for up to one more second only as the last second of a minute.
pub open spec fn is_calendar_time(secs: int, nanos: int) -> bool {
    &&& -8_334_601_228_800 <= secs <= 8_210_266_876_799
    &&& 0 <= nanos < 2_000_000_000
    &&& nanos < 1_000_000_000 || secs % 60 == 59
}

/// The RFC 3339 text of a calendar time in UTC.
pub uninterp spec fn rfc3339_text(secs: i64, nanos: u32) -> Seq<char>;

/// The RFC 3339 text of a calendar time, as `chrono::DateTime::to_rfc3339` gives it for
/// the `DateTime<Utc>` that `chrono::DateTime::from_timestamp` makes. Claimed of them:
/// such a `DateTime` exists for every calendar time, and the text is a function of its
/// seconds and nanoseconds. The text itself is left unsaid.
#[verifier::external_body]
fn chrono_rfc3339(secs: i64, nanos: u32) -> (r: String)
    requires
        is_calendar_time(secs as int, nanos as int),
    ensures
        r@ == rfc3339_text(secs, nanos),
{
    chrono::DateTime::from_timestamp(secs, nanos).expect("a calendar time").to_rfc3339()
}

/// A calendar time in UTC.
#[derive(Clone, Copy, PartialEq, Eq, Structural, Debug)]
pub struct Timestamp {
    secs: i64,
    nanos: u32,
}

impl Timestamp {
    #[verifier::type_invariant]
    closed spec fn in_range(self) -> bool {
        is_calendar_time(self.secs as int, self.nanos as int)
    }

    /// Seconds since 1970-01-01T00:00:00Z.
    pub closed spec fn spec_secs(self) -> i64 {
        self.secs
    }

    /// Nanoseconds since the last whole second.
    pub closed spec fn spec_nanos(self) -> u32 {
        self.nanos
    }

    /// The calendar time `nanos` nanoseconds after `secs` seconds since 1970-01-01T00:00:00Z,
    /// if there is one.
    pub fn new(secs: i64, nanos: u32) -> (r: Option<Timestamp>)
        ensures
            r is Some <==> is_calendar_time(secs as int, nanos as int),
            r matches Some(t) ==> t.spec_secs() == secs && t.spec_nanos() == nanos,
    {
        if secs < -8_334_601_228_800 || secs > 8_210_266_876_799 || nanos >= 2_000_000_000 {
            return None;
        }
        if nanos >= 1_000_000_000 {
            let shifted: i64 = secs + 8_334_601_228_800;
            if shifted % 60 != 59 {
                assert(secs % 60 != 59);
                return None;
            }
            assert(secs % 60 == 59);
        }
        Some(Timestamp { secs, nanos })
    }

    /// Seconds since 1970-01-01T00:00:00Z.
    pub fn secs(&self) -> (r: i64)
        ensures
            r == self.spec_secs(),
    {
        self.secs
    }

    /// Nanoseconds since the last whole second.
    pub fn nanos(&self) -> (r: u32)
        ensures
            r == self.spec_nanos(),
    {
        self.nanos
    }

    /// The RFC 3339 text of this time.
    pub fn to_rfc3339(&self) -> (r: String)
        ensures
            r@ == rfc3339_text(self.spec_secs(), self.spec_nanos()),
    {
        proof {
            use_type_invariant(self);
        }
        chrono_rfc3339(self.secs, self.nanos)
    }
}

/// The RFC 3339 text of an optional time.
pub open spec fn optional_rfc3339(t: Option<Timestamp>) -> Option<Seq<char>> {
    match t {
        Some(t) => Some(rfc3339_text(t.spec_secs(), t.spec_nanos())),
        None => None,
    }
}

/// The RFC 3339 text of an optional time.
pub fn opt_rfc3339(t: Option<Timestamp>) -> (r: Option<String>)
    ensures
        crate::text::optional_view(r) == optional_rfc3339(t),
{
    match t {
        Some(t) => Some(t.to_rfc3339()),
        None => None,
    }
}

/// A time has a text just where there is one, and the text is that of its seconds and
/// nanoseconds.
pub proof fn times_are_told_just_where_there_are_any(t: Option<Timestamp>, text: Option<String>)
    requires
        crate::text::optional_view(text) == optional_rfc3339(t),
    ensures
        text is Some <==> t is Some,
        text is Some ==> text->0@ == rfc3339_text(t->0.spec_secs(), t->0.spec_nanos()),
{
}

/// Spans are made of seconds and of thousandths of them, are compared by their length, and are
/// halved to the nanosecond.
pub proof fn spans_are_measured_in_nanoseconds(
    n: u64,
    of_secs: Duration,
    of_millis: Duration,
    a: Duration,
    b: Duration,
    shorter: bool,
    half: Duration,
)
    requires
        call_ensures(Duration::from_secs, (n,), of_secs),
        call_ensures(Duration::from_millis, (n,), of_millis),
        call_ensures(Duration::is_shorter_than, (&a, &b), shorter),
        call_ensures(Duration::half, (&a,), half),
    ensures
        of_secs.nanos == 1_000_000_000 * n,
        of_secs.nanos == 1_000 * of_millis.nanos,
        shorter <==> a.nanos < b.nanos,
        half.nanos + half.nanos <= a.nanos <= half.nanos + half.nanos + 1,
        NANOS_PER_SEC == 1_000_000_000,
{
}

/// A time is made of any seconds and nanoseconds that a calendar of half a million years has, and
/// keeps them. A second runs on for another only as the last one of a minute.
pub proof fn times_keep_their_seconds_and_nanoseconds(
    secs: i64,
    nanos: u32,
    r: Option<Timestamp>,
    read_secs: i64,
    read_nanos: u32,
)
    requires
        call_ensures(Timestamp::new, (secs, nanos), r),
        r is Some ==> call_ensures(Timestamp::secs, (&r->0,), read_secs),
        r is Some ==> call_ensures(Timestamp::nanos, (&r->0,), read_nanos),
    ensures
        r is Some <==> -8_334_601_228_800 <= secs <= 8_210_266_876_799 && (nanos < 1_000_000_000
            || (nanos < 2_000_000_000 && secs as int % 60 == 59)),
        r is Some ==> read_secs == secs && read_nanos == nanos,
{
}

/// A time is told by its seconds and nanoseconds, and no time is told as none.
pub proof fn times_are_told_by_their_parts(
    t: Timestamp,
    secs: i64,
    nanos: u32,
    text: String,
    of_some: Option<String>,
    of_none: Option<String>,
)
    requires
        call_ensures(Timestamp::secs, (&t,), secs),
        call_ensures(Timestamp::nanos, (&t,), nanos),
        call_ensures(Timestamp::to_rfc3339, (&t,), text),
        call_ensures(opt_rfc3339, (Some(t),), of_some),
        call_ensures(opt_rfc3339, (None,), of_none),
    ensures
        text@ == rfc3339_text(secs, nanos),
        of_some is Some && of_some->0@ == text@,
        of_none is None,
{
}

} // verus!
