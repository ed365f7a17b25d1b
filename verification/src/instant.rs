//! Points on the UTC time line as plain integers, and the two text formats
//! that chrono reads for the schedule.

use vstd::prelude::*;

verus! {

/// Nanoseconds in one second. A nanosecond count at or above this value marks
/// an instant inside a leap second.
pub const NANOS_PER_SEC: u32 = 1_000_000_000;

/// A point on the UTC time line: the non-leap seconds since the Unix epoch and
/// the nanoseconds since that whole second. During a leap second the
/// nanoseconds run from 1,000,000,000 up.
#[derive(Clone, Copy, Debug, PartialEq, Eq, Structural)]
pub struct Instant {
    pub secs: i64,
    pub nanos: u32,
}

/// Chronological order on pairs of seconds and nanoseconds: by seconds, then
/// by nanoseconds.
pub open spec fn earlier(a: (int, int), b: (int, int)) -> bool {
    a.0 < b.0 || (a.0 == b.0 && a.1 < b.1)
}

/// The instant that lies `length` whole seconds after `start`, by the rule of
/// chrono's `DateTime + TimeDelta`: a moment inside a leap second stays where
/// it is when nothing is added and leaves the leap second as soon as a
/// positive length is added.
pub open spec fn shifted(start: (int, int), length: int) -> (int, int) {
    if length > 0 && start.1 >= NANOS_PER_SEC {
        (start.0 + length, start.1 - NANOS_PER_SEC)
    } else {
        (start.0 + length, start.1)
    }
}

impl View for Instant {
    type V = (int, int);

    open spec fn view(&self) -> (int, int) {
        (self.secs as int, self.nanos as int)
    }
}

impl Instant {
    /// Whether `self` lies strictly before `other`.
    pub fn is_before(&self, other: &Instant) -> (r: bool)
        ensures
            r == earlier(self@, other@),
    {
        self.secs < other.secs || (self.secs == other.secs && self.nanos < other.nanos)
    }

    /// Whether the moment `length` seconds after `self` lies strictly after
    /// `now`.
    pub fn plus_is_after(&self, length: u64, now: &Instant) -> (r: bool)
        ensures
            r == earlier(now@, shifted(self@, length as int)),
    {
        let end_secs: i128 = self.secs as i128 + length as i128;
        let end_nanos: u32 = if length > 0 && self.nanos >= NANOS_PER_SEC {
            self.nanos - NANOS_PER_SEC
        } else {
            self.nanos
        };
        (now.secs as i128) < end_secs || (now.secs as i128 == end_secs && now.nanos < end_nanos)
    }
}

/// chrono's `ParseError`, which its parsers report for a text that they
/// cannot read. Nothing is known of what it holds.
#[verifier::external_type_specification]
#[verifier::external_body]
pub struct ExParseError(chrono::ParseError);

/// What chrono's `DateTime::parse_from_rfc3339` reads from a text: the
/// instant as seconds and nanoseconds, or nothing where chrono rejects the
/// text.
pub uninterp spec fn rfc3339_instant(text: Seq<char>) -> Option<(int, int)>;

/// What chrono's `NaiveTime::parse_from_str` reads from a text under a format:
/// the seconds since midnight and the nanoseconds since that whole second, or
/// nothing where chrono rejects the text or the format.
pub uninterp spec fn time_of_day(text: Seq<char>, format: Seq<char>) -> Option<(int, int)>;

/// The format of a clock duration: hours, minutes and seconds with colons
/// between them.
pub open spec fn clock_format() -> Seq<char> {
    "%T"@
}

/// The whole seconds that have passed since midnight at a time of day. The
/// leap second counts as a full second.
pub open spec fn seconds_since_midnight(time: (int, int)) -> int {
    time.0 + time.1 / (NANOS_PER_SEC as int)
}

/// The clock duration that a text stands for, in whole seconds; nothing where
/// the text is no time of day in the clock format.
pub open spec fn clock_duration(text: Seq<char>) -> Option<int> {
    match time_of_day(text, clock_format()) {
        Some(time) => Some(seconds_since_midnight(time)),
        None => None,
    }
}

/// Calls chrono's `DateTime::parse_from_rfc3339` and hands out the instant by
/// its `timestamp` and `timestamp_subsec_nanos`. Trusted: the outcome is the
/// one that `rfc3339_instant` names for this text.
#[verifier::external_body]
fn read_rfc3339(text: &str) -> (r: Result<Instant, chrono::ParseError>)
    ensures
        r is Ok <==> rfc3339_instant(text@) is Some,
        r matches Ok(t) ==> rfc3339_instant(text@) == Some(t@),
{
    match chrono::DateTime::parse_from_rfc3339(text) {
        Ok(t) => Ok(Instant { secs: t.timestamp(), nanos: t.timestamp_subsec_nanos() }),
        Err(e) => Err(e),
    }
}

/// Calls chrono's `NaiveTime::parse_from_str` and hands out the time of day by
/// its `num_seconds_from_midnight` and `nanosecond`. Trusted: the outcome is
/// the one that `time_of_day` names for this text and format.
#[verifier::external_body]
fn read_time_of_day(text: &str, format: &str) -> (r: Result<(u32, u32), chrono::ParseError>)
    ensures
        r is Ok <==> time_of_day(text@, format@) is Some,
        r matches Ok(t) ==> time_of_day(text@, format@) == Some((t.0 as int, t.1 as int)),
{
    match chrono::NaiveTime::parse_from_str(text, format) {
        Ok(t) => Ok((
            chrono::Timelike::num_seconds_from_midnight(&t),
            chrono::Timelike::nanosecond(&t),
        )),
        Err(e) => Err(e),
    }
}

/// Calls chrono's `Utc::now` and hands out the instant by its `timestamp` and
/// `timestamp_subsec_nanos`. Trusted: chrono makes the reading from a count of
/// whole seconds and the fraction of a second that follows, so it never lies
/// inside a leap second. Nothing is promised of the moment itself. chrono
/// stops the program where the system clock stands before the year 1970.
#[verifier::external_body]
fn read_clock() -> (r: Instant)
    ensures
        r.nanos < NANOS_PER_SEC,
{
    let t = chrono::Utc::now();
    Instant { secs: t.timestamp(), nanos: t.timestamp_subsec_nanos() }
}

/// The whole seconds since midnight of a time of day given by its seconds and
/// nanoseconds.
pub fn elapsed_seconds(secs: u32, nanos: u32) -> (r: u64)
    ensures
        r == seconds_since_midnight((secs as int, nanos as int)),
{
    secs as u64 + (nanos / NANOS_PER_SEC) as u64
}

impl Instant {
    /// Reads a date and time with offset, such as `2023-01-08T16:30:00Z`.
    pub fn parse(text: &str) -> (r: Option<Instant>)
        ensures
            r is Some <==> rfc3339_instant(text@) is Some,
            r matches Some(t) ==> rfc3339_instant(text@) == Some(t@),
    {
        match read_rfc3339(text) {
            Ok(t) => Some(t),
            Err(_) => None,
        }
    }

    /// The reading of the system clock, which must not stand before the year
    /// 1970. Which moment it is depends on the clock alone; it is never a
    /// moment inside a leap second.
    pub fn now() -> (r: Instant)
        ensures
            r.nanos < NANOS_PER_SEC,
    {
        read_clock()
    }
}

/// Reads a clock duration, such as `01:25:00`, as whole seconds.
pub fn parse_clock_duration(text: &str) -> (r: Option<u64>)
    ensures
        r is Some <==> clock_duration(text@) is Some,
        r matches Some(d) ==> clock_duration(text@) == Some(d as int),
{
    match read_time_of_day(text, "%T") {
        Ok(t) => Some(elapsed_seconds(t.0, t.1)),
        Err(_) => None,
    }
}

} // verus!
