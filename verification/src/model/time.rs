//! Points in time and the spans between them.

use vstd::prelude::*;
use vstd::string::*;

verus! {

/// A point in time: seconds since 1970-01-01 00:00:00 UTC, and nanoseconds past
/// the second. A value of a thousand million nanoseconds or more stands for a
/// point inside a leap second.
#[derive(Clone, Copy, Debug, PartialEq, Eq, Structural)]
pub struct Timestamp {
    pub seconds: i64,
    pub nanos: u32,
}

impl Timestamp {
    /// Whether `self` comes before `other`.
    pub open spec fn before(self, other: Timestamp) -> bool {
        self.seconds < other.seconds || (self.seconds == other.seconds && self.nanos < other.nanos)
    }

    /// Whether `self` comes before `other`.
    pub fn is_before(&self, other: &Timestamp) -> (r: bool)
        ensures
            r == self.before(*other),
    {
        self.seconds < other.seconds || (self.seconds == other.seconds && self.nanos < other.nanos)
    }

    /// Whether this lies outside leap seconds.
    pub open spec fn regular(self) -> bool {
        self.nanos < 1_000_000_000
    }

    /// Whether this lies between the beginning of 1970 and the end of 9999.
    pub open spec fn four_digit_year(self) -> bool {
        0 <= self.seconds <= 253_402_300_799
    }

    /// Whether `chrono` reads this point in time from a text.
    pub open spec fn is_read_from(self, text: Seq<char>) -> bool {
        rfc3339_value(text) == Some((self.seconds, self.nanos))
    }

    /// The text that `chrono` writes for this point in time.
    pub open spec fn written(self) -> Seq<char> {
        rfc3339_text(self.seconds, self.nanos)->0
    }

    /// Nanoseconds since 1970.
    pub open spec fn total_nanos(self) -> int {
        self.seconds * 1_000_000_000 + self.nanos
    }
}

/// Whole seconds in a span of nanoseconds, rounded towards zero.
pub open spec fn whole_seconds(nanos: int) -> int {
    if nanos >= 0 {
        nanos / 1_000_000_000
    } else {
        -((-nanos) / 1_000_000_000)
    }
}

/// What `chrono::DateTime::parse_from_rfc3339` reads from a text: seconds since
/// 1970 and nanoseconds past the second, or nothing where it refuses the text.
pub uninterp spec fn rfc3339_value(text: Seq<char>) -> Option<(i64, u32)>;

/// `chrono::DateTime::parse_from_rfc3339`, with the point in time that it reads
/// given by `timestamp` and `timestamp_subsec_nanos`. Which texts it takes, and
/// for what, is left to the name [`rfc3339_value`].
#[verifier::external_body]
pub(crate) fn parse_rfc3339(text: &str) -> (r: Option<Timestamp>)
    ensures
        rfc3339_value(text@) == (match r {
            Some(t) => Some((t.seconds, t.nanos)),
            None => None,
        }),
{
    match chrono::DateTime::parse_from_rfc3339(text) {
        Ok(t) => Some(Timestamp { seconds: t.timestamp(), nanos: t.timestamp_subsec_nanos() }),
        Err(_) => None,
    }
}

/// What `chrono::DateTime::to_rfc3339` writes for a point in UTC, given as seconds
/// since 1970 and nanoseconds past the second, where it can be represented.
pub uninterp spec fn rfc3339_text(seconds: i64, nanos: u32) -> Option<Seq<char>>;

/// `chrono::DateTime::to_rfc3339` on a point in UTC, or nothing where
/// `DateTime::from_timestamp` cannot represent it. All points up to the year 9999 can
/// be, and outside leap seconds `parse_from_rfc3339` reads back from the text the point
/// that it was written for. How the text looks is left to the name [`rfc3339_text`].
#[verifier::external_body]
fn format_rfc3339(time: Timestamp) -> (r: Option<String>)
    ensures
        r.deep_view() == rfc3339_text(time.seconds, time.nanos),
        time.regular() && time.four_digit_year() ==> r is Some && time.is_read_from(r->0@),
{
    let t = chrono::DateTime::from_timestamp(time.seconds, time.nanos)?;
    Some(t.to_rfc3339())
}

/// A point in time together with its text.
#[derive(Debug)]
pub struct Moment {
    time: Timestamp,
    text: String,
}

impl View for Moment {
    type V = Timestamp;

    closed spec fn view(&self) -> Timestamp {
        self.time
    }
}

impl Moment {
    #[verifier::type_invariant]
    spec fn text_is_of_time(&self) -> bool {
        &&& rfc3339_text(self.time.seconds, self.time.nanos) == Some(self.text@)
        &&& self.time.regular() && self.time.four_digit_year() ==> self.time.is_read_from(
            self.text@,
        )
    }

    /// The moment at `time`, where a text can be written for it.
    pub fn at(time: Timestamp) -> (r: Option<Moment>)
        ensures
            match r {
                Some(moment) => moment@ == time && rfc3339_text(time.seconds, time.nanos) is Some,
                None => rfc3339_text(time.seconds, time.nanos) is None,
            },
            time.regular() && time.four_digit_year() ==> r is Some,
    {
        match format_rfc3339(time) {
            Some(text) => Some(Moment { time, text }),
            None => None,
        }
    }

    /// The point in time.
    pub fn time(&self) -> (r: Timestamp)
        ensures
            r == self@,
    {
        self.time
    }

    /// Its text. Outside leap seconds and between 1970 and 9999 the point in time is
    /// read back from it.
    pub fn text(&self) -> (r: String)
        ensures
            r@ == self@.written(),
            self@.regular() && self@.four_digit_year() ==> self@.is_read_from(r@),
    {
        proof {
            use_type_invariant(self);
        }
        self.text.clone()
    }
}

/// What the difference of two `chrono::DateTime<Utc>` values gives in whole
/// seconds, where both points, given as seconds and nanoseconds, can be
/// represented.
pub uninterp spec fn seconds_between(
    later_seconds: i64,
    later_nanos: u32,
    earlier_seconds: i64,
    earlier_nanos: u32,
) -> Option<i64>;

/// `chrono::DateTime::signed_duration_since` and `TimeDelta::num_seconds` on two
/// points in UTC, or nothing where `DateTime::from_timestamp` cannot represent one
/// of them. Outside leap seconds the result is the difference, rounded towards
/// zero; all points up to the year 9999 can be represented. How leap seconds
/// count is left to the name [`seconds_between`].
#[verifier::external_body]
pub(crate) fn elapsed_seconds(later: Timestamp, earlier: Timestamp) -> (r: Option<i64>)
    ensures
        r == seconds_between(later.seconds, later.nanos, earlier.seconds, earlier.nanos),
        later.regular() && earlier.regular() && r is Some ==> r->0 == whole_seconds(
            later.total_nanos() - earlier.total_nanos(),
        ),
        later.regular() && earlier.regular() && later.four_digit_year()
            && earlier.four_digit_year() ==> r is Some,
{
    let end = chrono::DateTime::from_timestamp(later.seconds, later.nanos)?;
    let start = chrono::DateTime::from_timestamp(earlier.seconds, earlier.nanos)?;
    Some(end.signed_duration_since(start).num_seconds())
}

/// `chrono::Utc::now`: some point in time, outside leap seconds.
#[verifier::external_body]
pub(crate) fn utc_now() -> (r: Timestamp)
    ensures
        r.regular(),
{
    let now = chrono::Utc::now();
    Timestamp { seconds: now.timestamp(), nanos: now.timestamp_subsec_nanos() }
}

} // verus!
