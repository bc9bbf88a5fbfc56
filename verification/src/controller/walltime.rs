//! Limits in time: the walltime of running jobs, and how long ended ones are kept.

use vstd::prelude::*;
use vstd::string::*;
use crate::model::time::{
    elapsed_seconds, parse_rfc3339, rfc3339_value, seconds_between, utc_now, whole_seconds,
    Timestamp,
};
use crate::model::walltime::{duration_text, walltime_fits, walltime_seconds, WalltimeDuration};

verus! {

/// Seconds for which the pods of an ended job are kept.
pub const POD_TTL_SECONDS: u64 = 86400;

/// Length of a span of seconds. A span into the future has none yet.
pub open spec fn span_length(seconds: i64) -> nat {
    if seconds < 0 {
        0
    } else {
        seconds as nat
    }
}

/// Whether a span of seconds is longer than a limit. One into the future never is.
pub fn span_exceeds(seconds: i64, limit: u64) -> (r: bool)
    ensures
        r == (span_length(seconds) > limit),
{
    seconds >= 0 && seconds as u64 > limit
}

/// Whole seconds from the time that a text states to `now`, where it states one.
pub open spec fn seconds_since(text: Seq<char>, now: Timestamp) -> Option<i64> {
    match rfc3339_value(text) {
        Some(t) => seconds_between(now.seconds, now.nanos, t.0, t.1),
        None => None,
    }
}

/// Whether a text states a point in time that is not inside a leap second and lies
/// between 1970 and 9999.
pub open spec fn states_plain_time(text: Seq<char>) -> bool {
    match rfc3339_value(text) {
        Some(t) => {
            let stated = Timestamp { seconds: t.0, nanos: t.1 };
            stated.regular() && stated.four_digit_year()
        },
        None => false,
    }
}

/// Whether a text states a time, and `now` is one, of which the clock tells how far
/// apart they are: both outside leap seconds and between 1970 and 9999.
pub open spec fn clock_tells(text: Seq<char>, now: Timestamp) -> bool {
    states_plain_time(text) && now.regular() && now.four_digit_year()
}

/// Whole seconds by the clock from the time that a text states to `now`.
pub open spec fn clock_seconds_since(text: Seq<char>, now: Timestamp) -> int {
    let t = rfc3339_value(text)->0;
    whole_seconds(now.total_nanos() - (Timestamp { seconds: t.0, nanos: t.1 }).total_nanos())
}

fn elapsed_since(text: &str, now: Timestamp) -> (r: Option<i64>)
    ensures
        r == seconds_since(text@, now),
        clock_tells(text@, now) ==> r is Some && r->0 == clock_seconds_since(text@, now),
{
    match parse_rfc3339(text) {
        Some(t) => elapsed_seconds(now, t),
        None => None,
    }
}

/// What is said of a job that has been running for `elapsed` seconds under a limit of
/// `limit` seconds.
pub open spec fn overrun(limit: nat, elapsed: i64) -> Option<Seq<char>> {
    if span_length(elapsed) > limit {
        Some("walltime of "@ + duration_text(limit) + " exceeded"@)
    } else {
        None
    }
}

/// What is said of a job that has been running for `elapsed` seconds; nothing while
/// it is within its walltime.
pub fn walltime_verdict(walltime: &WalltimeDuration, elapsed: i64) -> (r: Option<String>)
    ensures
        r.deep_view() == overrun(walltime.seconds as nat, elapsed),
{
    if span_exceeds(elapsed, walltime.seconds) {
        let mut message = "walltime of ".to_owned();
        message.append(walltime.to_string().as_str());
        message.append(" exceeded");
        Some(message)
    } else {
        None
    }
}

/// What is said at `now` of a job that has overrun its walltime; nothing while it is
/// within it, and nothing where walltime or start are not stated or make no sense.
pub open spec fn walltime_message(
    walltime: Option<Seq<char>>,
    start: Option<Seq<char>>,
    now: Timestamp,
) -> Option<Seq<char>> {
    match (walltime, start) {
        (Some(w), Some(s)) => match (walltime_seconds(w), seconds_since(s, now)) {
            (Some(limit), Some(elapsed)) => overrun(limit, elapsed),
            _ => None,
        },
        _ => None,
    }
}

/// Whether by the clock more seconds have passed at `now` since a job's start than its
/// walltime allows.
pub open spec fn overrun_by_clock(
    walltime: Option<Seq<char>>,
    start: Option<Seq<char>>,
    now: Timestamp,
) -> bool {
    walltime is Some && start is Some && walltime_seconds(walltime->0) is Some
        && clock_seconds_since(start->0, now) > walltime_seconds(walltime->0)->0
}

/// Checks at `now` whether a job's walltime has been exceeded.
pub fn check_walltime_at(
    walltime_str: Option<&str>,
    start_time_str: Option<&str>,
    now: Timestamp,
) -> (r: Option<String>)
    requires
        walltime_str is Some ==> walltime_fits(walltime_str->0@),
    ensures
        r.deep_view() == walltime_message(
            walltime_str.deep_view(),
            start_time_str.deep_view(),
            now,
        ),
        start_time_str is Some ==> clock_tells(start_time_str->0@, now) ==> (r is Some
            <==> overrun_by_clock(walltime_str.deep_view(), start_time_str.deep_view(), now)),
{
    let walltime = match walltime_str {
        Some(text) => match WalltimeDuration::parse(text) {
            Ok(walltime) => walltime,
            Err(_) => {
                return None;
            },
        },
        None => {
            return None;
        },
    };
    match start_time_str {
        Some(text) => match elapsed_since(text, now) {
            Some(elapsed) => walltime_verdict(&walltime, elapsed),
            None => None,
        },
        None => None,
    }
}

/// Checks whether a job's walltime has been exceeded by now: the message, where it
/// has. Without a walltime, without a start, or where one of them makes no sense, it
/// has not.
pub fn check_walltime_exceeded(
    walltime_str: Option<&str>,
    start_time_str: Option<&str>,
) -> (r: Option<String>)
    requires
        walltime_str is Some ==> walltime_fits(walltime_str->0@),
    ensures
        exists|now: Timestamp| #[trigger]
            walltime_message(walltime_str.deep_view(), start_time_str.deep_view(), now)
                == r.deep_view() && now.regular(),
        walltime_str is None || start_time_str is None ==> r is None,
        walltime_str is Some && walltime_seconds(walltime_str->0@) is None ==> r is None,
        start_time_str is Some && rfc3339_value(start_time_str->0@) is None ==> r is None,
{
    let now = utc_now();
    let r = check_walltime_at(walltime_str, start_time_str, now);
    proof {
        assert(walltime_message(walltime_str.deep_view(), start_time_str.deep_view(), now)
            == r.deep_view());
    }
    r
}

/// What states when a job ended: its completion, or else its start.
pub open spec fn ended(completion: Option<Seq<char>>, start: Option<Seq<char>>) -> Option<
    Seq<char>,
> {
    if completion is Some {
        completion
    } else {
        start
    }
}

/// Whether at `now` a job that ended at the time that `completion` states, or else
/// started at the time that `start` states, is to be cleared away.
pub open spec fn ttl_expired(
    completion: Option<Seq<char>>,
    start: Option<Seq<char>>,
    now: Timestamp,
) -> bool {
    let finished = ended(completion, start);
    finished is Some && seconds_since(finished->0, now) is Some && span_length(
        seconds_since(finished->0, now)->0,
    ) > POD_TTL_SECONDS
}

/// Whether pods that ended `elapsed` seconds ago are to be cleared away.
pub fn ttl_verdict(elapsed: i64) -> (r: bool)
    ensures
        r == (span_length(elapsed) > POD_TTL_SECONDS),
{
    span_exceeds(elapsed, POD_TTL_SECONDS)
}

/// Checks at `now` whether the pods of an ended job are to be cleared away.
pub fn should_cleanup_at(
    completion_time: Option<&str>,
    start_time: Option<&str>,
    now: Timestamp,
) -> (r: bool)
    ensures
        r == ttl_expired(completion_time.deep_view(), start_time.deep_view(), now),
        ended(completion_time.deep_view(), start_time.deep_view()) matches Some(text)
            ==> clock_tells(text, now) ==> r == (clock_seconds_since(text, now) > POD_TTL_SECONDS),
{
    let finished = match completion_time {
        Some(text) => Some(text),
        None => start_time,
    };
    match finished {
        Some(text) => match elapsed_since(text, now) {
            Some(elapsed) => ttl_verdict(elapsed),
            None => false,
        },
        None => false,
    }
}

/// Checks whether by now the pods of an ended job are to be cleared away. The time of
/// completion counts, or else that of the start; without either they are kept.
pub fn should_cleanup(completion_time: Option<&str>, start_time: Option<&str>) -> (r: bool)
    ensures
        exists|now: Timestamp| #[trigger]
            ttl_expired(completion_time.deep_view(), start_time.deep_view(), now) == r
                && now.regular(),
        completion_time is None && start_time is None ==> !r,
        ended(completion_time.deep_view(), start_time.deep_view()) matches Some(text)
            ==> rfc3339_value(text) is None ==> !r,
{
    let now = utc_now();
    let r = should_cleanup_at(completion_time, start_time, now);
    proof {
        assert(ttl_expired(completion_time.deep_view(), start_time.deep_view(), now) == r);
    }
    r
}

/// A job has overrun exactly when more seconds have passed since its start than its
/// walltime allows, so never before its start; its message names the walltime.
pub proof fn law_overrun_is_by_elapsed_time(limit: nat, elapsed: i64)
    ensures
        overrun(limit, elapsed) is Some <==> elapsed > limit,
        overrun(limit, elapsed) is Some ==> overrun(limit, elapsed)->0 == "walltime of "@
            + duration_text(limit) + " exceeded"@,
{
}

} // verus!
