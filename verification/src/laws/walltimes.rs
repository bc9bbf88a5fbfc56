//! Walltimes: how they are read and written, and when a job has used up its own.

use vstd::prelude::*;
use crate::controller::walltime::{
    check_walltime_at, check_walltime_exceeded, clock_tells, should_cleanup, should_cleanup_at,
    span_exceeds, ttl_verdict, walltime_verdict,
};
use crate::laws::texts::lemma_read_back;
use crate::model::error::BuboError;
use crate::model::time::Timestamp;
use crate::model::walltime::{
    law_duration_text_is_read_back, lemma_in_units, lemma_unit_part, unit_seconds, unit_sum,
    WalltimeDuration,
};
use crate::text::{dec, is_digit, is_white_space, lemma_dec, trimmed, trimmed_start};
use crate::wren::crd::WrenJobStatus;
use crate::wren::reconciler::should_cleanup_pods;

verus! {

/// Seconds in a number of days, hours, minutes or seconds.
pub open spec fn seconds_of(n: nat, unit: char) -> nat {
    if unit == 'd' {
        n * 24 * 60 * 60
    } else if unit == 'h' {
        n * 60 * 60
    } else if unit == 'm' {
        n * 60
    } else {
        n
    }
}

/// Whether `unit` stands for days, hours, minutes or seconds.
pub open spec fn is_unit(unit: char) -> bool {
    unit == 'd' || unit == 'h' || unit == 'm' || unit == 's'
}

/// A walltime is read as it is meant: a plain number in seconds, a number with a unit in
/// days, hours, minutes or seconds, and two of these together as their sum. Nothing that
/// sums up to no time at all is a walltime, nor a text without anything.
pub proof fn law_walltimes_are_read_in_units(
    input: &str,
    n: u64,
    unit: char,
    k: u64,
    smaller: char,
    r: Result<WalltimeDuration, BuboError>,
)
    requires
        call_ensures(WalltimeDuration::parse, (input,), r),
        is_unit(unit),
        is_unit(smaller),
    ensures
        input@ == dec(n as nat) ==> r is Ok && r->Ok_0.seconds == n,
        input@ == dec(n as nat) + seq![unit] && n > 0 ==> r is Ok && r->Ok_0.seconds == seconds_of(
            n as nat,
            unit,
        ),
        input@ == dec(n as nat) + seq![unit] && n == 0 ==> r is Err,
        input@ == dec(n as nat) + seq![unit] + dec(k as nat) + seq![smaller] && n + k > 0 ==> r is Ok
            && r->Ok_0.seconds == seconds_of(n as nat, unit) + seconds_of(k as nat, smaller),
        input@.len() == 0 ==> r is Err,
        r is Err ==> r->Err_0 is InvalidWalltime,
        input@ == dec(n as nat) + seq![unit] && r is Err ==> (r->Err_0->InvalidWalltime_input)@
            == input@,
{
    let none = Seq::<char>::empty();
    lemma_read_back(n as nat, u64::MAX as nat);
    lemma_read_back(k as nat, u64::MAX as nat);
    assert(unit_sum(none) == Some(0nat));
    lemma_seconds_of(n as nat, unit);
    lemma_seconds_of(k as nat, smaller);
    lemma_unit_part(n as nat, unit, none);
    lemma_unit_part(k as nat, smaller, none);
    let first = dec(n as nat) + seq![unit];
    let second = dec(k as nat) + seq![smaller];
    assert(first + none =~= first);
    assert(second + none =~= second);
    lemma_unit_part(n as nat, unit, second);
    let both = dec(n as nat) + seq![unit] + dec(k as nat) + seq![smaller];
    assert(both =~= dec(n as nat) + seq![unit] + second);
    assert(first[0] == dec(n as nat)[0]);
    assert(both[0] == dec(n as nat)[0]);
    assert(is_digit(dec(n as nat)[0]));
    lemma_in_units(first);
    lemma_in_units(both);
    lemma_plain_number(n as nat);
    if input@.len() == 0 {
        assert(trimmed(input@) == input@);
    }
}

proof fn lemma_seconds_of(n: nat, c: char)
    requires
        is_unit(c),
    ensures
        n * unit_seconds(c)->0 == seconds_of(n, c),
        n > 0 ==> seconds_of(n, c) > 0,
{
    let unit = unit_seconds(c)->0;
    if c == 'd' {
        assert(n * unit == n * 86400) by (nonlinear_arith)
            requires
                unit == 86400,
        ;
    } else if c == 'h' {
        assert(n * unit == n * 3600) by (nonlinear_arith)
            requires
                unit == 3600,
        ;
    } else if c == 'm' {
        assert(n * unit == n * 60) by (nonlinear_arith)
            requires
                unit == 60,
        ;
    } else {
        assert(n * unit == n) by (nonlinear_arith)
            requires
                unit == 1,
        ;
    }
}

proof fn lemma_plain_number(n: nat)
    ensures
        trimmed(dec(n)) == dec(n),
{
    lemma_dec(n);
    let s = dec(n);
    assert(is_digit(s[0]));
    assert(is_digit(s[s.len() - 1]));
}

/// A text with a character at its end that is neither a digit nor a unit is no walltime.
pub proof fn law_unknown_units_are_refused(
    input: &str,
    n: u64,
    c: char,
    r: Result<WalltimeDuration, BuboError>,
)
    requires
        call_ensures(WalltimeDuration::parse, (input,), r),
        !is_unit(c),
        !('0' <= c <= '9'),
        !is_white_space(c),
        input@ == dec(n as nat) + seq![c],
    ensures
        r is Err,
{
    let s = input@;
    let k = dec(n as nat).len() as int;
    lemma_dec(n as nat);
    assert(is_digit(s[0])) by {
        assert(s[0] == dec(n as nat)[0]);
        assert(is_digit(dec(n as nat)[0]));
    }
    assert(s.last() == c);
    assert(trimmed(s) == s);
    assert(s.take(k) =~= dec(n as nat));
    crate::model::walltime::lemma_digit_run_is(s, k);
    assert(unit_seconds(s[k]) is None);
    assert(unit_sum(s) is None);
    assert(!is_digit(s[s.len() - 1]));
}

/// White space around a walltime does not matter.
pub proof fn law_spaces_do_not_matter(
    input: &str,
    spaced: &str,
    r: Result<WalltimeDuration, BuboError>,
    s: Result<WalltimeDuration, BuboError>,
)
    requires
        call_ensures(WalltimeDuration::parse, (input,), r),
        call_ensures(WalltimeDuration::parse, (spaced,), s),
        spaced@ == seq![' '] + input@,
    ensures
        r is Ok <==> s is Ok,
        r is Ok ==> r->Ok_0.seconds == s->Ok_0.seconds,
{
    assert(spaced@.drop_first() =~= input@);
    assert(is_white_space(spaced@[0]));
    assert(trimmed_start(spaced@) == trimmed_start(input@));
}

/// What is written for a duration is read back as the duration, in whole minutes from a
/// minute on.
pub proof fn law_written_durations_are_read_back(
    duration: &WalltimeDuration,
    text: String,
    input: &str,
    r: Result<WalltimeDuration, BuboError>,
)
    requires
        duration.seconds > 0,
        call_ensures(WalltimeDuration::to_string, (duration,), text),
        input@ == text@,
        call_ensures(WalltimeDuration::parse, (input,), r),
    ensures
        r is Ok,
        duration.seconds < 60 ==> r->Ok_0.seconds == duration.seconds,
        duration.seconds >= 60 ==> r->Ok_0.seconds <= duration.seconds && duration.seconds
            - r->Ok_0.seconds < 60 && r->Ok_0.seconds as int % 60 == 0,
{
    law_duration_text_is_read_back(duration.seconds);
}

/// A job is over its walltime exactly when it has been running for more seconds than the
/// walltime has, and it is never before its start. What ended is cleared away after a day,
/// and not before.
pub proof fn law_limits_are_in_seconds(
    limit: &WalltimeDuration,
    elapsed: i64,
    bound: u64,
    verdict: Option<String>,
    clear: bool,
    exceeds: bool,
)
    requires
        call_ensures(walltime_verdict, (limit, elapsed), verdict),
        call_ensures(ttl_verdict, (elapsed,), clear),
        call_ensures(span_exceeds, (elapsed, bound), exceeds),
    ensures
        verdict is Some <==> elapsed > limit.seconds,
        clear <==> elapsed > 24 * 60 * 60,
        exceeds <==> elapsed > bound,
{
}

/// By the clock, a job has overrun its walltime exactly when more time has passed since it
/// started than its walltime, read as a walltime, allows. A job that states no walltime, or
/// one that makes no sense, or no start, never has.
pub proof fn law_jobs_overrun_by_the_clock(
    walltime: &str,
    start: &str,
    now: Timestamp,
    limit: Result<WalltimeDuration, BuboError>,
    r: Option<String>,
    without_walltime: Option<String>,
    without_start: Option<String>,
    then: Timestamp,
)
    requires
        call_ensures(WalltimeDuration::parse, (walltime,), limit),
        call_ensures(check_walltime_at, (Some(walltime), Some(start), now), r),
        call_ensures(check_walltime_at, (None, Some(start), now), without_walltime),
        call_ensures(check_walltime_at, (Some(walltime), None, now), without_start),
        then.is_read_from(start@),
        then.nanos < 1_000_000_000,
        now.nanos < 1_000_000_000,
        0 <= then.seconds <= 253_402_300_799,
        0 <= now.seconds <= 253_402_300_799,
    ensures
        without_walltime is None,
        without_start is None,
        limit is Err ==> r is None,
        limit is Ok ==> (r is Some <==> (now.seconds - then.seconds) * 1_000_000_000 + now.nanos
            - then.nanos >= (limit->Ok_0.seconds + 1) * 1_000_000_000),
{
    assert(clock_tells(start@, now));
    let span = (now.seconds - then.seconds) * 1_000_000_000 + now.nanos - then.nanos;
    assert(now.total_nanos() - then.total_nanos() == span);
    assert(then == Timestamp { seconds: then.seconds, nanos: then.nanos });
}

/// By the clock, what a job left is cleared away exactly when more than a day has passed
/// since it ended, or since it started where it is not known when it ended; never where
/// neither is known.
pub proof fn law_leftovers_are_cleared_after_a_day(
    ended: &str,
    started: Option<&str>,
    now: Timestamp,
    then: Timestamp,
    by_end: bool,
    by_start: bool,
    by_neither: bool,
)
    requires
        call_ensures(should_cleanup_at, (Some(ended), started, now), by_end),
        call_ensures(should_cleanup_at, (None, Some(ended), now), by_start),
        call_ensures(should_cleanup_at, (None, None, now), by_neither),
        then.is_read_from(ended@),
        then.nanos < 1_000_000_000,
        now.nanos < 1_000_000_000,
        0 <= then.seconds <= 253_402_300_799,
        0 <= now.seconds <= 253_402_300_799,
    ensures
        by_end <==> (now.seconds - then.seconds) * 1_000_000_000 + now.nanos - then.nanos >= 86_401
            * 1_000_000_000,
        by_start == by_end,
        !by_neither,
{
    assert(clock_tells(ended@, now));
    let span = (now.seconds - then.seconds) * 1_000_000_000 + now.nanos - then.nanos;
    assert(now.total_nanos() - then.total_nanos() == span);
    assert(then == Timestamp { seconds: then.seconds, nanos: then.nanos });
}

/// A walltime can be read whenever its seconds can be counted: a plain number always, and one
/// with a unit as far as its seconds go.
pub proof fn law_countable_walltimes_can_be_read(input: &str, n: u64, unit: char, r: bool)
    requires
        call_ensures(WalltimeDuration::fits, (input,), r),
        is_unit(unit),
    ensures
        input@ == dec(n as nat) ==> r,
        input@ == dec(n as nat) + seq![unit] ==> (r <==> seconds_of(n as nat, unit) <= u64::MAX),
        input@.len() == 0 ==> r,
{
    let none = Seq::<char>::empty();
    lemma_read_back(n as nat, u64::MAX as nat);
    lemma_seconds_of(n as nat, unit);
    lemma_unit_part(n as nat, unit, none);
    let first = dec(n as nat) + seq![unit];
    assert(first + none =~= first);
    assert(first[0] == dec(n as nat)[0]);
    assert(is_digit(dec(n as nat)[0]));
    lemma_in_units(first);
    lemma_plain_number(n as nat);
    if input@.len() == 0 {
        assert(trimmed(input@) == input@);
    }
}

/// By now means at some point in time: a check by the present clock says what the check at
/// that point says, and nothing where walltime or start are missing.
pub proof fn law_present_checks_are_checks_at_a_time(
    walltime: Option<&str>,
    start: Option<&str>,
    completion: Option<&str>,
    overrun: Option<String>,
    clear: bool,
)
    requires
        call_ensures(check_walltime_exceeded, (walltime, start), overrun),
        call_ensures(should_cleanup, (completion, start), clear),
    ensures
        walltime is None || start is None ==> overrun is None,
        completion is None && start is None ==> !clear,
        exists|now: Timestamp| #[trigger] says_at(walltime, start, now, overrun),
        exists|now: Timestamp| #[trigger] clears_at(completion, start, now, clear),
{
    let now = choose|now: Timestamp| #[trigger]
        crate::controller::walltime::walltime_message(walltime.deep_view(), start.deep_view(), now)
            == overrun.deep_view() && now.regular();
    assert(says_at(walltime, start, now, overrun));
    let then = choose|now: Timestamp| #[trigger]
        crate::controller::walltime::ttl_expired(completion.deep_view(), start.deep_view(), now)
            == clear && now.regular();
    assert(clears_at(completion, start, then, clear));
}

/// Whether a check of a walltime at `now` says `r`.
pub open spec fn says_at(
    walltime: Option<&str>,
    start: Option<&str>,
    now: Timestamp,
    r: Option<String>,
) -> bool {
    forall|x: Option<String>|
        call_ensures(check_walltime_at, (walltime, start, now), x) ==> #[trigger] x.deep_view()
            == r.deep_view()
}

/// Whether a check at `now` says that it is time to clear away, or that it is not.
pub open spec fn clears_at(
    completion: Option<&str>,
    start: Option<&str>,
    now: Timestamp,
    r: bool,
) -> bool {
    forall|x: bool| #[trigger]
        call_ensures(should_cleanup_at, (completion, start, now), x) ==> x == r
}

/// A duration is written in its largest units: seconds alone, minutes alone, hours and minutes,
/// or days, hours and minutes.
pub proof fn law_durations_are_written_in_units(
    duration: &WalltimeDuration,
    days: nat,
    hours: nat,
    minutes: nat,
    seconds: nat,
    r: String,
)
    requires
        call_ensures(WalltimeDuration::to_string, (duration,), r),
        duration.seconds == days * 86400 + hours * 3600 + minutes * 60 + seconds,
        hours < 24,
        minutes < 60,
        seconds < 60,
    ensures
        days > 0 ==> r@ == dec(days) + "d"@ + dec(hours) + "h"@ + dec(minutes) + "m"@,
        days == 0 && hours > 0 ==> r@ == dec(hours) + "h"@ + dec(minutes) + "m"@,
        days == 0 && hours == 0 && minutes > 0 ==> r@ == dec(minutes) + "m"@,
        days == 0 && hours == 0 && minutes == 0 ==> r@ == dec(seconds) + "s"@,
{
    let n = duration.seconds as nat;
    assert(n / 86400 == days);
    assert(n % 86400 == hours * 3600 + minutes * 60 + seconds);
    assert((n % 86400) / 3600 == hours);
    assert(n % 3600 == minutes * 60 + seconds);
    assert((n % 3600) / 60 == minutes);
}

/// Whether the pods of a job are to be removed by now rests on the same times as at any point.
pub proof fn law_present_removal_is_by_status(
    status: &WrenJobStatus,
    completion: Option<&str>,
    start: Option<&str>,
    r: bool,
)
    requires
        call_ensures(should_cleanup_pods, (status,), r),
        completion.deep_view() == status.completion_time.deep_view(),
        start.deep_view() == status.start_time.deep_view(),
    ensures
        status.completion_time is None && status.start_time is None ==> !r,
        exists|now: Timestamp| #[trigger] clears_at(completion, start, now, r),
{
    let then = choose|now: Timestamp| #[trigger]
        crate::controller::walltime::ttl_expired(
            status.completion_time.deep_view(),
            status.start_time.deep_view(),
            now,
        ) == r && now.regular();
    assert(clears_at(completion, start, then, r));
}

} // verus!
