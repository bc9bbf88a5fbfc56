//! Walltime limits: the texts that state them and the durations they denote.

use vstd::prelude::*;
use vstd::string::*;
use crate::model::error::{BuboError, ErrorView};
use crate::text::{
    all_digits, bounded_value, chars_of, dec, decimal, digits_value, is_digit, lemma_dec,
    parse_bounded, trim, trimmed,
};

verus! {

/// Length of the run of digits that `s` begins with.
pub open spec fn digit_run(s: Seq<char>) -> nat
    decreases s.len(),
{
    if s.len() > 0 && is_digit(s[0]) {
        1 + digit_run(s.drop_first())
    } else {
        0
    }
}

/// Seconds in one unit: days, hours, minutes, seconds.
pub open spec fn unit_seconds(c: char) -> Option<nat> {
    if c == 'd' {
        Some(86400)
    } else if c == 'h' {
        Some(3600)
    } else if c == 'm' {
        Some(60)
    } else if c == 's' {
        Some(1)
    } else {
        None
    }
}

/// Sum of a sequence of numbers, each followed by its unit (`2h30m`). Nothing
/// where a number is missing or exceeds 64 bits, where a unit is unknown, or where
/// the text ends in a number.
pub open spec fn unit_sum(s: Seq<char>) -> Option<nat>
    decreases s.len(),
{
    if s.len() == 0 {
        Some(0)
    } else {
        let k = digit_run(s) as int;
        if k == 0 || k >= s.len() {
            None
        } else {
            let count = digits_value(s.take(k));
            match (unit_seconds(s[k]), unit_sum(s.skip(k + 1))) {
                (Some(unit), Some(rest)) => if count <= u64::MAX {
                    Some(count * unit + rest)
                } else {
                    None
                },
                _ => None,
            }
        }
    }
}

/// Seconds that a walltime text denotes: after trimming, a plain number of
/// seconds, or else a sum of numbers with units that is not zero.
pub open spec fn walltime_seconds(input: Seq<char>) -> Option<nat> {
    let s = trimmed(input);
    match bounded_value(s, u64::MAX as nat) {
        Some(n) => Some(n),
        None => match unit_sum(s) {
            Some(n) => if s.len() > 0 && n > 0 {
                Some(n)
            } else {
                None
            },
            None => None,
        },
    }
}

/// Whether the seconds that a walltime text denotes fit in 64 bits.
pub open spec fn walltime_fits(input: Seq<char>) -> bool {
    walltime_seconds(input) is Some ==> walltime_seconds(input)->0 <= u64::MAX
}

/// Notation of a duration: its two or three largest units, or its only one.
pub open spec fn duration_text(s: nat) -> Seq<char> {
    if s >= 86400 {
        dec(s / 86400) + "d"@ + dec((s % 86400) / 3600) + "h"@ + dec((s % 3600) / 60) + "m"@
    } else if s >= 3600 {
        dec(s / 3600) + "h"@ + dec((s % 3600) / 60) + "m"@
    } else if s >= 60 {
        dec(s / 60) + "m"@
    } else {
        dec(s) + "s"@
    }
}

/// Parsed walltime duration.
#[derive(Clone, Copy, Debug, PartialEq, Eq, Structural)]
pub struct WalltimeDuration {
    pub seconds: u64,
}

/// What `std::time::Duration::from_secs` gives for a number of seconds.
pub uninterp spec fn duration_of_seconds(seconds: u64) -> std::time::Duration;

/// `std::time::Duration::from_secs`: the same seconds give the same duration.
#[verifier::external_body]
fn duration_from_secs(seconds: u64) -> (r: std::time::Duration)
    ensures
        r == duration_of_seconds(seconds),
{
    std::time::Duration::from_secs(seconds)
}

/// Where digits end is where the run of digits ends.
pub proof fn lemma_digit_run_is(s: Seq<char>, k: int)
    requires
        0 <= k <= s.len(),
        all_digits(s.take(k)),
        k < s.len() ==> !is_digit(s[k]),
    ensures
        digit_run(s) == k,
    decreases s.len(),
{
    if k > 0 {
        assert(is_digit(s.take(k)[0]));
        let t = s.drop_first();
        assert forall|i: int| 0 <= i < k - 1 implies is_digit(#[trigger] t.take(k - 1)[i]) by {
            assert(s.take(k)[i + 1] == t[i]);
        }
        lemma_digit_run_is(t, k - 1);
    }
}

/// The sum of a text in units, if it denotes one: its value where that fits in 64
/// bits.
fn sum_units(s: &str) -> (r: Option<Option<u64>>)
    ensures
        match r {
            Some(Some(n)) => unit_sum(s@) == Some(n as nat),
            Some(None) => unit_sum(s@) is Some && unit_sum(s@)->0 > u64::MAX,
            None => unit_sum(s@) is None,
        },
{
    let v = chars_of(s);
    let n = v.len();
    let mut total: Option<u64> = Some(0);
    let ghost mut exact: nat = 0;
    let mut start: usize = 0;
    proof {
        assert(s@.skip(0) =~= s@);
    }
    while start < n
        invariant
            start <= n,
            n == v.len(),
            v@ == s@,
            total == (if exact <= u64::MAX {
                Some(exact as u64)
            } else {
                None
            }),
            match unit_sum(s@.skip(start as int)) {
                Some(rest) => unit_sum(s@) == Some(exact + rest),
                None => unit_sum(s@) is None,
            },
        decreases n - start,
    {
        let ghost tail = s@.skip(start as int);
        let mut end: usize = start;
        while end < n && '0' <= v[end] && v[end] <= '9'
            invariant
                start <= end <= n,
                n == v.len(),
                v@ == s@,
                tail == s@.skip(start as int),
                all_digits(tail.take(end - start)),
            decreases n - end,
        {
            proof {
                assert forall|i: int| 0 <= i < end - start + 1 implies is_digit(
                    #[trigger] tail.take(end - start + 1)[i],
                ) by {
                    if i < end - start {
                        assert(tail.take(end - start)[i] == tail[i]);
                    }
                }
            }
            end += 1;
        }
        let ghost k = end - start;
        proof {
            if end < n {
                assert(tail[k] == v[end as int]);
            }
            lemma_digit_run_is(tail, k);
        }
        if end == start || end == n {
            return None;
        }
        let number = s.substring_char(start, end);
        proof {
            assert(number@ =~= tail.take(k));
            assert(is_digit(tail.take(k)[0]));
        }
        let count = match parse_bounded(number, u64::MAX) {
            Some(count) => count,
            None => {
                return None;
            },
        };
        let unit: u64 = match v[end] {
            'd' => 86400,
            'h' => 3600,
            'm' => 60,
            's' => 1,
            _ => {
                return None;
            },
        };
        proof {
            assert(tail.skip(k + 1) =~= s@.skip(end + 1));
            assert(unit_seconds(tail[k]) == Some(unit as nat));
            exact = exact + count as nat * unit as nat;
        }
        total = match (total, count.checked_mul(unit)) {
            (Some(sum), Some(part)) => sum.checked_add(part),
            _ => None,
        };
        start = end + 1;
    }
    proof {
        assert(s@.skip(n as int) =~= Seq::<char>::empty());
    }
    Some(total)
}

impl WalltimeDuration {
    /// Whether the seconds that `input` denotes fit in 64 bits, so that it can be
    /// handed to [`WalltimeDuration::parse`].
    pub fn fits(input: &str) -> (r: bool)
        ensures
            r == walltime_fits(input@),
    {
        let s = trim(input);
        if parse_bounded(s, u64::MAX).is_some() || s.is_empty() {
            return true;
        }
        match sum_units(s) {
            Some(None) => false,
            _ => true,
        }
    }

    /// Parse a walltime text like "4h", "30m", "1d", "2h30m", "3600" (seconds).
    pub fn parse(input: &str) -> (r: Result<Self, BuboError>)
        requires
            walltime_fits(input@),
        ensures
            match r {
                Ok(w) => walltime_seconds(input@) == Some(w.seconds as nat),
                Err(e) => walltime_seconds(input@) is None && e@ == (ErrorView::InvalidWalltime {
                    input: trimmed(input@),
                }),
            },
    {
        let s = trim(input);
        if s.is_empty() {
            return Err(BuboError::InvalidWalltime { input: s.to_owned() });
        }
        match parse_bounded(s, u64::MAX) {
            Some(seconds) => {
                return Ok(WalltimeDuration { seconds });
            },
            None => {},
        }
        match sum_units(s) {
            Some(Some(seconds)) => if seconds == 0 {
                Err(BuboError::InvalidWalltime { input: s.to_owned() })
            } else {
                Ok(WalltimeDuration { seconds })
            },
            _ => Err(BuboError::InvalidWalltime { input: s.to_owned() }),
        }
    }

    /// The same span as a standard duration.
    pub fn as_duration(&self) -> (r: std::time::Duration)
        ensures
            r == duration_of_seconds(self.seconds),
    {
        duration_from_secs(self.seconds)
    }

    /// Notation in days, hours and minutes, or seconds below a minute.
    pub fn to_string(&self) -> (r: String)
        ensures
            r@ == duration_text(self.seconds as nat),
    {
        let s = self.seconds;
        if s >= 86400 {
            let mut r = decimal(s / 86400);
            r.append("d");
            r.append(decimal((s % 86400) / 3600).as_str());
            r.append("h");
            r.append(decimal((s % 3600) / 60).as_str());
            r.append("m");
            r
        } else if s >= 3600 {
            let mut r = decimal(s / 3600);
            r.append("h");
            r.append(decimal((s % 3600) / 60).as_str());
            r.append("m");
            r
        } else if s >= 60 {
            let mut r = decimal(s / 60);
            r.append("m");
            r
        } else {
            let mut r = decimal(s);
            r.append("s");
            r
        }
    }
}

/// A number with its unit adds to the sum of what follows it.
pub proof fn lemma_unit_part(n: nat, c: char, rest: Seq<char>)
    requires
        n <= u64::MAX,
        unit_seconds(c) is Some,
        unit_sum(rest) is Some,
    ensures
        unit_sum(dec(n) + seq![c] + rest) == Some(n * unit_seconds(c)->0 + unit_sum(rest)->0),
{
    let s = dec(n) + seq![c] + rest;
    let k = dec(n).len() as int;
    lemma_dec(n);
    assert(s.take(k) =~= dec(n));
    assert(s[k] == c);
    lemma_digit_run_is(s, k);
    assert(s.skip(k + 1) =~= rest);
}

/// A text that begins with a digit and ends with a unit has no white space to trim, and
/// is no plain number.
pub proof fn lemma_in_units(s: Seq<char>)
    requires
        s.len() > 0,
        is_digit(s[0]),
        unit_seconds(s.last()) is Some,
    ensures
        trimmed(s) == s,
        bounded_value(s, u64::MAX as nat) is None,
{
    assert(!is_digit(s[s.len() - 1]));
}

proof fn lemma_unit_texts()
    ensures
        "d"@ == seq!['d'],
        "h"@ == seq!['h'],
        "m"@ == seq!['m'],
        "s"@ == seq!['s'],
{
    reveal_strlit("d");
    reveal_strlit("h");
    reveal_strlit("m");
    reveal_strlit("s");
    assert("d"@ =~= seq!['d'] && "h"@ =~= seq!['h'] && "m"@ =~= seq!['m'] && "s"@ =~= seq!['s']);
}

/// A single number with its unit.
proof fn lemma_one_part(n: nat, c: char)
    requires
        n <= u64::MAX,
        unit_seconds(c) is Some,
    ensures
        unit_sum(dec(n) + seq![c]) == Some(n * unit_seconds(c)->0),
        (dec(n) + seq![c]).last() == c,
        is_digit((dec(n) + seq![c])[0]),
{
    let none = Seq::<char>::empty();
    let text = dec(n) + seq![c];
    assert(unit_sum(none) == Some(0nat));
    lemma_unit_part(n, c, none);
    assert(text + none =~= text);
    lemma_dec(n);
    assert(text[0] == dec(n)[0]);
}

proof fn lemma_hours_text(hours: nat, minutes: nat)
    requires
        hours <= u64::MAX,
        minutes < 60,
    ensures
        ({
            let text = dec(hours) + seq!['h'] + (dec(minutes) + seq!['m']);
            &&& unit_sum(text) == Some(hours * 3600 + minutes * 60)
            &&& text.last() == 'm'
            &&& is_digit(text[0])
        }),
{
    let last = dec(minutes) + seq!['m'];
    lemma_one_part(minutes, 'm');
    lemma_unit_part(hours, 'h', last);
    lemma_dec(hours);
    let text = dec(hours) + seq!['h'] + last;
    assert(text[0] == dec(hours)[0]);
    assert(text.last() == last.last());
}

proof fn lemma_days_text(days: nat, hours: nat, minutes: nat)
    requires
        days <= u64::MAX,
        hours < 24,
        minutes < 60,
    ensures
        ({
            let text = dec(days) + seq!['d'] + (dec(hours) + seq!['h'] + (dec(minutes) + seq![
                'm',
            ]));
            &&& unit_sum(text) == Some(days * 86400 + (hours * 3600 + minutes * 60))
            &&& text.last() == 'm'
            &&& is_digit(text[0])
        }),
{
    let tail = dec(hours) + seq!['h'] + (dec(minutes) + seq!['m']);
    lemma_hours_text(hours, minutes);
    lemma_unit_part(days, 'd', tail);
    lemma_dec(days);
    let text = dec(days) + seq!['d'] + tail;
    assert(text[0] == dec(days)[0]);
    assert(text.last() == tail.last());
}

proof fn lemma_split_seconds(n: nat)
    ensures
        (n / 86400) * 86400 + (((n % 86400) / 3600) * 3600 + ((n % 3600) / 60) * 60) == n - n % 60,
        n < 86400 ==> (n / 3600) * 3600 + ((n % 3600) / 60) * 60 == n - n % 60,
        (n / 60) * 60 == n - n % 60,
        (n % 86400) / 3600 < 24,
        (n % 3600) / 60 < 60,
        n >= 60 ==> n - n % 60 > 0,
{
}

proof fn lemma_units_are_walltime(text: Seq<char>, n: nat)
    requires
        text.len() > 0,
        is_digit(text[0]),
        unit_seconds(text.last()) is Some,
        unit_sum(text) == Some(n),
        n > 0,
    ensures
        walltime_seconds(text) == Some(n),
{
    lemma_in_units(text);
}

/// The notation of a duration is read back as the duration, in whole minutes from a
/// minute on.
pub proof fn law_duration_text_is_read_back(seconds: u64)
    requires
        seconds > 0,
    ensures
        walltime_seconds(duration_text(seconds as nat)) == Some(
            if seconds < 60 {
                seconds as nat
            } else {
                (seconds - seconds % 60) as nat
            },
        ),
{
    lemma_unit_texts();
    let n = seconds as nat;
    let text = duration_text(n);
    let minutes = (n % 3600) / 60;
    lemma_split_seconds(n);
    if n >= 86400 {
        let days = n / 86400;
        let hours = (n % 86400) / 3600;
        let parts = dec(days) + seq!['d'] + (dec(hours) + seq!['h'] + (dec(minutes) + seq!['m']));
        lemma_days_text(days, hours, minutes);
        assert(text =~= parts);
        lemma_units_are_walltime(parts, (n - n % 60) as nat);
    } else if n >= 3600 {
        let hours = n / 3600;
        let parts = dec(hours) + seq!['h'] + (dec(minutes) + seq!['m']);
        lemma_hours_text(hours, minutes);
        assert(text =~= parts);
        lemma_units_are_walltime(parts, (n - n % 60) as nat);
    } else if n >= 60 {
        lemma_one_part(n / 60, 'm');
        assert(unit_seconds('m') == Some(60nat));
        lemma_units_are_walltime(text, (n - n % 60) as nat);
    } else {
        lemma_one_part(n, 's');
        assert(unit_seconds('s') == Some(1nat));
        assert(n * 1 == n);
        assert(unit_sum(dec(n) + seq!['s']) == Some(n * 1));
        lemma_units_are_walltime(text, n);
    }
}

} // verus!
