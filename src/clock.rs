//! Zoned timestamps as plain integers, the booking-window offset, and the
//! two facts that only the system clock and time zone database can supply.
use vstd::arithmetic::div_mod::{lemma_fundamental_div_mod, lemma_fundamental_div_mod_converse};
use crate::text::{decimal, push_decimal};
use vstd::prelude::*;

verus! {

pub const MILLIS_PER_SECOND: i64 = 1000;

pub const MILLIS_PER_MINUTE: i64 = 60_000;

pub const MILLIS_PER_HOUR: i64 = 3_600_000;

pub const MILLIS_PER_DAY: i64 = 86_400_000;

/// How long before a class starts its booking opens: seven days and two hours.
pub const BOOKING_WINDOW_MILLIS: i64 = 7 * 86_400_000 + 2 * 3_600_000;

/// Bound on the distance from the epoch of every timestamp. chrono's dates run
/// from about year -262143 to +262142, that is from about -8.335e15 ms to
/// +8.21e15 ms, so every instant chrono can hold lies within it.
pub const MAX_ABS_MILLIS: i64 = 8_400_000_000_000_000;

/// A UTC offset is strictly less than one day in magnitude.
pub const SECONDS_PER_DAY: i32 = 86_400;

/// Whole days added before dividing, so that the dividend is never negative.
/// A multiple of seven, so that weekdays are unaffected.
const SHIFT_DAYS: i64 = 105_000_000;

const SHIFT_MILLIS: i64 = 105_000_000 * 86_400_000;

/// Days of the week, Monday first.
#[derive(Clone, Copy, Debug, PartialEq, Eq, Structural)]
pub enum Weekday {
    Mon,
    Tue,
    Wed,
    Thu,
    Fri,
    Sat,
    Sun,
}

/// The weekday with the given number, Monday being 0.
pub open spec fn weekday_from_index(i: int) -> Weekday {
    if i == 0 {
        Weekday::Mon
    } else if i == 1 {
        Weekday::Tue
    } else if i == 2 {
        Weekday::Wed
    } else if i == 3 {
        Weekday::Thu
    } else if i == 4 {
        Weekday::Fri
    } else if i == 5 {
        Weekday::Sat
    } else {
        Weekday::Sun
    }
}

/// An instant, in milliseconds since 1970-01-01T00:00:00Z, together with the
/// local UTC offset that was in force at it: what a zoned local timestamp holds.
#[derive(Clone, Copy, Debug, PartialEq, Eq, Structural)]
pub struct LocalDateTime {
    pub utc_millis: i64,
    pub offset_seconds: i32,
}

impl LocalDateTime {
    pub open spec fn wf(self) -> bool {
        &&& -MAX_ABS_MILLIS <= self.utc_millis <= MAX_ABS_MILLIS
        &&& -SECONDS_PER_DAY < self.offset_seconds < SECONDS_PER_DAY
    }

    /// Whether `wf` holds.
    pub fn is_wf(&self) -> (r: bool)
        ensures
            r == self.wf(),
    {
        -MAX_ABS_MILLIS <= self.utc_millis && self.utc_millis <= MAX_ABS_MILLIS && -SECONDS_PER_DAY
            < self.offset_seconds && self.offset_seconds < SECONDS_PER_DAY
    }

    /// Milliseconds since 1970-01-01T00:00:00 read on the local wall clock.
    pub open spec fn local_millis(self) -> int {
        self.utc_millis + self.offset_seconds * 1000
    }

    /// The local calendar date, as a day number (1970-01-01 is day 0).
    pub open spec fn calendar_day(self) -> int {
        self.local_millis() / (MILLIS_PER_DAY as int)
    }

    /// Milliseconds since local midnight.
    pub open spec fn millis_of_day(self) -> int {
        self.local_millis() % (MILLIS_PER_DAY as int)
    }

    /// Minutes since local midnight, the seconds dropped.
    pub open spec fn wall_minute(self) -> int {
        self.millis_of_day() / (MILLIS_PER_MINUTE as int)
    }

    /// The local weekday; 1970-01-01 was a Thursday.
    pub open spec fn day_of_week(self) -> Weekday {
        weekday_from_index((self.calendar_day() + 3) % 7)
    }

    /// The local wall-clock time plus a shift of whole weeks, never negative.
    fn shifted_local_millis(&self) -> (r: u64)
        requires
            self.wf(),
        ensures
            r as int == self.local_millis() + SHIFT_MILLIS,
    {
        (self.utc_millis + (self.offset_seconds as i64) * MILLIS_PER_SECOND + SHIFT_MILLIS) as u64
    }

    /// The local calendar date as a day number.
    pub fn local_day(&self) -> (r: i64)
        requires
            self.wf(),
        ensures
            r == self.calendar_day(),
    {
        let shifted = self.shifted_local_millis();
        let days = shifted / (MILLIS_PER_DAY as u64);
        proof {
            let x = self.local_millis();
            let d = MILLIS_PER_DAY as int;
            lemma_fundamental_div_mod(x, d);
            lemma_fundamental_div_mod_converse(x + SHIFT_MILLIS, d, x / d + SHIFT_DAYS, x % d);
        }
        days as i64 - SHIFT_DAYS
    }

    /// Minutes since local midnight.
    pub fn minute_of_day(&self) -> (r: u32)
        requires
            self.wf(),
        ensures
            r == self.wall_minute(),
            r < 1440,
    {
        let shifted = self.shifted_local_millis();
        let in_day = shifted % (MILLIS_PER_DAY as u64);
        proof {
            let x = self.local_millis();
            let d = MILLIS_PER_DAY as int;
            lemma_fundamental_div_mod(x, d);
            lemma_fundamental_div_mod_converse(x + SHIFT_MILLIS, d, x / d + SHIFT_DAYS, x % d);
        }
        (in_day / (MILLIS_PER_MINUTE as u64)) as u32
    }

    /// The local weekday.
    pub fn weekday(&self) -> (r: Weekday)
        requires
            self.wf(),
        ensures
            r == self.day_of_week(),
    {
        let shifted = self.shifted_local_millis();
        let days = shifted / (MILLIS_PER_DAY as u64);
        let index = (days + 3) % 7;
        proof {
            let x = self.local_millis();
            let d = MILLIS_PER_DAY as int;
            lemma_fundamental_div_mod(x, d);
            lemma_fundamental_div_mod_converse(x + SHIFT_MILLIS, d, x / d + SHIFT_DAYS, x % d);
            let y = x / d + 3;
            lemma_fundamental_div_mod(y, 7);
            lemma_fundamental_div_mod_converse(y + SHIFT_DAYS, 7, y / 7 + 15_000_000, y % 7);
        }
        if index == 0 {
            Weekday::Mon
        } else if index == 1 {
            Weekday::Tue
        } else if index == 2 {
            Weekday::Wed
        } else if index == 3 {
            Weekday::Thu
        } else if index == 4 {
            Weekday::Fri
        } else if index == 5 {
            Weekday::Sat
        } else {
            Weekday::Sun
        }
    }
}

/// Relies on chrono's `Local::now`: the current instant and the local offset at
/// it. chrono keeps every timestamp within its representable range, and a
/// `FixedOffset` is always less than a day in magnitude.
#[verifier::external_body]
pub(crate) fn now_local() -> (r: LocalDateTime)
    ensures
        r.wf(),
{
    let now = chrono::Local::now();
    LocalDateTime {
        utc_millis: now.timestamp_millis(),
        offset_seconds: now.offset().local_minus_utc(),
    }
}

/// Relies on chrono's `DateTime::from_timestamp_millis` and `with_timezone(&Local)`:
/// the local UTC offset in force at an instant, None where the instant is
/// outside chrono's range. It depends on the machine's time zone, so only its
/// range is stated.
#[verifier::external_body]
fn local_offset_at(utc_millis: i64) -> (r: Option<i32>)
    ensures
        r matches Some(o) ==> -SECONDS_PER_DAY < o < SECONDS_PER_DAY,
{
    match chrono::DateTime::from_timestamp_millis(utc_millis) {
        Some(t) => Some(t.with_timezone(&chrono::Local).offset().local_minus_utc()),
        None => None,
    }
}

/// Relies on chrono's `NaiveDateTime::parse_from_str` with the format
/// "%Y-%m-%dT%H:%M:%S" and on `and_local_timezone(Local).single()`: a wall-clock
/// time read in the machine's time zone; None where the text does not parse or
/// the local time is skipped or ambiguous. The result depends on the time zone,
/// so only the range of the offset is stated.
#[verifier::external_body]
pub(crate) fn parse_local_timestamp(text: &str) -> (r: Option<LocalDateTime>)
    ensures
        r matches Some(t) ==> -SECONDS_PER_DAY < t.offset_seconds < SECONDS_PER_DAY,
{
    match chrono::NaiveDateTime::parse_from_str(text, "%Y-%m-%dT%H:%M:%S") {
        Ok(naive) => match naive.and_local_timezone(chrono::Local).single() {
            Some(t) => Some(
                LocalDateTime { utc_millis: t.timestamp_millis(), offset_seconds: t.offset().local_minus_utc() },
            ),
            None => None,
        },
        Err(_) => None,
    }
}

/// The booking window: how far before class time booking opens, in milliseconds.
pub fn booking_window() -> (r: i64)
    ensures
        r == BOOKING_WINDOW_MILLIS,
        r == 7 * MILLIS_PER_DAY + 2 * MILLIS_PER_HOUR,
{
    BOOKING_WINDOW_MILLIS
}

/// The instant at which booking opens for a class starting at `start`, with
/// the local offset in force at that earlier instant (the offset of `start`
/// where the time zone database cannot place the instant).
pub fn opening_instant(start: LocalDateTime) -> (r: LocalDateTime)
    requires
        start.wf(),
        start.utc_millis >= -MAX_ABS_MILLIS + BOOKING_WINDOW_MILLIS,
    ensures
        r.utc_millis == start.utc_millis - BOOKING_WINDOW_MILLIS,
        r.wf(),
{
    let utc_millis = start.utc_millis - BOOKING_WINDOW_MILLIS;
    let offset_seconds = match local_offset_at(utc_millis) {
        Some(o) => o,
        None => start.offset_seconds,
    };
    LocalDateTime { utc_millis, offset_seconds }
}

/// A duration written as hours, minutes and seconds ("2h 30m 15s", "5m 42s",
/// "7s"), leading zero units left out. Parts of a second are dropped, toward
/// zero; a negative duration shows only its (negative) seconds.
pub open spec fn duration_text(millis: int) -> Seq<char> {
    let t = (if millis >= 0 {
        millis
    } else {
        -millis
    }) / 1000;
    let h = t / 3600;
    let m = (t % 3600) / 60;
    let s = t % 60;
    if millis >= 0 {
        if h > 0 {
            decimal(h as nat) + seq!['h', ' '] + decimal(m as nat) + seq!['m', ' '] + decimal(s as nat)
                + seq!['s']
        } else if m > 0 {
            decimal(m as nat) + seq!['m', ' '] + decimal(s as nat) + seq!['s']
        } else {
            decimal(s as nat) + seq!['s']
        }
    } else if s > 0 {
        seq!['-'] + decimal(s as nat) + seq!['s']
    } else {
        seq!['0', 's']
    }
}

/// Format a duration, given in milliseconds, as a human-readable string.
pub fn format_duration(millis: i64) -> (r: String)
    ensures
        r@ == duration_text(millis as int),
{
    let magnitude: u64 = if millis >= 0 {
        millis as u64
    } else {
        (-(millis + 1)) as u64 + 1
    };
    let t = magnitude / 1000;
    let h = t / 3600;
    let m = (t % 3600) / 60;
    let s = t % 60;
    let mut out = String::new();
    if millis >= 0 {
        if h > 0 {
            push_decimal(&mut out, h);
            out.append("h ");
            push_decimal(&mut out, m);
            out.append("m ");
        } else if m > 0 {
            push_decimal(&mut out, m);
            out.append("m ");
        }
        push_decimal(&mut out, s);
    } else if s > 0 {
        out.append("-");
        push_decimal(&mut out, s);
    } else {
        out.append("0");
    }
    out.append("s");
    proof {
        reveal_strlit("h ");
        reveal_strlit("m ");
        reveal_strlit("-");
        reveal_strlit("0");
        reveal_strlit("s");
        assert(out@ =~= duration_text(millis as int));
    }
    out
}

/// Signed milliseconds from `from` until `to`.
pub fn millis_until(from: LocalDateTime, to: LocalDateTime) -> (r: i64)
    requires
        from.wf(),
        to.wf(),
    ensures
        r == to.utc_millis - from.utc_millis,
{
    to.utc_millis - from.utc_millis
}

} // verus!
