//! Moments in local time: the calendar date and the clock time that they show.

use chrono::{Datelike, FixedOffset, Local, TimeZone, Timelike};
use vstd::prelude::*;

use crate::text::decimal;

verus! {

/// The first second that a calendar date can be given for.
pub const MIN_UNIX: i64 = -8_334_601_228_800;

/// The last second that a calendar date can be given for.
pub const MAX_UNIX: i64 = 8_210_266_876_799;

/// A moment, with the offset of local time from UTC that is in force at it.
#[derive(Clone, Copy, Debug, PartialEq, Eq, Structural)]
pub struct LocalTime {
    /// Seconds since the start of 1970 in UTC.
    pub unix: i64,
    /// Seconds by which local time is ahead of UTC.
    pub utc_offset: i32,
}

/// A calendar date with a clock time.
#[derive(Clone, Copy, Debug, PartialEq, Eq, Structural)]
pub struct CivilTime {
    pub year: i32,
    pub month: u32,
    pub day: u32,
    pub hour: u32,
    pub minute: u32,
}

/// Whether a moment lies in the range of the calendar.
pub open spec fn in_calendar(unix: int) -> bool {
    MIN_UNIX <= unix <= MAX_UNIX
}

/// Whether local time can be ahead of UTC by a number of seconds.
pub open spec fn is_offset(seconds: int) -> bool {
    -86_400 < seconds < 86_400
}

/// Whether a year of the Gregorian calendar has a 29th of February.
pub open spec fn is_leap(year: int) -> bool {
    year % 4 == 0 && (year % 100 != 0 || year % 400 == 0)
}

/// The number of days in a month.
pub open spec fn month_length(year: int, month: int) -> int {
    if month == 2 {
        if is_leap(year) {
            29
        } else {
            28
        }
    } else if month == 4 || month == 6 || month == 9 || month == 11 {
        30
    } else {
        31
    }
}

/// The number of days of a year that pass before a month.
pub open spec fn days_before_month(year: int, month: int) -> int
    decreases month,
{
    if month <= 1 {
        0
    } else {
        days_before_month(year, month - 1) + month_length(year, month - 1)
    }
}

/// The number of days from the start of 1970 to the start of a year.
pub open spec fn year_start(year: int) -> int {
    365 * (year - 1) + (year - 1) / 4 - (year - 1) / 100 + (year - 1) / 400 - 719_162
}

/// Whether a date of the Gregorian calendar is the day with the given number, counted
/// from the start of 1970.
pub open spec fn names_day(day_number: int, year: int, month: int, day: int) -> bool {
    &&& 1 <= month <= 12
    &&& 1 <= day <= month_length(year, month)
    &&& day_number == year_start(year) + days_before_month(year, month) + day - 1
}

/// The year, month and day of the day with the given number.
pub open spec fn date_of_day(day_number: int) -> (int, int, int) {
    choose|year: int, month: int, day: int| names_day(day_number, year, month, day)
}

impl LocalTime {
    /// Whether the moment can be shown.
    pub open spec fn valid(self) -> bool {
        in_calendar(self.unix as int) && is_offset(self.utc_offset as int)
    }

    /// The number of seconds that local clocks show, counted from the start of 1970.
    pub open spec fn local_seconds(self) -> int {
        self.unix + self.utc_offset
    }

    /// The month of the calendar date, from 1 to 12.
    pub open spec fn month(self) -> int {
        date_of_day(self.local_seconds() / 86_400).1
    }

    /// The day of the calendar date within its month, from 1 on.
    pub open spec fn day(self) -> int {
        date_of_day(self.local_seconds() / 86_400).2
    }

    /// The hour that local clocks show.
    pub open spec fn hour(self) -> int {
        self.local_seconds() % 86_400 / 3_600
    }

    /// The minute that local clocks show.
    pub open spec fn minute(self) -> int {
        self.local_seconds() % 3_600 / 60
    }
}

/// The English abbreviation of a month's name.
pub open spec fn month_abbreviation(month: int) -> Seq<char> {
    if month == 1 {
        "Jan"@
    } else if month == 2 {
        "Feb"@
    } else if month == 3 {
        "Mar"@
    } else if month == 4 {
        "Apr"@
    } else if month == 5 {
        "May"@
    } else if month == 6 {
        "Jun"@
    } else if month == 7 {
        "Jul"@
    } else if month == 8 {
        "Aug"@
    } else if month == 9 {
        "Sep"@
    } else if month == 10 {
        "Oct"@
    } else if month == 11 {
        "Nov"@
    } else {
        "Dec"@
    }
}

/// Whether a text is the short date of the day with the given number: the abbreviation of
/// the month, a space and the day of the month.
pub open spec fn names_day_shortly(text: Seq<char>, day_number: int) -> bool {
    exists|year: int, month: int, day: int| #[trigger]
        names_day(day_number, year, month, day) && text == month_abbreviation(month) + seq![' ']
            + decimal(day as nat)
}

/// `chrono::TimeZone::timestamp_opt` on a `FixedOffset` gives the local date and time
/// of a moment, here taken apart into its fields: the date is that of the proleptic
/// Gregorian calendar, the clock time is what is left of the local day.
#[verifier::external_body]
fn civil_time(unix: i64, utc_offset: i32) -> (r: CivilTime)
    requires
        in_calendar(unix as int),
        is_offset(utc_offset as int),
    ensures
        names_day(
            (unix + utc_offset) / 86_400,
            r.year as int,
            r.month as int,
            r.day as int,
        ),
        r.hour == (unix + utc_offset) % 86_400 / 3_600,
        r.minute == (unix + utc_offset) % 3_600 / 60,
{
    let zone = FixedOffset::east_opt(utc_offset).unwrap();
    let time = zone.timestamp_opt(unix, 0).unwrap();
    CivilTime {
        year: time.year(),
        month: time.month(),
        day: time.day(),
        hour: time.hour(),
        minute: time.minute(),
    }
}

/// `chrono::DateTime::format` with `%b %-d` gives the English abbreviation of the
/// month, a space and the day of the month without padding.
#[verifier::external_body]
fn short_date(unix: i64, utc_offset: i32) -> (r: String)
    requires
        in_calendar(unix as int),
        is_offset(utc_offset as int),
    ensures
        names_day_shortly(r@, (unix + utc_offset) / 86_400),
{
    let zone = FixedOffset::east_opt(utc_offset).unwrap();
    zone.timestamp_opt(unix, 0).unwrap().format("%b %-d").to_string()
}

/// `chrono::TimeZone::timestamp_opt` on `Local` gives a moment with the offset of local
/// time that is in force at it. The offset depends on the time zone of the machine, so
/// nothing is said of it but that it is less than a day. On a machine whose zone data give
/// no such offset the call panics.
#[verifier::external_body]
fn local_offset(unix: i64) -> (r: i32)
    requires
        in_calendar(unix as int),
    ensures
        is_offset(r as int),
{
    Local.timestamp_opt(unix, 0).unwrap().offset().local_minus_utc()
}

/// `chrono::Local::now` gives the current moment, here as seconds since 1970. What the
/// clock says rests on the machine, so nothing is said of it but that it lies in the
/// calendar. On a machine whose clock stands before 1970 the call panics.
#[verifier::external_body]
pub(crate) fn now_unix() -> (r: i64)
    ensures
        in_calendar(r as int),
{
    Local::now().timestamp()
}

proof fn lemma_month_starts_rise(year: int, month: int, later: int)
    requires
        1 <= month < later,
    ensures
        days_before_month(year, month) + month_length(year, month) <= days_before_month(
            year,
            later,
        ),
    decreases later,
{
    if month + 1 < later {
        lemma_month_starts_rise(year, month, later - 1);
    }
}

/// The number of days in a year.
spec fn year_length(year: int) -> int {
    if is_leap(year) {
        366
    } else {
        365
    }
}

/// From `x - 1` to `x` the quotient by `d` rises by one where `d` divides `x`, and else not.
proof fn lemma_multiples_step(x: int, d: int)
    requires
        d > 0,
    ensures
        x / d - (x - 1) / d == if x % d == 0 {
            1int
        } else {
            0int
        },
{
    let q = x / d;
    let r = x % d;
    vstd::arithmetic::div_mod::lemma_fundamental_div_mod(x, d);
    vstd::arithmetic::div_mod::lemma_mod_bound(x, d);
    if r == 0 {
        assert(x - 1 == (q - 1) * d + (d - 1)) by (nonlinear_arith)
            requires
                x == d * q + r,
                r == 0,
        ;
        vstd::arithmetic::div_mod::lemma_fundamental_div_mod_converse(x - 1, d, q - 1, d - 1);
    } else {
        assert(x - 1 == q * d + (r - 1)) by (nonlinear_arith)
            requires
                x == d * q + r,
        ;
        vstd::arithmetic::div_mod::lemma_fundamental_div_mod_converse(x - 1, d, q, r - 1);
    }
}

/// What `n * d` divides, `d` divides too.
proof fn lemma_divisor_of_divisor(x: int, d: int, n: int)
    requires
        d > 0,
        n > 0,
        x % (n * d) == 0,
    ensures
        x % d == 0,
{
    assert(n * d > 0) by (nonlinear_arith)
        requires
            d > 0,
            n > 0,
    ;
    vstd::arithmetic::div_mod::lemma_fundamental_div_mod(x, n * d);
    let q = n * (x / (n * d));
    assert(x == q * d + 0) by (nonlinear_arith)
        requires
            x == (n * d) * (x / (n * d)),
            q == n * (x / (n * d)),
    ;
    vstd::arithmetic::div_mod::lemma_fundamental_div_mod_converse(x, d, q, 0);
}

proof fn lemma_year_starts(year: int)
    ensures
        year_start(year + 1) - year_start(year) == year_length(year),
{
    lemma_multiples_step(year, 4);
    lemma_multiples_step(year, 100);
    lemma_multiples_step(year, 400);
    if year % 400 == 0 {
        lemma_divisor_of_divisor(year, 100, 4);
    }
    if year % 100 == 0 {
        lemma_divisor_of_divisor(year, 4, 25);
    }
}

proof fn lemma_months_fill_the_year(year: int)
    ensures
        days_before_month(year, 13) == year_length(year),
{
    let february = month_length(year, 2);
    assert(days_before_month(year, 1) == 0);
    assert(days_before_month(year, 2) == 31);
    assert(days_before_month(year, 3) == 31 + february);
    assert(days_before_month(year, 4) == 62 + february);
    assert(days_before_month(year, 5) == 92 + february);
    assert(days_before_month(year, 6) == 123 + february);
    assert(days_before_month(year, 7) == 153 + february);
    assert(days_before_month(year, 8) == 184 + february);
    assert(days_before_month(year, 9) == 215 + february);
    assert(days_before_month(year, 10) == 245 + february);
    assert(days_before_month(year, 11) == 276 + february);
    assert(days_before_month(year, 12) == 306 + february);
}

proof fn lemma_day_of_year(year: int, month: int, day: int)
    requires
        1 <= month <= 12,
        1 <= day <= month_length(year, month),
    ensures
        0 <= days_before_month(year, month) + day - 1 < year_start(year + 1) - year_start(year),
{
    lemma_year_starts(year);
    lemma_months_fill_the_year(year);
    lemma_month_starts_rise(year, month, 13);
    if month > 1 {
        lemma_month_starts_rise(year, 1, month);
    }
}

proof fn lemma_year_starts_rise(year: int, later: int)
    requires
        year < later,
    ensures
        year_start(year + 1) <= year_start(later),
    decreases later - year,
{
    if year + 1 < later {
        lemma_year_starts_rise(year, later - 1);
        lemma_year_starts(later - 1);
    }
}

/// Every day has one calendar date only.
pub proof fn law_a_day_has_one_date(
    day_number: int,
    date: (int, int, int),
    other: (int, int, int),
)
    requires
        names_day(day_number, date.0, date.1, date.2),
        names_day(day_number, other.0, other.1, other.2),
    ensures
        date == other,
{
    lemma_day_of_year(date.0, date.1, date.2);
    lemma_day_of_year(other.0, other.1, other.2);
    if date.0 < other.0 {
        lemma_year_starts_rise(date.0, other.0);
    } else if other.0 < date.0 {
        lemma_year_starts_rise(other.0, date.0);
    }
    if date.1 < other.1 {
        lemma_month_starts_rise(date.0, date.1, other.1);
    } else if other.1 < date.1 {
        lemma_month_starts_rise(date.0, other.1, date.1);
    }
}

impl LocalTime {
    /// The moment in the local time of this machine.
    pub fn local(unix: i64) -> (r: Self)
        requires
            in_calendar(unix as int),
        ensures
            r.unix == unix,
            r.valid(),
    {
        LocalTime { unix, utc_offset: local_offset(unix) }
    }

    /// The calendar date and clock time of the moment.
    pub fn civil(&self) -> (r: CivilTime)
        requires
            self.valid(),
        ensures
            names_day(
                self.local_seconds() / 86_400,
                r.year as int,
                r.month as int,
                r.day as int,
            ),
            r.month == self.month(),
            r.day == self.day(),
            r.hour == self.hour(),
            r.minute == self.minute(),
            1 <= r.month <= 12,
            1 <= r.day <= 31,
            r.hour < 24,
            r.minute < 60,
    {
        let r = civil_time(self.unix, self.utc_offset);
        proof {
            let n = self.local_seconds() / 86_400;
            assert(names_day(n, r.year as int, r.month as int, r.day as int));
            let date = date_of_day(n);
            law_a_day_has_one_date(n, date, (r.year as int, r.month as int, r.day as int));
        }
        r
    }

    /// The date as an English abbreviation of the month and the day.
    pub fn short_date(&self) -> (r: String)
        requires
            self.valid(),
        ensures
            r@ == month_abbreviation(self.month()) + seq![' '] + decimal(self.day() as nat),
    {
        let r = short_date(self.unix, self.utc_offset);
        proof {
            let n = self.local_seconds() / 86_400;
            let (year, month, day) = choose|year: int, month: int, day: int| #[trigger]
                names_day(n, year, month, day) && r@ == month_abbreviation(month) + seq![' ']
                    + decimal(day as nat);
            law_a_day_has_one_date(n, date_of_day(n), (year, month, day));
        }
        r
    }
}

/// The date of a moment is the date that the calendar gives its local day, whatever the
/// clock time.
pub proof fn law_local_dates(time: LocalTime, year: int, month: int, day: int)
    requires
        names_day(time.local_seconds() / 86_400, year, month, day),
    ensures
        time.month() == month,
        time.day() == day,
        1 <= month <= 12,
        1 <= day <= 31,
{
    let n = time.local_seconds() / 86_400;
    law_a_day_has_one_date(n, date_of_day(n), (year, month, day));
}

/// Local clocks show the hours and minutes that have passed of the local day; local time is
/// UTC moved on by the offset.
pub proof fn law_clock_times(time: LocalTime, hour: int, minute: int, second: int)
    requires
        0 <= hour < 24,
        0 <= minute < 60,
        0 <= second < 60,
        exists|days: int|
            time.local_seconds() == #[trigger] (days * 86_400) + hour * 3_600 + minute * 60
                + second,
    ensures
        time.hour() == hour,
        time.minute() == minute,
        time.local_seconds() == time.unix + time.utc_offset,
{
    let days = choose|days: int|
        time.local_seconds() == #[trigger] (days * 86_400) + hour * 3_600 + minute * 60 + second;
    let of_day = hour * 3_600 + minute * 60 + second;
    assert(time.local_seconds() % 86_400 == of_day);
    assert(of_day / 3_600 == hour);
    assert(time.local_seconds() % 3_600 == minute * 60 + second) by {
        assert(time.local_seconds() == 3_600 * (24 * days + hour) + minute * 60 + second);
    }
}

} // verus!
