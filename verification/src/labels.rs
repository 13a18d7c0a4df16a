//! The dates and times that stand beside the bars.

use vstd::prelude::*;

use crate::calendar::{in_calendar, LocalTime, MAX_UNIX, MIN_UNIX};
use crate::model::LimitWindow;
use crate::planner::{minutes_as_signed, signed_minutes, SLOT_COUNT};
use crate::text::{decimal, push_decimal, push_two_places, two_places};

verus! {

/// When a window with a known reset time began, in seconds since 1970.
pub open spec fn window_began(window: LimitWindow) -> int {
    window.resets_at.unwrap().unix - 60 * signed_minutes(window.duration_minutes)
}

/// The length of one slot of a window, in minutes.
pub open spec fn slot_minutes(window: LimitWindow) -> int {
    let minutes = signed_minutes(window.duration_minutes);
    if minutes < 14 {
        1
    } else {
        minutes / 7
    }
}

/// When a slot of a window with a known reset time begins, in seconds since 1970.
pub open spec fn slot_began(window: LimitWindow, active_slot: int) -> int {
    let slot = if active_slot > 6 {
        6
    } else {
        active_slot
    };
    window_began(window) + 60 * (slot_minutes(window) * slot)
}

/// A date as month and day.
pub open spec fn date_words(time: LocalTime) -> Seq<char> {
    decimal(time.month() as nat) + "/"@ + decimal(time.day() as nat)
}

/// A clock time, marked as the daily anchor.
pub open spec fn anchor_words(time: LocalTime) -> Seq<char> {
    "R"@ + two_places(time.hour() as nat) + ":"@ + two_places(time.minute() as nat)
}

/// How long a slot lasts: in hours where that is a whole number, else in minutes.
pub open spec fn span_words(minutes: int) -> Seq<char> {
    if minutes % 60 == 0 {
        "+"@ + decimal((minutes / 60) as nat) + "h"@
    } else {
        "+"@ + decimal(minutes as nat) + "m"@
    }
}

/// Whether two texts are the labels of the weekly bar: the dates on which the window
/// begins and resets, the first in whatever offset local time has at it.
pub open spec fn labels_week(weekly: LimitWindow, start: Seq<char>, reset: Seq<char>) -> bool {
    match weekly.resets_at {
        Some(time) => {
            &&& exists|began: LocalTime|
                #![trigger date_words(began)]
                began.valid() && began.unix == window_began(weekly) && start == date_words(began)
            &&& reset == date_words(time)
        },
        None => start == "--"@ && reset == "--"@,
    }
}

/// Whether two texts are the labels of the daily bar: the clock time at which the slot
/// begins, in whatever offset local time has at it, and the length of the slot.
pub open spec fn labels_day(
    weekly: LimitWindow,
    active_slot: int,
    anchor: Seq<char>,
    span: Seq<char>,
) -> bool {
    match weekly.resets_at {
        Some(_) => {
            &&& exists|began: LocalTime|
                #![trigger anchor_words(began)]
                began.valid() && began.unix == slot_began(weekly, active_slot) && anchor
                    == anchor_words(began)
            &&& span == span_words(slot_minutes(weekly))
        },
        None => anchor == "R--:--"@ && span == "+--"@,
    }
}

/// Whether the dates and times of a window can be given.
pub open spec fn has_labels(weekly: LimitWindow, active_slot: int) -> bool {
    weekly.resets_at is Some ==> {
        &&& weekly.valid()
        &&& in_calendar(window_began(weekly))
        &&& in_calendar(slot_began(weekly, active_slot))
    }
}

/// Tells whether the dates and times of a window can be given.
pub fn can_be_labelled(weekly: &LimitWindow, active_slot: usize) -> (r: bool)
    ensures
        r == has_labels(*weekly, active_slot as int),
{
    match weekly.resets_at {
        Some(reset) => {
            let (window, slot) = beginnings(weekly, &reset, active_slot);
            let first = MIN_UNIX as i128;
            let last = MAX_UNIX as i128;
            first <= reset.unix as i128 && reset.unix as i128 <= last && -86_400 < reset.utc_offset
                && reset.utc_offset < 86_400 && first <= window && window <= last && first <= slot
                && slot <= last
        },
        None => true,
    }
}

// When a window and one of its slots began.
fn beginnings(weekly: &LimitWindow, reset: &LocalTime, active_slot: usize) -> (r: (i128, i128))
    requires
        weekly.resets_at == Some(*reset),
    ensures
        r.0 == window_began(*weekly),
        r.1 == slot_began(*weekly, active_slot as int),
{
    let minutes = minutes_as_signed(weekly.duration_minutes) as i128;
    let slot: i128 = if active_slot > 6 {
        6
    } else {
        active_slot as i128
    };
    let length = slot_length(weekly) as i128;
    assert(0 <= length * slot <= 6 * i64::MAX) by (nonlinear_arith)
        requires
            1 <= length <= i64::MAX,
            0 <= slot <= 6,
    ;
    let window = reset.unix as i128 - 60 * minutes;
    (window, window + 60 * (length * slot))
}

fn date_label(time: &LocalTime) -> (r: String)
    requires
        time.valid(),
    ensures
        r@ == date_words(*time),
{
    let date = time.civil();
    let mut label = String::new();
    push_decimal(&mut label, date.month as u64);
    label.append("/");
    push_decimal(&mut label, date.day as u64);
    assert(label@ =~= date_words(*time));
    label
}

/// The labels of the weekly bar, given when the window began: its start and its reset.
pub fn weekly_date_labels_from(weekly: &LimitWindow, start: &LocalTime) -> (r: (String, String))
    requires
        weekly.valid(),
        start.valid(),
    ensures
        match weekly.resets_at {
            Some(reset) => r.0@ == date_words(*start) && r.1@ == date_words(reset),
            None => r.0@ == "--"@ && r.1@ == "--"@,
        },
{
    match weekly.resets_at {
        Some(reset) => (date_label(start), date_label(&reset)),
        None => ("--".to_owned(), "--".to_owned()),
    }
}

/// The labels of the weekly bar: the start of the window and its reset, as dates of
/// local time.
pub fn weekly_date_labels(weekly: &LimitWindow) -> (r: (String, String))
    requires
        weekly.valid(),
        weekly.resets_at is Some ==> in_calendar(window_began(*weekly)),
    ensures
        labels_week(*weekly, r.0@, r.1@),
{
    match weekly.resets_at {
        Some(reset) => {
            let (window, _) = beginnings(weekly, &reset, 0);
            let start = LocalTime::local(window as i64);
            weekly_date_labels_from(weekly, &start)
        },
        None => ("--".to_owned(), "--".to_owned()),
    }
}

/// The labels of the daily bar, given when the slot began: its anchor and its length.
pub fn daily_time_labels_from(weekly: &LimitWindow, start: &LocalTime) -> (r: (String, String))
    requires
        start.valid(),
    ensures
        match weekly.resets_at {
            Some(_) => r.0@ == anchor_words(*start) && r.1@ == span_words(slot_minutes(*weekly)),
            None => r.0@ == "R--:--"@ && r.1@ == "+--"@,
        },
{
    if weekly.resets_at.is_none() {
        return ("R--:--".to_owned(), "+--".to_owned());
    }
    let minutes = slot_length(weekly);
    let mut span = "+".to_owned();
    if minutes % 60 == 0 {
        push_decimal(&mut span, minutes / 60);
        span.append("h");
    } else {
        push_decimal(&mut span, minutes);
        span.append("m");
    }
    let time = start.civil();
    let mut anchor = "R".to_owned();
    push_two_places(&mut anchor, time.hour as u64);
    anchor.append(":");
    push_two_places(&mut anchor, time.minute as u64);
    (anchor, span)
}

fn slot_length(weekly: &LimitWindow) -> (r: u64)
    ensures
        r == slot_minutes(*weekly),
        1 <= r <= i64::MAX,
{
    let minutes = minutes_as_signed(weekly.duration_minutes);
    if minutes < 14 {
        1
    } else {
        (minutes / SLOT_COUNT as i64) as u64
    }
}

/// The labels of the daily bar: the clock time of local time at which the active slot
/// began, and how long it lasts.
pub fn daily_time_labels(weekly: &LimitWindow, active_slot: usize) -> (r: (String, String))
    requires
        weekly.resets_at is Some ==> in_calendar(slot_began(*weekly, active_slot as int)),
    ensures
        labels_day(*weekly, active_slot as int, r.0@, r.1@),
{
    match weekly.resets_at {
        Some(reset) => {
            let (_, slot) = beginnings(weekly, &reset, active_slot);
            let start = LocalTime::local(slot as i64);
            daily_time_labels_from(weekly, &start)
        },
        None => ("R--:--".to_owned(), "+--".to_owned()),
    }
}

/// In a seven-day window every slot is anchored to the clock time of the reset, as
/// long as local time keeps its offset from UTC, and lasts 24 hours.
pub proof fn law_days_are_anchored_to_the_reset(
    weekly: LimitWindow,
    reset: LocalTime,
    active_slot: int,
    start: LocalTime,
)
    requires
        weekly.duration_minutes == 10_080,
        weekly.resets_at == Some(reset),
        0 <= active_slot,
        start.unix == slot_began(weekly, active_slot),
        start.utc_offset == reset.utc_offset,
    ensures
        anchor_words(start) == anchor_words(reset),
        span_words(slot_minutes(weekly)) == "+"@ + decimal(24) + "h"@,
{
    let slot = if active_slot > 6 {
        6
    } else {
        active_slot
    };
    assert(slot_minutes(weekly) * slot == 1_440 * slot);
    assert(start.local_seconds() == reset.local_seconds() - 604_800 + 86_400 * slot);
    assert(start.local_seconds() % 86_400 == reset.local_seconds() % 86_400);
    assert(start.local_seconds() % 3_600 == reset.local_seconds() % 3_600);
}

/// A window begins as many minutes before its reset as it lasts; a length beyond 63 bits
/// reads as a negative one.
pub proof fn law_a_window_begins_its_length_before_its_reset(weekly: LimitWindow)
    requires
        weekly.resets_at is Some,
    ensures
        weekly.duration_minutes <= 0x7fff_ffff_ffff_ffff ==> window_began(weekly) + 60
            * weekly.duration_minutes == weekly.resets_at.unwrap().unix,
        weekly.duration_minutes > 0x7fff_ffff_ffff_ffff ==> window_began(weekly) + 60 * (
        weekly.duration_minutes - 0x1_0000_0000_0000_0000) == weekly.resets_at.unwrap().unix,
{
}

/// A slot lasts a seventh of the window in whole minutes, and at least one.
pub proof fn law_a_slot_lasts_a_seventh_of_the_window(weekly: LimitWindow)
    ensures
        ({
            let minutes = slot_minutes(weekly);
            let length = weekly.duration_minutes;
            &&& minutes >= 1
            &&& 7 <= length <= 0x7fff_ffff_ffff_ffff ==> 7 * minutes <= length < 7 * (minutes + 1)
            &&& length < 7 || length > 0x7fff_ffff_ffff_ffff ==> minutes == 1
        }),
{
}

/// The first slot begins with the window, every other one where the one before it ends, and
/// there is none after the seventh.
pub proof fn law_slots_follow_each_other(weekly: LimitWindow, slot: int)
    requires
        weekly.resets_at is Some,
    ensures
        slot_began(weekly, 0) == window_began(weekly),
        0 <= slot < 6 ==> slot_began(weekly, slot + 1) == slot_began(weekly, slot) + 60
            * slot_minutes(weekly),
        slot >= 6 ==> slot_began(weekly, slot) == slot_began(weekly, 6),
{
    let m = slot_minutes(weekly);
    assert(m * 0 == 0) by (nonlinear_arith);
    assert(m * (slot + 1) == m * slot + m) by (nonlinear_arith);
}

/// A date reads as its month, a slash and its day, whatever the time.
pub proof fn law_dates_read_as_month_and_day(time: LocalTime, year: int, month: int, day: int)
    requires
        crate::calendar::names_day(time.local_seconds() / 86_400, year, month, day),
    ensures
        date_words(time) == decimal(month as nat) + "/"@ + decimal(day as nat),
{
    crate::calendar::law_local_dates(time, year, month, day);
}

/// An anchor reads as the letter R and the clock time with two places each.
pub proof fn law_anchors_read_as_clock_times(time: LocalTime, hour: nat, minute: nat, second: int)
    requires
        hour < 24,
        minute < 60,
        0 <= second < 60,
        exists|days: int|
            time.local_seconds() == #[trigger] (days * 86_400) + hour * 3_600 + minute * 60
                + second,
    ensures
        anchor_words(time) == "R"@ + two_places(hour) + ":"@ + two_places(minute),
{
    crate::calendar::law_clock_times(time, hour as int, minute as int, second);
}

/// A span of whole hours reads in hours, and any other in minutes.
pub proof fn law_spans_read_in_hours_or_minutes(minutes: nat, hours: nat, rest: nat)
    requires
        minutes == 60 * hours + rest,
        rest < 60,
    ensures
        rest == 0 ==> span_words(minutes as int) == "+"@ + decimal(hours) + "h"@,
        rest > 0 ==> span_words(minutes as int) == "+"@ + decimal(minutes) + "m"@,
{
}

/// The labels of the weekly bar: dashes without a reset time; else the date of the reset,
/// and before it the date at which the window begins.
pub proof fn law_the_weekly_labels(weekly: LimitWindow, start: Seq<char>, reset: Seq<char>)
    requires
        labels_week(weekly, start, reset),
    ensures
        weekly.resets_at is None ==> start == "--"@ && reset == "--"@,
        weekly.resets_at matches Some(time) ==> reset == date_words(time) && exists|t: LocalTime|
            t.valid() && t.unix == window_began(weekly) && start == #[trigger] date_words(t),
{
}

/// The labels of the daily bar: dashes without a reset time; else the clock time at which
/// the slot begins, and its length.
pub proof fn law_the_daily_labels(
    weekly: LimitWindow,
    active_slot: int,
    anchor: Seq<char>,
    span: Seq<char>,
)
    requires
        labels_day(weekly, active_slot, anchor, span),
    ensures
        weekly.resets_at is None ==> anchor == "R--:--"@ && span == "+--"@,
        weekly.resets_at is Some ==> span == span_words(slot_minutes(weekly)) && exists|
            t: LocalTime,
        |
            t.valid() && t.unix == slot_began(weekly, active_slot) && anchor
                == #[trigger] anchor_words(t),
{
}

/// The labels can be given wherever the reset, the start of the window and that of the slot
/// lie in the calendar; without a reset time they always can.
pub proof fn law_when_labels_can_be_given(weekly: LimitWindow, active_slot: int)
    ensures
        weekly.resets_at is None ==> has_labels(weekly, active_slot),
        weekly.resets_at matches Some(t) ==> (has_labels(weekly, active_slot) <==> {
            &&& -86_400 < t.utc_offset < 86_400
            &&& -8_334_601_228_800 <= t.unix <= 8_210_266_876_799
            &&& -8_334_601_228_800 <= window_began(weekly) <= 8_210_266_876_799
            &&& -8_334_601_228_800 <= slot_began(weekly, active_slot) <= 8_210_266_876_799
        }),
{
}

} // verus!
