use chrono::{DateTime, Datelike, Local, TimeZone, Timelike, Utc};
use weekly_usage_bar::calendar::{CivilTime, LocalTime, MAX_UNIX, MIN_UNIX};

fn utc(unix: i64) -> LocalTime {
    LocalTime { unix, utc_offset: 0 }
}

#[test]
fn the_calendar_ends_where_dates_do() {
    assert_eq!(DateTime::<Utc>::MIN_UTC.timestamp(), MIN_UNIX);
    assert_eq!(DateTime::<Utc>::MAX_UTC.timestamp(), MAX_UNIX);
    assert_eq!(utc(MIN_UNIX).civil().month, 1);
    assert_eq!(utc(MAX_UNIX).civil().day, 31);
    // Local time may lie on the far side of the ends.
    let before = LocalTime { unix: MIN_UNIX, utc_offset: -86_399 };
    assert_eq!(
        before.civil(),
        CivilTime { year: -262_144, month: 12, day: 31, hour: 0, minute: 0 }
    );
    assert_eq!(before.short_date(), "Dec 31");
    let after = LocalTime { unix: MAX_UNIX, utc_offset: 86_399 };
    assert_eq!(
        after.civil(),
        CivilTime { year: 262_143, month: 1, day: 1, hour: 23, minute: 59 }
    );
    assert_eq!(after.short_date(), "Jan 1");
    assert_eq!(LocalTime::local(MIN_UNIX).unix, MIN_UNIX);
    assert_eq!(LocalTime::local(MAX_UNIX).unix, MAX_UNIX);
}

#[test]
fn dates_and_clock_times_of_moments() {
    assert_eq!(
        utc(0).civil(),
        CivilTime { year: 1970, month: 1, day: 1, hour: 0, minute: 0 }
    );
    assert_eq!(
        utc(-1).civil(),
        CivilTime { year: 1969, month: 12, day: 31, hour: 23, minute: 59 }
    );
    // 2024-02-29 12:34:56
    assert_eq!(
        utc(1_709_210_096).civil(),
        CivilTime { year: 2024, month: 2, day: 29, hour: 12, minute: 34 }
    );
    let tokyo = LocalTime { unix: 1_709_210_096, utc_offset: 32_400 };
    assert_eq!((tokyo.civil().hour, tokyo.civil().minute), (21, 34));
    let west = LocalTime { unix: 0, utc_offset: -1 };
    assert_eq!((west.civil().year, west.civil().hour), (1969, 23));
}

#[test]
fn months_have_short_names() {
    let names = [
        "Jan", "Feb", "Mar", "Apr", "May", "Jun", "Jul", "Aug", "Sep", "Oct", "Nov", "Dec",
    ];
    for (index, name) in names.iter().enumerate() {
        let day = Utc.with_ymd_and_hms(2026, index as u32 + 1, 9, 0, 0, 0).unwrap();
        assert_eq!(utc(day.timestamp()).short_date(), format!("{name} 9"));
    }
    let tenth = Utc.with_ymd_and_hms(2026, 6, 10, 0, 0, 0).unwrap();
    assert_eq!(utc(tenth.timestamp()).short_date(), "Jun 10");
}

#[test]
fn every_day_of_a_leap_cycle_has_its_date() {
    for day in 0..1_461_i64 {
        let time = Utc.timestamp_opt(day * 86_400 + 3_661, 0).unwrap();
        let civil = utc(time.timestamp()).civil();
        assert_eq!(civil.year, time.year());
        assert_eq!(civil.month, time.month());
        assert_eq!(civil.day, time.day());
        assert_eq!(civil.hour, time.hour());
        assert_eq!(civil.minute, time.minute());
    }
}

#[test]
fn local_time_is_that_of_the_machine() {
    for unix in [0, 1_800_500_000, 1_750_000_000] {
        let local = LocalTime::local(unix);
        let time = Local.timestamp_opt(unix, 0).unwrap();
        assert_eq!(local.unix, unix);
        assert_eq!(local.utc_offset, time.offset().local_minus_utc());
        let civil = local.civil();
        assert_eq!((civil.month, civil.day), (time.month(), time.day()));
        assert_eq!((civil.hour, civil.minute), (time.hour(), time.minute()));
    }
}
