use weekly_usage_bar::calendar::LocalTime;
use weekly_usage_bar::model::{LimitWindow, UsageSnapshot, UsageStatus};

fn window(minutes: u64, remaining: u8) -> LimitWindow {
    LimitWindow {
        duration_minutes: minutes,
        remaining_percent: remaining,
        resets_at: Some(LocalTime { unix: 1_800_500_000, utc_offset: 32_400 }),
    }
}

#[test]
fn connecting_has_no_fake_quota() {
    let snapshot = UsageSnapshot::connecting();
    assert!(snapshot.primary.is_none());
    assert!(snapshot.weekly.is_none());
    assert!(snapshot.status.is_some());
}

#[test]
fn a_failed_reading_is_tried_again() {
    let snapshot = UsageSnapshot::retrying();
    assert_eq!(snapshot.status, Some(UsageStatus::Retrying));
    assert_eq!(snapshot.weekly, None);
    assert_eq!(UsageSnapshot::default(), UsageSnapshot::connecting());
}

#[test]
fn windows_are_told_apart_by_their_length() {
    let week = window(10_080, 63);
    let short = window(300, 40);
    let expected = UsageSnapshot {
        primary: Some(short),
        weekly: Some(week),
        status: None,
        sampled_at: None,
        reset_credits: Some(2),
    };
    assert_eq!(UsageSnapshot::from_windows(Some(short), Some(week), None, Some(2)), expected);
    assert_eq!(UsageSnapshot::from_windows(Some(week), Some(short), None, Some(2)), expected);
}

#[test]
fn a_single_window_takes_its_place() {
    let week = window(10_080, 63);
    let alone = UsageSnapshot::from_windows(None, Some(week), None, None);
    assert_eq!(alone.weekly, Some(week));
    assert_eq!(alone.primary, None);
    let short = window(300, 40);
    let alone = UsageSnapshot::from_windows(None, Some(short), None, None);
    assert_eq!(alone.weekly, None);
    assert_eq!(alone.primary, Some(short));
    let two_weeks = UsageSnapshot::from_windows(Some(week), Some(window(10_080, 1)), None, None);
    assert_eq!(two_weeks.weekly, Some(week));
    assert_eq!(two_weeks.primary, None);
}
