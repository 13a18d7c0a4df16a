use chrono::Local;
use weekly_usage_bar::calendar::LocalTime;
use weekly_usage_bar::model::{LimitWindow, UsageSnapshot};
use weekly_usage_bar::percent::{Budget, Percent};
use weekly_usage_bar::planner::PlannerEventKind;
use weekly_usage_bar::runtime::{current_view, update_at, update_from_snapshot, Runtime};

const DAY: i64 = 86_400;

fn snapshot(reset: i64, remaining: u8, credits: Option<u64>) -> UsageSnapshot {
    let weekly = LimitWindow {
        duration_minutes: 10_080,
        remaining_percent: remaining,
        resets_at: Some(LocalTime { unix: reset, utc_offset: 0 }),
    };
    UsageSnapshot::from_windows(None, Some(weekly), None, credits)
}

#[test]
fn snapshots_advance_the_planner() {
    let mut runtime = Runtime::new(None);
    assert!(current_view(&runtime).is_none());
    let first = snapshot(7 * DAY, 70, Some(1));
    assert!(runtime.can_take(&first));
    assert!(update_at(&mut runtime, &first, 2 * DAY + 60));
    let view = current_view(&runtime).unwrap();
    assert_eq!(view.active_slot, 2);
    assert_eq!(view.today_budget, Budget { ticks: 70 * 420, parts: 5 });

    let second = snapshot(7 * DAY, 71, Some(0));
    assert!(update_at(&mut runtime, &second, 2 * DAY + 120));
    let state = runtime.state.as_ref().unwrap();
    assert_eq!(state.events[0].kind, PlannerEventKind::ResetCreditUsed);
    assert_eq!(state.last_used_percent, Percent::whole(29));
}

#[test]
fn snapshots_without_a_week_change_nothing() {
    let mut runtime = Runtime::new(None);
    assert!(!update_at(&mut runtime, &UsageSnapshot::connecting(), 60));
    assert!(runtime.state.is_none());
    assert!(update_at(&mut runtime, &snapshot(7 * DAY, 70, None), 60));
    let mut unknown = snapshot(7 * DAY, 10, None);
    unknown.weekly.as_mut().unwrap().resets_at = None;
    assert!(!update_at(&mut runtime, &unknown, 120));
    assert!(!update_from_snapshot(&mut runtime, &UsageSnapshot::retrying()));
    assert_eq!(runtime.state.as_ref().unwrap().last_sample_unix, 60);
    assert_eq!(current_view(&runtime).unwrap().today_used, Percent::whole(0));
}

#[test]
fn snapshots_are_taken_in_as_of_now() {
    let before = Local::now().timestamp();
    let mut runtime = Runtime::new(None);
    assert!(update_from_snapshot(&mut runtime, &snapshot(before + 3 * DAY + 43_200, 80, None)));
    let state = runtime.state.as_ref().unwrap();
    assert!(before <= state.last_sample_unix && state.last_sample_unix < before + 10_000);
    assert_eq!(current_view(&runtime).unwrap().active_slot, 3);
    let budget = current_view(&runtime).unwrap().today_budget;
    assert_eq!(budget, Budget { ticks: 80 * 420, parts: 4 });
}

#[test]
fn unusable_states_are_told() {
    let mut runtime = Runtime::new(None);
    let reading = snapshot(7 * DAY, 70, None);
    assert!(update_at(&mut runtime, &reading, 60));
    runtime.state.as_mut().unwrap().active_slot = 9;
    assert!(!runtime.can_take(&reading));
    assert!(runtime.can_take(&UsageSnapshot::connecting()));
    assert!(runtime.can_take(&snapshot(14 * DAY, 70, None)));
}
