use weekly_usage_bar::percent::{Budget, Percent, Ratio};
use weekly_usage_bar::planner::{
    minutes_as_signed, ratio, redistribute_from, slot_index, PlanView, PlannerEvent,
    PlannerEventKind, PlannerState, Sample, MAX_EVENTS, PLAN_LIMIT, SLOT_COUNT, USED_LIMIT,
};

const DAY: i64 = 86_400;
const WEEK_MINUTES: u64 = 10_080;

fn percent(points: f64) -> Percent {
    Percent { ticks: (points * 420.0).round() as i64 }
}

fn points(share: Percent) -> f64 {
    share.ticks as f64 / 420.0
}

fn advance(
    previous: Option<PlannerState>,
    now: i64,
    reset: i64,
    remaining: f64,
) -> (PlannerState, PlanView) {
    PlannerState::advance(previous, now, reset, WEEK_MINUTES, percent(remaining))
}

fn sample(now: i64, remaining: f64, credits: Option<u64>) -> Sample {
    Sample {
        now_unix: now,
        reset_at_unix: 7 * DAY,
        duration_minutes: WEEK_MINUTES,
        weekly_remaining_percent: percent(remaining),
        reset_credits: credits,
    }
}

fn budget_points(budget: Budget) -> f64 {
    budget.ticks as f64 / (budget.parts * 420) as f64
}

fn one_of(points: f64, parts: i64) -> Budget {
    Budget { ticks: percent(points).ticks, parts }
}

fn same_size(left: Budget, right: Budget) -> bool {
    left.ticks as i128 * right.parts as i128 == right.ticks as i128 * left.parts as i128
}

fn used_part(ratio: Option<Ratio>) -> f64 {
    let ratio = ratio.unwrap();
    ratio.numerator as f64 / ratio.denominator as f64
}

#[test]
fn first_run_splits_remaining_quota_across_remaining_slots() {
    let reset = 7 * DAY;
    let now = 2 * DAY + 60;
    let (_, view) = advance(None, now, reset, 70.0);
    assert_eq!(view.active_slot, 2);
    assert!((budget_points(view.today_budget) - 14.0).abs() < 0.001);
    assert_eq!(points(view.today_used), 0.0);
}

#[test]
fn normal_usage_does_not_steal_from_future_days() {
    let reset = 7 * DAY;
    let (state, _) = advance(None, 60, reset, 100.0);
    let (_, view) = advance(Some(state), 3_600, reset, 95.0);
    assert!((budget_points(view.today_budget) - (100.0 / 7.0)).abs() < 0.001);
}

#[test]
fn overspend_reduces_future_budget_immediately() {
    let reset = 7 * DAY;
    let (state, first) = advance(None, 60, reset, 100.0);
    assert!((budget_points(first.today_budget) - (100.0 / 7.0)).abs() < 0.001);
    let (state, view) = advance(Some(state), 3_600, reset, 80.0);
    assert!(points(view.today_used) > budget_points(view.today_budget));
    assert!(budget_points(state.plans[1].unwrap()) < budget_points(first.today_budget));
}

#[test]
fn unused_budget_is_carried_forward_at_next_slot() {
    let reset = 7 * DAY;
    let (state, _) = advance(None, 60, reset, 100.0);
    let (_, view) = advance(Some(state), DAY + 60, reset, 90.0);
    assert_eq!(view.active_slot, 1);
    assert!((budget_points(view.today_budget) - 15.0).abs() < 0.001);
}

#[test]
fn same_window_refill_reallocates_without_erasing_history() {
    let reset = 7 * DAY;
    let now = 3 * DAY + 60;
    let (state, _) = advance(None, now, reset, 50.0);
    let (state, view) = advance(Some(state), now + 60, reset, 80.0);

    assert_eq!(view.active_slot, 3);
    assert_eq!(points(view.today_used), 0.0);
    assert!((budget_points(view.today_budget) - 20.0).abs() < 0.001);
    assert!(view.reset_markers[3]);
    assert_eq!(state.events.len(), 1);
    assert_eq!(state.events[0].kind, PlannerEventKind::QuotaRefill);
    assert!((points(state.events[0].amount_percent) - 30.0).abs() < 0.001);
    assert!((points(state.events[0].remaining_before_percent) - 50.0).abs() < 0.001);
    assert!((points(state.events[0].remaining_after_percent) - 80.0).abs() < 0.001);
}

#[test]
fn refill_does_not_charge_pre_refill_usage_to_the_new_budget() {
    let reset = 7 * DAY;
    let (state, _) = advance(None, 60, reset, 100.0);
    let (state, before) = advance(Some(state), 3_600, reset, 90.0);
    assert!((points(before.today_used) - 10.0).abs() < 0.001);

    let (state, refill) = advance(Some(state), 3_660, reset, 100.0);
    assert_eq!(points(refill.today_used), 0.0);
    assert!((budget_points(refill.today_budget) - (100.0 / 7.0)).abs() < 0.001);
    assert!((points(state.events[0].segment_used_before_percent) - 10.0).abs() < 0.001);

    let (_, after) = advance(Some(state), 3_720, reset, 95.0);
    assert!((points(after.today_used) - 5.0).abs() < 0.001);
}

#[test]
fn small_usage_regression_is_jitter_not_a_refill() {
    let reset = 7 * DAY;
    let (state, _) = advance(None, 60, reset, 100.0);
    let (state, before) = advance(Some(state), 3_600, reset, 60.0);
    assert!((points(before.today_used) - 40.0).abs() < 0.001);

    let (state, after) = advance(Some(state), 3_660, reset, 61.0);
    assert!((points(after.today_used) - 40.0).abs() < 0.001);
    assert!(state.events.is_empty());
}

#[test]
fn reset_change_starts_a_new_plan_and_records_cycle_event() {
    let reset = 7 * DAY;
    let (state, _) = advance(None, 60, reset, 50.0);
    let (state, view) = advance(Some(state), reset + 60, reset + 7 * DAY, 100.0);
    assert_eq!(view.active_slot, 0);
    assert!((budget_points(view.today_budget) - (100.0 / 7.0)).abs() < 0.001);
    assert!(view.reset_markers[0]);
    assert_eq!(state.events.last().unwrap().kind, PlannerEventKind::CycleReset);
}

#[test]
fn small_reset_time_correction_preserves_the_current_cycle() {
    let reset = 7 * DAY;
    let (state, _) = advance(None, DAY + 60, reset, 80.0);
    let (state, view) = advance(Some(state), DAY + 120, reset + 120, 79.0);
    assert_eq!(view.active_slot, 1);
    assert!(state.events.is_empty());
}

#[test]
fn slots_are_sevenths_of_the_window() {
    let reset = 7 * DAY;
    for slot in 0..7_i64 {
        assert_eq!(slot_index(slot * DAY, reset, WEEK_MINUTES), slot as usize);
        assert_eq!(slot_index(slot * DAY + DAY - 1, reset, WEEK_MINUTES), slot as usize);
    }
    // Moments outside of the window count to its first or last slot.
    assert_eq!(slot_index(-5 * DAY, reset, WEEK_MINUTES), 0);
    assert_eq!(slot_index(reset, reset, WEEK_MINUTES), 6);
    assert_eq!(slot_index(reset + 30 * DAY, reset, WEEK_MINUTES), 6);
    // A window of fourteen minutes has slots of two minutes.
    assert_eq!(slot_index(119, 840, 14), 0);
    assert_eq!(slot_index(120, 840, 14), 1);
}

#[test]
fn windows_without_a_length_have_one_slot() {
    assert_eq!(slot_index(1_000, 500, 0), 0);
    // Beyond 63 bits a number of minutes reads as a negative one.
    assert_eq!(minutes_as_signed(u64::MAX), -1);
    assert_eq!(minutes_as_signed(1 << 63), i64::MIN);
    assert_eq!(minutes_as_signed(WEEK_MINUTES), 10_080);
    assert_eq!(slot_index(1_000, 500, u64::MAX), 0);
}

#[test]
fn slots_of_endless_windows_do_not_overflow() {
    assert_eq!(slot_index(i64::MAX, i64::MIN, i64::MAX as u64), 6);
    assert_eq!(slot_index(i64::MIN, i64::MAX, i64::MAX as u64), 0);
    assert_eq!(slot_index(i64::MAX, i64::MAX, i64::MAX as u64), 6);
}

#[test]
fn redistribution_keeps_earlier_plans() {
    let mut plans = [Some(one_of(1.0, 1)); SLOT_COUNT];
    redistribute_from(&mut plans, 4, percent(30.0));
    assert_eq!(plans[3], Some(one_of(1.0, 1)));
    assert_eq!(plans[4], Some(one_of(30.0, 3)));
    assert_eq!(plans[6], Some(one_of(30.0, 3)));
    redistribute_from(&mut plans, 6, percent(-5.0));
    assert_eq!(plans[5], Some(one_of(30.0, 3)));
    assert_eq!(plans[6], Some(one_of(0.0, 1)));
    redistribute_from(&mut plans, 9, percent(50.0));
    assert_eq!(plans[6], Some(one_of(0.0, 1)));
}

#[test]
fn nothing_is_lost_when_a_share_is_divided() {
    // A quarter of a percent over four slots is a sixteenth of a percent each.
    let (state, view) = advance(None, 3 * DAY + 60, 7 * DAY, 0.25);
    assert_eq!(budget_points(view.today_budget), 0.0625);
    for slot in 3..7 {
        assert_eq!(budget_points(state.plans[slot].unwrap()), 0.0625);
    }
    // A stored plan of any size is divided as exactly: half of what is left, over three.
    let mut state = state;
    state.plans[3] = Some(Budget { ticks: 105, parts: 2 });
    let (state, view) = advance(Some(state), 3 * DAY + 120, 7 * DAY, 0.25);
    assert_eq!(budget_points(view.today_budget), 0.125);
    assert!(same_size(state.plans[4].unwrap(), Budget { ticks: 105, parts: 6 }));
    let kept = view.today_budget;
    let later = state.plans[6].unwrap();
    assert_eq!(
        kept.ticks * later.parts + 3 * later.ticks * kept.parts,
        105 * kept.parts * later.parts
    );
}

#[test]
fn ratios_of_empty_budgets() {
    let twelve = one_of(12.0, 1);
    assert_eq!(ratio(percent(3.0), twelve), Ratio { numerator: 1_260, denominator: 5_040 });
    assert_eq!(ratio(percent(-3.0), twelve), Ratio { numerator: 0, denominator: 5_040 });
    let half = one_of(12.0, 2);
    assert_eq!(ratio(percent(3.0), half), Ratio { numerator: 2_520, denominator: 5_040 });
    assert_eq!(ratio(percent(0.0), one_of(0.0, 3)), Ratio { numerator: 0, denominator: 1 });
    assert_eq!(ratio(percent(1.0), one_of(0.0, 3)), Ratio { numerator: 2, denominator: 1 });
}

#[test]
fn reported_quota_is_clamped() {
    let (over, _) = advance(None, 60, 7 * DAY, 140.0);
    assert_eq!(points(over.last_used_percent), 0.0);
    let (under, view) = advance(None, 60, 7 * DAY, -3.0);
    assert_eq!(points(under.last_used_percent), 100.0);
    assert_eq!(budget_points(view.today_budget), 0.0);
}

#[test]
fn overspending_divides_what_is_left_exactly() {
    let (state, _) = advance(None, 60, 7 * DAY, 100.0);
    let (state, view) = advance(Some(state), 3_600, 7 * DAY, 76.0);
    assert_eq!(points(view.today_used), 24.0);
    for slot in 1..7 {
        assert!(same_size(state.plans[slot].unwrap(), one_of(76.0, 6)));
    }
    assert_eq!(used_part(view.fill_ratios[0]), 1.68);
    assert_eq!(view.fill_ratios[1], Some(Ratio { numerator: 0, denominator: 1 }));
}

#[test]
fn usage_within_the_budget_keeps_every_plan() {
    let (first, _) = advance(None, 60, 7 * DAY, 100.0);
    let plans = first.plans;
    let (state, _) = advance(Some(first), 3_600, 7 * DAY, 86.0);
    for slot in 0..7 {
        assert!(same_size(state.plans[slot].unwrap(), plans[slot].unwrap()));
    }
}

#[test]
fn an_observed_boundary_charges_the_closed_slot() {
    let (state, _) = advance(None, DAY - 100, 7 * DAY, 100.0);
    let (state, view) = advance(Some(state), DAY + 100, 7 * DAY, 93.0);
    assert_eq!(view.active_slot, 1);
    assert_eq!(state.actuals[0], Some(percent(7.0)));
    assert_eq!(points(view.today_used), 0.0);
    assert_eq!(used_part(view.fill_ratios[0]), 0.49);
}

#[test]
fn a_missed_boundary_invents_no_usage() {
    // More than five minutes have passed since the last sample.
    let (state, _) = advance(None, DAY - 100, 7 * DAY, 100.0);
    let (state, _) = advance(Some(state), DAY + 201, 7 * DAY, 93.0);
    assert_eq!(state.actuals[0], Some(percent(0.0)));
    // More than one boundary has passed.
    let (state, _) = advance(None, DAY - 100, 7 * DAY, 100.0);
    let (state, view) = advance(Some(state), 3 * DAY + 60, 7 * DAY, 60.0);
    assert_eq!(state.actuals[0], Some(percent(0.0)));
    assert_eq!(state.actuals[1], None);
    assert_eq!(view.fill_ratios[1], None);
    assert_eq!(budget_points(view.today_budget), 15.0);
}

#[test]
fn the_active_slot_does_not_move_back() {
    let (state, _) = advance(None, DAY + 60, 7 * DAY, 80.0);
    let (state, view) = advance(Some(state), DAY + 120, 7 * DAY + 3_600, 79.0);
    assert_eq!(slot_index(DAY + 120, 7 * DAY + 3_600, WEEK_MINUTES), 0);
    assert_eq!(view.active_slot, 1);
    assert_eq!(state.reset_at_unix, 7 * DAY + 3_600);
}

#[test]
fn returning_to_the_whole_quota_is_a_refill() {
    let (state, _) = advance(None, 60, 7 * DAY, 99.0);
    let (state, view) = advance(Some(state), 120, 7 * DAY, 100.0);
    assert_eq!(state.events.len(), 1);
    assert_eq!(state.events[0].kind, PlannerEventKind::QuotaRefill);
    assert_eq!(points(state.events[0].amount_percent), 1.0);
    assert_eq!(points(view.today_used), 0.0);
    assert_eq!(view.today_budget, one_of(100.0, 7));
}

#[test]
fn a_drop_of_exactly_five_points_is_a_refill() {
    let (state, _) = advance(None, 60, 7 * DAY, 50.0);
    let (refilled, _) = advance(Some(state.clone()), 120, 7 * DAY, 55.0);
    assert_eq!(refilled.events[0].kind, PlannerEventKind::QuotaRefill);
    let (jitter, _) = advance(Some(state), 120, 7 * DAY, 54.0);
    assert!(jitter.events.is_empty());
    assert_eq!(points(jitter.last_used_percent), 50.0);
}

#[test]
fn a_spent_credit_confirms_a_small_refill() {
    let (state, _) = PlannerState::advance_with(None, sample(60, 50.0, Some(3)));
    let (state, _) = PlannerState::advance_with(Some(state), sample(120, 50.0, Some(2)));
    assert_eq!(state.credit_drop_unix, Some(120));
    assert!(state.events.is_empty());
    let (state, view) = PlannerState::advance_with(Some(state), sample(720, 51.0, Some(2)));
    assert_eq!(state.events.len(), 1);
    assert_eq!(state.events[0].kind, PlannerEventKind::ResetCreditUsed);
    assert_eq!(points(state.events[0].amount_percent), 1.0);
    assert_eq!(points(view.today_used), 0.0);
    assert_eq!(state.credit_drop_unix, None);
    // The credit is used up: the next small step back is jitter again.
    let (state, _) = PlannerState::advance_with(Some(state), sample(780, 52.0, Some(2)));
    assert_eq!(state.events.len(), 1);
}

#[test]
fn a_credit_drop_is_forgotten_after_ten_minutes() {
    let (state, _) = PlannerState::advance_with(None, sample(60, 50.0, Some(3)));
    let (state, _) = PlannerState::advance_with(Some(state), sample(120, 50.0, Some(2)));
    let (state, _) = PlannerState::advance_with(Some(state), sample(721, 51.0, Some(2)));
    assert!(state.events.is_empty());
}

#[test]
fn a_credit_drop_and_its_refill_can_come_together() {
    let (state, _) = PlannerState::advance_with(None, sample(60, 50.0, Some(1)));
    let (state, _) = PlannerState::advance_with(Some(state), sample(120, 51.0, Some(0)));
    assert_eq!(state.events[0].kind, PlannerEventKind::ResetCreditUsed);
    // A sample without a count keeps the last one.
    let (state, _) = PlannerState::advance_with(Some(state), sample(180, 51.0, None));
    assert_eq!(state.reset_credits, Some(0));
}

#[test]
fn a_credit_drop_outlives_a_weekly_reset() {
    let next_week = |now: i64, remaining: f64, credits: Option<u64>| Sample {
        reset_at_unix: 14 * DAY,
        ..sample(now, remaining, credits)
    };
    // The drop comes with the first sample of the new window.
    let (state, _) = PlannerState::advance_with(None, sample(60, 50.0, Some(3)));
    let first = next_week(7 * DAY + 60, 50.0, Some(2));
    let (state, _) = PlannerState::advance_with(Some(state), first);
    assert_eq!(state.credit_drop_unix, Some(7 * DAY + 60));
    let second = next_week(7 * DAY + 120, 51.0, Some(2));
    let (state, view) = PlannerState::advance_with(Some(state), second);
    assert_eq!(state.events.len(), 2);
    assert_eq!(state.events[0].kind, PlannerEventKind::CycleReset);
    assert_eq!(state.events[1].kind, PlannerEventKind::ResetCreditUsed);
    assert_eq!(points(state.events[1].amount_percent), 1.0);
    assert_eq!(view.today_budget, one_of(51.0, 7));

    // The drop comes before the new window, and its refill within ten minutes after it.
    let (state, _) = PlannerState::advance_with(None, sample(60, 50.0, Some(3)));
    let last = sample(7 * DAY - 60, 50.0, Some(2));
    let (state, _) = PlannerState::advance_with(Some(state), last);
    let first = next_week(7 * DAY + 60, 50.0, Some(2));
    let (state, _) = PlannerState::advance_with(Some(state), first);
    assert_eq!(state.credit_drop_unix, Some(7 * DAY - 60));
    let in_time = next_week(7 * DAY + 540, 51.0, Some(2));
    let (used, _) = PlannerState::advance_with(Some(state.clone()), in_time);
    assert_eq!(used.events.last().unwrap().kind, PlannerEventKind::ResetCreditUsed);
    let too_late = next_week(7 * DAY + 541, 51.0, Some(2));
    let (jitter, _) = PlannerState::advance_with(Some(state), too_late);
    assert_eq!(jitter.events.last().unwrap().kind, PlannerEventKind::CycleReset);
}

#[test]
fn more_credits_confirm_nothing() {
    let (state, _) = PlannerState::advance_with(None, sample(60, 50.0, Some(1)));
    let (state, _) = PlannerState::advance_with(Some(state), sample(120, 51.0, Some(2)));
    assert!(state.events.is_empty());
    assert_eq!(state.reset_credits, Some(2));
}

#[test]
fn a_refill_over_a_boundary_has_no_segment_usage() {
    let (state, _) = advance(None, 60, 7 * DAY, 100.0);
    let (state, _) = advance(Some(state), 3_600, 7 * DAY, 70.0);
    let (state, view) = advance(Some(state), DAY + 60, 7 * DAY, 90.0);
    assert_eq!(state.events[0].slot, 1);
    assert_eq!(points(state.events[0].segment_used_before_percent), 0.0);
    assert_eq!(state.actuals[0], Some(percent(30.0)));
    assert_eq!(budget_points(view.today_budget), 15.0);
}

#[test]
fn an_earlier_reset_starts_over_without_an_event() {
    let (state, _) = advance(None, 60, 7 * DAY, 50.0);
    let (state, view) = advance(Some(state), 120, 7 * DAY - 3_601, 40.0);
    assert!(state.events.is_empty());
    assert_eq!(points(view.today_used), 0.0);
    assert_eq!(points(state.last_used_percent), 60.0);
}

#[test]
fn another_window_length_starts_over() {
    let (state, _) = advance(None, 60, 7 * DAY, 50.0);
    let (state, _) = PlannerState::advance(Some(state), 120, 7 * DAY, 20_160, percent(50.0));
    assert_eq!(state.duration_minutes, 20_160);
    assert!(state.events.is_empty());
}

#[test]
fn unknown_versions_start_over_and_old_ones_are_taken_on() {
    let (mut state, _) = advance(None, 60, 7 * DAY, 50.0);
    state.version = 1;
    let (state, _) = advance(Some(state), 3_600, 7 * DAY, 40.0);
    assert_eq!(state.version, 2);
    assert_eq!(points(state.active_start_used_percent), 50.0);
    let mut state = state;
    state.version = 3;
    let (state, _) = advance(Some(state), 3_660, 7 * DAY, 40.0);
    assert_eq!(state.version, 2);
    assert_eq!(points(state.active_start_used_percent), 60.0);
}

#[test]
fn cycle_events_record_the_gain() {
    let (state, _) = advance(None, 60, 7 * DAY, 50.0);
    let (state, _) = advance(Some(state), 3_600, 7 * DAY, 44.0);
    let (state, _) = advance(Some(state), 7 * DAY + 60, 14 * DAY, 98.0);
    let event = state.events[0];
    assert_eq!(points(event.amount_percent), 54.0);
    assert_eq!(points(event.remaining_before_percent), 44.0);
    assert_eq!(points(event.remaining_after_percent), 98.0);
    assert_eq!(points(event.segment_used_before_percent), 6.0);
    assert_eq!(event.reset_at_before_unix, 7 * DAY);
    assert_eq!(event.reset_at_after_unix, 14 * DAY);
}

#[test]
fn only_the_last_events_are_kept() {
    let mut state: Option<PlannerState> = None;
    for cycle in 1..80_i64 {
        let (next, _) = advance(state, (7 * cycle - 7) * DAY + 60, 7 * cycle * DAY, 50.0);
        state = Some(next);
    }
    let state = state.unwrap();
    assert_eq!(state.events.len(), MAX_EVENTS);
    assert_eq!(state.events[63].reset_at_after_unix, 7 * 79 * DAY);
    assert_eq!(state.events[0].reset_at_after_unix, 7 * 16 * DAY);
}

#[test]
fn markers_are_those_of_the_current_window() {
    let (mut state, _) = advance(None, 60, 7 * DAY, 50.0);
    state.events.push(PlannerEvent {
        kind: PlannerEventKind::QuotaRefill,
        at_unix: 0,
        slot: 2,
        amount_percent: percent(5.0),
        remaining_before_percent: percent(0.0),
        remaining_after_percent: percent(5.0),
        segment_used_before_percent: percent(0.0),
        reset_at_before_unix: 0,
        reset_at_after_unix: 0,
    });
    let mut current = state.events[0];
    current.reset_at_after_unix = 7 * DAY;
    current.slot = 4;
    state.events.push(current);
    current.slot = 40;
    state.events.push(current);
    let (_, view) = advance(Some(state), 120, 7 * DAY, 50.0);
    assert_eq!(view.reset_markers, [false, false, false, false, true, false, false]);
}

#[test]
fn every_sample_allots_all_that_remains() {
    let mut state: Option<PlannerState> = None;
    for hour in 0..144_i64 {
        // Shares of any size, with a refill on the way.
        let remaining = if hour < 90 { 42_000 - hour * 401 } else { 40_011 - hour * 207 };
        let (next, view) = PlannerState::advance(
            state,
            hour * 3_600 + 60,
            7 * DAY,
            WEEK_MINUTES,
            Percent { ticks: remaining },
        );
        let active = next.active_slot as i64;
        let left = 42_000 - next.active_start_used_percent.ticks;
        assert!(same_size(view.today_budget, Budget { ticks: left, parts: 7 - active }));
        let today = view.today_budget;
        let kept = (today.ticks - view.today_used.ticks * today.parts)
            .max(0)
            .min(remaining * today.parts);
        for slot in next.active_slot + 1..7 {
            let later = next.plans[slot].unwrap();
            assert_eq!(
                kept * later.parts + later.ticks * (6 - active) * today.parts,
                remaining * today.parts * later.parts
            );
        }
        state = Some(next);
    }
}

#[test]
fn recording_an_event_drops_only_the_oldest() {
    let (mut state, _) = advance(None, 60, 7 * DAY, 50.0);
    let plans = state.plans;
    for at in 0..70_i64 {
        let before = state.events.clone();
        let event = PlannerEvent {
            kind: PlannerEventKind::QuotaRefill,
            at_unix: at,
            slot: 0,
            amount_percent: percent(5.0),
            remaining_before_percent: percent(0.0),
            remaining_after_percent: percent(5.0),
            segment_used_before_percent: percent(0.0),
            reset_at_before_unix: 0,
            reset_at_after_unix: 0,
        };
        state.push_event(event);
        let mut expected = before;
        expected.push(event);
        if expected.len() > 64 {
            expected.remove(0);
        }
        assert_eq!(state.events, expected);
    }
    assert_eq!(state.plans, plans);
    assert_eq!(state.last_sample_unix, 60);
}

#[test]
fn states_that_cannot_be_advanced_are_told() {
    let (state, _) = advance(None, 60, 7 * DAY, 50.0);
    let next = sample(120, 50.0, None);
    assert!(state.can_take(&next));
    assert!(state.is_bounded());

    let mut far = state.clone();
    far.active_slot = 7;
    assert!(!far.can_take(&next));
    // A state of another window only hands on its history.
    far.duration_minutes = 60;
    assert!(far.can_take(&next));

    let mut huge = state.clone();
    huge.last_used_percent.ticks = USED_LIMIT + 1;
    assert!(!huge.can_take(&next));
    huge.last_used_percent.ticks = USED_LIMIT;
    assert!(huge.can_take(&next));
    huge.active_start_used_percent.ticks = -USED_LIMIT - 1;
    assert!(!huge.is_bounded());

    let mut planned = state;
    let good = planned.plans[6];
    for bad in [(-PLAN_LIMIT - 1, 1), (PLAN_LIMIT + 1, 1), (1, 0), (1, 43)] {
        planned.plans[6] = Some(Budget { ticks: bad.0, parts: bad.1 });
        assert!(!planned.can_take(&next));
    }
    planned.plans[6] = Some(Budget { ticks: 1, parts: 42 });
    assert!(planned.can_take(&next));
    planned.plans[6] = good;
    planned.plans[0] = Some(Budget { ticks: 1, parts: 8 });
    assert!(!planned.can_take(&next));
    planned.plans[0] = good;
    planned.actuals[2] = Some(Percent { ticks: PLAN_LIMIT + 1 });
    assert!(!planned.can_take(&next));
}

#[test]
fn extreme_states_can_be_advanced() {
    let (mut state, _) = advance(None, 60, 7 * DAY, 50.0);
    state.last_used_percent.ticks = USED_LIMIT;
    state.active_start_used_percent.ticks = -USED_LIMIT;
    state.last_sample_unix = i64::MIN;
    let (state, _) = PlannerState::advance(Some(state), i64::MAX, 7 * DAY, WEEK_MINUTES, percent(50.0));
    assert_eq!(state.active_slot, 6);
    assert_eq!(state.events.len(), 1);
}

#[test]
fn belonging_and_refills_can_be_asked_for() {
    let (state, _) = advance(None, 60, 7 * DAY, 50.0);
    let mut next = sample(120, 55.0, None);
    assert!(state.belongs_with(&next));
    assert!(state.sees_refill(&next));
    next.reset_at_unix += 3_600;
    assert!(state.belongs_with(&next));
    next.reset_at_unix += 1;
    assert!(!state.belongs_with(&next));
    assert!(!state.sees_refill(&sample(120, 54.0, None)));
}
