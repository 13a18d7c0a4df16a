//! What one reading of the quota does to the plan, told from the figures of the state and
//! of the reading alone. The whole quota is 42000 ticks.

use vstd::prelude::*;

use crate::percent::{Budget, Percent, Ratio};
use crate::planner::{
    advanced, even_split, lemma_split_of_whole, sample_of, shown_budget, shown_used, slot_at,
    usage_ratio, PlanView, PlannerEventKind, PlannerModel, PlannerState, Sample,
};
use crate::planner_laws::{law_slots_follow_time, law_the_plan_allots_all_that_remains};

verus! {

/// The model of a state holds the figures of the state, each as it is.
pub proof fn law_the_model_holds_every_figure(state: PlannerState)
    ensures
        state@.version == state.version,
        state@.reset_at == state.reset_at_unix,
        state@.duration == state.duration_minutes,
        state@.active_slot == state.active_slot,
        state@.segment_start == state.active_start_used_percent.ticks,
        state@.last_used == state.last_used_percent.ticks,
        state@.last_sample == state.last_sample_unix,
        state@.plans == state.plans@,
        state@.actuals == state.actuals@,
        state@.events == state.events@,
        state@.reset_credits == state.reset_credits,
        state@.credit_drop == state.credit_drop_unix,
{
}

/// A reading without a reset-credit count keeps all of its figures.
pub proof fn law_a_reading_keeps_its_figures(now: i64, reset_at: i64, minutes: u64, left: Percent)
    ensures
        ({
            let s = sample_of(now, reset_at, minutes, left);
            &&& s.now_unix == now
            &&& s.reset_at_unix == reset_at
            &&& s.duration_minutes == minutes
            &&& s.weekly_remaining_percent == left
            &&& s.reset_credits is None
        }),
{
}

/// The slot of a moment counts the sevenths of the window that have passed, whatever the
/// length of the window: none before its start, and six from its end on.
pub proof fn law_the_slot_counts_the_sevenths_that_have_passed(
    now: i64,
    reset_at: i64,
    minutes: u64,
)
    requires
        0 < minutes * 60 <= i64::MAX,
        reset_at - minutes * 60 >= i64::MIN,
    ensures
        ({
            let slot = slot_at(now as int, reset_at as int, minutes);
            let length = minutes * 60;
            let passed = now - (reset_at - length);
            &&& passed <= 0 ==> slot == 0
            &&& passed >= length ==> slot == 6
            &&& 0 <= passed < length ==> slot * length <= 7 * passed < (slot + 1) * length
        }),
{
    let length = minutes * 60;
    let passed = now - (reset_at - length);
    if 0 < passed {
        let elapsed = if passed < length - 1 {
            passed
        } else {
            length - 1
        };
        let slot = slot_at(now as int, reset_at as int, minutes);
        assert(slot == elapsed * 7 / length);
        assert(slot * length <= 7 * elapsed < (slot + 1) * length) by (nonlinear_arith)
            requires
                slot == elapsed * 7 / length,
                0 <= elapsed,
                0 < length,
        ;
        if passed >= length {
            assert(slot == 6) by (nonlinear_arith)
                requires
                    slot * length <= 7 * (length - 1) < (slot + 1) * length,
                    length >= 60,
            ;
        }
    }
}

/// A window without a length, or one too long to be told, has one slot only.
pub proof fn law_a_window_without_a_length_has_one_slot(now: int, reset_at: int, minutes: u64)
    requires
        minutes == 0 || minutes > i64::MAX,
    ensures
        slot_at(now, reset_at, minutes) == 0,
{
}

/// A window beyond the reach of the clock ends at its reset all the same and begins no
/// earlier than the clock does.
pub proof fn law_endless_windows_are_cut_off(now: i64, reset_at: i64, minutes: u64)
    requires
        0 < minutes <= i64::MAX,
        minutes * 60 > i64::MAX || reset_at - minutes * 60 < i64::MIN,
    ensures
        ({
            let length: int = if minutes * 60 > i64::MAX {
                i64::MAX as int
            } else {
                minutes * 60
            };
            let start: int = if reset_at - length < i64::MIN {
                i64::MIN as int
            } else {
                reset_at - length
            };
            let passed = now - start;
            let slot = slot_at(now as int, reset_at as int, minutes);
            &&& passed <= 0 ==> slot == 0
            &&& passed >= length ==> slot == 6
            &&& 0 <= passed < length ==> slot * length <= 7 * passed < (slot + 1) * length
        }),
{
    let length: int = if minutes * 60 > i64::MAX {
        i64::MAX as int
    } else {
        minutes * 60
    };
    let start: int = if reset_at - length < i64::MIN {
        i64::MIN as int
    } else {
        reset_at - length
    };
    let passed = now - start;
    if 0 < passed {
        let elapsed = if passed < length - 1 {
            passed
        } else {
            length - 1
        };
        let slot = slot_at(now as int, reset_at as int, minutes);
        assert(slot == elapsed * 7 / length);
        assert(slot * length <= 7 * elapsed < (slot + 1) * length) by (nonlinear_arith)
            requires
                slot == elapsed * 7 / length,
                0 <= elapsed,
                0 < length,
        ;
        if passed >= length {
            assert(slot == 6) by (nonlinear_arith)
                requires
                    slot * length <= 7 * (length - 1) < (slot + 1) * length,
                    length >= 60,
            ;
        }
    }
}

/// Dividing a share gives every slot from the first one on the same part of it, so that
/// the parts together are the share; earlier slots keep what they plan, and a share below
/// zero counts as nothing.
pub proof fn law_a_divided_share_is_the_sum_of_its_parts(
    plans: Seq<Option<Budget>>,
    first: int,
    pool: Budget,
    slot: int,
)
    requires
        0 <= first,
        0 <= slot < 7,
        1 <= pool.parts <= 7,
    ensures
        even_split(plans, first, pool).len() == 7,
        slot < first ==> even_split(plans, first, pool)[slot] == plans[slot],
        slot >= first ==> {
            &&& even_split(plans, first, pool)[slot] matches Some(b)
            &&& b.parts >= 1
            &&& pool.ticks >= 0 ==> b.ticks * (7 - first) * pool.parts == pool.ticks * b.parts
            &&& pool.ticks < 0 ==> b.ticks == 0
        },
{
    if slot >= first {
        let n = 7 - first;
        assert(1 <= pool.parts * n <= 49) by (nonlinear_arith)
            requires
                1 <= pool.parts <= 7,
                1 <= n <= 7,
        ;
        assert(pool.ticks * n * pool.parts == pool.ticks * (pool.parts * n)) by (nonlinear_arith);
    }
}

/// How far a budget has been used is what was used over what was planned; without a
/// budget any usage is twice too much.
pub proof fn law_a_usage_ratio_is_usage_over_budget(actual: int, plan: Budget)
    requires
        plan.parts >= 1,
        actual * plan.parts <= u64::MAX,
    ensures
        ({
            let r = usage_ratio(actual, plan);
            &&& r.denominator >= 1
            &&& plan.ticks > 0 && actual >= 0 ==> r.numerator * plan.ticks == actual * plan.parts
                * r.denominator
            &&& actual <= 0 ==> r.numerator == 0
            &&& plan.ticks <= 0 && actual > 0 ==> r.numerator == 2 * r.denominator
        }),
{
    if actual > 0 {
        assert(actual * plan.parts >= 0) by (nonlinear_arith)
            requires
                actual > 0,
                plan.parts >= 1,
        ;
    } else {
        assert(0 * plan.parts == 0);
    }
    if plan.ticks > 0 && actual >= 0 {
        let r = usage_ratio(actual, plan);
        assert(r.numerator == actual * plan.parts);
        assert(r.denominator == plan.ticks);
    }
}

/// A reading belongs to the window of a state exactly when the state has a known version,
/// the window the same length, and the reset time lies within an hour in either direction.
pub proof fn law_a_reading_belongs_within_an_hour_of_the_reset(p: PlannerModel, s: Sample)
    ensures
        p.continues(s) <==> (p.version == 1 || p.version == 2) && p.duration == s.duration_minutes
            && s.reset_at_unix <= p.reset_at + 3_600 && p.reset_at <= s.reset_at_unix + 3_600,
{
}

/// A reading shows a refill exactly when the used quota fell: by five percent, or to
/// nothing, or after the reset-credit count had fallen within ten minutes.
pub proof fn law_a_refill_is_a_fall_of_the_used_quota(p: PlannerModel, s: Sample)
    requires
        0 <= s.weekly_remaining_percent.ticks <= 42_000,
    ensures
        ({
            let used = 42_000 - s.weekly_remaining_percent.ticks;
            let fewer_credits = p.reset_credits is Some && s.reset_credits is Some
                && s.reset_credits.unwrap() < p.reset_credits.unwrap();
            let spent = fewer_credits || (p.credit_drop is Some && s.now_unix
                - p.credit_drop.unwrap() <= 600);
            p.is_refill(s) <==> used < p.last_used && (p.last_used - used >= 5 * 420 || used == 0
                || spent)
        }),
{
}

/// A reading beyond all or below nothing of the quota counts as all or nothing of it.
pub proof fn law_readings_are_clamped(previous: Option<PlannerModel>, s: Sample, near: Sample)
    requires
        near == (Sample { weekly_remaining_percent: near.weekly_remaining_percent, ..s }),
        ({
            let ticks = s.weekly_remaining_percent.ticks;
            let clamped = near.weekly_remaining_percent.ticks;
            ||| ticks < 0 && clamped == 0
            ||| ticks > 42_000 && clamped == 42_000
        }),
    ensures
        advanced(previous, s) == advanced(previous, near),
        shown_used(previous, s) == shown_used(previous, near),
        shown_budget(previous, s) == shown_budget(previous, near),
        previous matches Some(p) ==> p.is_refill(s) == p.is_refill(near) && p.continues(s)
            == p.continues(near),
{
}

proof fn lemma_slot(s: Sample)
    ensures
        0 <= slot_at(s.now_unix as int, s.reset_at_unix as int, s.duration_minutes) < 7,
{
    law_slots_follow_time(
        s.now_unix as int,
        s.now_unix as int,
        s.reset_at_unix as int,
        s.duration_minutes,
    );
}

/// The first reading opens a plan: its slot is the active one, nothing of the budget is
/// used, the current and the coming slots get equal parts of what is left, and there is
/// no history.
pub proof fn law_a_first_reading_opens_a_plan(s: Sample)
    requires
        0 <= s.weekly_remaining_percent.ticks <= 42_000,
    ensures
        ({
            let left = s.weekly_remaining_percent.ticks;
            let after = advanced(None, s);
            let k = slot_at(s.now_unix as int, s.reset_at_unix as int, s.duration_minutes);
            &&& after.version == 2
            &&& after.reset_at == s.reset_at_unix
            &&& after.duration == s.duration_minutes
            &&& after.active_slot == k
            &&& after.segment_start == 42_000 - left
            &&& after.last_used == 42_000 - left
            &&& after.last_sample == s.now_unix
            &&& after.plans.len() == 7
            &&& after.actuals.len() == 7
            &&& forall|slot: int| 0 <= slot < 7 ==> (#[trigger] after.actuals[slot]) is None
            &&& forall|slot: int| 0 <= slot < k ==> (#[trigger] after.plans[slot]) is None
            &&& forall|slot: int|
                k <= slot < 7 ==> {
                    &&& #[trigger] after.plans[slot] matches Some(b)
                    &&& b.parts >= 1
                    &&& b.ticks * (7 - k) == left * b.parts
                }
            &&& after.events.len() == 0
            &&& after.reset_credits == s.reset_credits
            &&& after.credit_drop is None
            &&& shown_used(None, s) == 0
            &&& after.plans[k] == Some(shown_budget(None, s))
        }),
{
    lemma_slot(s);
    lemma_split_of_whole(
        Seq::new(7, |slot: int| None::<Budget>),
        s.slot(),
        s.weekly_remaining_percent.ticks as int,
    );
}

/// A reading of another window opens a plan as a first reading does; of the state before
/// it only the history and what is known of the reset credits stay.
pub proof fn law_a_reading_of_another_window_opens_a_plan(p: PlannerModel, s: Sample)
    requires
        p.version == 0 || p.version > 2 || p.duration != s.duration_minutes || s.reset_at_unix
            > p.reset_at + 3_600 || s.reset_at_unix < p.reset_at - 3_600,
    ensures
        ({
            let after = advanced(Some(p), s);
            &&& after == (PlannerModel {
                events: after.events,
                reset_credits: after.reset_credits,
                credit_drop: after.credit_drop,
                ..advanced(None, s)
            })
            &&& shown_used(Some(p), s) == 0
            &&& shown_budget(Some(p), s) == shown_budget(None, s)
            &&& s.reset_at_unix <= p.reset_at + 3_600 ==> after.events == p.events
        }),
{
}

/// A reset time more than an hour later is recorded once, with the figures from before
/// and after; the oldest of 64 events makes room for it.
pub proof fn law_a_later_window_is_recorded(p: PlannerModel, s: Sample)
    requires
        s.reset_at_unix > p.reset_at + 3_600,
        i64::MIN <= p.reset_at,
        0 <= p.segment_start <= p.last_used <= 42_000,
        0 <= s.weekly_remaining_percent.ticks <= 42_000,
    ensures
        ({
            let after = advanced(Some(p), s);
            let left = s.weekly_remaining_percent.ticks;
            let e = after.events.last();
            &&& after.events.len() > 0
            &&& p.events.len() < 64 ==> after.events == p.events.push(e)
            &&& p.events.len() == 64 ==> after.events == p.events.drop_first().push(e)
            &&& e.kind == PlannerEventKind::CycleReset
            &&& e.at_unix == s.now_unix
            &&& e.slot == slot_at(
                s.now_unix as int,
                s.reset_at_unix as int,
                s.duration_minutes,
            )
            &&& e.remaining_before_percent.ticks == 42_000 - p.last_used
            &&& e.remaining_after_percent.ticks == left
            &&& e.amount_percent.ticks >= 0
            &&& left >= 42_000 - p.last_used ==> e.amount_percent.ticks == left - (42_000
                - p.last_used)
            &&& left <= 42_000 - p.last_used ==> e.amount_percent.ticks == 0
            &&& e.segment_used_before_percent.ticks == p.last_used - p.segment_start
            &&& e.reset_at_before_unix == p.reset_at
            &&& e.reset_at_after_unix == s.reset_at_unix
        }),
{
    lemma_slot(s);
}

/// The reset-credit count is the last one that was reported, and the moment at which it
/// last fell is kept until a refill within the window uses it up.
pub proof fn law_reset_credits_are_kept_in_mind(p: PlannerModel, s: Sample)
    ensures
        ({
            let after = advanced(Some(p), s);
            let fewer = p.reset_credits is Some && s.reset_credits is Some
                && s.reset_credits.unwrap() < p.reset_credits.unwrap();
            let refilled = p.continues(s) && p.is_refill(s);
            &&& s.reset_credits is Some ==> after.reset_credits == s.reset_credits
            &&& s.reset_credits is None ==> after.reset_credits == p.reset_credits
            &&& refilled ==> after.credit_drop is None
            &&& !refilled && fewer ==> after.credit_drop == Some(s.now_unix)
            &&& !refilled && !fewer ==> after.credit_drop == p.credit_drop
        }),
{
}

/// Within the window a corrected reset time, earlier or later by up to an hour, wipes
/// nothing: as long as the slot goes on and no quota is refilled, the budget segment and
/// its plan stay, and what has been used since the segment began is shown.
pub proof fn law_a_corrected_reset_goes_on_with_the_segment(p: PlannerModel, s: Sample)
    requires
        p.version == 1 || p.version == 2,
        p.duration == s.duration_minutes,
        s.reset_at_unix <= p.reset_at + 3_600,
        p.reset_at <= s.reset_at_unix + 3_600,
        p.plans.len() == 7,
        0 <= p.active_slot < 7,
        slot_at(s.now_unix as int, s.reset_at_unix as int, s.duration_minutes) <= p.active_slot,
        0 <= s.weekly_remaining_percent.ticks <= 42_000,
        ({
            let used = 42_000 - s.weekly_remaining_percent.ticks;
            let fewer_credits = p.reset_credits is Some && s.reset_credits is Some
                && s.reset_credits.unwrap() < p.reset_credits.unwrap();
            let spent = fewer_credits || (p.credit_drop is Some && s.now_unix
                - p.credit_drop.unwrap() <= 600);
            used >= p.last_used || (p.last_used - used < 5 * 420 && used > 0 && !spent)
        }),
    ensures
        ({
            let used = 42_000 - s.weekly_remaining_percent.ticks;
            let after = advanced(Some(p), s);
            &&& after.version == 2
            &&& after.reset_at == s.reset_at_unix
            &&& after.duration == p.duration
            &&& after.active_slot == p.active_slot
            &&& after.segment_start == p.segment_start
            &&& after.last_sample == s.now_unix
            &&& used >= p.last_used ==> after.last_used == used
            &&& used <= p.last_used ==> after.last_used == p.last_used
            &&& after.actuals == p.actuals
            &&& after.events == p.events
            &&& after.plans.len() == 7
            &&& forall|slot: int|
                0 <= slot <= p.active_slot ==> #[trigger] after.plans[slot] == p.plans[slot]
            &&& after.last_used >= p.segment_start ==> shown_used(Some(p), s) == after.last_used
                - p.segment_start
            &&& after.last_used <= p.segment_start ==> shown_used(Some(p), s) == 0
            &&& p.plans[p.active_slot] matches Some(b) ==> {
                &&& b.ticks >= 0 ==> shown_budget(Some(p), s) == b
                &&& b.ticks < 0 ==> shown_budget(Some(p), s).ticks == 0
            }
            &&& p.plans[p.active_slot] is None ==> shown_budget(Some(p), s).ticks == 0
        }),
{
}

/// Beyond a boundary a new segment begins with nothing used: the slot that closed is
/// charged with what was seen in it, up to the new reading only where that followed within
/// five minutes and over this one boundary, and what is left is divided from the new slot
/// on.
pub proof fn law_a_boundary_closes_one_slot(p: PlannerModel, s: Sample, k: int)
    requires
        p.version == 1 || p.version == 2,
        p.duration == s.duration_minutes,
        s.reset_at_unix <= p.reset_at + 3_600,
        p.reset_at <= s.reset_at_unix + 3_600,
        p.plans.len() == 7,
        p.actuals.len() == 7,
        0 <= p.active_slot < k,
        k == slot_at(s.now_unix as int, s.reset_at_unix as int, s.duration_minutes),
        0 <= p.segment_start <= p.last_used <= 42_000,
        0 <= s.weekly_remaining_percent.ticks <= 42_000,
        ({
            let used = 42_000 - s.weekly_remaining_percent.ticks;
            let fewer_credits = p.reset_credits is Some && s.reset_credits is Some
                && s.reset_credits.unwrap() < p.reset_credits.unwrap();
            let spent = fewer_credits || (p.credit_drop is Some && s.now_unix
                - p.credit_drop.unwrap() <= 600);
            used >= p.last_used || (p.last_used - used < 5 * 420 && used > 0 && !spent)
        }),
    ensures
        ({
            let used = 42_000 - s.weekly_remaining_percent.ticks;
            let after = advanced(Some(p), s);
            let seen = k == p.active_slot + 1 && s.now_unix - p.last_sample <= 300;
            &&& after.version == 2
            &&& after.reset_at == s.reset_at_unix
            &&& after.duration == p.duration
            &&& after.active_slot == k
            &&& used >= p.last_used ==> after.last_used == used
            &&& used <= p.last_used ==> after.last_used == p.last_used
            &&& after.segment_start == after.last_used
            &&& after.last_sample == s.now_unix
            &&& after.events == p.events
            &&& after.actuals.len() == 7
            &&& after.actuals[p.active_slot] matches Some(charged)
            &&& seen ==> charged.ticks == after.last_used - p.segment_start
            &&& !seen ==> charged.ticks == p.last_used - p.segment_start
            &&& forall|slot: int|
                0 <= slot < 7 && slot != p.active_slot ==> #[trigger] after.actuals[slot]
                    == p.actuals[slot]
            &&& after.plans.len() == 7
            &&& forall|slot: int| 0 <= slot < k ==> #[trigger] after.plans[slot] == p.plans[slot]
            &&& after.plans[k] matches Some(b)
            &&& b.parts >= 1
            &&& b.ticks * (7 - k) == (42_000 - after.last_used) * b.parts
            &&& shown_used(Some(p), s) == 0
            &&& shown_budget(Some(p), s) == b
        }),
{
    lemma_slot(s);
    lemma_split_of_whole(p.plans, k, 42_000 - p.effective_used(s));
}

/// A refill within the window: a new segment begins at the reading, what is left is
/// divided from its slot on, what the slots before it planned stays, and the slot that
/// closed, if one did, is charged with what was seen in it.
pub proof fn law_a_refill_divides_what_is_left(p: PlannerModel, s: Sample)
    requires
        p.version == 1 || p.version == 2,
        p.duration == s.duration_minutes,
        s.reset_at_unix <= p.reset_at + 3_600,
        p.reset_at <= s.reset_at_unix + 3_600,
        p.plans.len() == 7,
        p.actuals.len() == 7,
        0 <= p.active_slot < 7,
        0 <= p.segment_start <= p.last_used <= 42_000,
        0 <= s.weekly_remaining_percent.ticks <= 42_000,
        ({
            let used = 42_000 - s.weekly_remaining_percent.ticks;
            let fewer_credits = p.reset_credits is Some && s.reset_credits is Some
                && s.reset_credits.unwrap() < p.reset_credits.unwrap();
            let spent = fewer_credits || (p.credit_drop is Some && s.now_unix
                - p.credit_drop.unwrap() <= 600);
            used < p.last_used && (p.last_used - used >= 5 * 420 || used == 0 || spent)
        }),
    ensures
        ({
            let left = s.weekly_remaining_percent.ticks;
            let after = advanced(Some(p), s);
            let k = slot_at(s.now_unix as int, s.reset_at_unix as int, s.duration_minutes);
            &&& after.version == 2
            &&& after.reset_at == s.reset_at_unix
            &&& after.duration == p.duration
            &&& after.active_slot == if k > p.active_slot {
                k
            } else {
                p.active_slot
            }
            &&& after.segment_start == 42_000 - left
            &&& after.last_used == 42_000 - left
            &&& after.last_sample == s.now_unix
            &&& after.actuals.len() == 7
            &&& k > p.active_slot ==> after.actuals[p.active_slot] == Some(
                Percent { ticks: (p.last_used - p.segment_start) as i64 },
            )
            &&& forall|slot: int|
                0 <= slot < 7 && (slot != p.active_slot || k <= p.active_slot)
                    ==> #[trigger] after.actuals[slot] == p.actuals[slot]
            &&& after.plans.len() == 7
            &&& forall|slot: int|
                0 <= slot < after.active_slot ==> #[trigger] after.plans[slot] == p.plans[slot]
            &&& forall|slot: int|
                after.active_slot <= slot < 7 ==> {
                    &&& #[trigger] after.plans[slot] matches Some(b)
                    &&& b.parts >= 1
                    &&& b.ticks * (7 - after.active_slot) == left * b.parts
                }
            &&& shown_used(Some(p), s) == 0
            &&& after.plans[after.active_slot] == Some(shown_budget(Some(p), s))
        }),
{
    lemma_slot(s);
    let moved = p.moved_to_slot(s);
    lemma_split_of_whole(
        moved.plans,
        moved.active_slot,
        s.weekly_remaining_percent.ticks as int,
    );
}

/// A refill is recorded once, with the figures from before and after it and as the use of
/// a reset credit where one was spent within ten minutes; the oldest of 64 events makes
/// room for it.
pub proof fn law_a_refill_is_recorded(p: PlannerModel, s: Sample)
    requires
        p.version == 1 || p.version == 2,
        p.duration == s.duration_minutes,
        s.reset_at_unix <= p.reset_at + 3_600,
        p.reset_at <= s.reset_at_unix + 3_600,
        0 <= p.active_slot < 7,
        0 <= p.segment_start <= p.last_used <= 42_000,
        0 <= s.weekly_remaining_percent.ticks <= 42_000,
        ({
            let used = 42_000 - s.weekly_remaining_percent.ticks;
            let fewer_credits = p.reset_credits is Some && s.reset_credits is Some
                && s.reset_credits.unwrap() < p.reset_credits.unwrap();
            let spent = fewer_credits || (p.credit_drop is Some && s.now_unix
                - p.credit_drop.unwrap() <= 600);
            used < p.last_used && (p.last_used - used >= 5 * 420 || used == 0 || spent)
        }),
    ensures
        ({
            let left = s.weekly_remaining_percent.ticks;
            let fewer_credits = p.reset_credits is Some && s.reset_credits is Some
                && s.reset_credits.unwrap() < p.reset_credits.unwrap();
            let spent = fewer_credits || (p.credit_drop is Some && s.now_unix
                - p.credit_drop.unwrap() <= 600);
            let k = slot_at(s.now_unix as int, s.reset_at_unix as int, s.duration_minutes);
            let after = advanced(Some(p), s);
            let e = after.events.last();
            &&& after.events.len() > 0
            &&& p.events.len() < 64 ==> after.events == p.events.push(e)
            &&& p.events.len() == 64 ==> after.events == p.events.drop_first().push(e)
            &&& spent ==> e.kind == PlannerEventKind::ResetCreditUsed
            &&& !spent ==> e.kind == PlannerEventKind::QuotaRefill
            &&& e.at_unix == s.now_unix
            &&& e.slot == after.active_slot
            &&& e.amount_percent.ticks == p.last_used - (42_000 - left)
            &&& e.remaining_before_percent.ticks == 42_000 - p.last_used
            &&& e.remaining_after_percent.ticks == left
            &&& k <= p.active_slot ==> e.segment_used_before_percent.ticks == p.last_used
                - p.segment_start
            &&& k > p.active_slot ==> e.segment_used_before_percent.ticks == 0
            &&& e.reset_at_before_unix == s.reset_at_unix
            &&& e.reset_at_after_unix == s.reset_at_unix
        }),
{
    lemma_slot(s);
}

/// After ordinary usage the coming slots share evenly what remains of the week beside the
/// rest of today's budget: that rest is the budget less what is used of it, and nothing
/// once the budget is overdrawn.
pub proof fn law_later_slots_share_what_today_leaves(p: PlannerModel, s: Sample, slot: int)
    requires
        p.version == 1 || p.version == 2,
        p.duration == s.duration_minutes,
        s.reset_at_unix <= p.reset_at + 3_600,
        p.reset_at <= s.reset_at_unix + 3_600,
        p.bounded(),
        0 <= p.active_slot < 7,
        0 <= p.segment_start <= p.last_used <= 42_000,
        0 <= s.weekly_remaining_percent.ticks <= 42_000,
        ({
            let used = 42_000 - s.weekly_remaining_percent.ticks;
            let fewer_credits = p.reset_credits is Some && s.reset_credits is Some
                && s.reset_credits.unwrap() < p.reset_credits.unwrap();
            let spent = fewer_credits || (p.credit_drop is Some && s.now_unix
                - p.credit_drop.unwrap() <= 600);
            used >= p.last_used || (p.last_used - used < 5 * 420 && used > 0 && !spent)
        }),
        advanced(Some(p), s).active_slot < slot < 7,
    ensures
        ({
            let after = advanced(Some(p), s);
            let a = after.active_slot;
            let rest = 42_000 - after.last_used;
            let today = after.last_used - after.segment_start;
            &&& after.plans[slot] matches Some(later)
            &&& later.parts >= 1
            &&& after.plans[a] matches Some(b) ==> {
                let open = b.ticks - today * b.parts;
                &&& open <= 0 ==> later.ticks * (6 - a) == rest * later.parts
                &&& 0 <= open <= rest * b.parts ==> later.ticks * (6 - a) * b.parts == (rest
                    * b.parts - open) * later.parts
                &&& open >= rest * b.parts ==> later.ticks == 0
            }
            &&& after.plans[a] is None ==> later.ticks * (6 - a) == rest * later.parts
        }),
{
    law_the_plan_allots_all_that_remains(Some(p), s, slot);
    lemma_slot(s);
    let after = advanced(Some(p), s);
    let a = after.active_slot;
    let n = 6 - a;
    let rest = 42_000 - after.last_used;
    let today = after.last_used - after.segment_start;
    let current = p.brought_up_to(s);
    assert(after.plans[a] == current.plans[a]);
    let kept = after.kept_for_today();
    let later = after.plans[slot].unwrap();
    assert(after.plans[slot] is Some);
    if p.next_slot(s) > p.active_slot {
        lemma_split_of_whole(p.plans, p.next_slot(s), 42_000 - p.effective_used(s));
    } else {
        assert(crate::planner::plan_in_limits(
            p.plans[p.active_slot],
            crate::planner::parts_limit(p.active_slot, p.active_slot),
        ));
    }
    let q = kept.parts as int;
    assert(1 <= q <= 7);
    let open = match after.plans[a] {
        Some(b) => b.ticks - today * b.parts,
        None => 0int,
    };
    assert(0 <= today * q <= 42_000 * 7 && 0 <= rest * q <= 42_000 * 7) by (nonlinear_arith)
        requires
            0 <= today <= 42_000,
            0 <= rest <= 42_000,
            1 <= q <= 7,
    ;
    let (l, u, t) = (later.ticks as int, later.parts as int, kept.ticks as int);
    assert(l * n * q == (rest * q - t) * u) by (nonlinear_arith)
        requires
            t * u + l * n * q == rest * (q * u),
    ;
    if after.plans[a] is None {
        assert(q == 1);
        assert(t == 0);
        assert(l * n * 1 == (rest * 1 - 0) * u);
    }
    if open <= 0 {
        assert(t == 0);
        assert(l * n == rest * u) by (nonlinear_arith)
            requires
                l * n * q == (rest * q - 0) * u,
                q >= 1,
        ;
    }
    if after.plans[a] is Some && open >= rest * q {
        assert(t == rest * q);
        assert(l == 0) by (nonlinear_arith)
            requires
                l * n * q == (rest * q - rest * q) * u,
                n >= 1,
                q >= 1,
        ;
    }
}

/// What is shown of a plan: the active slot and today's figures as they are, each slot's
/// usage over its plan, nothing used of the coming slots, and a mark on exactly those
/// slots into which an event of the current window fell.
pub proof fn law_the_view_shows_the_plan(
    view: PlanView,
    m: PlannerModel,
    today_used: int,
    today_budget: Budget,
    slot: int,
)
    requires
        view.shows(m, today_used, today_budget),
        0 <= slot < 7,
    ensures
        view.active_slot == m.active_slot,
        view.today_used.ticks == today_used,
        view.today_budget == today_budget,
        slot == m.active_slot ==> view.fill_ratios@[slot] == Some(
            usage_ratio(today_used, today_budget),
        ),
        slot > m.active_slot ==> view.fill_ratios@[slot] == Some(
            Ratio { numerator: 0, denominator: 1 },
        ),
        slot < m.active_slot && m.actuals[slot] is Some && m.plans[slot] is Some
            ==> view.fill_ratios@[slot] == Some(
            usage_ratio(m.actuals[slot].unwrap().ticks as int, m.plans[slot].unwrap()),
        ),
        slot < m.active_slot && (m.actuals[slot] is None || m.plans[slot] is None)
            ==> view.fill_ratios@[slot] is None,
        view.reset_markers@[slot] <==> exists|i: int|
            0 <= i < m.events.len() && (#[trigger] m.events[i]).slot == slot
                && m.events[i].reset_at_after_unix == m.reset_at,
{
}

/// Every state with ordinary figures can take in every reading.
pub proof fn law_ordinary_states_take_in_every_reading(state: PlannerState, s: Sample)
    requires
        state.active_slot < 7,
        0 <= state.active_start_used_percent.ticks <= 42_000,
        0 <= state.last_used_percent.ticks <= 42_000,
        forall|i: int|
            0 <= i < 7 ==> (#[trigger] state.plans@[i] matches Some(b) ==> 0 <= b.ticks <= 420_000
                && 1 <= b.parts <= if i == state.active_slot {
                7int
            } else {
                42int
            }),
        forall|i: int|
            0 <= i < 7 ==> (#[trigger] state.actuals@[i] matches Some(a) ==> 0 <= a.ticks
                <= 42_000),
    ensures
        state.accepts(s),
{
}

} // verus!
