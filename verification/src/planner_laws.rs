//! What holds of the planner over every sample and every sequence of samples.

use vstd::prelude::*;

use crate::percent::{clamped, larger, one_of, share, smaller, Budget, FULL_TICKS};
use crate::planner::{
    advanced, even_split, fresh_plan, lemma_split_of_whole, parts_limit, plan_in_limits, planned, shown_budget,
    shown_used, slot_at, window_seconds, window_start, with_event, PlannerEvent,
    PlannerEventKind, PlannerModel, Sample, ACTIVE_PARTS, ATTRIBUTION_GAP_SECS,
    CREDIT_CONFIRMATION_SECS, MAX_EVENTS, REFILL_THRESHOLD_TICKS, RESET_TIME_TOLERANCE_SECS,
    STATE_VERSION, USED_LIMIT,
};

verus! {

// ---------------------------------------------------------------------------------
// Slots
// ---------------------------------------------------------------------------------

/// The slots are seven equal parts of the weekly window, counted from the weekly
/// reset: a moment inside of the window lies in slot `k` exactly when between `k` and
/// `k + 1` sevenths of the window have passed.
pub proof fn law_slots_are_equal_parts_of_the_window(now: int, reset_at: int, minutes: u64)
    requires
        window_seconds(minutes) > 0,
        window_start(reset_at, minutes) == reset_at - window_seconds(minutes),
        window_start(reset_at, minutes) <= now < reset_at,
    ensures
        ({
            let slot = slot_at(now, reset_at, minutes);
            let length = window_seconds(minutes);
            let passed = now - window_start(reset_at, minutes);
            &&& 0 <= slot < 7
            &&& slot * length <= 7 * passed < (slot + 1) * length
        }),
{
    let length = window_seconds(minutes);
    let passed = now - window_start(reset_at, minutes);
    let slot = slot_at(now, reset_at, minutes);
    if passed == 0 {
        assert(slot == 0);
    } else {
        assert(slot == passed * 7 / length);
        assert(0 <= slot < 7 && slot * length <= 7 * passed < (slot + 1) * length)
            by (nonlinear_arith)
            requires
                slot == passed * 7 / length,
                0 <= passed < length,
        ;
    }
}

/// A slot of a seven-day window lasts 24 hours and begins at the clock time of the
/// weekly reset.
pub proof fn law_a_week_has_24_hour_slots(now: int, reset_at: int, slot: int)
    requires
        i64::MIN + 604_800 <= reset_at <= i64::MAX,
        0 <= slot < 7,
        reset_at - 604_800 <= now < reset_at,
    ensures
        slot_at(now, reset_at, 10_080) == slot <==> reset_at - 604_800 + 86_400 * slot <= now
            < reset_at - 604_800 + 86_400 * (slot + 1),
{
    law_slots_are_equal_parts_of_the_window(now, reset_at, 10_080);
}

/// Time moves the slot forward only.
pub proof fn law_slots_follow_time(now: int, later: int, reset_at: int, minutes: u64)
    requires
        now <= later,
    ensures
        slot_at(now, reset_at, minutes) <= slot_at(later, reset_at, minutes),
        0 <= slot_at(now, reset_at, minutes) < 7,
{
    let length = window_seconds(minutes);
    let start = window_start(reset_at, minutes);
    if length > 0 {
        let a = if now <= start {
            0
        } else {
            smaller(now - start, length - 1)
        };
        let b = if later <= start {
            0
        } else {
            smaller(later - start, length - 1)
        };
        assert(0 <= a * 7 / length <= b * 7 / length < 7) by (nonlinear_arith)
            requires
                0 <= a <= b < length,
        ;
        assert(0int * 7 / length == 0) by (nonlinear_arith)
            requires
                length > 0,
        ;
    }
}

// ---------------------------------------------------------------------------------
// Exact plans
// ---------------------------------------------------------------------------------

/// A plan without a remainder: the active slot plans its even share of what was left
/// when its budget segment began, and the slots after it share evenly what is left
/// now and not set aside for the rest of today.
pub open spec fn exact_plan(m: PlannerModel) -> bool {
    let budget = planned(m.plans, m.active_slot);
    let later = m.left_for_later();
    &&& 0 <= m.active_slot < 7
    &&& m.plans.len() == 7
    &&& m.actuals.len() == 7
    &&& 0 <= m.segment_start <= m.last_used <= FULL_TICKS
    &&& m.plans[m.active_slot] is Some
    &&& 1 <= budget.parts <= ACTIVE_PARTS
    &&& budget.equals(FULL_TICKS - m.segment_start, 7 - m.active_slot)
    &&& forall|slot: int|
        m.active_slot < slot < 7 ==> {
            &&& (#[trigger] m.plans[slot]) is Some
            &&& planned(m.plans, slot).parts >= 1
            &&& planned(m.plans, slot).equals(
                later.ticks as int,
                later.parts * (6 - m.active_slot),
            )
        }
}

/// What is left for later, reckoned without casts: the budget of the active slot lies
/// between nothing and what was left when it was set.
proof fn lemma_exact_pool(m: PlannerModel)
    requires
        0 <= m.active_slot < 7,
        0 <= m.segment_start <= m.last_used <= FULL_TICKS,
        1 <= planned(m.plans, m.active_slot).parts <= ACTIVE_PARTS,
        planned(m.plans, m.active_slot).equals(FULL_TICKS - m.segment_start, 7 - m.active_slot),
    ensures
        ({
            let b = planned(m.plans, m.active_slot);
            let used = m.last_used - m.segment_start;
            let rest = FULL_TICKS - m.last_used;
            &&& m.budget_today() == b
            &&& m.used_today() == used
            &&& b.ticks * (7 - m.active_slot) == (FULL_TICKS - m.segment_start) * b.parts
            &&& 0 <= b.ticks <= (FULL_TICKS - m.segment_start) * b.parts
            &&& m.left_for_later().parts == b.parts
            &&& m.left_for_later().ticks == rest * b.parts - larger(b.ticks - used * b.parts, 0)
            &&& 0 <= m.left_for_later().ticks
        }),
{
    let b = planned(m.plans, m.active_slot);
    let used = m.last_used - m.segment_start;
    let rest = FULL_TICKS - m.last_used;
    let pool = FULL_TICKS - m.segment_start;
    assert(0 <= b.ticks <= pool * b.parts) by (nonlinear_arith)
        requires
            b.ticks * (7 - m.active_slot) == pool * b.parts,
            0 <= m.active_slot < 7,
            pool >= 0,
            b.parts >= 1,
    ;
    assert(0 <= used * b.parts <= 7 * FULL_TICKS && 0 <= rest * b.parts <= 7 * FULL_TICKS && pool
        * b.parts == used * b.parts + rest * b.parts) by (nonlinear_arith)
        requires
            0 <= used <= FULL_TICKS,
            0 <= rest <= FULL_TICKS,
            pool == used + rest,
            1 <= b.parts <= 7,
    ;
}

/// Dividing a share over the slots from the active one on gives an exact plan.
proof fn lemma_split_is_exact(m: PlannerModel, plans: Seq<Option<Budget>>)
    requires
        0 <= m.active_slot < 7,
        m.actuals.len() == 7,
        0 <= m.last_used <= FULL_TICKS,
        m.segment_start == m.last_used,
        m.plans == even_split(plans, m.active_slot, one_of(FULL_TICKS - m.last_used, 1)),
    ensures
        exact_plan(m),
{
    let n = 7 - m.active_slot;
    let pool = FULL_TICKS - m.last_used;
    lemma_split_of_whole(plans, m.active_slot, pool);
    assert(planned(m.plans, m.active_slot) == one_of(pool, n));
    lemma_exact_pool(m);
    assert forall|slot: int| m.active_slot < slot < 7 implies {
        &&& (#[trigger] m.plans[slot]) is Some
        &&& planned(m.plans, slot).parts >= 1
        &&& planned(m.plans, slot).equals(
            m.left_for_later().ticks as int,
            m.left_for_later().parts * (6 - m.active_slot),
        )
    } by {
        assert(planned(m.plans, slot) == one_of(pool, n));
        assert(0 * n == 0) by (nonlinear_arith);
        assert(pool * (n * (n - 1)) == (pool * n - pool) * n) by (nonlinear_arith);
    }
}

/// Ordinary usage gives an exact plan wherever the active slot has its even share.
proof fn lemma_progress_is_exact(current: PlannerModel, after: PlannerModel)
    requires
        0 <= current.active_slot < 7,
        current.plans.len() == 7,
        current.actuals.len() == 7,
        0 <= current.segment_start <= current.last_used <= FULL_TICKS,
        current.plans[current.active_slot] is Some,
        1 <= planned(current.plans, current.active_slot).parts <= ACTIVE_PARTS,
        planned(current.plans, current.active_slot).equals(
            FULL_TICKS - current.segment_start,
            7 - current.active_slot,
        ),
        after == (PlannerModel {
            plans: even_split(
                current.plans,
                current.active_slot + 1,
                current.left_for_later(),
            ),
            ..current
        }),
    ensures
        exact_plan(after),
        after.left_for_later() == current.left_for_later(),
        forall|slot: int|
            current.active_slot < slot < 7 ==> #[trigger] after.plans[slot] == Some(
                one_of(
                    current.left_for_later().ticks as int,
                    current.left_for_later().parts * (6 - current.active_slot),
                ),
            ),
{
    let n = 6 - current.active_slot;
    lemma_exact_pool(current);
    assert(after.plans[after.active_slot] == current.plans[current.active_slot]);
    let later = current.left_for_later();
    assert(n >= 1 ==> 1 <= later.parts * n <= 42) by (nonlinear_arith)
        requires
            1 <= later.parts <= 7,
            n <= 6,
    ;
}

/// Every sample keeps plans without a remainder, whatever share it reports.
pub proof fn law_every_sample_keeps_the_plan_exact(previous: Option<PlannerModel>, s: Sample)
    requires
        previous matches Some(p) ==> exact_plan(p),
    ensures
        exact_plan(advanced(previous, s)),
{
    let after = advanced(previous, s);
    lemma_slot_in_range(s);
    match previous {
        None => {
            lemma_split_is_exact(after, Seq::new(7, |slot: int| None::<Budget>));
        },
        Some(p) => {
            if !p.continues(s) {
                lemma_split_is_exact(after, Seq::new(7, |slot: int| None::<Budget>));
            } else if p.is_refill(s) {
                lemma_split_is_exact(after, p.moved_to_slot(s).plans);
            } else {
                lemma_exact_when_brought_up(p, s);
                lemma_progress_is_exact(p.brought_up_to(s), after);
            }
        },
    }
}

proof fn lemma_slot_in_range(s: Sample)
    ensures
        0 <= s.slot() < 7,
{
    law_slots_follow_time(
        s.now_unix as int,
        s.now_unix as int,
        s.reset_at_unix as int,
        s.duration_minutes,
    );
}

/// The active slot has its even share when a state has been brought up to a sample.
proof fn lemma_exact_when_brought_up(p: PlannerModel, s: Sample)
    requires
        exact_plan(p),
        !p.is_refill(s),
    ensures
        ({
            let current = p.brought_up_to(s);
            let budget = planned(current.plans, current.active_slot);
            &&& 0 <= current.active_slot < 7
            &&& current.plans.len() == 7
            &&& current.actuals.len() == 7
            &&& 0 <= current.segment_start <= current.last_used <= FULL_TICKS
            &&& current.plans[current.active_slot] is Some
            &&& 1 <= budget.parts <= ACTIVE_PARTS
            &&& budget.equals(FULL_TICKS - current.segment_start, 7 - current.active_slot)
        }),
{
    lemma_slot_in_range(s);
    if p.next_slot(s) > p.active_slot {
        lemma_split_of_whole(p.plans, p.next_slot(s), FULL_TICKS - p.effective_used(s));
    }
}

/// The planner state after a sequence of samples.
pub open spec fn after_all(samples: Seq<Sample>) -> Option<PlannerModel>
    decreases samples.len(),
{
    if samples.len() == 0 {
        None
    } else {
        Some(advanced(after_all(samples.drop_last()), samples.last()))
    }
}

/// However many samples come in, and whatever refills and resets they show, the plan
/// stays without a remainder and the history within its limit.
pub proof fn law_every_sequence_of_samples_keeps_the_plan_exact(samples: Seq<Sample>)
    ensures
        after_all(samples) matches Some(m) ==> exact_plan(m) && m.events.len() <= MAX_EVENTS,
    decreases samples.len(),
{
    if samples.len() > 0 {
        let earlier = samples.drop_last();
        law_every_sequence_of_samples_keeps_the_plan_exact(earlier);
        law_every_sample_keeps_the_plan_exact(after_all(earlier), samples.last());
        if let Some(p) = after_all(earlier) {
            law_history_only_grows(p, samples.last());
        }
    }
}

/// After any sample, what is set aside for the rest of today and the plans of the coming
/// slots together are exactly what remains of the week: no part of a tick is lost, and
/// none is planned twice.
pub proof fn law_the_plan_allots_all_that_remains(
    previous: Option<PlannerModel>,
    s: Sample,
    slot: int,
)
    requires
        previous matches Some(p) ==> p.bounded() && 0 <= p.active_slot < 7,
        advanced(previous, s).active_slot < slot < 7,
    ensures
        ({
            let after = advanced(previous, s);
            let kept = after.kept_for_today();
            let later = planned(after.plans, slot);
            &&& kept.parts >= 1
            &&& later.parts >= 1
            &&& kept.ticks * later.parts + later.ticks * (6 - after.active_slot) * kept.parts == (
            FULL_TICKS - after.last_used) * (kept.parts * later.parts)
        }),
{
    let after = advanced(previous, s);
    lemma_slot_in_range(s);
    let ordinary = match previous {
        Some(p) => p.continues(s) && !p.is_refill(s),
        None => false,
    };
    if ordinary {
        let p = previous.unwrap();
        let current = p.brought_up_to(s);
        assert(0 <= current.active_slot < 7);
        assert(plan_in_limits(p.plans[p.active_slot], parts_limit(p.active_slot, p.active_slot)));
        lemma_pool_in_limits(current);
        let pool = current.left_for_later();
        let n = 6 - current.active_slot;
        assert(after.plans[after.active_slot] == current.plans[current.active_slot]);
        assert(after.kept_for_today() == current.kept_for_today());
        assert(1 <= pool.parts * n <= 42) by (nonlinear_arith)
            requires
                1 <= pool.parts <= 7,
                1 <= n <= 6,
        ;
        let kept = after.kept_for_today();
        let q = kept.parts as int;
        let rest = FULL_TICKS - after.last_used;
        let later = planned(after.plans, slot);
        assert(later == one_of(pool.ticks as int, q * n));
        assert(kept.ticks * (q * n) + (rest * q - kept.ticks) * n * q == rest * (q * (q * n)))
            by (nonlinear_arith);
    } else {
        let n = 7 - after.active_slot;
        let rest = FULL_TICKS - after.last_used;
        assert(rest == s.remaining());
        lemma_fresh_split(previous, s);
        let later = planned(after.plans, slot);
        assert(later == one_of(rest, n));
        assert(planned(after.plans, after.active_slot) == one_of(rest, n));
        assert(0 * n == 0 && rest <= rest * n <= 7 * FULL_TICKS) by (nonlinear_arith)
            requires
                0 <= rest <= FULL_TICKS,
                1 <= n <= 7,
        ;
        assert(after.kept_for_today() == one_of(rest, n));
        assert(rest * n + rest * (n - 1) * n == rest * (n * n)) by (nonlinear_arith);
    }
}

/// A sample that is no ordinary usage divides what remains from the active slot on.
proof fn lemma_fresh_split(previous: Option<PlannerModel>, s: Sample)
    requires
        previous matches Some(p) ==> !p.continues(s) || p.is_refill(s),
    ensures
        ({
            let after = advanced(previous, s);
            forall|slot: int|
                0 <= slot < 7 && after.active_slot <= slot ==> #[trigger] after.plans[slot] == Some(
                    one_of(s.remaining(), 7 - after.active_slot),
                )
        }),
{
    let nothing = Seq::new(7, |slot: int| None::<Budget>);
    lemma_split_of_whole(nothing, s.slot(), s.remaining());
    if let Some(p) = previous {
        let moved = p.moved_to_slot(s);
        lemma_split_of_whole(moved.plans, moved.active_slot, s.remaining());
    }
}

/// What is left for later, reckoned without casts, in any bounded state.
proof fn lemma_pool_in_limits(m: PlannerModel)
    requires
        -USED_LIMIT <= m.segment_start <= USED_LIMIT,
        -USED_LIMIT <= m.last_used <= USED_LIMIT,
        plan_in_limits(m.plans[m.active_slot], ACTIVE_PARTS),
    ensures
        ({
            let kept = m.kept_for_today();
            let rest = FULL_TICKS - m.last_used;
            &&& 1 <= kept.parts <= ACTIVE_PARTS
            &&& kept.parts == m.left_for_later().parts
            &&& m.left_for_later().ticks == rest * kept.parts - kept.ticks
            &&& 0 <= m.left_for_later().ticks
        }),
{
    let budget = m.budget_today();
    let used = m.used_today();
    let rest = FULL_TICKS - m.last_used;
    let parts = budget.parts as int;
    assert(0 <= used * parts <= 14 * USED_LIMIT && -7 * (USED_LIMIT + FULL_TICKS) <= rest * parts
        <= 7 * (USED_LIMIT + FULL_TICKS)) by (nonlinear_arith)
        requires
            0 <= used <= 2 * USED_LIMIT,
            -(USED_LIMIT + FULL_TICKS) <= rest <= USED_LIMIT + FULL_TICKS,
            1 <= parts <= 7,
    ;
}

// ---------------------------------------------------------------------------------
// Budgets over the week
// ---------------------------------------------------------------------------------

/// The first sample divides what remains over the current and the coming slots: each
/// gets the same share of it, and slots that have passed get no plan.
pub proof fn law_first_sample_divides_what_remains(s: Sample)
    ensures
        ({
            let after = advanced(None, s);
            let first = after.active_slot;
            let each = one_of(s.remaining(), 7 - first);
            &&& first == s.slot()
            &&& forall|slot: int| 0 <= slot < first ==> after.plans[slot] == None::<Budget>
            &&& forall|slot: int| first <= slot < 7 ==> after.plans[slot] == Some(each)
            &&& shown_used(None, s) == 0
            &&& shown_budget(None, s) == each
        }),
{
    lemma_slot_in_range(s);
    lemma_fresh_split(None, s);
}

/// While the active slot goes on, its target stays fixed.
pub proof fn law_target_stays_fixed_within_a_slot(p: PlannerModel, s: Sample)
    requires
        p.plans.len() == 7,
        0 <= p.active_slot < 7,
        p.continues(s),
        !p.is_refill(s),
        p.next_slot(s) == p.active_slot,
    ensures
        advanced(Some(p), s).active_slot == p.active_slot,
        advanced(Some(p), s).plans[p.active_slot] == p.plans[p.active_slot],
        shown_budget(Some(p), s) == p.budget_today(),
{
}

/// Usage within today's budget takes nothing from the coming slots.
pub proof fn law_usage_within_budget_keeps_later_plans(p: PlannerModel, s: Sample, slot: int)
    requires
        exact_plan(p),
        p.continues(s),
        !p.is_refill(s),
        p.next_slot(s) == p.active_slot,
        ({
            let budget = p.budget_today();
            p.brought_up_to(s).used_today() * budget.parts <= budget.ticks
        }),
        p.active_slot < slot < 7,
    ensures
        planned(advanced(Some(p), s).plans, slot).same_size(planned(p.plans, slot)),
{
    let current = p.brought_up_to(s);
    lemma_exact_when_brought_up(p, s);
    lemma_exact_pool(p);
    lemma_exact_pool(current);
    lemma_progress_is_exact(current, advanced(Some(p), s));
    let q = planned(p.plans, p.active_slot).parts as int;
    let (seg, last, used) = (p.segment_start, p.last_used, current.last_used);
    assert(q * (last - seg) <= q * (used - seg) && q * (FULL_TICKS - used) + q * (used - seg) == q
        * (FULL_TICKS - last) + q * (last - seg)) by (nonlinear_arith)
        requires
            last <= used,
            q >= 1,
    ;
    assert((last - seg) * q == q * (last - seg) && (used - seg) * q == q * (used - seg) && (
    FULL_TICKS - used) * q == q * (FULL_TICKS - used) && (FULL_TICKS - last) * q == q * (FULL_TICKS
        - last)) by (nonlinear_arith);
    assert(current.left_for_later() == p.left_for_later());
    lemma_same_pool_same_plan(p, s, slot);
}

/// As long as the same is left for later, the coming slots plan the same.
proof fn lemma_same_pool_same_plan(p: PlannerModel, s: Sample, slot: int)
    requires
        exact_plan(p),
        p.continues(s),
        !p.is_refill(s),
        p.next_slot(s) == p.active_slot,
        p.brought_up_to(s).left_for_later() == p.left_for_later(),
        p.active_slot < slot < 7,
    ensures
        planned(advanced(Some(p), s).plans, slot).same_size(planned(p.plans, slot)),
{
    let current = p.brought_up_to(s);
    let after = advanced(Some(p), s);
    lemma_exact_when_brought_up(p, s);
    lemma_progress_is_exact(current, after);
    lemma_exact_pool(p);
    let pool = p.left_for_later();
    let n = 6 - p.active_slot;
    assert(p.plans[slot] is Some);
    assert(after.plans[slot] == Some(one_of(pool.ticks as int, pool.parts * n)));
    assert(1 <= pool.parts * n <= 42) by (nonlinear_arith)
        requires
            1 <= pool.parts <= 7,
            1 <= n <= 6,
    ;
}

/// Usage beyond today's budget shrinks the plan of every coming slot at once.
pub proof fn law_overspending_shrinks_later_plans(p: PlannerModel, s: Sample, slot: int)
    requires
        exact_plan(p),
        p.continues(s),
        !p.is_refill(s),
        p.next_slot(s) == p.active_slot,
        ({
            let budget = p.budget_today();
            p.brought_up_to(s).used_today() * budget.parts > budget.ticks
        }),
        s.used() > p.last_used,
        p.active_slot < slot < 7,
    ensures
        planned(advanced(Some(p), s).plans, slot).less_than(planned(p.plans, slot)),
{
    let current = p.brought_up_to(s);
    let after = advanced(Some(p), s);
    lemma_exact_when_brought_up(p, s);
    lemma_exact_pool(p);
    lemma_exact_pool(current);
    lemma_progress_is_exact(current, after);
    let q = planned(p.plans, p.active_slot).parts as int;
    let n = 6 - p.active_slot;
    let (seg, last, used) = (p.segment_start, p.last_used, current.last_used);
    assert((FULL_TICKS - used) * q < (FULL_TICKS - last) * q && (FULL_TICKS - used) * q + (used
        - seg) * q == (FULL_TICKS - last) * q + (last - seg) * q) by (nonlinear_arith)
        requires
            last < used,
            q >= 1,
    ;
    let fewer = current.left_for_later().ticks as int;
    let more = p.left_for_later().ticks as int;
    assert(fewer < more);
    let old = planned(p.plans, slot);
    assert(p.plans[slot] is Some);
    assert(1 <= q * n <= 42) by (nonlinear_arith)
        requires
            1 <= q <= 7,
            1 <= n <= 6,
    ;
    assert(after.plans[slot] == Some(one_of(fewer, q * n)));
    assert(fewer * old.parts < more * old.parts) by (nonlinear_arith)
        requires
            fewer < more,
            old.parts >= 1,
    ;
}

/// What a slot leaves unused when it closes raises the plan of every remaining slot.
pub proof fn law_unused_budget_is_carried_forward(p: PlannerModel, s: Sample, slot: int)
    requires
        exact_plan(p),
        p.continues(s),
        !p.is_refill(s),
        p.active_slot < p.next_slot(s) <= slot < 7,
        ({
            let budget = p.budget_today();
            (p.effective_used(s) - p.segment_start) * budget.parts < budget.ticks
        }),
    ensures
        planned(p.plans, slot).less_than(planned(advanced(Some(p), s).plans, slot)),
{
    let current = p.brought_up_to(s);
    let after = advanced(Some(p), s);
    lemma_exact_when_brought_up(p, s);
    lemma_exact_pool(p);
    lemma_exact_pool(current);
    lemma_progress_is_exact(current, after);
    let b = planned(p.plans, p.active_slot);
    let (budget, q, n) = (b.ticks as int, b.parts as int, 6 - p.active_slot);
    let c = 7 - p.next_slot(s);
    let (seg, last, used) = (p.segment_start, p.last_used, current.last_used);
    let rest = FULL_TICKS - used;
    assert((last - seg) * q <= (used - seg) * q && rest * q + (used - seg) * q == (FULL_TICKS
        - seg) * q && (FULL_TICKS - last) * q + (last - seg) * q == (FULL_TICKS - seg) * q)
        by (nonlinear_arith)
        requires
            last <= used,
            rest == FULL_TICKS - used,
            q >= 1,
    ;
    assert(budget * (n + 1) == budget * n + budget) by (nonlinear_arith);
    assert(p.left_for_later().ticks == budget * n);
    assert(rest * q > budget * n);
    let old = planned(p.plans, slot);
    assert(p.plans[slot] is Some);
    let (t, u) = (old.ticks as int, old.parts as int);
    assert(t * c < rest * u) by (nonlinear_arith)
        requires
            t * (q * n) == (budget * n) * u,
            rest * q > budget * n,
            1 <= c <= n,
            q >= 1,
            u >= 1,
            budget >= 0,
    {
        assert(t * q == budget * u) by (nonlinear_arith)
            requires
                t * (q * n) == (budget * n) * u,
                n >= 1,
        ;
        assert((t * c) * q == budget * u * c) by (nonlinear_arith)
            requires
                t * q == budget * u,
        ;
        assert(budget * u * c <= budget * u * n) by (nonlinear_arith)
            requires
                budget * u >= 0,
                c <= n,
        ;
        assert(budget * u * n < rest * q * u) by (nonlinear_arith)
            requires
                rest * q > budget * n,
                u >= 1,
        ;
        assert((t * c) * q < (rest * u) * q) by (nonlinear_arith)
            requires
                (t * c) * q < rest * q * u,
        ;
    }
    lemma_split_of_whole(p.plans, p.next_slot(s), rest);
    if slot == p.next_slot(s) {
        assert(after.plans[slot] == Some(one_of(rest, c)));
    } else {
        assert(planned(current.plans, current.active_slot) == one_of(rest, c));
        assert(rest * c - rest == rest * (c - 1)) by (nonlinear_arith);
        assert(0 * c == 0) by (nonlinear_arith);
        assert(0 <= c * (c - 1) <= 42) by (nonlinear_arith)
            requires
                1 <= c <= 7,
        ;
        assert(after.plans[slot] == Some(one_of(rest * (c - 1), c * (c - 1))));
        assert(0 <= rest * (c - 1) <= 6 * FULL_TICKS) by (nonlinear_arith)
            requires
                0 <= rest <= FULL_TICKS,
                1 <= c <= 7,
        ;
        assert(t * (c * (c - 1)) < rest * (c - 1) * u) by (nonlinear_arith)
            requires
                t * c < rest * u,
                c > 1,
        ;
    }
}

/// Within one weekly window the active slot never moves back.
pub proof fn law_active_slot_never_moves_back(p: PlannerModel, s: Sample)
    requires
        0 <= p.active_slot < 7,
        p.continues(s),
    ensures
        p.active_slot <= advanced(Some(p), s).active_slot < 7,
{
    law_slots_follow_time(
        s.now_unix as int,
        s.now_unix as int,
        s.reset_at_unix as int,
        s.duration_minutes,
    );
}

/// When a boundary passed unobserved, the slot that closes is charged only with what
/// was seen before, no other slot is charged at all, and the new slot starts unused.
pub proof fn law_a_missed_boundary_invents_no_usage(p: PlannerModel, s: Sample)
    requires
        p.actuals.len() == 7,
        p.plans.len() == 7,
        0 <= p.active_slot < 7,
        p.continues(s),
        p.next_slot(s) > p.active_slot,
        p.next_slot(s) > p.active_slot + 1 || s.now_unix - p.last_sample > ATTRIBUTION_GAP_SECS,
    ensures
        ({
            let after = advanced(Some(p), s);
            &&& after.actuals[p.active_slot] == Some(
                share(clamped(p.last_used - p.segment_start, 0, FULL_TICKS as int)),
            )
            &&& forall|slot: int|
                0 <= slot < 7 && slot != p.active_slot ==> after.actuals[slot]
                    == p.actuals[slot]
            &&& shown_used(Some(p), s) == 0
        }),
{
}

/// A boundary that was observed charges the slot that closes with all that was used.
pub proof fn law_an_observed_boundary_charges_the_closed_slot(p: PlannerModel, s: Sample)
    requires
        p.actuals.len() == 7,
        p.plans.len() == 7,
        0 <= p.active_slot < 7,
        p.continues(s),
        !p.is_refill(s),
        p.next_slot(s) == p.active_slot + 1,
        s.now_unix - p.last_sample <= ATTRIBUTION_GAP_SECS,
    ensures
        advanced(Some(p), s).actuals[p.active_slot] == Some(
            share(clamped(larger(s.used(), p.last_used) - p.segment_start, 0, FULL_TICKS as int)),
        ),
        shown_used(Some(p), s) == 0,
{
}

// ---------------------------------------------------------------------------------
// Refills, credits and resets
// ---------------------------------------------------------------------------------

/// What every refill does: it is recorded with the quota from before and after, it
/// starts a new budget segment from which nothing has been used yet, and it divides
/// what is available now over the current and the coming slots.
pub proof fn law_a_refill_starts_a_new_segment(p: PlannerModel, s: Sample)
    requires
        p.plans.len() == 7,
        0 <= p.active_slot < 7,
        p.continues(s),
        p.is_refill(s),
    ensures
        ({
            let after = advanced(Some(p), s);
            &&& after.events == with_event(p.events, p.refill_event(s))
            &&& after.segment_start == s.used()
            &&& after.last_used == s.used()
            &&& shown_used(Some(p), s) == 0
            &&& forall|slot: int|
                after.active_slot <= slot < 7 ==> after.plans[slot] == Some(
                    one_of(s.remaining(), 7 - after.active_slot),
                )
        }),
{
    lemma_fresh_split(Some(p), s);
}

/// Usage from before a refill is not charged to the budget after it.
pub proof fn law_a_refill_forgives_earlier_usage(p: PlannerModel, s: Sample, next: Sample)
    requires
        p.plans.len() == 7,
        0 <= p.active_slot < 7,
        p.continues(s),
        p.is_refill(s),
        ({
            let after = advanced(Some(p), s);
            &&& after.continues(next)
            &&& !after.is_refill(next)
            &&& after.next_slot(next) == after.active_slot
        }),
    ensures
        shown_used(Some(advanced(Some(p), s)), next) == larger(next.used() - s.used(), 0),
{
}

/// Within one weekly window a drop of the used quota by five percent is a refill.
pub proof fn law_a_large_drop_is_a_refill(p: PlannerModel, s: Sample)
    requires
        p.continues(s),
        p.last_used - s.used() >= REFILL_THRESHOLD_TICKS,
        !p.credit_confirms(s),
    ensures
        advanced(Some(p), s) == p.refilled(s),
        p.refill_event(s).kind == PlannerEventKind::QuotaRefill,
{
}

/// Returning to the whole quota is a refill, however little had been used.
pub proof fn law_a_return_to_the_whole_quota_is_a_refill(p: PlannerModel, s: Sample)
    requires
        p.continues(s),
        p.last_used > 0,
        s.used() == 0,
    ensures
        advanced(Some(p), s) == p.refilled(s),
        p.refill_event(s).amount_percent == share(p.last_used),
{
}

/// When the reset-credit count dropped at most ten minutes ago, any improvement of the
/// quota is a refill and is recorded as the use of a credit.
pub proof fn law_a_spent_credit_confirms_any_improvement(
    p: PlannerModel,
    s: Sample,
    before: u64,
    after: u64,
)
    requires
        p.continues(s),
        s.used() < p.last_used,
        ({
            ||| p.reset_credits == Some(before) && s.reset_credits == Some(after) && after < before
            ||| p.credit_drop matches Some(at) && s.now_unix - at <= CREDIT_CONFIRMATION_SECS
        }),
    ensures
        advanced(Some(p), s) == p.refilled(s),
        p.refill_event(s).kind == PlannerEventKind::ResetCreditUsed,
{
}

/// A drop of the reset-credit count is remembered until a refill explains it, also where
/// it comes with a new weekly window.
pub proof fn law_a_credit_drop_is_remembered(p: PlannerModel, s: Sample, before: u64, after: u64)
    requires
        p.continues(s) ==> !p.is_refill(s),
        p.reset_credits == Some(before),
        s.reset_credits == Some(after),
        after < before,
    ensures
        advanced(Some(p), s).credit_drop == Some(s.now_unix),
        advanced(Some(p), s).reset_credits == Some(after),
{
}

/// Samples that show neither a refill nor a new drop keep the last drop of the
/// reset-credit count in mind, over a weekly reset too.
pub proof fn law_quiet_samples_keep_a_credit_drop(p: PlannerModel, s: Sample)
    requires
        p.continues(s) ==> !p.is_refill(s),
    ensures
        advanced(Some(p), s).credit_drop == p.credit_drop || advanced(Some(p), s).credit_drop
            == Some(s.now_unix),
        p.credit_drop is Some ==> advanced(Some(p), s).credit_drop is Some,
{
}

/// When the quota improves at most ten minutes after a sample that showed a drop of the
/// reset-credit count, the improvement is recorded as the use of a credit, however small.
/// The drop may have come with the first sample of a weekly window.
pub proof fn law_an_improvement_after_a_credit_drop_is_its_use(
    p: PlannerModel,
    s: Sample,
    next: Sample,
    before: u64,
    after: u64,
)
    requires
        p.continues(s) ==> !p.is_refill(s),
        p.reset_credits == Some(before),
        s.reset_credits == Some(after),
        after < before,
        ({
            let seen = advanced(Some(p), s);
            &&& seen.continues(next)
            &&& next.used() < seen.last_used
        }),
        next.now_unix - s.now_unix <= CREDIT_CONFIRMATION_SECS,
    ensures
        ({
            let seen = advanced(Some(p), s);
            &&& advanced(Some(seen), next) == seen.refilled(next)
            &&& seen.refill_event(next).kind == PlannerEventKind::ResetCreditUsed
            &&& seen.refill_event(next).amount_percent == share(seen.last_used - next.used())
        }),
{
}

/// A small step back that nothing confirms is jitter: it is no event, it frees no
/// budget and it takes back none of the recorded usage.
pub proof fn law_a_small_step_back_is_jitter(p: PlannerModel, s: Sample)
    requires
        p.continues(s),
        0 < p.last_used - s.used() < REFILL_THRESHOLD_TICKS,
        s.used() > 0,
        !p.credit_confirms(s),
    ensures
        advanced(Some(p), s).events == p.events,
        advanced(Some(p), s).last_used == p.last_used,
        exact_plan(p) && p.next_slot(s) == p.active_slot ==> forall|slot: int|
            p.active_slot < slot < 7 ==> (#[trigger] planned(
                advanced(Some(p), s).plans,
                slot,
            )).same_size(planned(p.plans, slot)),
{
    if exact_plan(p) && p.next_slot(s) == p.active_slot {
        assert(p.brought_up_to(s).left_for_later() == p.left_for_later());
        assert forall|slot: int| p.active_slot < slot < 7 implies (#[trigger] planned(
            advanced(Some(p), s).plans,
            slot,
        )).same_size(planned(p.plans, slot)) by {
            lemma_same_pool_same_plan(p, s, slot);
        }
    }
}

/// Within a slot and without a refill, what is shown as used today never runs back.
pub proof fn law_shown_usage_never_runs_back(p: PlannerModel, s: Sample, next: Sample)
    requires
        p.plans.len() == 7,
        0 <= p.active_slot < 7,
        p.continues(s),
        !p.is_refill(s),
        ({
            let after = advanced(Some(p), s);
            &&& after.continues(next)
            &&& !after.is_refill(next)
            &&& after.next_slot(next) == after.active_slot
        }),
    ensures
        shown_used(Some(advanced(Some(p), s)), next) >= shown_used(Some(p), s),
{
}

/// A reset time that moves into a later window records the new cycle and starts a
/// fresh plan.
pub proof fn law_a_later_reset_starts_a_new_cycle(p: PlannerModel, s: Sample)
    requires
        s.reset_at_unix > p.reset_at + RESET_TIME_TOLERANCE_SECS,
    ensures
        ({
            let after = advanced(Some(p), s);
            &&& after.events == with_event(p.events, p.cycle_event(s))
            &&& p.cycle_event(s).kind == PlannerEventKind::CycleReset
            &&& after.plans == fresh_plan(s).plans
            &&& after.actuals == fresh_plan(s).actuals
            &&& after.active_slot == s.slot()
            &&& after.last_used == s.used()
            &&& shown_used(Some(p), s) == 0
        }),
{
}

/// A correction of the reset time by up to an hour keeps the weekly window: no cycle
/// event is recorded, the slot does not move back, and plans and records of the slots
/// that have closed stay.
pub proof fn law_a_small_reset_correction_keeps_the_cycle(p: PlannerModel, s: Sample)
    requires
        p.plans.len() == 7,
        p.actuals.len() == 7,
        0 <= p.active_slot < 7,
        1 <= p.version <= STATE_VERSION,
        p.duration == s.duration_minutes,
        -RESET_TIME_TOLERANCE_SECS <= s.reset_at_unix - p.reset_at <= RESET_TIME_TOLERANCE_SECS,
    ensures
        ({
            let after = advanced(Some(p), s);
            &&& p.active_slot <= after.active_slot
            &&& after.events == p.events || after.events == with_event(
                p.events,
                p.refill_event(s),
            )
            &&& p.refill_event(s).kind != PlannerEventKind::CycleReset
            &&& forall|slot: int|
                0 <= slot < p.active_slot ==> after.plans[slot] == p.plans[slot]
                    && after.actuals[slot] == p.actuals[slot]
        }),
{
}

/// No more events than the limit are kept, the newest is last, and those that are
/// kept are the most recent ones in their order.
pub proof fn law_the_most_recent_events_are_kept(events: Seq<PlannerEvent>, event: PlannerEvent)
    requires
        events.len() <= MAX_EVENTS,
    ensures
        ({
            let kept = with_event(events, event);
            let forgotten = events.len() + 1 - kept.len();
            &&& 1 <= kept.len() <= MAX_EVENTS
            &&& kept.last() == event
            &&& 0 <= forgotten <= 1
            &&& forgotten == 1 <==> events.len() == MAX_EVENTS
            &&& forall|i: int| 0 <= i < kept.len() - 1 ==> kept[i] == events[i + forgotten]
        }),
{
}

/// A sample never erases the history: the events stay as they are or gain one.
pub proof fn law_history_only_grows(p: PlannerModel, s: Sample)
    ensures
        ({
            let after = advanced(Some(p), s);
            ||| after.events == p.events
            ||| after.events == with_event(p.events, p.refill_event(s))
            ||| after.events == with_event(p.events, p.cycle_event(s))
        }),
        p.events.len() <= MAX_EVENTS ==> advanced(Some(p), s).events.len() <= MAX_EVENTS,
{
}

} // verus!
