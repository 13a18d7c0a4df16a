//! The adaptive weekly budget: seven slots anchored to the weekly reset, a target for
//! each, and what every new quota sample does to them.

use vstd::prelude::*;

use crate::percent::{
    clamp_to, clamped, larger, max_of, min_of, one_of, share, smaller, Budget, Percent, Ratio,
    FULL_TICKS,
};

verus! {

/// The number of slots that the weekly window is divided into.
pub const SLOT_COUNT: usize = 7;

/// The version that a planner state carries once it has been advanced.
pub const STATE_VERSION: u8 = 2;

/// The longest pause after which usage is still charged to the slot that just closed.
pub const ATTRIBUTION_GAP_SECS: i64 = 300;

/// How far the reset time may move within one weekly window.
pub const RESET_TIME_TOLERANCE_SECS: i64 = 3_600;

/// How long a drop of the reset-credit count may be followed by its refill.
pub const CREDIT_CONFIRMATION_SECS: i64 = 600;

/// The drop in usage that counts as a refill by itself, in ticks: five percent.
pub const REFILL_THRESHOLD_TICKS: i64 = 2_100;

/// The number of events that are kept.
pub const MAX_EVENTS: usize = 64;

/// The largest usage, in ticks, that a planner state may hold on either side of zero.
pub const USED_LIMIT: i64 = 0x0004_0000_0000_0000;

/// The largest plan, in ticks, that a planner state may hold on either side of zero.
pub const PLAN_LIMIT: i64 = 0x0100_0000_0000_0000;

/// The largest number of parts that the plan of the active slot may be one of.
pub const ACTIVE_PARTS: i64 = 7;

/// The largest number of parts that the plan of another slot may be one of.
pub const PLAN_PARTS: i64 = 42;

/// What kind of reset or refill an event records.
#[derive(Clone, Copy, Debug, PartialEq, Eq, Structural)]
pub enum PlannerEventKind {
    CycleReset,
    QuotaRefill,
    ResetCreditUsed,
}

/// One reset or refill of the weekly quota.
#[derive(Clone, Copy, Debug, PartialEq, Eq, Structural)]
pub struct PlannerEvent {
    pub kind: PlannerEventKind,
    pub at_unix: i64,
    pub slot: usize,
    pub amount_percent: Percent,
    pub remaining_before_percent: Percent,
    pub remaining_after_percent: Percent,
    pub segment_used_before_percent: Percent,
    pub reset_at_before_unix: i64,
    pub reset_at_after_unix: i64,
}

/// What the planner remembers from one sample to the next.
#[derive(Clone, Debug)]
pub struct PlannerState {
    pub version: u8,
    pub reset_at_unix: i64,
    pub duration_minutes: u64,
    pub active_slot: usize,
    pub active_start_used_percent: Percent,
    pub last_used_percent: Percent,
    pub last_sample_unix: i64,
    pub plans: [Option<Budget>; SLOT_COUNT],
    pub actuals: [Option<Percent>; SLOT_COUNT],
    pub events: Vec<PlannerEvent>,
    /// The number of available reset credits, as last reported.
    pub reset_credits: Option<u64>,
    /// When the number of reset credits last dropped, until a refill explains it.
    pub credit_drop_unix: Option<i64>,
}

/// What the overlay shows of the plan.
#[derive(Clone, Copy, Debug)]
pub struct PlanView {
    pub active_slot: usize,
    pub fill_ratios: [Option<Ratio>; SLOT_COUNT],
    pub reset_markers: [bool; SLOT_COUNT],
    pub today_budget: Budget,
    pub today_used: Percent,
}

/// One reading of the weekly quota.
#[derive(Clone, Copy, Debug)]
pub struct Sample {
    pub now_unix: i64,
    pub reset_at_unix: i64,
    pub duration_minutes: u64,
    pub weekly_remaining_percent: Percent,
    pub reset_credits: Option<u64>,
}

/// The planner state as mathematical values.
#[verifier::ext_equal]
pub struct PlannerModel {
    pub version: u8,
    pub reset_at: int,
    pub duration: u64,
    pub active_slot: int,
    pub segment_start: int,
    pub last_used: int,
    pub last_sample: int,
    pub plans: Seq<Option<Budget>>,
    pub actuals: Seq<Option<Percent>>,
    pub events: Seq<PlannerEvent>,
    pub reset_credits: Option<u64>,
    pub credit_drop: Option<i64>,
}

impl View for PlannerState {
    type V = PlannerModel;

    open spec fn view(&self) -> PlannerModel {
        PlannerModel {
            version: self.version,
            reset_at: self.reset_at_unix as int,
            duration: self.duration_minutes,
            active_slot: self.active_slot as int,
            segment_start: self.active_start_used_percent.ticks as int,
            last_used: self.last_used_percent.ticks as int,
            last_sample: self.last_sample_unix as int,
            plans: self.plans@,
            actuals: self.actuals@,
            events: self.events@,
            reset_credits: self.reset_credits,
            credit_drop: self.credit_drop_unix,
        }
    }
}

// ---------------------------------------------------------------------------------
// Slots
// ---------------------------------------------------------------------------------

/// `x` as the nearest value that 64 signed bits can hold.
pub open spec fn saturated(x: int) -> int {
    clamped(x, i64::MIN as int, i64::MAX as int)
}

/// The 64 bits of a number of minutes, read as a signed number.
pub open spec fn signed_minutes(minutes: u64) -> int {
    if minutes <= i64::MAX {
        minutes as int
    } else {
        minutes - 0x1_0000_0000_0000_0000
    }
}

/// The length of the weekly window in seconds.
pub open spec fn window_seconds(duration_minutes: u64) -> int {
    saturated(signed_minutes(duration_minutes) * 60)
}

/// When the weekly window began.
pub open spec fn window_start(reset_at: int, duration_minutes: u64) -> int {
    saturated(reset_at - window_seconds(duration_minutes))
}

/// The slot of the weekly window that a moment lies in: the window is divided into
/// seven equal parts, and what lies outside of it counts to the nearest part.
pub open spec fn slot_at(now: int, reset_at: int, duration_minutes: u64) -> int {
    let length = window_seconds(duration_minutes);
    let start = window_start(reset_at, duration_minutes);
    if length <= 0 || now <= start {
        0
    } else {
        smaller(now - start, length - 1) * 7 / length
    }
}

/// Reads the 64 bits of a number of minutes as a signed number.
pub fn minutes_as_signed(minutes: u64) -> (r: i64)
    ensures
        r == signed_minutes(minutes),
{
    if minutes <= i64::MAX as u64 {
        minutes as i64
    } else {
        -((u64::MAX - minutes) as i64) - 1
    }
}

fn saturate(x: i128) -> (r: i64)
    ensures
        r == saturated(x as int),
{
    if x < i64::MIN as i128 {
        i64::MIN
    } else if x > i64::MAX as i128 {
        i64::MAX
    } else {
        x as i64
    }
}

/// The slot of the weekly window that a moment lies in.
pub fn slot_index(now_unix: i64, reset_at_unix: i64, duration_minutes: u64) -> (slot: usize)
    ensures
        slot == slot_at(now_unix as int, reset_at_unix as int, duration_minutes),
        slot < SLOT_COUNT,
{
    let duration_seconds = saturate(minutes_as_signed(duration_minutes) as i128 * 60);
    if duration_seconds <= 0 {
        return 0;
    }
    let start = saturate(reset_at_unix as i128 - duration_seconds as i128);
    if now_unix <= start {
        return 0;
    }
    let passed: i128 = now_unix as i128 - start as i128;
    let last: i128 = duration_seconds as i128 - 1;
    let elapsed: i128 = if passed < last {
        passed
    } else {
        last
    };
    let slot: i128 = (elapsed * 7) / duration_seconds as i128;
    assert(0 <= slot < 7) by (nonlinear_arith)
        requires
            0 <= elapsed < duration_seconds,
            slot == (elapsed * 7) / duration_seconds as int,
    ;
    slot as usize
}

// ---------------------------------------------------------------------------------
// Budgets
// ---------------------------------------------------------------------------------

/// The plans after a pool has been divided evenly over the slots from `first` on; what a
/// slot plans before `first` stays, and a pool below zero counts as nothing.
pub open spec fn even_split(plans: Seq<Option<Budget>>, first: int, pool: Budget) -> Seq<
    Option<Budget>,
> {
    Seq::new(
        7,
        |slot: int|
            if slot < first {
                plans[slot]
            } else {
                Some(one_of(larger(pool.ticks as int, 0), pool.parts * (7 - first)))
            },
    )
}

/// A whole number of ticks is divided into as many parts as there are slots.
pub proof fn lemma_split_of_whole(plans: Seq<Option<Budget>>, first: int, ticks: int)
    requires
        i64::MIN <= ticks <= i64::MAX,
    ensures
        forall|slot: int|
            0 <= slot < 7 && first <= slot ==> #[trigger] even_split(
                plans,
                first,
                one_of(ticks, 1),
            )[slot] == Some(one_of(larger(ticks, 0), 7 - first)),
{
    assert(1 * (7 - first) == 7 - first) by (nonlinear_arith);
    let parts = one_of(ticks, 1).parts;
    assert(parts * (7 - first) == 7 - first) by (nonlinear_arith)
        requires
            parts == 1,
    ;
}

/// What a slot plans; nothing planned counts as zero.
pub open spec fn planned(plans: Seq<Option<Budget>>, slot: int) -> Budget {
    match plans[slot] {
        Some(plan) => plan,
        None => one_of(0, 1),
    }
}

/// How far a budget has been used; a budget of nothing is overdrawn as soon as
/// anything is used.
pub open spec fn usage_ratio(actual: int, plan: Budget) -> Ratio {
    if plan.ticks <= 0 {
        Ratio {
            numerator: if actual > 0 {
                2
            } else {
                0
            },
            denominator: 1,
        }
    } else {
        Ratio {
            numerator: (larger(actual, 0) * plan.parts) as u64,
            denominator: plan.ticks as u64,
        }
    }
}

/// The events after one more; only the last `MAX_EVENTS` are kept.
pub open spec fn with_event(events: Seq<PlannerEvent>, event: PlannerEvent) -> Seq<PlannerEvent> {
    let all = events.push(event);
    if all.len() > MAX_EVENTS {
        all.skip(all.len() - MAX_EVENTS)
    } else {
        all
    }
}

/// Divides `remaining` evenly over the slots from `first_slot` on.
pub fn redistribute_from(
    plans: &mut [Option<Budget>; SLOT_COUNT],
    first_slot: usize,
    remaining: Percent,
)
    ensures
        final(plans)@ == even_split(
            old(plans)@,
            first_slot as int,
            one_of(remaining.ticks as int, 1),
        ),
{
    divide_from(plans, first_slot, Budget::of(remaining));
}

fn divide_from(plans: &mut [Option<Budget>; SLOT_COUNT], first_slot: usize, pool: Budget)
    requires
        1 <= pool.parts <= ACTIVE_PARTS,
    ensures
        final(plans)@ == even_split(old(plans)@, first_slot as int, pool),
{
    let ghost before = plans@;
    if first_slot < SLOT_COUNT {
        let count: i64 = (SLOT_COUNT - first_slot) as i64;
        assert(0 <= pool.parts * count <= 49) by (nonlinear_arith)
            requires
                1 <= pool.parts <= 7,
                0 <= count <= 7,
        ;
        let each = Budget { ticks: max_of(pool.ticks, 0), parts: pool.parts * count };
        let mut slot: usize = first_slot;
        while slot < SLOT_COUNT
            invariant
                first_slot <= slot <= SLOT_COUNT,
                plans@.len() == 7,
                before.len() == 7,
                forall|i: int| 0 <= i < first_slot ==> plans@[i] == before[i],
                forall|i: int| first_slot <= i < slot ==> plans@[i] == Some(each),
            decreases SLOT_COUNT - slot,
        {
            plans[slot] = Some(each);
            slot += 1;
        }
    }
    assert(plans@ =~= even_split(before, first_slot as int, pool));
}

/// How far a budget has been used.
pub fn ratio(actual: Percent, plan: Budget) -> (r: Ratio)
    requires
        plan.parts > 0,
        larger(actual.ticks as int, 0) * plan.parts <= u64::MAX,
    ensures
        r == usage_ratio(actual.ticks as int, plan),
{
    if plan.ticks <= 0 {
        if actual.ticks > 0 {
            Ratio { numerator: 2, denominator: 1 }
        } else {
            Ratio { numerator: 0, denominator: 1 }
        }
    } else {
        let used: i128 = max_of(actual.ticks, 0) as i128;
        assert(0 <= used * plan.parts) by (nonlinear_arith)
            requires
                used >= 0,
                plan.parts > 0,
        ;
        Ratio {
            numerator: (used * plan.parts as i128) as u64,
            denominator: plan.ticks as u64,
        }
    }
}

// ---------------------------------------------------------------------------------
// The step from one sample to the next
// ---------------------------------------------------------------------------------

impl Sample {
    /// The remaining quota in ticks, between nothing and all of it.
    pub open spec fn remaining(self) -> int {
        clamped(self.weekly_remaining_percent.ticks as int, 0, FULL_TICKS as int)
    }

    /// The used quota in ticks.
    pub open spec fn used(self) -> int {
        FULL_TICKS - self.remaining()
    }

    /// The slot that the sample falls into.
    pub open spec fn slot(self) -> int {
        slot_at(self.now_unix as int, self.reset_at_unix as int, self.duration_minutes)
    }
}

impl PlannerModel {
    /// Whether a sample belongs to the weekly window of this state.
    pub open spec fn continues(self, s: Sample) -> bool {
        &&& 1 <= self.version <= STATE_VERSION
        &&& self.duration == s.duration_minutes
        &&& -RESET_TIME_TOLERANCE_SECS <= s.reset_at_unix - self.reset_at
            <= RESET_TIME_TOLERANCE_SECS
    }

    /// Whether a sample's reset time lies in a later weekly window.
    pub open spec fn is_before(self, s: Sample) -> bool {
        s.reset_at_unix > self.reset_at + RESET_TIME_TOLERANCE_SECS
    }

    /// The slot that is active at a sample; it never moves back.
    pub open spec fn next_slot(self, s: Sample) -> int {
        larger(s.slot(), self.active_slot)
    }

    /// By how much the used quota has dropped.
    pub open spec fn used_drop(self, s: Sample) -> int {
        self.last_used - s.used()
    }

    /// The reset-credit count after a sample; a sample without one keeps it.
    pub open spec fn credits_after(self, s: Sample) -> Option<u64> {
        match s.reset_credits {
            Some(count) => Some(count),
            None => self.reset_credits,
        }
    }

    /// When the reset-credit count last dropped, as known at a sample.
    pub open spec fn credit_drop_at(self, s: Sample) -> Option<i64> {
        match (self.reset_credits, s.reset_credits) {
            (Some(before), Some(after)) => if after < before {
                Some(s.now_unix)
            } else {
                self.credit_drop
            },
            _ => self.credit_drop,
        }
    }

    /// Whether a refill at this sample is explained by a reset credit.
    pub open spec fn credit_confirms(self, s: Sample) -> bool {
        match self.credit_drop_at(s) {
            Some(at) => s.now_unix - at <= CREDIT_CONFIRMATION_SECS,
            None => false,
        }
    }

    /// Whether a sample shows that quota was refilled: the used quota dropped by the
    /// threshold, or it dropped to nothing, or it dropped after a credit was spent.
    pub open spec fn is_refill(self, s: Sample) -> bool {
        ||| self.used_drop(s) >= REFILL_THRESHOLD_TICKS
        ||| self.used_drop(s) > 0 && s.used() == 0
        ||| self.used_drop(s) > 0 && self.credit_confirms(s)
    }

    /// The used quota that a sample counts for; a small step back is no refund.
    pub open spec fn effective_used(self, s: Sample) -> int {
        if !self.is_refill(s) && s.used() < self.last_used {
            self.last_used
        } else {
            s.used()
        }
    }

    /// The used quota up to which the slot that closes is charged. Usage that came
    /// in unobserved, or over more than one boundary, is charged to no closed slot.
    pub open spec fn closing_used(self, s: Sample) -> int {
        if !self.is_refill(s) && self.next_slot(s) == self.active_slot + 1 && s.now_unix
            - self.last_sample <= ATTRIBUTION_GAP_SECS {
            self.effective_used(s)
        } else {
            self.last_used
        }
    }

    /// The state with its active slot brought up to a sample.
    pub open spec fn moved_to_slot(self, s: Sample) -> PlannerModel {
        let same = PlannerModel {
            version: STATE_VERSION,
            reset_at: s.reset_at_unix as int,
            reset_credits: self.credits_after(s),
            ..self
        };
        if self.next_slot(s) > self.active_slot {
            PlannerModel {
                active_slot: self.next_slot(s),
                segment_start: self.effective_used(s),
                actuals: self.actuals.update(
                    self.active_slot,
                    Some(share(clamped(self.closing_used(s) - self.segment_start, 0, FULL_TICKS as int))),
                ),
                plans: even_split(
                    self.plans,
                    self.next_slot(s),
                    one_of(FULL_TICKS - self.effective_used(s), 1),
                ),
                ..same
            }
        } else {
            same
        }
    }

    /// The event that records a refill.
    pub open spec fn refill_event(self, s: Sample) -> PlannerEvent {
        PlannerEvent {
            kind: if self.credit_confirms(s) {
                PlannerEventKind::ResetCreditUsed
            } else {
                PlannerEventKind::QuotaRefill
            },
            at_unix: s.now_unix,
            slot: self.next_slot(s) as usize,
            amount_percent: share(self.used_drop(s)),
            remaining_before_percent: share(
                clamped(FULL_TICKS - self.last_used, 0, FULL_TICKS as int),
            ),
            remaining_after_percent: share(s.remaining()),
            segment_used_before_percent: share(
                if self.next_slot(s) == self.active_slot {
                    larger(self.last_used - self.segment_start, 0)
                } else {
                    0
                },
            ),
            reset_at_before_unix: s.reset_at_unix,
            reset_at_after_unix: s.reset_at_unix,
        }
    }

    /// The state after a refill: a new budget segment begins at the sample.
    pub open spec fn refilled(self, s: Sample) -> PlannerModel {
        let moved = self.moved_to_slot(s);
        PlannerModel {
            segment_start: s.used(),
            last_used: s.used(),
            last_sample: s.now_unix as int,
            plans: even_split(moved.plans, moved.active_slot, one_of(s.remaining(), 1)),
            events: with_event(self.events, self.refill_event(s)),
            credit_drop: None,
            ..moved
        }
    }

    /// What has been used of the active slot's budget, in ticks.
    pub open spec fn used_today(self) -> int {
        larger(self.last_used - self.segment_start, 0)
    }

    /// The budget of the active slot.
    pub open spec fn budget_today(self) -> Budget {
        planned(self.plans, self.active_slot).at_least_nothing()
    }

    /// What stays set aside for the rest of today: what is left of the budget, but no
    /// more than remains of the week.
    pub open spec fn kept_for_today(self) -> Budget {
        let budget = self.budget_today();
        one_of(
            smaller(
                larger(budget.ticks - self.used_today() * budget.parts, 0),
                (FULL_TICKS - self.last_used) * budget.parts,
            ),
            budget.parts as int,
        )
    }

    /// What remains of the week beside what is set aside for today.
    pub open spec fn left_for_later(self) -> Budget {
        let kept = self.kept_for_today();
        one_of((FULL_TICKS - self.last_used) * kept.parts - kept.ticks, kept.parts as int)
    }

    /// The state with its slot and its usage brought up to a sample without a refill.
    pub open spec fn brought_up_to(self, s: Sample) -> PlannerModel {
        PlannerModel {
            last_used: self.effective_used(s),
            last_sample: s.now_unix as int,
            credit_drop: self.credit_drop_at(s),
            ..self.moved_to_slot(s)
        }
    }

    /// The state after ordinary usage: the active slot keeps its plan, and the slots
    /// after it share what is not set aside for today.
    pub open spec fn progressed(self, s: Sample) -> PlannerModel {
        let current = self.brought_up_to(s);
        PlannerModel {
            plans: even_split(
                current.plans,
                current.active_slot + 1,
                current.left_for_later(),
            ),
            ..current
        }
    }

    /// The event that records a new weekly window.
    pub open spec fn cycle_event(self, s: Sample) -> PlannerEvent {
        let before = clamped(FULL_TICKS - self.last_used, 0, FULL_TICKS as int);
        PlannerEvent {
            kind: PlannerEventKind::CycleReset,
            at_unix: s.now_unix,
            slot: s.slot() as usize,
            amount_percent: share(larger(s.remaining() - before, 0)),
            remaining_before_percent: share(before),
            remaining_after_percent: share(s.remaining()),
            segment_used_before_percent: share(larger(self.last_used - self.segment_start, 0)),
            reset_at_before_unix: self.reset_at as i64,
            reset_at_after_unix: s.reset_at_unix,
        }
    }

    /// The state after a sample of another weekly window: a fresh plan that keeps the
    /// event history and what is known of the reset credits.
    pub open spec fn started_over(self, s: Sample) -> PlannerModel {
        PlannerModel {
            events: if self.is_before(s) {
                with_event(self.events, self.cycle_event(s))
            } else {
                self.events
            },
            reset_credits: self.credits_after(s),
            credit_drop: self.credit_drop_at(s),
            ..fresh_plan(s)
        }
    }
}

/// The state that a first sample gives: what remains is divided evenly over the
/// current and the coming slots.
pub open spec fn fresh_plan(s: Sample) -> PlannerModel {
    PlannerModel {
        version: STATE_VERSION,
        reset_at: s.reset_at_unix as int,
        duration: s.duration_minutes,
        active_slot: s.slot(),
        segment_start: s.used(),
        last_used: s.used(),
        last_sample: s.now_unix as int,
        plans: even_split(
            Seq::new(7, |slot: int| None::<Budget>),
            s.slot(),
            one_of(s.remaining(), 1),
        ),
        actuals: Seq::new(7, |slot: int| None::<Percent>),
        events: Seq::empty(),
        reset_credits: s.reset_credits,
        credit_drop: None,
    }
}

/// The planner state after a sample.
pub open spec fn advanced(previous: Option<PlannerModel>, s: Sample) -> PlannerModel {
    match previous {
        None => fresh_plan(s),
        Some(p) => if !p.continues(s) {
            p.started_over(s)
        } else if p.is_refill(s) {
            p.refilled(s)
        } else {
            p.progressed(s)
        },
    }
}

/// What is shown as used today after a sample, in ticks.
pub open spec fn shown_used(previous: Option<PlannerModel>, s: Sample) -> int {
    match previous {
        Some(p) => if p.continues(s) && !p.is_refill(s) {
            p.brought_up_to(s).used_today()
        } else {
            0
        },
        None => 0,
    }
}

/// What is shown as today's budget after a sample: the plan of the active slot.
pub open spec fn shown_budget(previous: Option<PlannerModel>, s: Sample) -> Budget {
    advanced(previous, s).budget_today()
}

/// How far each slot has been used: a closed slot by what was recorded against its
/// plan, the active one by today's figures, and none of the coming ones.
pub open spec fn slot_ratios(m: PlannerModel, today_used: int, today_budget: Budget) -> Seq<
    Option<Ratio>,
> {
    Seq::new(
        7,
        |slot: int|
            if slot < m.active_slot {
                match (m.actuals[slot], m.plans[slot]) {
                    (Some(actual), Some(plan)) => Some(usage_ratio(actual.ticks as int, plan)),
                    _ => None,
                }
            } else if slot == m.active_slot {
                Some(usage_ratio(today_used, today_budget))
            } else {
                Some(Ratio { numerator: 0, denominator: 1 })
            },
    )
}

/// Whether an event of the current weekly window fell into a slot.
pub open spec fn is_marked(m: PlannerModel, slot: int) -> bool {
    exists|i: int|
        0 <= i < m.events.len() && (#[trigger] m.events[i]).slot == slot
            && m.events[i].reset_at_after_unix == m.reset_at
}

impl PlanView {
    /// Whether the view shows a planner state with today's figures.
    pub open spec fn shows(self, m: PlannerModel, today_used: int, today_budget: Budget) -> bool {
        &&& self.active_slot == m.active_slot
        &&& self.fill_ratios@ == slot_ratios(m, today_used, today_budget)
        &&& forall|slot: int|
            0 <= slot < 7 ==> #[trigger] self.reset_markers@[slot] == is_marked(m, slot)
        &&& self.today_used.ticks == today_used
        &&& self.today_budget == today_budget
    }
}

/// Whether a plan is small enough to be reckoned with and one of at most so many parts.
pub open spec fn plan_in_limits(plan: Option<Budget>, parts: i64) -> bool {
    plan matches Some(b) ==> -PLAN_LIMIT <= b.ticks <= PLAN_LIMIT && 1 <= b.parts <= parts
}

/// Whether a recorded share is small enough to be reckoned with.
pub open spec fn actual_in_limits(actual: Option<Percent>) -> bool {
    actual matches Some(p) ==> -PLAN_LIMIT <= p.ticks <= PLAN_LIMIT
}

/// The largest number of parts that the plan of a slot may be one of.
pub open spec fn parts_limit(slot: int, active_slot: int) -> i64 {
    if slot == active_slot {
        ACTIVE_PARTS
    } else {
        PLAN_PARTS
    }
}

impl PlannerModel {
    /// Whether the figures of the state are small enough to be reckoned with.
    pub open spec fn bounded(self) -> bool {
        &&& -USED_LIMIT <= self.segment_start <= USED_LIMIT
        &&& -USED_LIMIT <= self.last_used <= USED_LIMIT
        &&& self.plans.len() == 7
        &&& self.actuals.len() == 7
        &&& forall|i: int|
            0 <= i < 7 ==> plan_in_limits(#[trigger] self.plans[i], parts_limit(i, self.active_slot))
        &&& forall|i: int| 0 <= i < 7 ==> actual_in_limits(#[trigger] self.actuals[i])
    }
}

impl PlannerState {
    /// Whether the figures of the state are small enough to be reckoned with.
    pub open spec fn bounded(self) -> bool {
        self@.bounded()
    }

    /// Whether the active slot is one of the seven.
    pub open spec fn in_window(self) -> bool {
        self.active_slot < SLOT_COUNT
    }

    /// Whether a sample can follow this state.
    pub open spec fn accepts(self, s: Sample) -> bool {
        &&& self.bounded()
        &&& self@.continues(s) ==> self.in_window()
    }

    /// Tells whether the figures of the state are small enough to be reckoned with.
    pub fn is_bounded(&self) -> (r: bool)
        ensures
            r == self.bounded(),
    {
        let start = self.active_start_used_percent.ticks;
        let last = self.last_used_percent.ticks;
        if start < -USED_LIMIT || start > USED_LIMIT || last < -USED_LIMIT || last > USED_LIMIT {
            return false;
        }
        let mut slot: usize = 0;
        while slot < SLOT_COUNT
            invariant
                slot <= SLOT_COUNT,
                forall|i: int|
                    0 <= i < slot ==> plan_in_limits(
                        #[trigger] self@.plans[i],
                        parts_limit(i, self@.active_slot),
                    ),
                forall|i: int| 0 <= i < slot ==> actual_in_limits(#[trigger] self@.actuals[i]),
            decreases SLOT_COUNT - slot,
        {
            assert(self@.plans[slot as int] == self.plans[slot as int]);
            assert(self@.actuals[slot as int] == self.actuals[slot as int]);
            let parts = if slot == self.active_slot {
                ACTIVE_PARTS
            } else {
                PLAN_PARTS
            };
            if let Some(plan) = self.plans[slot] {
                if plan.ticks < -PLAN_LIMIT || plan.ticks > PLAN_LIMIT || plan.parts < 1
                    || plan.parts > parts {
                    return false;
                }
            }
            if let Some(actual) = self.actuals[slot] {
                if actual.ticks < -PLAN_LIMIT || actual.ticks > PLAN_LIMIT {
                    return false;
                }
            }
            slot += 1;
        }
        true
    }

    /// Tells whether a sample can follow this state.
    pub fn can_take(&self, s: &Sample) -> (r: bool)
        ensures
            r == self.accepts(*s),
    {
        self.is_bounded() && (self.active_slot < SLOT_COUNT || !self.belongs_with(s))
    }

    fn fresh(s: &Sample) -> (state: Self)
        ensures
            state@ == fresh_plan(*s),
            state.bounded(),
            state.in_window(),
    {
        let remaining = clamp_to(s.weekly_remaining_percent.ticks, 0, FULL_TICKS);
        let used = Percent { ticks: FULL_TICKS - remaining };
        let active_slot = slot_index(s.now_unix, s.reset_at_unix, s.duration_minutes);
        let actuals: [Option<Percent>; SLOT_COUNT] = [None, None, None, None, None, None, None];
        let mut plans: [Option<Budget>; SLOT_COUNT] = [None, None, None, None, None, None, None];
        assert(plans@ =~= Seq::new(7, |slot: int| None::<Budget>));
        assert(actuals@ =~= Seq::new(7, |slot: int| None::<Percent>));
        proof {
            lemma_split_of_whole(plans@, active_slot as int, remaining as int);
        }
        redistribute_from(&mut plans, active_slot, Percent { ticks: remaining });
        let state = PlannerState {
            version: STATE_VERSION,
            reset_at_unix: s.reset_at_unix,
            duration_minutes: s.duration_minutes,
            active_slot,
            active_start_used_percent: used,
            last_used_percent: used,
            last_sample_unix: s.now_unix,
            plans,
            actuals,
            events: Vec::new(),
            reset_credits: s.reset_credits,
            credit_drop_unix: None,
        };
        state
    }

    /// Records an event. Only the most recent ones are kept, in their order, and nothing
    /// else changes.
    pub fn push_event(&mut self, event: PlannerEvent)
        ensures
            final(self)@ == (PlannerModel {
                events: with_event(old(self)@.events, event),
                ..old(self)@
            }),
            final(self).events@.last() == event,
            old(self).events@.len() < MAX_EVENTS ==> final(self).events@ == old(self).events@.push(
                event,
            ),
            old(self).events@.len() == MAX_EVENTS ==> final(self).events@ == old(
                self,
            ).events@.drop_first().push(event),
            final(self).events@.len() == smaller(
                (old(self).events@.len() + 1) as int,
                MAX_EVENTS as int,
            ),
    {
        let ghost all = self.events@.push(event);
        self.events.push(event);
        let ghost mut dropped: int = 0;
        while self.events.len() > MAX_EVENTS
            invariant
                self@ == (PlannerModel { events: all.skip(dropped), ..old(self)@ }),
                0 <= dropped <= all.len(),
                dropped > 0 ==> self.events.len() >= MAX_EVENTS,
            decreases self.events.len(),
        {
            self.events.remove(0);
            proof {
                dropped = dropped + 1;
                assert(self.events@ =~= all.skip(dropped));
            }
        }
        assert(self.events@ =~= with_event(old(self)@.events, event));
    }

    fn view_of(&self, today_used: Percent, today_budget: Budget) -> (view: PlanView)
        requires
            self.bounded(),
            self.in_window(),
            0 <= today_used.ticks <= PLAN_LIMIT,
            1 <= today_budget.parts <= ACTIVE_PARTS,
        ensures
            view.shows(self@, today_used.ticks as int, today_budget),
    {
        let mut fill_ratios: [Option<Ratio>; SLOT_COUNT] = [
            None,
            None,
            None,
            None,
            None,
            None,
            None,
        ];
        let ghost wanted = slot_ratios(self@, today_used.ticks as int, today_budget);
        let mut slot: usize = 0;
        while slot < SLOT_COUNT
            invariant
                slot <= SLOT_COUNT,
                self.bounded(),
                self.in_window(),
                0 <= today_used.ticks <= PLAN_LIMIT,
                1 <= today_budget.parts <= ACTIVE_PARTS,
                wanted == slot_ratios(self@, today_used.ticks as int, today_budget),
                fill_ratios@.len() == 7,
                forall|i: int| 0 <= i < slot ==> fill_ratios@[i] == wanted[i],
            decreases SLOT_COUNT - slot,
        {
            if slot < self.active_slot {
                assert(self@.plans[slot as int] == self.plans[slot as int]);
                assert(self@.actuals[slot as int] == self.actuals[slot as int]);
                fill_ratios[slot] = match (self.actuals[slot], self.plans[slot]) {
                    (Some(actual), Some(plan)) => {
                        proof {
                            lemma_ratio_fits(actual.ticks as int, plan.parts as int);
                        }
                        Some(ratio(actual, plan))
                    },
                    _ => None,
                };
            } else if slot == self.active_slot {
                proof {
                    lemma_ratio_fits(today_used.ticks as int, today_budget.parts as int);
                }
                fill_ratios[slot] = Some(ratio(today_used, today_budget));
            } else {
                fill_ratios[slot] = Some(Ratio { numerator: 0, denominator: 1 });
            }
            slot += 1;
        }
        assert(fill_ratios@ =~= wanted);

        let mut reset_markers: [bool; SLOT_COUNT] = [
            false,
            false,
            false,
            false,
            false,
            false,
            false,
        ];
        let mut i: usize = 0;
        while i < self.events.len()
            invariant
                i <= self.events.len(),
                reset_markers@.len() == 7,
                forall|k: int|
                    0 <= k < 7 ==> (#[trigger] reset_markers@[k] <==> exists|j: int|
                        0 <= j < i && (#[trigger] self.events@[j]).slot == k
                            && self.events@[j].reset_at_after_unix == self.reset_at_unix),
            decreases self.events.len() - i,
        {
            let event = self.events[i];
            let ghost before = reset_markers@;
            if event.reset_at_after_unix == self.reset_at_unix && event.slot < SLOT_COUNT {
                reset_markers[event.slot] = true;
            }
            assert(self.events@[i as int] == event);
            i += 1;
            assert forall|k: int| 0 <= k < 7 implies (#[trigger] reset_markers@[k] <==> exists|
                j: int,
            |
                0 <= j < i && (#[trigger] self.events@[j]).slot == k
                    && self.events@[j].reset_at_after_unix == self.reset_at_unix) by {
                assert(before[k] ==> reset_markers@[k]);
                if reset_markers@[k] && !before[k] {
                    assert(self.events@[i - 1].slot == k);
                }
            }
        }
        PlanView {
            active_slot: self.active_slot,
            fill_ratios,
            reset_markers,
            today_budget,
            today_used,
        }
    }

    /// Takes in one sample without a reset-credit count, and gives the next state and
    /// what to show of it.
    pub fn advance(
        previous: Option<Self>,
        now_unix: i64,
        reset_at_unix: i64,
        duration_minutes: u64,
        weekly_remaining_percent: Percent,
    ) -> (r: (Self, PlanView))
        requires
            previous matches Some(p) ==> p.accepts(
                sample_of(now_unix, reset_at_unix, duration_minutes, weekly_remaining_percent),
            ),
        ensures
            ({
                let before = match previous {
                    Some(p) => Some(p@),
                    None => None,
                };
                let s = sample_of(
                    now_unix,
                    reset_at_unix,
                    duration_minutes,
                    weekly_remaining_percent,
                );
                &&& r.0@ == advanced(before, s)
                &&& r.1.shows(r.0@, shown_used(before, s), shown_budget(before, s))
            }),
            r.0.bounded(),
            r.0.in_window(),
    {
        Self::advance_with(
            previous,
            Sample {
                now_unix,
                reset_at_unix,
                duration_minutes,
                weekly_remaining_percent,
                reset_credits: None,
            },
        )
    }

    /// Takes in one sample, and gives the next state and what to show of it.
    pub fn advance_with(previous: Option<Self>, s: Sample) -> (r: (Self, PlanView))
        requires
            previous matches Some(p) ==> p.accepts(s),
        ensures
            ({
                let before = match previous {
                    Some(p) => Some(p@),
                    None => None,
                };
                &&& r.0@ == advanced(before, s)
                &&& r.1.shows(r.0@, shown_used(before, s), shown_budget(before, s))
            }),
            r.0.bounded(),
            r.0.in_window(),
    {
        match previous {
            None => {
                let state = Self::fresh(&s);
                let budget = state.active_plan();
                let view = state.view_of(Percent { ticks: 0 }, budget);
                (state, view)
            },
            Some(state) => {
                if state.belongs_with(&s) {
                    state.step(&s)
                } else {
                    let fresh = state.start_over(&s);
                    let budget = fresh.active_plan();
                    let view = fresh.view_of(Percent { ticks: 0 }, budget);
                    (fresh, view)
                }
            },
        }
    }

    /// The plan of the active slot; nothing planned counts as zero.
    fn active_plan(&self) -> (r: Budget)
        requires
            self.bounded(),
            self.in_window(),
        ensures
            r == self@.budget_today(),
            0 <= r.ticks <= PLAN_LIMIT,
            1 <= r.parts <= ACTIVE_PARTS,
    {
        assert(self@.plans[self@.active_slot] == self.plans[self.active_slot as int]);
        match self.plans[self.active_slot] {
            Some(plan) => Budget { ticks: max_of(plan.ticks, 0), parts: plan.parts },
            None => Budget { ticks: 0, parts: 1 },
        }
    }

    /// Whether a sample belongs to the weekly window of this state.
    pub fn belongs_with(&self, s: &Sample) -> (r: bool)
        ensures
            r == self@.continues(*s),
    {
        let moved: i128 = s.reset_at_unix as i128 - self.reset_at_unix as i128;
        1 <= self.version && self.version <= STATE_VERSION && self.duration_minutes
            == s.duration_minutes && -(RESET_TIME_TOLERANCE_SECS as i128) <= moved && moved
            <= RESET_TIME_TOLERANCE_SECS as i128
    }

    fn credits_with(&self, s: &Sample) -> (r: Option<u64>)
        ensures
            r == self@.credits_after(*s),
    {
        match s.reset_credits {
            Some(count) => Some(count),
            None => self.reset_credits,
        }
    }

    fn start_over(self, s: &Sample) -> (state: Self)
        requires
            self.bounded(),
        ensures
            state@ == self@.started_over(*s),
            state.bounded(),
            state.in_window(),
    {
        let previous_reset = self.reset_at_unix;
        let last_used = self.last_used_percent.ticks;
        let previous_remaining = clamp_to(FULL_TICKS - last_used, 0, FULL_TICKS);
        let segment_used = max_of(last_used - self.active_start_used_percent.ticks, 0);
        let remaining = clamp_to(s.weekly_remaining_percent.ticks, 0, FULL_TICKS);
        let credits = self.credits_with(s);
        let credit_drop = self.credit_drop_with(s);
        let mut state = Self::fresh(s);
        let slot = state.active_slot;
        state.events = self.events;
        state.reset_credits = credits;
        state.credit_drop_unix = credit_drop;
        if s.reset_at_unix as i128 > previous_reset as i128 + RESET_TIME_TOLERANCE_SECS as i128 {
            state.push_event(
                PlannerEvent {
                    kind: PlannerEventKind::CycleReset,
                    at_unix: s.now_unix,
                    slot,
                    amount_percent: Percent { ticks: max_of(remaining - previous_remaining, 0) },
                    remaining_before_percent: Percent { ticks: previous_remaining },
                    remaining_after_percent: Percent { ticks: remaining },
                    segment_used_before_percent: Percent { ticks: segment_used },
                    reset_at_before_unix: previous_reset,
                    reset_at_after_unix: s.reset_at_unix,
                },
            );
        }
        state
    }

    fn credit_drop_with(&self, s: &Sample) -> (r: Option<i64>)
        ensures
            r == self@.credit_drop_at(*s),
    {
        match (self.reset_credits, s.reset_credits) {
            (Some(before), Some(after)) => if after < before {
                Some(s.now_unix)
            } else {
                self.credit_drop_unix
            },
            _ => self.credit_drop_unix,
        }
    }

    fn confirmed_by_credit(&self, s: &Sample) -> (r: bool)
        ensures
            r == self@.credit_confirms(*s),
    {
        match self.credit_drop_with(s) {
            Some(at) => s.now_unix as i128 - at as i128 <= CREDIT_CONFIRMATION_SECS as i128,
            None => false,
        }
    }

    /// Tells whether a sample shows that quota was refilled.
    pub fn sees_refill(&self, s: &Sample) -> (r: bool)
        requires
            self.bounded(),
        ensures
            r == self@.is_refill(*s),
    {
        let used = FULL_TICKS - clamp_to(s.weekly_remaining_percent.ticks, 0, FULL_TICKS);
        let used_drop = self.last_used_percent.ticks - used;
        used_drop >= REFILL_THRESHOLD_TICKS || (used_drop > 0 && (used == 0
            || self.confirmed_by_credit(s)))
    }

    // A small step back is jitter of the report: it gives no budget back.
    fn count_used(&self, s: &Sample) -> (r: i64)
        requires
            self.bounded(),
        ensures
            r == self@.effective_used(*s),
            -USED_LIMIT <= r <= USED_LIMIT,
    {
        let used = FULL_TICKS - clamp_to(s.weekly_remaining_percent.ticks, 0, FULL_TICKS);
        if !self.sees_refill(s) && used < self.last_used_percent.ticks {
            self.last_used_percent.ticks
        } else {
            used
        }
    }

    // The plan never moves back to an earlier slot, whatever the reset time does.
    fn slot_with(&self, s: &Sample) -> (r: usize)
        requires
            self.in_window(),
        ensures
            r == self@.next_slot(*s),
            r < SLOT_COUNT,
    {
        let computed = slot_index(s.now_unix, s.reset_at_unix, s.duration_minutes);
        if computed < self.active_slot {
            self.active_slot
        } else {
            computed
        }
    }

    fn move_to_slot(self, s: &Sample) -> (state: Self)
        requires
            self.bounded(),
            self.in_window(),
        ensures
            state@ == self@.moved_to_slot(*s),
            state.bounded(),
            state.in_window(),
    {
        let credits = self.credits_with(s);
        let active_slot = self.slot_with(s);
        let is_refill = self.sees_refill(s);
        let effective_used = self.count_used(s);
        let previous_slot = self.active_slot;
        let last_used = self.last_used_percent.ticks;
        let segment_start = self.active_start_used_percent.ticks;
        let observed = s.now_unix as i128 - self.last_sample_unix as i128
            <= ATTRIBUTION_GAP_SECS as i128;
        let mut state = self;
        state.version = STATE_VERSION;
        state.reset_at_unix = s.reset_at_unix;
        state.reset_credits = credits;
        if active_slot > previous_slot {
            let closing_used = if !is_refill && active_slot == previous_slot + 1 && observed {
                effective_used
            } else {
                last_used
            };
            let actual = clamp_to(closing_used - segment_start, 0, FULL_TICKS);
            state.actuals[previous_slot] = Some(Percent { ticks: actual });
            state.active_slot = active_slot;
            state.active_start_used_percent = Percent { ticks: effective_used };
            proof {
                lemma_split_of_whole(
                    state.plans@,
                    active_slot as int,
                    FULL_TICKS - effective_used,
                );
            }
            redistribute_from(
                &mut state.plans,
                active_slot,
                Percent { ticks: FULL_TICKS - effective_used },
            );
        }
        state
    }

    // Usage from before a refill stays in the event and is not charged to the new
    // budget.
    fn refill(self, s: &Sample) -> (state: Self)
        requires
            self.bounded(),
            self.in_window(),
        ensures
            state@ == self@.refilled(*s),
            state.bounded(),
            state.in_window(),
    {
        let remaining = clamp_to(s.weekly_remaining_percent.ticks, 0, FULL_TICKS);
        let used = FULL_TICKS - remaining;
        let confirmed = self.confirmed_by_credit(s);
        let active_slot = self.slot_with(s);
        let previous_slot = self.active_slot;
        let last_used = self.last_used_percent.ticks;
        let before = clamp_to(FULL_TICKS - last_used, 0, FULL_TICKS);
        let segment_used = if active_slot == previous_slot {
            max_of(last_used - self.active_start_used_percent.ticks, 0)
        } else {
            0
        };
        let event = PlannerEvent {
            kind: if confirmed {
                PlannerEventKind::ResetCreditUsed
            } else {
                PlannerEventKind::QuotaRefill
            },
            at_unix: s.now_unix,
            slot: active_slot,
            amount_percent: Percent { ticks: last_used - used },
            remaining_before_percent: Percent { ticks: before },
            remaining_after_percent: Percent { ticks: remaining },
            segment_used_before_percent: Percent { ticks: segment_used },
            reset_at_before_unix: s.reset_at_unix,
            reset_at_after_unix: s.reset_at_unix,
        };
        assert(event == self@.refill_event(*s));
        let mut state = self.move_to_slot(s);
        state.push_event(event);
        state.active_start_used_percent = Percent { ticks: used };
        proof {
            lemma_split_of_whole(state.plans@, active_slot as int, remaining as int);
        }
        redistribute_from(&mut state.plans, active_slot, Percent { ticks: remaining });
        state.last_used_percent = Percent { ticks: used };
        state.last_sample_unix = s.now_unix;
        state.credit_drop_unix = None;
        state
    }

    // What is not set aside for the rest of today, for the slots after the active one.
    fn later_pool(&self) -> (r: Budget)
        requires
            self.bounded(),
            self.in_window(),
        ensures
            r == self@.left_for_later(),
            0 <= r.ticks <= PLAN_LIMIT,
            1 <= r.parts <= ACTIVE_PARTS,
    {
        let budget = self.active_plan();
        let used = max_of(self.last_used_percent.ticks - self.active_start_used_percent.ticks, 0);
        let remaining = FULL_TICKS - self.last_used_percent.ticks;
        let parts = budget.parts;
        assert(0 <= used * parts <= 7 * (2 * USED_LIMIT) && -7 * (USED_LIMIT + FULL_TICKS)
            <= remaining * parts <= 7 * (USED_LIMIT + FULL_TICKS)) by (nonlinear_arith)
            requires
                0 <= used <= 2 * USED_LIMIT,
                -(USED_LIMIT + FULL_TICKS) <= remaining <= USED_LIMIT + FULL_TICKS,
                1 <= parts <= 7,
        ;
        let kept = min_of(max_of(budget.ticks - used * parts, 0), remaining * parts);
        Budget { ticks: remaining * parts - kept, parts }
    }

    fn progress(self, s: &Sample) -> (r: (Self, PlanView))
        requires
            self.bounded(),
            self.in_window(),
        ensures
            r.0@ == self@.progressed(*s),
            r.1.shows(
                r.0@,
                self@.brought_up_to(*s).used_today(),
                self@.brought_up_to(*s).budget_today(),
            ),
            r.0.bounded(),
            r.0.in_window(),
    {
        let credit_drop = self.credit_drop_with(s);
        let effective_used = self.count_used(s);
        let mut state = self.move_to_slot(s);
        state.last_used_percent = Percent { ticks: effective_used };
        state.last_sample_unix = s.now_unix;
        state.credit_drop_unix = credit_drop;
        let ghost current = state@;
        assert(current == self@.brought_up_to(*s));
        let today_used = max_of(effective_used - state.active_start_used_percent.ticks, 0);
        let today_budget = state.active_plan();
        let pool = state.later_pool();
        let active_slot = state.active_slot;
        divide_from(&mut state.plans, active_slot + 1, pool);
        proof {
            assert(state@ == self@.progressed(*s));
            let count = 7 - (active_slot + 1);
            assert(count >= 1 ==> 1 <= pool.parts * count <= 42) by (nonlinear_arith)
                requires
                    1 <= pool.parts <= 7,
                    count <= 6,
            ;
            assert forall|i: int| 0 <= i < 7 implies plan_in_limits(
                #[trigger] state@.plans[i],
                parts_limit(i, state@.active_slot),
            ) by {
                assert(plan_in_limits(current.plans[i], parts_limit(i, current.active_slot)));
            }
        }
        let view = state.view_of(Percent { ticks: today_used }, today_budget);
        (state, view)
    }

    fn step(self, s: &Sample) -> (r: (Self, PlanView))
        requires
            self.bounded(),
            self.in_window(),
            self@.continues(*s),
        ensures
            r.0@ == advanced(Some(self@), *s),
            r.1.shows(r.0@, shown_used(Some(self@), *s), shown_budget(Some(self@), *s)),
            r.0.bounded(),
            r.0.in_window(),
    {
        if self.sees_refill(s) {
            let state = self.refill(s);
            let budget = state.active_plan();
            let view = state.view_of(Percent { ticks: 0 }, budget);
            (state, view)
        } else {
            let (state, view) = self.progress(s);
            proof {
                let current = self@.brought_up_to(*s);
                assert(state@.plans[current.active_slot] == current.plans[current.active_slot]);
            }
            (state, view)
        }
    }
}

proof fn lemma_ratio_fits(actual: int, parts: int)
    requires
        actual <= PLAN_LIMIT,
        1 <= parts <= PLAN_PARTS,
    ensures
        0 <= larger(actual, 0) * parts <= u64::MAX,
{
    assert(0 <= larger(actual, 0) * parts <= PLAN_LIMIT * 42) by (nonlinear_arith)
        requires
            0 <= larger(actual, 0) <= PLAN_LIMIT,
            1 <= parts <= 42,
    ;
}

/// The sample with the given figures and no reset-credit count.
pub open spec fn sample_of(
    now_unix: i64,
    reset_at_unix: i64,
    duration_minutes: u64,
    weekly_remaining_percent: Percent,
) -> Sample {
    Sample {
        now_unix,
        reset_at_unix,
        duration_minutes,
        weekly_remaining_percent,
        reset_credits: None,
    }
}

} // verus!
