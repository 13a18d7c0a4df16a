//! The planner between samples: the state it keeps and the view it offers.

use vstd::prelude::*;

use crate::calendar::{in_calendar, now_unix};
use crate::model::UsageSnapshot;
use crate::percent::Percent;
use crate::planner::{
    advanced, shown_budget, shown_used, PlanView, PlannerModel, PlannerState, Sample,
};

verus! {

/// The planner's state and what it last showed.
pub struct Runtime {
    pub state: Option<PlannerState>,
    pub view: Option<PlanView>,
}

/// The planner state as mathematical values, if there is one.
pub open spec fn model_of(state: Option<PlannerState>) -> Option<PlannerModel> {
    match state {
        Some(p) => Some(p@),
        None => None,
    }
}

/// The sample that a snapshot gives at a moment: there is one where the weekly window
/// and its reset time are known.
pub open spec fn sample_at(snapshot: UsageSnapshot, now: i64) -> Option<Sample> {
    match snapshot.weekly {
        Some(weekly) => match weekly.resets_at {
            Some(reset) => Some(
                Sample {
                    now_unix: now,
                    reset_at_unix: reset.unix,
                    duration_minutes: weekly.duration_minutes,
                    weekly_remaining_percent: Percent {
                        ticks: (weekly.remaining_percent * 420) as i64,
                    },
                    reset_credits: snapshot.reset_credits,
                },
            ),
            None => None,
        },
        None => None,
    }
}

impl Runtime {
    /// A planner with the state that was stored last, if any.
    pub fn new(state: Option<PlannerState>) -> (r: Self)
        ensures
            r.state == state,
            r.view is None,
    {
        Runtime { state, view: None }
    }

    /// Whether a snapshot can follow the state that is kept.
    pub open spec fn accepts(self, snapshot: UsageSnapshot) -> bool {
        match (self.state, sample_at(snapshot, 0)) {
            (Some(p), Some(s)) => p.accepts(s),
            _ => true,
        }
    }

    /// Tells whether a snapshot can follow the state that is kept.
    pub fn can_take(&self, snapshot: &UsageSnapshot) -> (r: bool)
        ensures
            r == self.accepts(*snapshot),
    {
        match (&self.state, read_sample(snapshot, 0)) {
            (Some(state), Some(sample)) => state.can_take(&sample),
            _ => true,
        }
    }

    /// Whether this is what a snapshot at a moment makes of an earlier runtime: the
    /// planner takes in the sample, or nothing changes where there is none.
    pub open spec fn follows(self, before: Runtime, snapshot: UsageSnapshot, now: i64) -> bool {
        match sample_at(snapshot, now) {
            Some(s) => {
                let model = model_of(before.state);
                &&& self.state matches Some(state)
                &&& state@ == advanced(model, s)
                &&& state.bounded()
                &&& state.in_window()
                &&& self.view matches Some(view)
                &&& view.shows(advanced(model, s), shown_used(model, s), shown_budget(model, s))
            },
            None => self == before,
        }
    }
}

/// The sample that a snapshot gives at a moment, if any.
fn read_sample(snapshot: &UsageSnapshot, now: i64) -> (r: Option<Sample>)
    ensures
        r == sample_at(*snapshot, now),
{
    let weekly = match snapshot.weekly {
        Some(weekly) => weekly,
        None => {
            return None;
        },
    };
    let reset = match weekly.resets_at {
        Some(reset) => reset,
        None => {
            return None;
        },
    };
    Some(
        Sample {
            now_unix: now,
            reset_at_unix: reset.unix,
            duration_minutes: weekly.duration_minutes,
            weekly_remaining_percent: Percent::whole(weekly.remaining_percent),
            reset_credits: snapshot.reset_credits,
        },
    )
}

/// Takes a snapshot into the planner as of a given moment. Gives whether the state has
/// advanced and is to be stored.
pub fn update_at(runtime: &mut Runtime, snapshot: &UsageSnapshot, now: i64) -> (changed: bool)
    requires
        old(runtime).accepts(*snapshot),
    ensures
        changed == (sample_at(*snapshot, now) is Some),
        final(runtime).follows(*old(runtime), *snapshot, now),
{
    let sample = match read_sample(snapshot, now) {
        Some(sample) => sample,
        None => {
            return false;
        },
    };
    let previous = runtime.state.take();
    let (state, view) = PlannerState::advance_with(previous, sample);
    runtime.state = Some(state);
    runtime.view = Some(view);
    true
}

/// Takes a snapshot into the planner as of now. Gives whether the state has advanced
/// and is to be stored.
pub fn update_from_snapshot(runtime: &mut Runtime, snapshot: &UsageSnapshot) -> (changed: bool)
    requires
        old(runtime).accepts(*snapshot),
    ensures
        changed == (sample_at(*snapshot, 0) is Some),
        exists|now: i64|
            in_calendar(now as int) && #[trigger] final(runtime).follows(
                *old(runtime),
                *snapshot,
                now,
            ),
{
    let now = now_unix();
    update_at(runtime, snapshot, now)
}

/// What the planner last showed.
pub fn current_view(runtime: &Runtime) -> (r: Option<PlanView>)
    ensures
        r == runtime.view,
{
    runtime.view
}

/// Every snapshot with a weekly window and a reset time gives a sample with just its
/// figures, whatever is left and whatever else it reports; others give none.
pub proof fn law_every_known_week_gives_a_sample(snapshot: UsageSnapshot, now: i64)
    ensures
        ({
            let sample = sample_at(snapshot, now);
            &&& sample is Some <==> snapshot.weekly is Some
                && snapshot.weekly.unwrap().resets_at is Some
            &&& sample matches Some(s) ==> {
                let weekly = snapshot.weekly.unwrap();
                &&& s.now_unix == now
                &&& s.reset_at_unix == weekly.resets_at.unwrap().unix
                &&& s.duration_minutes == weekly.duration_minutes
                &&& s.weekly_remaining_percent.ticks == 420 * weekly.remaining_percent
                &&& s.reset_credits == snapshot.reset_credits
            }
        }),
{
}

/// A snapshot with a sample leads to the state and the view that the sample makes of the
/// state before it, and one without changes nothing.
pub proof fn law_a_snapshot_is_taken_in(
    before: Runtime,
    after: Runtime,
    snapshot: UsageSnapshot,
    now: i64,
)
    requires
        after.follows(before, snapshot, now),
    ensures
        sample_at(snapshot, now) is None ==> after == before,
        sample_at(snapshot, now) matches Some(s) ==> {
            let model = match before.state {
                Some(p) => Some(p@),
                None => None,
            };
            &&& after.state is Some
            &&& after.state.unwrap()@ == advanced(model, s)
            &&& after.view is Some
            &&& after.view.unwrap().shows(
                advanced(model, s),
                shown_used(model, s),
                shown_budget(model, s),
            )
        },
{
}

} // verus!
