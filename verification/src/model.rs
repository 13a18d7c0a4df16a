//! What is known of the quota at one moment.

use vstd::prelude::*;

use crate::calendar::LocalTime;

verus! {

/// The length of a seven-day window in minutes.
pub const WEEK_MINUTES: u64 = 10_080;

/// One rate-limit window.
#[derive(Clone, Copy, Debug, PartialEq, Eq, Structural)]
pub struct LimitWindow {
    pub duration_minutes: u64,
    pub remaining_percent: u8,
    pub resets_at: Option<LocalTime>,
}

/// Why there is no quota to show.
#[derive(Clone, Copy, Debug, PartialEq, Eq, Structural)]
pub enum UsageStatus {
    Connecting,
    Retrying,
}

/// One reading of the rate limits.
#[derive(Clone, Copy, Debug, PartialEq, Eq, Structural)]
pub struct UsageSnapshot {
    pub primary: Option<LimitWindow>,
    pub weekly: Option<LimitWindow>,
    pub status: Option<UsageStatus>,
    pub sampled_at: Option<LocalTime>,
    /// The number of available reset credits, where it was reported.
    pub reset_credits: Option<u64>,
}

/// Whether a reported window is a seven-day window.
pub open spec fn is_week(window: Option<LimitWindow>) -> bool {
    window matches Some(w) && w.duration_minutes == WEEK_MINUTES
}

/// The seven-day window among two reported ones.
pub open spec fn week_among(first: Option<LimitWindow>, second: Option<LimitWindow>) -> Option<
    LimitWindow,
> {
    if is_week(first) {
        first
    } else if is_week(second) {
        second
    } else {
        None
    }
}

/// The other window among two reported ones.
pub open spec fn other_among(first: Option<LimitWindow>, second: Option<LimitWindow>) -> Option<
    LimitWindow,
> {
    if first is Some && !is_week(first) {
        first
    } else if second is Some && !is_week(second) {
        second
    } else {
        None
    }
}

impl LimitWindow {
    /// Whether the reset time, where there is one, can be shown.
    pub open spec fn valid(self) -> bool {
        self.resets_at matches Some(t) ==> t.valid()
    }

    fn lasts_a_week(&self) -> (r: bool)
        ensures
            r == is_week(Some(*self)),
    {
        self.duration_minutes == WEEK_MINUTES
    }
}

impl UsageSnapshot {
    /// No quota yet: the first reading is still awaited.
    pub fn connecting() -> (r: Self)
        ensures
            r == (UsageSnapshot {
                primary: None,
                weekly: None,
                status: Some(UsageStatus::Connecting),
                sampled_at: None,
                reset_credits: None,
            }),
    {
        UsageSnapshot {
            primary: None,
            weekly: None,
            status: Some(UsageStatus::Connecting),
            sampled_at: None,
            reset_credits: None,
        }
    }

    /// No quota: the last reading failed and is tried again.
    pub fn retrying() -> (r: Self)
        ensures
            r == (UsageSnapshot {
                primary: None,
                weekly: None,
                status: Some(UsageStatus::Retrying),
                sampled_at: None,
                reset_credits: None,
            }),
    {
        UsageSnapshot {
            primary: None,
            weekly: None,
            status: Some(UsageStatus::Retrying),
            sampled_at: None,
            reset_credits: None,
        }
    }

    /// A reading of two windows, told apart by how long they last.
    pub fn from_windows(
        first: Option<LimitWindow>,
        second: Option<LimitWindow>,
        sampled_at: Option<LocalTime>,
        reset_credits: Option<u64>,
    ) -> (r: Self)
        ensures
            r == (UsageSnapshot {
                primary: other_among(first, second),
                weekly: week_among(first, second),
                status: None,
                sampled_at,
                reset_credits,
            }),
            first matches Some(w) && w.duration_minutes == 10_080 ==> r.weekly == first,
            second matches Some(w) && w.duration_minutes == 10_080 && !(first matches Some(v)
                && v.duration_minutes == 10_080) ==> r.weekly == second,
            r.weekly matches Some(w) ==> w.duration_minutes == 10_080,
            r.primary matches Some(w) ==> w.duration_minutes != 10_080,
    {
        let mut primary: Option<LimitWindow> = None;
        let mut weekly: Option<LimitWindow> = None;
        if let Some(window) = second {
            if window.lasts_a_week() {
                weekly = second;
            } else {
                primary = second;
            }
        }
        if let Some(window) = first {
            if window.lasts_a_week() {
                weekly = first;
            } else {
                primary = first;
            }
        }
        UsageSnapshot { primary, weekly, status: None, sampled_at, reset_credits }
    }
}

impl Default for UsageSnapshot {
    fn default() -> (r: Self)
        ensures
            r == (UsageSnapshot {
                primary: None,
                weekly: None,
                status: Some(UsageStatus::Connecting),
                sampled_at: None,
                reset_credits: None,
            }),
    {
        UsageSnapshot::connecting()
    }
}

/// A seven-day window is found in whichever of the two places it is reported.
pub proof fn law_a_week_is_found_in_either_place(window: LimitWindow, other: Option<LimitWindow>)
    requires
        is_week(Some(window)),
        !is_week(other),
    ensures
        week_among(Some(window), other) == Some(window),
        week_among(other, Some(window)) == Some(window),
        other_among(Some(window), other) == other,
        other_among(other, Some(window)) == other,
{
}

/// A window of 10080 minutes is the weekly one in whichever place it is reported, whatever
/// is left of it and whenever it resets, and the window beside it is the other one.
pub proof fn law_the_week_is_told_by_its_length_alone(window: LimitWindow, other: LimitWindow)
    requires
        window.duration_minutes == 10_080,
        other.duration_minutes != 10_080,
    ensures
        week_among(Some(window), Some(other)) == Some(window),
        week_among(Some(other), Some(window)) == Some(window),
        week_among(Some(window), None) == Some(window),
        week_among(None, Some(window)) == Some(window),
        other_among(Some(window), Some(other)) == Some(other),
        other_among(Some(other), Some(window)) == Some(other),
        other_among(Some(window), None) == None::<LimitWindow>,
        other_among(None, Some(window)) == None::<LimitWindow>,
{
}

/// Of two windows of the same kind the first one counts; windows that do not last a week
/// are never taken for one, and what is not reported is not made up.
pub proof fn law_of_two_windows_alike_the_first_counts(first: LimitWindow, second: LimitWindow)
    ensures
        first.duration_minutes == 10_080 && second.duration_minutes == 10_080 ==> week_among(
            Some(first),
            Some(second),
        ) == Some(first) && other_among(Some(first), Some(second)) == None::<LimitWindow>,
        first.duration_minutes != 10_080 && second.duration_minutes != 10_080 ==> other_among(
            Some(first),
            Some(second),
        ) == Some(first) && week_among(Some(first), Some(second)) == None::<LimitWindow>,
        first.duration_minutes != 10_080 ==> week_among(Some(first), None) == None::<LimitWindow>
            && week_among(None, Some(first)) == None::<LimitWindow> && other_among(
            Some(first),
            None,
        ) == Some(first) && other_among(None, Some(first)) == Some(first),
        week_among(None, None) == None::<LimitWindow>,
        other_among(None, None) == None::<LimitWindow>,
{
}

} // verus!
