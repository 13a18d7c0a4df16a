//! What is painted: the choice between bars and status text, and the geometry of the
//! bars.

use vstd::prelude::*;

use crate::labels::{daily_time_labels, has_labels, labels_day, labels_week, weekly_date_labels};
use crate::model::{LimitWindow, UsageSnapshot, UsageStatus};
use crate::overlay::{lemma_scaled_range, scaled, scaled_to, Rect};
use crate::percent::{clamped, larger, max_of, min_of, smaller, Budget, Percent, Ratio};
use crate::planner::PlanView;

verus! {

// ---------------------------------------------------------------------------------
// What to show
// ---------------------------------------------------------------------------------

/// What the overlay shows.
#[derive(Clone, Copy, Debug)]
pub enum Content {
    /// The weekly bar and the daily bar.
    WeeklyAndDaily { weekly: LimitWindow, plan: PlanView },
    /// One bar for a window.
    Single { window: LimitWindow },
    /// A line of text.
    Status { status: UsageStatus },
}

/// What the overlay shows of a snapshot and a plan.
pub open spec fn content_of(snapshot: UsageSnapshot, plan: Option<PlanView>) -> Content {
    match (snapshot.weekly, plan) {
        (Some(weekly), Some(plan)) => Content::WeeklyAndDaily { weekly, plan },
        (Some(weekly), None) => Content::Single { window: weekly },
        (None, _) => match (snapshot.primary, snapshot.status) {
            (Some(primary), _) => Content::Single { window: primary },
            (None, Some(status)) => Content::Status { status },
            (None, None) => Content::Status { status: UsageStatus::Retrying },
        },
    }
}

/// What the overlay shows of a snapshot and a plan.
pub fn choose_content(snapshot: &UsageSnapshot, plan: Option<PlanView>) -> (r: Content)
    ensures
        r == content_of(*snapshot, plan),
{
    match (snapshot.weekly, plan) {
        (Some(weekly), Some(plan)) => Content::WeeklyAndDaily { weekly, plan },
        (Some(weekly), None) => Content::Single { window: weekly },
        (None, _) => match (snapshot.primary, snapshot.status) {
            (Some(primary), _) => Content::Single { window: primary },
            (None, Some(status)) => Content::Status { status },
            (None, None) => Content::Status { status: UsageStatus::Retrying },
        },
    }
}

/// The part of a whole, between none and all of it.
pub open spec fn part_of(part: int, whole: int) -> Ratio {
    Ratio { numerator: clamped(part, 0, whole) as u64, denominator: whole as u64 }
}

/// What is left of a window, as a part of the whole.
pub fn window_remaining(window: &LimitWindow) -> (r: Ratio)
    ensures
        r == part_of(window.remaining_percent as int, 100),
        r.numerator <= r.denominator,
        r.denominator > 0,
{
    let percent: u64 = if window.remaining_percent > 100 {
        100
    } else {
        window.remaining_percent as u64
    };
    Ratio { numerator: percent, denominator: 100 }
}

/// What is left of today's budget, as a part of the budget. A budget of nothing is full
/// until anything is used.
pub open spec fn daily_remaining(used: int, budget: Budget) -> Ratio {
    if budget.ticks <= 0 {
        Ratio {
            numerator: if used <= 0 {
                1
            } else {
                0
            },
            denominator: 1,
        }
    } else {
        part_of(budget.ticks - used * budget.parts, budget.ticks as int)
    }
}

/// What is left of today's budget, with the budget as one hundred percent.
pub fn daily_remaining_percent(today_used: Percent, today_budget: Budget) -> (r: Ratio)
    ensures
        r == daily_remaining(today_used.ticks as int, today_budget),
        r.numerator <= r.denominator,
        r.denominator > 0,
{
    let used = today_used.ticks;
    let budget = today_budget.ticks;
    if budget <= 0 {
        if used <= 0 {
            Ratio { numerator: 1, denominator: 1 }
        } else {
            Ratio { numerator: 0, denominator: 1 }
        }
    } else {
        assert(-0x4000_0000_0000_0000_0000_0000_0000_0000 <= used * today_budget.parts
            <= 0x4000_0000_0000_0000_0000_0000_0000_0000) by (nonlinear_arith)
            requires
                i64::MIN <= used <= i64::MAX,
                i64::MIN <= today_budget.parts <= i64::MAX,
        ;
        let left: i128 = budget as i128 - used as i128 * today_budget.parts as i128;
        if left <= 0 {
            Ratio { numerator: 0, denominator: budget as u64 }
        } else if left >= budget as i128 {
            Ratio { numerator: budget as u64, denominator: budget as u64 }
        } else {
            Ratio { numerator: left as u64, denominator: budget as u64 }
        }
    }
}

/// The daily bar runs from full to empty as the budget is used up: it is full exactly
/// when nothing is used and empty exactly when the budget is used, and in between the
/// part that it shows and the part that is used make up the whole.
pub proof fn law_the_daily_bar_takes_the_budget_as_the_whole(used: int, budget: Budget)
    requires
        0 < budget.ticks,
        0 < budget.parts,
        0 <= used,
    ensures
        ({
            let left = daily_remaining(used, budget);
            &&& left.denominator == budget.ticks
            &&& left.numerator == left.denominator <==> used == 0
            &&& left.numerator == 0 <==> used * budget.parts >= budget.ticks
            &&& used * budget.parts <= budget.ticks ==> left.numerator + used * budget.parts
                == left.denominator
        }),
{
    assert(used * budget.parts >= 0 && (used * budget.parts == 0 <==> used == 0))
        by (nonlinear_arith)
        requires
            0 < budget.parts,
            0 <= used,
    ;
}

// ---------------------------------------------------------------------------------
// The frame
// ---------------------------------------------------------------------------------

/// How the overlay is divided.
#[derive(Clone, Copy, Debug, PartialEq, Eq, Structural)]
pub struct Frame {
    /// Where the bars or the status text go.
    pub content: Rect,
    /// The settings corner at the right edge.
    pub corner: Rect,
    /// The height of the font; negative for the height of its characters.
    pub font_height: i64,
}

/// How the overlay is divided at a resolution.
pub fn frame(client: &Rect, dpi: u32) -> (r: Frame)
    requires
        client.on_screen(),
    ensures
        r.content == (Rect {
            left: 0,
            top: 0,
            right: larger(client.right - client.left - scaled_to(24, dpi), 1) as i64,
            bottom: client.bottom,
        }),
        r.corner == (Rect {
            left: (client.right - scaled_to(24, dpi)) as i64,
            top: 0,
            right: client.right,
            bottom: client.bottom,
        }),
        r.font_height == -scaled_to(12, dpi),
{
    let corner = scaled(24, dpi);
    let width = client.right - client.left;
    Frame {
        content: Rect {
            left: 0,
            top: 0,
            right: max_of(width - corner, 1),
            bottom: client.bottom,
        },
        corner: Rect {
            left: client.right - corner,
            top: 0,
            right: client.right,
            bottom: client.bottom,
        },
        font_height: -scaled(12, dpi),
    }
}

// ---------------------------------------------------------------------------------
// Two bars with their labels
// ---------------------------------------------------------------------------------

/// Where the two bars and their labels go, from left to right.
#[derive(Clone, Copy, Debug, PartialEq, Eq, Structural)]
pub struct BarsLayout {
    pub start_label: Rect,
    pub weekly_bar: Rect,
    pub reset_label: Rect,
    pub anchor_label: Rect,
    pub daily_bar: Rect,
    pub span_label: Rect,
}

/// The measures of the two bars, in dots.
#[derive(Clone, Copy, Debug, PartialEq, Eq, Structural)]
pub struct Measures {
    pub padding: i64,
    pub date_width: i64,
    pub time_width: i64,
    pub gap: i64,
    pub section_gap: i64,
    pub bar_height: i64,
}

/// The measures of the two bars at a resolution: each is scaled, and all but the padding
/// have a least size.
pub open spec fn measures(dpi: u32) -> Measures {
    Measures {
        padding: scaled_to(6, dpi) as i64,
        date_width: larger(scaled_to(34, dpi), 30) as i64,
        time_width: larger(scaled_to(42, dpi), 36) as i64,
        gap: larger(scaled_to(4, dpi), 3) as i64,
        section_gap: larger(scaled_to(10, dpi), 7) as i64,
        bar_height: larger(scaled_to(20, dpi), 16) as i64,
    }
}

impl Measures {
    /// Whether the measures are such as the screen has.
    pub open spec fn on_screen(self) -> bool {
        &&& 0 <= self.padding <= i32::MAX
        &&& 0 < self.date_width <= i32::MAX
        &&& 0 < self.time_width <= i32::MAX
        &&& 0 < self.gap <= i32::MAX
        &&& 0 < self.section_gap <= i32::MAX
        &&& 0 < self.bar_height <= i32::MAX
    }

    /// The measures of the two bars at a resolution.
    pub fn at(dpi: u32) -> (r: Self)
        ensures
            r == measures(dpi),
            r.on_screen(),
    {
        Measures {
            padding: scaled(6, dpi),
            date_width: max_of(scaled(34, dpi), 30),
            time_width: max_of(scaled(42, dpi), 36),
            gap: max_of(scaled(4, dpi), 3),
            section_gap: max_of(scaled(10, dpi), 7),
            bar_height: max_of(scaled(20, dpi), 16),
        }
    }
}

proof fn lemma_measures_are_on_screen(dpi: u32)
    ensures
        measures(dpi).on_screen(),
{
    lemma_scaled_range(6, dpi);
    lemma_scaled_range(34, dpi);
    lemma_scaled_range(42, dpi);
    lemma_scaled_range(4, dpi);
    lemma_scaled_range(10, dpi);
    lemma_scaled_range(20, dpi);
}

/// The room for the two bars together: what the labels and gaps leave of the width.
pub open spec fn bars_width(rect: Rect, m: Measures) -> int {
    larger(
        (rect.right - m.padding) - (rect.left + m.padding) - m.date_width * 2 - m.time_width * 2
            - m.gap * 4 - m.section_gap,
        2,
    )
}

/// Where a bar of a given height begins: it is centered, and starts at the top where it
/// is too high.
pub open spec fn bar_top(rect: Rect, height: int) -> int {
    rect.top + if rect.bottom - rect.top < height {
        0
    } else {
        (rect.bottom - rect.top - height) / 2
    }
}

/// A full-height part of a rectangle.
pub open spec fn column(rect: Rect, left: int, right: int) -> Rect {
    Rect { left: left as i64, top: rect.top, right: right as i64, bottom: rect.bottom }
}

/// A part of a rectangle with the height of a bar.
pub open spec fn bar(rect: Rect, left: int, right: int, height: int) -> Rect {
    Rect {
        left: left as i64,
        top: bar_top(rect, height) as i64,
        right: right as i64,
        bottom: smaller(bar_top(rect, height) + height, rect.bottom as int) as i64,
    }
}

impl BarsLayout {
    /// Whether this is the layout of a rectangle at a resolution.
    pub open spec fn lays_out(self, rect: Rect, dpi: u32) -> bool {
        self.lays_out_by(rect, measures(dpi))
    }

    /// Whether this is the layout of a rectangle by given measures: label, bar, label,
    /// and after a larger gap once more, each beside the one before it. The weekly bar
    /// gets the smaller half of the room; what would stick out at the right is cut off.
    pub open spec fn lays_out_by(self, rect: Rect, m: Measures) -> bool {
        let width = bars_width(rect, m);
        let left = rect.left + m.padding;
        let right = rect.right - m.padding;
        let weekly_left = left + m.date_width + m.gap;
        let weekly_right = weekly_left + width / 2;
        let reset_left = weekly_right + m.gap;
        let anchor_left = reset_left + m.date_width + m.section_gap;
        let daily_left = anchor_left + m.time_width + m.gap;
        let daily_right = smaller(daily_left + (width - width / 2), right);
        let span_left = daily_right + m.gap;
        &&& self.start_label == column(rect, left, left + m.date_width)
        &&& self.weekly_bar == bar(rect, weekly_left, weekly_right, m.bar_height as int)
        &&& self.reset_label == column(rect, reset_left, reset_left + m.date_width)
        &&& self.anchor_label == column(rect, anchor_left, anchor_left + m.time_width)
        &&& self.daily_bar == bar(rect, daily_left, daily_right, m.bar_height as int)
        &&& self.span_label == column(rect, span_left, smaller(span_left + m.time_width, right))
    }
}

fn column_at(rect: &Rect, left: i64, right: i64) -> (r: Rect)
    ensures
        r == column(*rect, left as int, right as int),
{
    Rect { left, top: rect.top, right, bottom: rect.bottom }
}

fn bar_at(rect: &Rect, left: i64, right: i64, height: i64) -> (r: Rect)
    requires
        rect.on_screen(),
        0 < height <= i32::MAX,
        -0x100_0000_0000 <= left <= 0x100_0000_0000,
        -0x100_0000_0000 <= right <= 0x100_0000_0000,
    ensures
        r == bar(*rect, left as int, right as int, height as int),
        r.modest(),
{
    let spare = rect.bottom - rect.top - height;
    let top = rect.top + if spare < 0 {
        0
    } else {
        spare / 2
    };
    Rect { left, top, right, bottom: min_of(top + height, rect.bottom) }
}

/// Where the two bars and their labels go in a rectangle.
pub fn bars_layout(rect: &Rect, dpi: u32) -> (r: BarsLayout)
    requires
        rect.on_screen(),
    ensures
        r.lays_out(*rect, dpi),
        r.weekly_bar.modest(),
        r.daily_bar.modest(),
{
    layout_by(rect, Measures::at(dpi))
}

fn layout_by(rect: &Rect, m: Measures) -> (r: BarsLayout)
    requires
        rect.on_screen(),
        m.on_screen(),
    ensures
        r.lays_out_by(*rect, m),
        r.weekly_bar.modest(),
        r.daily_bar.modest(),
{
    let left = rect.left + m.padding;
    let right = rect.right - m.padding;
    let width = max_of(
        right - left - m.date_width * 2 - m.time_width * 2 - m.gap * 4 - m.section_gap,
        2,
    );
    let weekly_width = width / 2;
    let daily_width = width - weekly_width;

    let weekly_left = left + m.date_width + m.gap;
    let weekly_right = weekly_left + weekly_width;
    let reset_left = weekly_right + m.gap;
    let anchor_left = reset_left + m.date_width + m.section_gap;
    let daily_left = anchor_left + m.time_width + m.gap;
    let daily_right = min_of(daily_left + daily_width, right);
    let span_left = daily_right + m.gap;
    BarsLayout {
        start_label: column_at(rect, left, left + m.date_width),
        weekly_bar: bar_at(rect, weekly_left, weekly_right, m.bar_height),
        reset_label: column_at(rect, reset_left, reset_left + m.date_width),
        anchor_label: column_at(rect, anchor_left, anchor_left + m.time_width),
        daily_bar: bar_at(rect, daily_left, daily_right, m.bar_height),
        span_label: column_at(rect, span_left, min_of(span_left + m.time_width, right)),
    }
}

/// Where a single bar goes in a rectangle.
pub fn single_bar(rect: &Rect, dpi: u32) -> (r: Rect)
    requires
        rect.on_screen(),
    ensures
        r == bar(
            *rect,
            rect.left + scaled_to(6, dpi),
            rect.right - scaled_to(6, dpi),
            larger(scaled_to(20, dpi), 16),
        ),
        r.modest(),
{
    let padding = scaled(6, dpi);
    let height = max_of(scaled(20, dpi), 16);
    bar_at(rect, rect.left + padding, rect.right - padding, height)
}

/// A text and where it goes.
#[derive(Clone, Debug)]
pub struct Caption {
    pub rect: Rect,
    pub text: String,
}

/// A bar and how far it is filled.
#[derive(Clone, Copy, Debug, PartialEq, Eq, Structural)]
pub struct Gauge {
    pub rect: Rect,
    pub part: Ratio,
}

/// The weekly bar and the daily bar with their labels, from left to right.
#[derive(Clone, Debug)]
pub struct PlanPicture {
    pub start: Caption,
    pub weekly: Gauge,
    pub reset: Caption,
    pub anchor: Caption,
    pub daily: Gauge,
    pub span: Caption,
}

impl PlanPicture {
    /// Where the parts of the picture are.
    pub open spec fn layout(self) -> BarsLayout {
        BarsLayout {
            start_label: self.start.rect,
            weekly_bar: self.weekly.rect,
            reset_label: self.reset.rect,
            anchor_label: self.anchor.rect,
            daily_bar: self.daily.rect,
            span_label: self.span.rect,
        }
    }
}

/// The picture of a weekly window and its plan: the left bar shows what is left of the
/// week between its dates, the right one what is left of today's budget between the
/// start of the day and its length.
pub fn plan_picture(content: &Rect, weekly: &LimitWindow, plan: &PlanView, dpi: u32) -> (r:
    PlanPicture)
    requires
        content.on_screen(),
        has_labels(*weekly, plan.active_slot as int),
    ensures
        r.layout().lays_out(*content, dpi),
        r.weekly.rect.modest(),
        r.daily.rect.modest(),
        labels_week(*weekly, r.start.text@, r.reset.text@),
        labels_day(*weekly, plan.active_slot as int, r.anchor.text@, r.span.text@),
        r.weekly.part == part_of(weekly.remaining_percent as int, 100),
        r.daily.part == daily_remaining(plan.today_used.ticks as int, plan.today_budget),
        r.daily.part.denominator > 0,
{
    let layout = bars_layout(content, dpi);
    let (start, reset) = weekly_date_labels(weekly);
    let (anchor, span) = daily_time_labels(weekly, plan.active_slot);
    PlanPicture {
        start: Caption { rect: layout.start_label, text: start },
        weekly: Gauge { rect: layout.weekly_bar, part: window_remaining(weekly) },
        reset: Caption { rect: layout.reset_label, text: reset },
        anchor: Caption { rect: layout.anchor_label, text: anchor },
        daily: Gauge {
            rect: layout.daily_bar,
            part: daily_remaining_percent(plan.today_used, plan.today_budget),
        },
        span: Caption { rect: layout.span_label, text: span },
    }
}

/// Labels and bars stand side by side in their order and do not overlap.
pub proof fn law_bars_and_labels_do_not_overlap(layout: BarsLayout, rect: Rect, dpi: u32)
    requires
        rect.on_screen(),
        layout.lays_out(rect, dpi),
    ensures
        layout.start_label.right < layout.weekly_bar.left,
        layout.weekly_bar.left < layout.weekly_bar.right,
        layout.weekly_bar.right < layout.reset_label.left,
        layout.reset_label.right < layout.anchor_label.left,
        layout.anchor_label.right < layout.daily_bar.left,
        layout.daily_bar.right < layout.span_label.left,
{
    lemma_measures_are_on_screen(dpi);
    lemma_parts_stand_in_order(layout, rect, measures(dpi));
}

proof fn lemma_parts_stand_in_order(layout: BarsLayout, rect: Rect, m: Measures)
    requires
        rect.on_screen(),
        m.on_screen(),
        layout.lays_out_by(rect, m),
    ensures
        layout.start_label.right < layout.weekly_bar.left,
        layout.weekly_bar.left < layout.weekly_bar.right,
        layout.weekly_bar.right < layout.reset_label.left,
        layout.reset_label.right < layout.anchor_label.left,
        layout.anchor_label.right < layout.daily_bar.left,
        layout.daily_bar.right < layout.span_label.left,
{
}

// ---------------------------------------------------------------------------------
// Laws of the picture
// ---------------------------------------------------------------------------------

/// A known week is always shown, with its plan where there is one; without a week the other
/// window is; a line of text is shown only where no window is known.
pub proof fn law_known_windows_are_shown(snapshot: UsageSnapshot, plan: Option<PlanView>)
    ensures
        ({
            let shown = content_of(snapshot, plan);
            &&& snapshot.weekly matches Some(w) ==> (plan matches Some(v) ==> shown
                == (Content::WeeklyAndDaily { weekly: w, plan: v }))
            &&& snapshot.weekly matches Some(w) ==> (plan is None ==> shown == (Content::Single {
                window: w,
            }))
            &&& snapshot.weekly is None ==> (snapshot.primary matches Some(w) ==> shown
                == (Content::Single { window: w }))
            &&& snapshot.weekly is None && snapshot.primary is None ==> {
                &&& snapshot.status matches Some(status) ==> shown == (Content::Status { status })
                &&& snapshot.status is None ==> shown == (Content::Status {
                    status: UsageStatus::Retrying,
                })
            }
        }),
{
}

/// The weekly bar shows the percentage that was reported, and all where more was.
pub proof fn law_the_weekly_bar_shows_what_was_reported(remaining: u8)
    ensures
        remaining <= 100 ==> part_of(remaining as int, 100) == (Ratio {
            numerator: remaining as u64,
            denominator: 100,
        }),
        remaining > 100 ==> part_of(remaining as int, 100) == (Ratio {
            numerator: 100,
            denominator: 100,
        }),
{
}

/// Without a budget the daily bar is full until anything is used, and empty from then on;
/// it is never more than full.
pub proof fn law_the_daily_bar_without_a_budget(used: int, budget: Budget)
    ensures
        ({
            let left = daily_remaining(used, budget);
            &&& budget.ticks <= 0 && used <= 0 ==> left.numerator == left.denominator
            &&& budget.ticks <= 0 && used > 0 ==> left.numerator == 0
            &&& budget.ticks > 0 && budget.parts > 0 && used <= 0 ==> left.numerator
                == left.denominator
            &&& left.denominator > 0
        }),
{
    assert(budget.parts > 0 && used <= 0 ==> used * budget.parts <= 0) by (nonlinear_arith);
}

/// The measures of the two bars: each grows with the resolution and none but the padding
/// falls below its least size.
pub proof fn law_measures_grow_with_the_resolution(dpi: u32)
    ensures
        ({
            let m = measures(dpi);
            &&& m.padding == scaled_to(6, dpi)
            &&& m.date_width == if scaled_to(34, dpi) > 30 {
                scaled_to(34, dpi)
            } else {
                30
            }
            &&& m.time_width == if scaled_to(42, dpi) > 36 {
                scaled_to(42, dpi)
            } else {
                36
            }
            &&& m.gap == if scaled_to(4, dpi) > 3 {
                scaled_to(4, dpi)
            } else {
                3
            }
            &&& m.section_gap == if scaled_to(10, dpi) > 7 {
                scaled_to(10, dpi)
            } else {
                7
            }
            &&& m.bar_height == if scaled_to(20, dpi) > 16 {
                scaled_to(20, dpi)
            } else {
                16
            }
        }),
{
    lemma_scaled_range(6, dpi);
    lemma_scaled_range(34, dpi);
    lemma_scaled_range(42, dpi);
    lemma_scaled_range(4, dpi);
    lemma_scaled_range(10, dpi);
    lemma_scaled_range(20, dpi);
}

/// From left to right the layout is made of a padding, label, gap, bar, gap, label, a
/// larger gap, and once more label, gap, bar, gap, label: each begins where the one before
/// it ends, and the two bars differ by at most one dot. Where all of it fits, it ends with
/// the padding at the right; labels are as high as the rectangle.
pub proof fn law_the_layout_fills_the_width(layout: BarsLayout, rect: Rect, dpi: u32)
    requires
        rect.on_screen(),
        layout.lays_out(rect, dpi),
    ensures
        ({
            let m = measures(dpi);
            let weekly = layout.weekly_bar.right - layout.weekly_bar.left;
            let fits = rect.right - rect.left >= 2 * m.padding + 2 * m.date_width + 2
                * m.time_width + 4 * m.gap + m.section_gap + 2;
            &&& layout.start_label.left == rect.left + m.padding
            &&& layout.start_label.right == layout.start_label.left + m.date_width
            &&& layout.weekly_bar.left == layout.start_label.right + m.gap
            &&& layout.reset_label.left == layout.weekly_bar.right + m.gap
            &&& layout.reset_label.right == layout.reset_label.left + m.date_width
            &&& layout.anchor_label.left == layout.reset_label.right + m.section_gap
            &&& layout.anchor_label.right == layout.anchor_label.left + m.time_width
            &&& layout.daily_bar.left == layout.anchor_label.right + m.gap
            &&& layout.span_label.left == layout.daily_bar.right + m.gap
            &&& layout.daily_bar.right <= rect.right - m.padding
            &&& layout.span_label.right <= rect.right - m.padding
            &&& fits ==> {
                let daily = layout.daily_bar.right - layout.daily_bar.left;
                &&& weekly <= daily <= weekly + 1
                &&& layout.span_label.right == layout.span_label.left + m.time_width
                &&& layout.span_label.right == rect.right - m.padding
            }
            &&& !fits ==> weekly == 1
            &&& layout.start_label.top == rect.top && layout.start_label.bottom == rect.bottom
            &&& layout.reset_label.top == rect.top && layout.reset_label.bottom == rect.bottom
            &&& layout.anchor_label.top == rect.top && layout.anchor_label.bottom == rect.bottom
            &&& layout.span_label.top == rect.top && layout.span_label.bottom == rect.bottom
            &&& layout.weekly_bar.top == layout.daily_bar.top
            &&& layout.weekly_bar.bottom == layout.daily_bar.bottom
        }),
{
    lemma_measures_are_on_screen(dpi);
    lemma_layout_adds_up(layout, rect, measures(dpi));
}

proof fn lemma_layout_adds_up(layout: BarsLayout, rect: Rect, m: Measures)
    requires
        rect.on_screen(),
        m.on_screen(),
        layout.lays_out_by(rect, m),
    ensures
        ({
            let weekly = layout.weekly_bar.right - layout.weekly_bar.left;
            let fits = rect.right - rect.left >= 2 * m.padding + 2 * m.date_width + 2
                * m.time_width + 4 * m.gap + m.section_gap + 2;
            &&& layout.start_label.left == rect.left + m.padding
            &&& layout.start_label.right == layout.start_label.left + m.date_width
            &&& layout.weekly_bar.left == layout.start_label.right + m.gap
            &&& layout.reset_label.left == layout.weekly_bar.right + m.gap
            &&& layout.reset_label.right == layout.reset_label.left + m.date_width
            &&& layout.anchor_label.left == layout.reset_label.right + m.section_gap
            &&& layout.anchor_label.right == layout.anchor_label.left + m.time_width
            &&& layout.daily_bar.left == layout.anchor_label.right + m.gap
            &&& layout.span_label.left == layout.daily_bar.right + m.gap
            &&& layout.daily_bar.right <= rect.right - m.padding
            &&& layout.span_label.right <= rect.right - m.padding
            &&& fits ==> {
                let daily = layout.daily_bar.right - layout.daily_bar.left;
                &&& weekly <= daily <= weekly + 1
                &&& layout.span_label.right == layout.span_label.left + m.time_width
                &&& layout.span_label.right == rect.right - m.padding
            }
            &&& !fits ==> weekly == 1
        }),
{
}

/// A bar is as high as it should be wherever it fits, with as many rows above it as below
/// or one fewer; where it does not fit it takes the whole height.
pub proof fn law_bars_stand_in_the_middle(rect: Rect, left: int, right: int, height: int)
    requires
        rect.on_screen(),
        rect.top <= rect.bottom,
        0 < height <= i32::MAX,
        -0x100_0000_0000 <= left <= 0x100_0000_0000,
        -0x100_0000_0000 <= right <= 0x100_0000_0000,
    ensures
        ({
            let b = bar(rect, left, right, height);
            let above = b.top - rect.top;
            let below = rect.bottom - b.bottom;
            &&& b.left == left
            &&& b.right == right
            &&& height <= rect.bottom - rect.top ==> b.bottom - b.top == height && above <= below
                <= above + 1
            &&& height > rect.bottom - rect.top ==> above == 0 && below == 0
        }),
{
}

} // verus!
