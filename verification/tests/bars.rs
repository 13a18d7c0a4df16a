use chrono::{Local, TimeZone};
use weekly_usage_bar::bars::{
    bars_layout, choose_content, daily_remaining_percent, frame, plan_picture, single_bar,
    window_remaining, Content,
};
use weekly_usage_bar::calendar::{LocalTime, MAX_UNIX, MIN_UNIX};
use weekly_usage_bar::color::{dim_color, lighten_color, palette_accent, rgb};
use weekly_usage_bar::labels::{
    can_be_labelled, daily_time_labels, daily_time_labels_from, weekly_date_labels, weekly_date_labels_from,
};
use weekly_usage_bar::model::{LimitWindow, UsageSnapshot, UsageStatus};
use weekly_usage_bar::overlay::Rect;
use weekly_usage_bar::percent::{Budget, Percent, Ratio};
use weekly_usage_bar::planner::PlannerState;
use weekly_usage_bar::quota_bar::{
    bar_colors, glass_corner_diameter, percent_label, quota_bar, quota_fill_width, round_region,
    Patch,
};

fn percent(points: f64) -> Percent {
    Percent { ticks: (points * 420.0).round() as i64 }
}

fn budget(points: f64) -> Budget {
    Budget::of(percent(points))
}

fn in_percent(part: Ratio) -> f64 {
    part.numerator as f64 / part.denominator as f64 * 100.0
}

fn hundredths(numerator: u64) -> Ratio {
    Ratio { numerator, denominator: 100 }
}

fn rect(left: i64, top: i64, right: i64, bottom: i64) -> Rect {
    Rect { left, top, right, bottom }
}

fn week(resets_at: Option<LocalTime>) -> LimitWindow {
    LimitWindow { duration_minutes: 10_080, remaining_percent: 63, resets_at }
}

#[test]
fn daily_remaining_uses_today_budget_as_one_hundred_percent() {
    let left = daily_remaining_percent(percent(2.5), budget(10.0));
    assert!((in_percent(left) - 75.0).abs() < 0.001);
    assert_eq!(in_percent(daily_remaining_percent(percent(10.0), budget(10.0))), 0.0);
    assert_eq!(in_percent(daily_remaining_percent(percent(12.0), budget(10.0))), 0.0);
}

#[test]
fn empty_daily_budget_is_full_until_usage_exists() {
    assert_eq!(in_percent(daily_remaining_percent(percent(0.0), budget(0.0))), 100.0);
    assert_eq!(in_percent(daily_remaining_percent(percent(1.0), budget(0.0))), 0.0);
}

#[test]
fn low_quota_keeps_true_fill_width_without_minimum_inflation() {
    assert_eq!(quota_fill_width(160, hundredths(1)), 2);
    assert_eq!(quota_fill_width(160, hundredths(5)), 8);
    assert_eq!(quota_fill_width(160, hundredths(0)), 0);
    assert!(glass_corner_diameter(20) < 20);
}

#[test]
fn glass_color_helpers_keep_the_accent_controlled() {
    assert_eq!(dim_color(rgb(100, 150, 200), 50), rgb(50, 75, 100));
    assert_eq!(lighten_color(rgb(0, 0, 0), 20), rgb(51, 51, 51));
}

#[test]
fn weekly_dates_show_window_start_and_reset() {
    let reset = Local
        .with_ymd_and_hms(2026, 9, 15, 6, 0, 0)
        .single()
        .expect("local date");
    let weekly = LimitWindow {
        duration_minutes: 10_080,
        remaining_percent: 63,
        resets_at: Some(LocalTime::local(reset.timestamp())),
    };
    assert_eq!(weekly_date_labels(&weekly), ("9/8".to_string(), "9/15".to_string()));
    assert_eq!(daily_time_labels(&weekly, 0), ("R06:00".to_string(), "+24h".to_string()));
    assert_eq!(daily_time_labels(&weekly, 3), ("R06:00".to_string(), "+24h".to_string()));
}

#[test]
fn twelve_of_sixteen_points_are_three_quarters() {
    let left = daily_remaining_percent(percent(4.0), budget(16.0));
    assert_eq!(percent_label(left), "75%");
    let third = Budget { ticks: 48 * 420, parts: 3 };
    assert_eq!(percent_label(daily_remaining_percent(percent(4.0), third)), "75%");
    let most = daily_remaining_percent(
        Percent { ticks: i64::MAX },
        Budget { ticks: i64::MAX, parts: i64::MAX },
    );
    assert_eq!(most.numerator, 0);
    assert_eq!(in_percent(daily_remaining_percent(percent(-1.0), budget(16.0))), 100.0);
    assert_eq!(in_percent(daily_remaining_percent(percent(-1.0), budget(-1.0))), 100.0);
}

#[test]
fn labels_of_unknown_resets() {
    let unknown = week(None);
    assert_eq!(weekly_date_labels(&unknown), ("--".to_string(), "--".to_string()));
    assert_eq!(daily_time_labels(&unknown, 2), ("R--:--".to_string(), "+--".to_string()));
}

#[test]
fn labels_follow_the_given_start() {
    // 2026-09-19 17:31 in a zone nine hours ahead.
    let reset = LocalTime { unix: 1_789_806_660, utc_offset: 32_400 };
    let start = LocalTime { unix: 1_789_806_660 - 604_800, utc_offset: 32_400 };
    let weekly = week(Some(reset));
    assert_eq!(
        weekly_date_labels_from(&weekly, &start),
        ("9/12".to_string(), "9/19".to_string())
    );
    assert_eq!(
        daily_time_labels_from(&weekly, &start),
        ("R17:31".to_string(), "+24h".to_string())
    );
    // An hour of summer time moves the clock, not the boundary.
    let shifted = LocalTime { utc_offset: 36_000, ..start };
    assert_eq!(daily_time_labels_from(&weekly, &shifted).0, "R18:31");
}

#[test]
fn spans_of_other_windows() {
    let reset = LocalTime::local(1_800_500_000);
    let spans = |minutes: u64| {
        let window = LimitWindow { duration_minutes: minutes, ..week(Some(reset)) };
        daily_time_labels(&window, 20).1
    };
    assert_eq!(spans(300), "+42m");
    assert_eq!(spans(420), "+1h");
    assert_eq!(spans(7), "+1m");
    assert_eq!(spans(3), "+1m");
    assert_eq!(spans(20_160), "+48h");
}

#[test]
fn the_content_is_the_best_that_is_known() {
    let weekly = week(None);
    let short = LimitWindow { duration_minutes: 300, remaining_percent: 200, resets_at: None };
    let (_, plan) = PlannerState::advance(None, 60, 604_800, 10_080, percent(70.0));
    let both = UsageSnapshot::from_windows(Some(short), Some(weekly), None, None);
    assert!(matches!(
        choose_content(&both, Some(plan)),
        Content::WeeklyAndDaily { weekly: shown, plan: today }
            if shown == weekly && today.today_budget == Budget { ticks: 70 * 420, parts: 7 }
    ));
    assert!(matches!(choose_content(&both, None), Content::Single { window } if window == weekly));
    let primary = UsageSnapshot::from_windows(Some(short), None, None, None);
    assert!(matches!(
        choose_content(&primary, Some(plan)),
        Content::Single { window } if window == short
    ));
    assert!(matches!(
        choose_content(&UsageSnapshot::connecting(), None),
        Content::Status { status: UsageStatus::Connecting }
    ));
    let nothing = UsageSnapshot::from_windows(None, None, None, None);
    assert!(matches!(
        choose_content(&nothing, None),
        Content::Status { status: UsageStatus::Retrying }
    ));
    assert_eq!(window_remaining(&weekly), hundredths(63));
    assert_eq!(window_remaining(&short), hundredths(100));
}

#[test]
fn the_frame_keeps_a_corner_for_the_settings() {
    let shown = frame(&rect(0, 0, 440, 30), 96);
    assert_eq!(shown.content, rect(0, 0, 416, 30));
    assert_eq!(shown.corner, rect(416, 0, 440, 30));
    assert_eq!(shown.font_height, -12);
    assert_eq!(frame(&rect(0, 0, 10, 30), 144).content, rect(0, 0, 1, 30));
}

#[test]
fn bars_and_labels_share_the_width() {
    let layout = bars_layout(&rect(0, 0, 416, 30), 96);
    assert_eq!(layout.start_label, rect(6, 0, 40, 30));
    assert_eq!(layout.weekly_bar, rect(44, 5, 157, 25));
    assert_eq!(layout.reset_label, rect(161, 0, 195, 30));
    assert_eq!(layout.anchor_label, rect(205, 0, 247, 30));
    assert_eq!(layout.daily_bar, rect(251, 5, 364, 25));
    assert_eq!(layout.span_label, rect(368, 0, 410, 30));
}

#[test]
fn narrow_layouts_are_cut_off_at_the_right() {
    let layout = bars_layout(&rect(0, 0, 100, 10), 96);
    assert_eq!(layout.weekly_bar, rect(44, 0, 45, 10));
    assert_eq!(layout.daily_bar.right, 94);
    assert_eq!(layout.span_label.right, 94);
    assert_eq!(single_bar(&rect(0, 0, 416, 30), 96), rect(6, 5, 410, 25));
    assert_eq!(single_bar(&rect(0, 0, 416, 31), 144), rect(9, 0, 407, 30));
}

#[test]
fn the_parts_of_a_bar() {
    let bar = quota_bar(&rect(44, 5, 157, 25), hundredths(63)).unwrap();
    assert_eq!((bar.outer_corner, bar.inner_corner), (13, 12));
    assert_eq!(bar.inner, rect(45, 6, 156, 24));
    assert_eq!(bar.upper_pane, rect(45, 6, 156, 15));
    assert_eq!(bar.glass_glint, Some(rect(48, 7, 153, 8)));
    assert_eq!(bar.glass_shadow, Some(rect(47, 21, 154, 24)));
    assert_eq!(bar.label_shadow, rect(44, 6, 157, 26));
    let fill = bar.fill.unwrap();
    assert_eq!(fill.body, rect(45, 6, 115, 24));
    assert_eq!(fill.glint, rect(45, 6, 115, 9));
    assert_eq!(fill.shadow, rect(45, 21, 115, 24));
    assert_eq!(fill.marker, None);
}

#[test]
fn low_bars_carry_a_marker_on_the_edge() {
    let outline = rect(0, 0, 102, 20);
    let fill = quota_bar(&outline, hundredths(11)).unwrap().fill.unwrap();
    assert_eq!(fill.body.right, 12);
    assert_eq!(fill.marker, Some(rect(11, 3, 13, 17)));
    assert_eq!(quota_bar(&outline, hundredths(12)).unwrap().fill.unwrap().marker, None);
    assert_eq!(quota_bar(&outline, hundredths(0)).unwrap().fill, None);
    // Too little for a single dot is no fill, and no marker.
    let little = Ratio { numerator: 1, denominator: 1_000 };
    assert_eq!(quota_bar(&outline, little).unwrap().fill, None);
}

#[test]
fn bars_without_area_are_not_painted() {
    assert_eq!(quota_bar(&rect(5, 0, 5, 20), hundredths(50)), None);
    assert_eq!(quota_bar(&rect(0, 9, 50, 3), hundredths(50)), None);
    let dot = quota_bar(&rect(0, 0, 1, 1), hundredths(50)).unwrap();
    assert_eq!(dot.fill, None);
    assert_eq!(dot.glass_glint, None);
    assert_eq!(dot.glass_shadow, None);
    assert_eq!((dot.outer_corner, dot.inner_corner), (6, 6));
}

#[test]
fn regions_count_their_edges_in() {
    assert_eq!(round_region(&rect(1, 2, 3, 4)), Some(rect(1, 2, 4, 5)));
    assert_eq!(round_region(&rect(1, 2, 1, 4)), None);
    assert_eq!(round_region(&rect(1, 4, 3, 4)), None);
}

#[test]
fn corners_are_two_thirds_of_the_height() {
    assert_eq!(glass_corner_diameter(20), 13);
    assert_eq!(glass_corner_diameter(9), 6);
    assert_eq!(glass_corner_diameter(2), 6);
    assert_eq!(glass_corner_diameter(-4), 6);
    assert_eq!(glass_corner_diameter(30), 20);
}

#[test]
fn fills_are_rounded_to_the_nearest_dot() {
    assert_eq!(quota_fill_width(50, hundredths(1)), 1);
    assert_eq!(quota_fill_width(49, hundredths(1)), 0);
    assert_eq!(quota_fill_width(111, hundredths(63)), 70);
    assert_eq!(quota_fill_width(111, hundredths(100)), 111);
    assert_eq!(quota_fill_width(111, hundredths(250)), 111);
    assert_eq!(quota_fill_width(-3, hundredths(50)), 0);
    assert_eq!(quota_fill_width(i64::MAX, Ratio { numerator: u64::MAX, denominator: u64::MAX }), i64::MAX);
}

#[test]
fn percentages_are_rounded_to_even() {
    assert_eq!(percent_label(hundredths(0)), "0%");
    assert_eq!(percent_label(hundredths(63)), "63%");
    assert_eq!(percent_label(hundredths(170)), "100%");
    assert_eq!(percent_label(Ratio { numerator: 5, denominator: 1_000 }), "0%");
    assert_eq!(percent_label(Ratio { numerator: 15, denominator: 1_000 }), "2%");
    assert_eq!(percent_label(Ratio { numerator: 2, denominator: 3 }), "67%");
}

#[test]
fn colors_of_a_bar() {
    let colors = bar_colors(rgb(100, 150, 200));
    assert_eq!(colors.rim, rgb(112, 122, 142));
    assert_eq!(colors.track, rgb(29, 34, 42));
    assert_eq!(colors.upper_pane, rgb(45, 52, 64));
    assert_eq!(colors.glass_glint, rgb(134, 145, 166));
    assert_eq!(colors.glass_shadow, rgb(19, 23, 29));
    assert_eq!(colors.fill, rgb(92, 138, 184));
    assert_eq!(colors.fill_glint, rgb(152, 185, 218));
    assert_eq!(colors.fill_shadow, rgb(54, 81, 108));
    assert_eq!(colors.marker, rgb(189, 210, 231));
    assert_eq!(colors.label_shadow, rgb(9, 11, 15));
    assert_eq!(colors.label, rgb(250, 252, 255));
}

#[test]
fn palettes_have_accents() {
    assert_eq!(palette_accent(0), rgb(95, 145, 255));
    assert_eq!(palette_accent(1), rgb(64, 196, 126));
    assert_eq!(palette_accent(2), rgb(173, 117, 255));
    assert_eq!(palette_accent(3), palette_accent(0));
    assert_eq!(rgb(1, 2, 3), 0x03_02_01);
}

#[test]
fn colors_beyond_full_strength() {
    assert_eq!(dim_color(0xff64_6464, 100), 0x64_6464);
    assert_eq!(dim_color(rgb(200, 0, 0), 200), rgb(144, 0, 0));
    assert_eq!(lighten_color(rgb(10, 20, 30), 250), rgb(255, 255, 255));
    assert_eq!(lighten_color(rgb(10, 20, 30), 0), rgb(10, 20, 30));
}

#[test]
fn bars_are_painted_from_the_glass_up() {
    let bar = quota_bar(&rect(0, 0, 102, 20), hundredths(11)).unwrap();
    let colors = bar_colors(palette_accent(0));
    let fill = bar.fill.unwrap();
    let expected = vec![
        Patch { rect: bar.upper_pane, color: colors.upper_pane },
        Patch { rect: bar.glass_glint.unwrap(), color: colors.glass_glint },
        Patch { rect: bar.glass_shadow.unwrap(), color: colors.glass_shadow },
        Patch { rect: fill.body, color: colors.fill },
        Patch { rect: fill.glint, color: colors.fill_glint },
        Patch { rect: fill.shadow, color: colors.fill_shadow },
        Patch { rect: fill.marker.unwrap(), color: colors.marker },
    ];
    assert_eq!(bar.paint_order(&colors), expected);
    let empty = quota_bar(&rect(0, 0, 3, 20), hundredths(0)).unwrap();
    assert_eq!(
        empty.paint_order(&colors),
        vec![Patch { rect: empty.upper_pane, color: colors.upper_pane }]
    );
}

#[test]
fn the_picture_of_a_plan() {
    let reset = Local.with_ymd_and_hms(2026, 9, 19, 17, 31, 0).single().expect("local date");
    let weekly = week(Some(LocalTime::local(reset.timestamp())));
    let (state, _) = PlannerState::advance(
        None,
        reset.timestamp() - 604_800,
        reset.timestamp(),
        10_080,
        percent(70.0),
    );
    let (_, plan) = PlannerState::advance(
        Some(state),
        reset.timestamp() - 600_000,
        reset.timestamp(),
        10_080,
        percent(63.0),
    );
    let content = rect(0, 0, 416, 30);
    let picture = plan_picture(&content, &weekly, &plan, 96);
    let layout = bars_layout(&content, 96);
    assert_eq!((picture.start.rect, picture.reset.rect), (layout.start_label, layout.reset_label));
    assert_eq!((picture.anchor.rect, picture.span.rect), (layout.anchor_label, layout.span_label));
    assert_eq!((picture.weekly.rect, picture.daily.rect), (layout.weekly_bar, layout.daily_bar));
    assert_eq!(picture.start.text, "9/12");
    assert_eq!(picture.reset.text, "9/19");
    assert_eq!(picture.anchor.text, "R17:31");
    assert_eq!(picture.span.text, "+24h");
    assert_eq!(percent_label(picture.weekly.part), "63%");
    assert_eq!(percent_label(picture.daily.part), "30%");
}

#[test]
fn labels_need_dates_of_the_calendar() {
    let at = |unix: i64| week(Some(LocalTime { unix, utc_offset: 0 }));
    assert!(can_be_labelled(&week(None), 0));
    assert!(can_be_labelled(&at(1_800_500_000), 3));
    assert!(can_be_labelled(&at(MAX_UNIX), 6));
    assert!(!can_be_labelled(&at(MAX_UNIX + 1), 6));
    assert!(can_be_labelled(&at(MIN_UNIX + 604_800), 0));
    assert!(!can_be_labelled(&at(MIN_UNIX + 604_799), 0));
    let odd = LimitWindow { duration_minutes: u64::MAX / 2, ..at(0) };
    assert!(!can_be_labelled(&odd, 6));
    let offset = LocalTime { unix: 0, utc_offset: 86_400 };
    assert!(!can_be_labelled(&week(Some(offset)), 0));
}
