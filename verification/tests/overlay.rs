use weekly_usage_bar::overlay::{
    answer, effective_dpi, is_codex_executable, is_codex_window, is_main_window_candidate,
    overlay_layout, press_action, scaled, should_sync_location_event, step_for_target,
    step_for_window, step_without_window, window_at, Answer, OverlayStep, Place, PressAction, Rect, WindowFacts, CHILDID_SELF,
    EVENT_OBJECT_LOCATIONCHANGE, OBJID_WINDOW, WM_PAINT, WM_TIMER, WS_CAPTION, WS_EX_TOOLWINDOW,
    WS_POPUP,
};

const CODEX: &str = "C:\\Program Files\\WindowsApps\\OpenAI.Codex_1.2_x64\\app\\ChatGPT.exe";

#[test]
fn compact_layout_is_right_aligned_and_preserves_menu_space() {
    let (left, width) = overlay_layout(1_200, 96, 220).expect("layout");
    assert_eq!(width, 220);
    assert_eq!(left, 822);
    assert_eq!(1_200 - left - width, 158);
    assert!(left >= 220);
}

#[test]
fn weekly_only_layout_has_room_for_the_plan_text() {
    let (left, width) = overlay_layout(1_200, 96, 300).expect("layout");
    assert_eq!(width, 300);
    assert_eq!(left, 742);
    assert_eq!(1_200 - left - width, 158);
}

#[test]
fn compact_layout_scales_with_dpi() {
    let (left, width) = overlay_layout(1_800, 144, 220).expect("layout");
    assert_eq!(width, 330);
    assert_eq!(1_800 - left - width, 237);
}

#[test]
fn compact_layout_hides_instead_of_covering_menus() {
    assert_eq!(overlay_layout(500, 96, 220), None);
}

#[test]
fn codex_main_window_is_an_attachment_candidate() {
    assert!(is_main_window_candidate(WS_CAPTION, 0));
}

#[test]
fn codex_pet_tool_window_is_not_an_attachment_candidate() {
    assert!(!is_main_window_candidate(WS_CAPTION, WS_EX_TOOLWINDOW));
    assert!(!is_main_window_candidate(WS_POPUP, WS_EX_TOOLWINDOW));
}

#[test]
fn location_hook_only_accepts_the_current_codex_window() {
    let target = 0x1234usize;
    let other = 0x5678usize;
    assert!(should_sync_location_event(
        EVENT_OBJECT_LOCATIONCHANGE,
        target,
        target,
        OBJID_WINDOW,
        CHILDID_SELF,
    ));
    assert!(!should_sync_location_event(
        EVENT_OBJECT_LOCATIONCHANGE,
        other,
        target,
        OBJID_WINDOW,
        CHILDID_SELF,
    ));
    assert!(!should_sync_location_event(
        EVENT_OBJECT_LOCATIONCHANGE,
        target,
        target,
        OBJID_WINDOW - 1,
        CHILDID_SELF,
    ));
}

#[test]
fn location_events_need_a_window_and_the_right_kind() {
    let event = EVENT_OBJECT_LOCATIONCHANGE;
    assert!(!should_sync_location_event(event, 0, 0, OBJID_WINDOW, CHILDID_SELF));
    assert!(!should_sync_location_event(event + 1, 7, 7, OBJID_WINDOW, CHILDID_SELF));
    assert!(!should_sync_location_event(event, 7, 7, OBJID_WINDOW, CHILDID_SELF + 1));
}

#[test]
fn the_layout_takes_what_room_there_is() {
    // 220 + 170 + 158 is just enough.
    assert_eq!(overlay_layout(548, 96, 440), Some((220, 170)));
    assert_eq!(overlay_layout(547, 96, 440), None);
    assert_eq!(overlay_layout(700, 96, 440), Some((220, 322)));
    assert_eq!(overlay_layout(-5, 96, 440), None);
}

#[test]
fn lengths_are_scaled_to_the_nearest_dot() {
    assert_eq!(scaled(24, 96), 24);
    assert_eq!(scaled(5, 120), 6);
    assert_eq!(scaled(10, 120), 13);
    assert_eq!(scaled(42, 144), 63);
    assert_eq!(scaled(u32::MAX, u32::MAX), i32::MAX as i64);
    assert_eq!(effective_dpi(0), 96);
    assert_eq!(effective_dpi(95), 96);
    assert_eq!(effective_dpi(120), 120);
}

#[test]
fn the_window_to_follow_is_the_desktop_program() {
    let facts = WindowFacts {
        visible: true,
        minimized: false,
        style: WS_CAPTION,
        extended_style: 0,
        cloaked: Some(0),
    };
    assert!(is_codex_window(&facts, Some(CODEX)));
    assert!(is_codex_window(&WindowFacts { cloaked: None, ..facts }, Some(CODEX)));
    assert!(!is_codex_window(&facts, None));
    assert!(!is_codex_window(&facts, Some("C:\\app\\chatgpt.exe")));
    assert!(!is_codex_window(&WindowFacts { visible: false, ..facts }, Some(CODEX)));
    assert!(!is_codex_window(&WindowFacts { minimized: true, ..facts }, Some(CODEX)));
    assert!(!is_codex_window(&WindowFacts { style: WS_POPUP, ..facts }, Some(CODEX)));
    assert!(!is_codex_window(&WindowFacts { cloaked: Some(2), ..facts }, Some(CODEX)));
    let tool = WindowFacts { extended_style: WS_EX_TOOLWINDOW, ..facts };
    assert!(!tool.is_candidate());
}

#[test]
fn programs_are_told_by_their_path() {
    assert!(is_codex_executable(CODEX));
    assert!(is_codex_executable("\\openai.codex_x\\app\\chatgpt.exe"));
    assert!(!is_codex_executable("\\openai.codex\\app\\chatgpt.exe"));
    assert!(!is_codex_executable("\\openai.codex_x\\app\\chatgpt.exe.bak"));
    assert!(!is_codex_executable(""));
}

#[test]
fn the_overlay_follows_its_window() {
    let bounds = Rect { left: 100, top: 50, right: 1_300, bottom: 900 };
    let step = step_for_window(Some(bounds), 96, true, false);
    let place = Place { left: 702, top: 55, width: 440, height: 30 };
    assert_eq!(
        step,
        OverlayStep { active: true, adopt_target: true, attach: true, place: Some(place) }
    );
    let step = step_for_window(Some(bounds), 0, false, true);
    let place = Place { left: 922, top: 55, width: 220, height: 30 };
    assert_eq!(
        step,
        OverlayStep { active: true, adopt_target: true, attach: false, place: Some(place) }
    );
}

#[test]
fn the_overlay_hides_without_room_or_window() {
    let narrow = Rect { left: 0, top: 0, right: 500, bottom: 900 };
    let hidden = OverlayStep { active: true, adopt_target: false, attach: false, place: None };
    assert_eq!(step_for_window(Some(narrow), 96, true, false), hidden);
    let lost = OverlayStep { active: false, ..hidden };
    assert_eq!(step_for_window(None, 96, true, true), lost);
    assert_eq!(step_without_window(), OverlayStep { adopt_target: true, ..lost });
}

#[test]
fn messages_have_their_answers() {
    assert_eq!(answer(0x0081, 0), Answer::Create);
    assert_eq!(answer(WM_TIMER, 1), Answer::Track);
    assert_eq!(answer(WM_TIMER, 2), Answer::Default);
    assert_eq!(answer(WM_PAINT, 0), Answer::Paint);
    assert_eq!(answer(0x0014, 0), Answer::KeepBackground);
    assert_eq!(answer(0x0021, 0), Answer::StayInactive);
    assert_eq!(answer(0x0201, 0), Answer::Press);
    assert_eq!(answer(0x0203, 0), Answer::ForwardDoubleClick);
    assert_eq!(answer(0x0205, 0), Answer::CyclePalette);
    assert_eq!(answer(0x0002, 0), Answer::Quit);
    assert_eq!(answer(0x0400, 1), Answer::Default);
}

#[test]
fn presses_in_the_corner_cycle_the_palette() {
    assert_eq!(press_action(416, 440, 96, true), PressAction::CyclePalette);
    assert_eq!(press_action(415, 440, 96, true), PressAction::DragWindow);
    assert_eq!(press_action(415, 440, 96, false), PressAction::Nothing);
    assert_eq!(press_action(404, 440, 144, false), PressAction::CyclePalette);
    assert_eq!(press_action(403, 440, 144, true), PressAction::DragWindow);
}

#[test]
fn a_missing_or_minimized_window_is_not_followed() {
    let bounds = Some(Rect { left: 100, top: 50, right: 1_300, bottom: 900 });
    let lost = OverlayStep { active: false, adopt_target: true, attach: false, place: None };
    assert_eq!(step_for_target(false, false, bounds, 96, true, false), lost);
    assert_eq!(step_for_target(true, true, bounds, 96, true, true), lost);
    assert_eq!(step_for_target(false, true, None, 0, false, false), lost);
    assert_eq!(
        step_for_target(true, false, bounds, 120, true, false),
        step_for_window(bounds, 120, true, false)
    );
    assert!(!step_for_target(true, false, None, 96, true, true).adopt_target);
    assert_eq!(window_at(0), None);
    assert_eq!(window_at(7), Some(7));
}
