use weekly_usage_bar::settings::{
    data_directory, planner_state_path, settings_path, worker_status_path, Settings,
};

#[test]
fn default_palette_is_first() {
    assert_eq!(Settings::default().palette_index, 0);
}

#[test]
fn stored_settings_are_used() {
    assert_eq!(Settings::load(None).palette_index, 0);
    assert_eq!(Settings::load(Some(Settings { palette_index: 5 })).palette_index, 5);
    assert_eq!(Settings { palette_index: 5 }.palette(), 2);
}

#[test]
fn palettes_come_round() {
    let first = Settings::default();
    let second = first.with_next_palette();
    let third = second.with_next_palette();
    assert_eq!(second.palette_index, 1);
    assert_eq!(third.palette_index, 2);
    assert_eq!(third.with_next_palette(), first);
    assert_eq!(Settings { palette_index: 7 }.with_next_palette().palette_index, 2);
}

#[test]
fn files_lie_in_the_data_directory() {
    let directory = data_directory(Some("local"), "temp");
    assert_eq!(directory.base, "local");
    assert_eq!(directory.name, "WeeklyUsageBar");
    assert_eq!(data_directory(None, "temp").base, "temp");
    assert_eq!(planner_state_path(directory.clone()).name, "planner.json");
    assert_eq!(worker_status_path(directory.clone()).name, "worker-status.json");
    let file = settings_path(directory);
    assert_eq!(file.name, "settings.json");
    assert_eq!(file.directory.base, "local");
}
