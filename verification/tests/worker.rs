use weekly_usage_bar::worker::{
    compact_text, load_visible, millis_from, model_label, now_millis, route_label, visible_status,
    WorkerStatus, ACTIVE_TTL_MS, FINISHED_TTL_MS,
};

fn sample() -> WorkerStatus {
    WorkerStatus {
        schema: 1,
        run_id: "run-1".to_string(),
        worker: "ollama-a".to_string(),
        model: Some("cloud-flash".to_string()),
        phase: "TEST".to_string(),
        started_at_ms: 1_000,
        updated_at_ms: 10_000,
        tool_calls: 4,
        changed_files: 3,
        current_command: Some("cargo test --all-targets".to_string()),
        ..WorkerStatus::default()
    }
}

#[test]
fn active_status_expires_if_writer_disappears() {
    let status = sample();
    assert!(status.visible_at(10_000 + ACTIVE_TTL_MS));
    assert!(!status.visible_at(10_001 + ACTIVE_TTL_MS));
}

#[test]
fn finished_status_has_shorter_visibility_window() {
    let mut status = sample();
    status.phase = "DONE".to_string();
    assert!(status.visible_at(10_000 + FINISHED_TTL_MS));
    assert!(!status.visible_at(10_001 + FINISHED_TTL_MS));
}

#[test]
fn compact_label_uses_actual_model_and_real_metrics() {
    let mut status = sample();
    status.model_actual = Some("glm-5.3-flash".to_string());
    assert_eq!(
        status.compact_label(19_000),
        "DSH GLM5.3F TEST 18s · 3f · 4t · cargo test --all-targets"
    );
}

#[test]
fn fallback_route_is_explicit() {
    let mut status = sample();
    status.model_actual = Some("deepseek-v4-flash".to_string());
    status.fallback_from = Some("glm-5.3-flash".to_string());
    status.fallback_to = Some("deepseek-v4-flash".to_string());
    assert!(status.compact_label(19_000).contains("GLM5.3F→DSV4F"));
}

#[test]
fn failed_workers_are_finished() {
    let mut status = sample();
    assert!(!status.is_finished());
    status.phase = "FAILED".to_string();
    assert!(status.is_finished());
    status.phase = "done".to_string();
    assert!(!status.is_finished());
}

#[test]
fn incomplete_statuses_are_hidden() {
    let mut status = sample();
    status.schema = 2;
    assert!(!status.visible_at(10_000));
    let mut status = sample();
    status.run_id = String::new();
    assert!(!status.visible_at(10_000));
    let mut status = sample();
    status.phase = String::new();
    assert!(!status.visible_at(10_000));
    let mut status = sample();
    status.updated_at_ms = 0;
    assert!(!status.visible_at(0));
    // A moment before the last update counts as now.
    assert!(sample().visible_at(0));
}

#[test]
fn an_expired_status_stays_hidden() {
    let status = sample();
    assert!(!status.visible_at(190_001));
    assert!(!status.visible_at(u64::MAX));
    // Nor does an incomplete one come up when its update is still to come.
    let mut status = sample();
    status.schema = 0;
    assert!(!status.visible_at(0));
    assert!(!status.visible_at(10_000));
}

#[test]
fn labels_of_idle_workers() {
    let mut status = sample();
    status.current_command = Some("  \t ".to_string());
    status.current_tool = Some(" apply\npatch ".to_string());
    assert_eq!(status.compact_label(0), "DSH AUTO TEST 0s · 3f · 4t · apply patch");
    status.current_command = None;
    status.current_tool = None;
    status.model = None;
    status.phase = "plan é".to_string();
    assert_eq!(status.compact_label(61_999), "DSH AUTO PLAN é 60s · 3f · 4t");
}

#[test]
fn routes_name_the_model_at_work() {
    let mut status = sample();
    status.fallback_from = Some("cloud-flash".to_string());
    assert_eq!(route_label(&status), "AUTO");
    status.fallback_to = Some("nemotron-3-nano:30b".to_string());
    assert_eq!(route_label(&status), "AUTO→NEMO-N");
    status.fallback_from = None;
    assert_eq!(route_label(&status), "NEMO-N");
}

#[test]
fn models_have_short_names() {
    assert_eq!(model_label(" Cloud-Flash "), "AUTO");
    assert_eq!(model_label("glm-5.3-flash"), "GLM5.3F");
    assert_eq!(model_label("deepseek-v4.1-flash"), "DSV4.1F");
    assert_eq!(model_label("deepseek-v4-flash"), "DSV4F");
    assert_eq!(model_label("deepseek-v4-flash:0731"), "DSV4F");
    assert_eq!(model_label("nemotron-3-nano:30b"), "NEMO-N");
    assert_eq!(model_label("\u{3000}Qwen-é "), "QWEN-é");
}

#[test]
fn long_details_are_cut_off() {
    let exact = "x".repeat(44);
    assert_eq!(compact_text(&exact), exact);
    let long = "ä".repeat(45);
    let short = compact_text(&long);
    assert_eq!(short, format!("{}…", "ä".repeat(43)));
    assert_eq!(short.chars().count(), 44);
    assert_eq!(compact_text(" a \n\t b\u{a0}c "), "a b c");
    assert_eq!(compact_text(""), "");
}

#[test]
fn only_visible_statuses_are_given() {
    assert_eq!(visible_status(None, 10_000), None);
    assert_eq!(visible_status(Some(sample()), 10_000), Some(sample()));
    assert_eq!(visible_status(Some(sample()), 190_001), None);
}

#[test]
fn fresh_statuses_are_visible_now() {
    assert_eq!(load_visible(None), None);
    assert_eq!(load_visible(Some(sample())), None);
    let mut status = sample();
    status.updated_at_ms = now_millis();
    assert_eq!(load_visible(Some(status.clone())), Some(status));
}

#[test]
fn the_clock_counts_milliseconds() {
    let before = std::time::SystemTime::now()
        .duration_since(std::time::UNIX_EPOCH)
        .unwrap()
        .as_millis() as u64;
    let now = now_millis();
    assert!(before <= now && now < before + 10_000);
    assert_eq!(millis_from(None), 0);
    assert_eq!(millis_from(Some(5)), 5);
    assert_eq!(millis_from(Some(u64::MAX as u128)), u64::MAX);
    assert_eq!(millis_from(Some(u64::MAX as u128 + 1)), u64::MAX);
}
