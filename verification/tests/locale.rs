use chrono::{Local, TimeZone};
use weekly_usage_bar::calendar::LocalTime;
use weekly_usage_bar::locale::{
    codex_config_path, codex_locale_override, parse_locale_override, plural, system_locale,
    AppLocale, LocaleWatch,
};
use weekly_usage_bar::model::{LimitWindow, UsageStatus};
use weekly_usage_bar::percent::{Budget, Percent};
use weekly_usage_bar::text::wide;

fn window(minutes: u64) -> LimitWindow {
    LimitWindow {
        duration_minutes: minutes,
        remaining_percent: 94,
        resets_at: Local
            .timestamp_opt(1_800_500_000, 0)
            .single()
            .map(|time| LocalTime::local(time.timestamp())),
    }
}

// 2027-01-21 03:33:20 in UTC.
fn window_in(minutes: u64, utc_offset: i32) -> LimitWindow {
    LimitWindow {
        duration_minutes: minutes,
        remaining_percent: 94,
        resets_at: Some(LocalTime { unix: 1_800_502_400, utc_offset }),
    }
}

fn budget(points: f64) -> Budget {
    Budget::of(percent(points))
}

fn percent(points: f64) -> Percent {
    Percent { ticks: (points * 420.0).round() as i64 }
}

#[test]
fn parses_codex_locale_override() {
    assert_eq!(
        parse_locale_override("localeOverride = \"ko-KR\""),
        Some("ko-KR".to_string())
    );
    assert_eq!(parse_locale_override("# localeOverride = \"en\""), None);
    assert_eq!(parse_locale_override("theme = \"dark\""), None);
}

#[test]
fn detects_supported_languages() {
    assert_eq!(AppLocale::from_language_tag("ko-KR"), AppLocale::Korean);
    assert_eq!(AppLocale::from_language_tag("zh-CN"), AppLocale::Chinese);
    assert_eq!(AppLocale::from_language_tag("en-US"), AppLocale::English);
}

#[test]
fn formats_compact_weekly_plan() {
    let weekly = window(10_080);
    assert!(AppLocale::Korean
        .weekly_plan_text(&weekly, percent(8.0), budget(14.0))
        .starts_with("주간 94% · 오늘 8/14% · "));
}

#[test]
fn language_tags_are_trimmed_and_without_case() {
    assert_eq!(AppLocale::from_language_tag("  KO"), AppLocale::Korean);
    assert_eq!(AppLocale::from_language_tag("\tZh-Hant\n"), AppLocale::Chinese);
    assert_eq!(AppLocale::from_language_tag("k"), AppLocale::English);
    assert_eq!(AppLocale::from_language_tag(""), AppLocale::English);
}

#[test]
fn overrides_take_either_quote() {
    assert_eq!(parse_locale_override("  localeOverride='zh' # note"), Some("zh".to_string()));
    assert_eq!(parse_locale_override("localeOverride = ' en = \"x\" '"), Some("en = \"x\"".to_string()));
    assert_eq!(parse_locale_override("localeOverride = \"ko"), None);
    assert_eq!(parse_locale_override("localeOverride = ko"), None);
    assert_eq!(parse_locale_override("localeOverride = \"  \""), None);
    assert_eq!(parse_locale_override("localeOverride = "), None);
    assert_eq!(parse_locale_override("localeOverride"), None);
    assert_eq!(parse_locale_override("LocaleOverride = \"ko\""), None);
    assert_eq!(parse_locale_override(""), None);
}

#[test]
fn the_first_override_counts() {
    let contents = "theme = \"dark\"\r\n# localeOverride = \"en\"\r\nlocaleOverride = \"\"\nlocaleOverride = \"ko\"\r\nlocaleOverride = \"zh\"";
    assert_eq!(codex_locale_override(contents), Some("ko".to_string()));
    assert_eq!(codex_locale_override("a\n\nb\n"), None);
    assert_eq!(codex_locale_override(""), None);
    assert_eq!(codex_locale_override("\n\nlocaleOverride='zh'"), Some("zh".to_string()));
}

#[test]
fn the_configuration_goes_before_the_system() {
    let name = wide("zh-CN");
    let length = name.len() as i32;
    assert_eq!(AppLocale::detect(Some("localeOverride = 'ko'"), &name, length), AppLocale::Korean);
    assert_eq!(AppLocale::detect(Some("x = 1"), &name, length), AppLocale::Chinese);
    assert_eq!(AppLocale::detect(None, &name, length), AppLocale::Chinese);
    assert_eq!(AppLocale::detect(None, &name, 0), AppLocale::English);
}

#[test]
fn the_system_language_ends_before_the_zero() {
    let mut name = wide("ko-KR");
    let length = name.len() as i32;
    name.resize(85, 0);
    assert_eq!(system_locale(&name, length), AppLocale::Korean);
    assert_eq!(system_locale(&name, 2), AppLocale::English);
    assert_eq!(system_locale(&name, 1), AppLocale::English);
    assert_eq!(system_locale(&name, -1), AppLocale::English);
}

#[test]
fn the_configuration_has_a_home() {
    let file = codex_config_path(Some("codex"), Some("user")).unwrap();
    assert_eq!((file.home, file.name), ("codex", "config.toml"));
    let file = codex_config_path(None, Some("user")).unwrap();
    assert_eq!((file.home, file.name), ("user", ".codex/config.toml"));
    assert!(codex_config_path::<&str>(None, None).is_none());
}

#[test]
fn the_language_is_looked_up_every_two_seconds() {
    let mut watch = LocaleWatch::new(AppLocale::English, 500);
    assert!(!watch.is_due(2_499));
    assert!(watch.is_due(2_500));
    assert!(!watch.found(AppLocale::English, 2_600));
    assert!(watch.found(AppLocale::Korean, 4_700));
    assert_eq!(watch.locale, AppLocale::Korean);
    assert_eq!(watch.next_check_ms, 6_700);
}

#[test]
fn durations_in_words() {
    let labels = |minutes: u64| {
        (
            AppLocale::Korean.duration_label(minutes),
            AppLocale::Chinese.duration_label(minutes),
            AppLocale::English.duration_label(minutes),
        )
    };
    let three = |a: &str, b: &str, c: &str| (a.to_string(), b.to_string(), c.to_string());
    assert_eq!(labels(10_080), three("주간", "1周", "1 week"));
    assert_eq!(labels(20_160), three("14일", "14天", "14 days"));
    assert_eq!(labels(1_440), three("1일", "1天", "1 day"));
    assert_eq!(labels(300), three("5시간", "5小时", "5 hours"));
    assert_eq!(labels(60), three("1시간", "1小时", "1 hour"));
    assert_eq!(labels(1_500), three("25시간", "25小时", "25 hours"));
    assert_eq!(labels(45), three("현재", "当前", "Current"));
    assert_eq!(labels(0), three("현재", "当前", "Current"));
    assert_eq!(plural(0, "day"), "0 days");
}

#[test]
fn metrics_in_words() {
    let week = window_in(10_080, 9 * 3_600);
    assert_eq!(AppLocale::Korean.metric_text(&week), "주간 94% · 1/21 리셋");
    assert_eq!(AppLocale::Chinese.metric_text(&week), "1周额度 94% · 1月21日重置");
    assert_eq!(AppLocale::English.metric_text(&week), "1 week quota 94% · resets Jan 21");
    let short = window_in(300, -5 * 3_600);
    assert_eq!(AppLocale::English.metric_text(&short), "5 hours quota 94% · resets 22:33");
    assert_eq!(AppLocale::Korean.metric_text(&short), "5시간 94% · 22:33 리셋");
}

#[test]
fn plans_in_words() {
    let week = window_in(10_080, 0);
    let text = AppLocale::English.weekly_plan_text(&week, percent(8.4), Budget { ticks: 42_000, parts: 7 });
    assert_eq!(text, "Week 94% · today 8/14% · Jan 21");
    let text = AppLocale::Chinese.weekly_plan_text(&week, percent(2.5), budget(3.5));
    assert_eq!(text, "本周 94% · 今日 2/4% · 1月21日");
    let text = AppLocale::Korean.weekly_plan_text(&week, percent(-7.6), budget(0.5));
    assert_eq!(text, "주간 94% · 오늘 -8/0% · 1/21");
}

#[test]
fn unknown_resets_in_words() {
    let mut week = window_in(10_080, 0);
    week.resets_at = None;
    assert_eq!(AppLocale::English.reset_label(&week), "--");
    assert_eq!(AppLocale::Korean.reset_label(&week), "--");
}

#[test]
fn resets_in_words() {
    assert_eq!(AppLocale::Korean.reset_label(&window_in(1_440, 0)), "1/21");
    assert_eq!(AppLocale::Korean.reset_label(&window_in(1_439, 0)), "03:33");
    assert_eq!(AppLocale::Chinese.reset_label(&window_in(1_440, -4 * 3_600)), "1月20日");
    assert_eq!(AppLocale::English.reset_label(&window_in(1_440, 0)), "Jan 21");
}

#[test]
fn statuses_in_words() {
    let connecting = UsageStatus::Connecting;
    let retrying = UsageStatus::Retrying;
    assert_eq!(AppLocale::Korean.status_text(connecting), "Codex 사용량 읽는 중…");
    assert_eq!(AppLocale::Korean.status_text(retrying), "사용량을 읽지 못했습니다. 재시도 중…");
    assert_eq!(AppLocale::Chinese.status_text(connecting), "正在读取 Codex 用量…");
    assert_eq!(AppLocale::Chinese.status_text(retrying), "暂时无法读取用量，正在重试…");
    assert_eq!(AppLocale::English.status_text(connecting), "Reading Codex usage…");
    assert_eq!(AppLocale::English.status_text(retrying), "Usage unavailable. Retrying…");
}
