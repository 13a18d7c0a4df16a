//! The language of the overlay and the texts that it shows in it.

use vstd::prelude::*;

use crate::calendar::LocalTime;
use crate::model::{LimitWindow, UsageStatus};
use crate::percent::{nearest_even, one_of, round_half_even, Budget, Percent};
use crate::text::{
    begins_with, chars_of, decimal, find_char, first_from, from_utf16_lossy,
    law_the_first_occurrence_is_found, lemma_first_from_in_range, lemma_is_first, line_end, lower, push_decimal, push_two_places, slice_chars,
    starts_with, string_of, text_is, to_lower, trim, trimmed, two_places, utf16_text,
};

verus! {

/// How often the language is looked up again, in milliseconds.
pub const LOCALE_CHECK_INTERVAL_MS: u64 = 2_000;

/// The languages that the overlay speaks.
#[derive(Clone, Copy, Debug, PartialEq, Eq, Structural)]
pub enum AppLocale {
    Korean,
    Chinese,
    English,
}

/// The language that a language tag asks for.
pub open spec fn language(tag: Seq<char>) -> AppLocale {
    let tag = lower(trimmed(tag));
    if begins_with(tag, "ko"@) {
        AppLocale::Korean
    } else if begins_with(tag, "zh"@) {
        AppLocale::Chinese
    } else {
        AppLocale::English
    }
}

/// A number with its unit, in the plural unless the number is one.
pub open spec fn counted(value: nat, unit: Seq<char>) -> Seq<char> {
    if value == 1 {
        decimal(value) + " "@ + unit
    } else {
        decimal(value) + " "@ + unit + "s"@
    }
}

/// The value of a quoted text that begins with its quote: what stands between the
/// quote and its next occurrence, trimmed; nothing where that is empty.
pub open spec fn quoted(value: Seq<char>) -> Option<Seq<char>> {
    if value.len() == 0 || (value[0] != '"' && value[0] != '\'') {
        None
    } else {
        match first_from(value, value[0], 1) {
            Some(end) => {
                let inner = trimmed(value.subrange(1, end));
                if inner.len() == 0 {
                    None
                } else {
                    Some(inner)
                }
            },
            None => None,
        }
    }
}

/// The locale that a line of the configuration sets, if it sets one: the line is an
/// assignment of a quoted value to `localeOverride`, and no comment.
pub open spec fn override_in_line(line: Seq<char>) -> Option<Seq<char>> {
    let line = trimmed(line);
    if begins_with(line, "#"@) {
        None
    } else {
        match first_from(line, '=', 0) {
            Some(at) => if trimmed(line.take(at)) == "localeOverride"@ {
                quoted(trimmed(line.skip(at + 1)))
            } else {
                None
            },
            None => None,
        }
    }
}

/// The first locale that a line of the configuration sets, from a position on.
pub open spec fn override_from(contents: Seq<char>, from: int) -> Option<Seq<char>>
    decreases contents.len() - from + 1,
{
    if from >= contents.len() {
        None
    } else {
        proof {
            lemma_first_from_in_range(contents, '\n', from);
        }
        let end = line_end(contents, from);
        match override_in_line(contents.subrange(from, end)) {
            Some(locale) => Some(locale),
            None => override_from(contents, end + 1),
        }
    }
}

/// A budget in whole percent, rounded to the nearest, halves to even.
pub open spec fn rounded(budget: Budget) -> Seq<char> {
    if budget.ticks < 0 {
        "-"@ + decimal(nearest_even(-budget.ticks, 420 * budget.parts) as nat)
    } else {
        decimal(nearest_even(budget.ticks as int, 420 * budget.parts) as nat)
    }
}

impl AppLocale {
    /// How long a window lasts, in words.
    pub open spec fn duration_words(self, minutes: u64) -> Seq<char> {
        if minutes == 10_080 {
            match self {
                AppLocale::Korean => "주간"@,
                AppLocale::Chinese => "1周"@,
                AppLocale::English => "1 week"@,
            }
        } else if minutes >= 1_440 && minutes % 1_440 == 0 {
            let days = (minutes / 1_440) as nat;
            match self {
                AppLocale::Korean => decimal(days) + "일"@,
                AppLocale::Chinese => decimal(days) + "天"@,
                AppLocale::English => counted(days, "day"@),
            }
        } else if minutes >= 60 && minutes % 60 == 0 {
            let hours = (minutes / 60) as nat;
            match self {
                AppLocale::Korean => decimal(hours) + "시간"@,
                AppLocale::Chinese => decimal(hours) + "小时"@,
                AppLocale::English => counted(hours, "hour"@),
            }
        } else {
            match self {
                AppLocale::Korean => "현재"@,
                AppLocale::Chinese => "当前"@,
                AppLocale::English => "Current"@,
            }
        }
    }

    /// When a window resets, in words: the date for a window of days, and else the
    /// clock time.
    pub open spec fn reset_words(self, window: LimitWindow) -> Seq<char> {
        match window.resets_at {
            None => "--"@,
            Some(reset) => if window.duration_minutes < 1_440 {
                two_places(reset.hour() as nat) + ":"@ + two_places(reset.minute() as nat)
            } else {
                match self {
                    AppLocale::Korean => decimal(reset.month() as nat) + "/"@ + decimal(
                        reset.day() as nat,
                    ),
                    AppLocale::Chinese => decimal(reset.month() as nat) + "月"@ + decimal(
                        reset.day() as nat,
                    ) + "日"@,
                    AppLocale::English => crate::calendar::month_abbreviation(reset.month())
                        + seq![' '] + decimal(reset.day() as nat),
                }
            },
        }
    }

    /// The quota of a window, in words.
    pub open spec fn metric_words(self, window: LimitWindow) -> Seq<char> {
        let duration = self.duration_words(window.duration_minutes);
        let reset = self.reset_words(window);
        let left = decimal(window.remaining_percent as nat);
        match self {
            AppLocale::Korean => duration + " "@ + left + "% · "@ + reset + " 리셋"@,
            AppLocale::Chinese => duration + "额度 "@ + left + "% · "@ + reset + "重置"@,
            AppLocale::English => duration + " quota "@ + left + "% · resets "@ + reset,
        }
    }

    /// The weekly quota and today's budget, in words.
    pub open spec fn weekly_plan_words(
        self,
        window: LimitWindow,
        today_used: Percent,
        today_budget: Budget,
    ) -> Seq<char> {
        let (week, today) = match self {
            AppLocale::Korean => ("주간 "@, "% · 오늘 "@),
            AppLocale::Chinese => ("本周 "@, "% · 今日 "@),
            AppLocale::English => ("Week "@, "% · today "@),
        };
        week + decimal(window.remaining_percent as nat) + today + rounded(one_of(today_used.ticks as int, 1)) + "/"@
            + rounded(today_budget) + "% · "@ + self.reset_words(window)
    }

    /// Why there is no quota to show, in words.
    pub open spec fn status_words(self, status: UsageStatus) -> Seq<char> {
        match (self, status) {
            (AppLocale::Korean, UsageStatus::Connecting) => "Codex 사용량 읽는 중…"@,
            (AppLocale::Korean, UsageStatus::Retrying) => "사용량을 읽지 못했습니다. 재시도 중…"@,
            (AppLocale::Chinese, UsageStatus::Connecting) => "正在读取 Codex 用量…"@,
            (AppLocale::Chinese, UsageStatus::Retrying) => "暂时无法读取用量，正在重试…"@,
            (AppLocale::English, UsageStatus::Connecting) => "Reading Codex usage…"@,
            (AppLocale::English, UsageStatus::Retrying) => "Usage unavailable. Retrying…"@,
        }
    }

    /// The language of the overlay: what the configuration sets, or else what the
    /// system uses, given as the first `length` units of a zero-terminated name.
    pub fn detect(config: Option<&str>, system_name: &Vec<u16>, length: i32) -> (r: Self)
        requires
            length - 1 <= system_name.len(),
        ensures
            r == match config {
                Some(contents) => match override_from(contents@, 0) {
                    Some(tag) => language(tag),
                    None => system_language(system_name@, length as int),
                },
                None => system_language(system_name@, length as int),
            },
    {
        if let Some(contents) = config {
            if let Some(tag) = codex_locale_override(contents) {
                return Self::from_language_tag(tag.as_str());
            }
        }
        system_locale(system_name, length)
    }

    /// The quota of a window, in words.
    pub fn metric_text(self, window: &LimitWindow) -> (r: String)
        requires
            window.valid(),
        ensures
            r@ == self.metric_words(*window),
    {
        let duration = self.duration_label(window.duration_minutes);
        let reset = self.reset_label(window);
        let mut text = duration;
        match self {
            AppLocale::Korean => text.append(" "),
            AppLocale::Chinese => text.append("额度 "),
            AppLocale::English => text.append(" quota "),
        }
        push_decimal(&mut text, window.remaining_percent as u64);
        match self {
            AppLocale::Korean => {
                text.append("% · ");
                text.append(reset.as_str());
                text.append(" 리셋");
            },
            AppLocale::Chinese => {
                text.append("% · ");
                text.append(reset.as_str());
                text.append("重置");
            },
            AppLocale::English => {
                text.append("% · resets ");
                text.append(reset.as_str());
            },
        }
        text
    }

    /// The weekly quota and today's budget, in words.
    pub fn weekly_plan_text(
        self,
        window: &LimitWindow,
        today_used: Percent,
        today_budget: Budget,
    ) -> (r: String)
        requires
            window.valid(),
            today_budget.parts > 0,
        ensures
            r@ == self.weekly_plan_words(*window, today_used, today_budget),
    {
        let reset = self.reset_label(window);
        let (week, today) = match self {
            AppLocale::Korean => ("주간 ", "% · 오늘 "),
            AppLocale::Chinese => ("本周 ", "% · 今日 "),
            AppLocale::English => ("Week ", "% · today "),
        };
        let mut text = week.to_owned();
        push_decimal(&mut text, window.remaining_percent as u64);
        text.append(today);
        push_rounded(&mut text, Budget::of(today_used));
        text.append("/");
        push_rounded(&mut text, today_budget);
        text.append("% · ");
        text.append(reset.as_str());
        text
    }

    /// Why there is no quota to show, in words.
    pub fn status_text(self, status: UsageStatus) -> (r: &'static str)
        ensures
            r@ == self.status_words(status),
    {
        match (self, status) {
            (AppLocale::Korean, UsageStatus::Connecting) => "Codex 사용량 읽는 중…",
            (AppLocale::Korean, UsageStatus::Retrying) => "사용량을 읽지 못했습니다. 재시도 중…",
            (AppLocale::Chinese, UsageStatus::Connecting) => "正在读取 Codex 用量…",
            (AppLocale::Chinese, UsageStatus::Retrying) => "暂时无法读取用量，正在重试…",
            (AppLocale::English, UsageStatus::Connecting) => "Reading Codex usage…",
            (AppLocale::English, UsageStatus::Retrying) => "Usage unavailable. Retrying…",
        }
    }

    /// The language that a language tag asks for.
    pub fn from_language_tag(tag: &str) -> (r: Self)
        ensures
            r == language(tag@),
    {
        let tag = to_lower(&trim(&chars_of(tag)));
        if starts_with(&tag, "ko") {
            AppLocale::Korean
        } else if starts_with(&tag, "zh") {
            AppLocale::Chinese
        } else {
            AppLocale::English
        }
    }

    /// How long a window lasts, in words.
    pub fn duration_label(self, minutes: u64) -> (r: String)
        ensures
            r@ == self.duration_words(minutes),
    {
        if minutes == 10_080 {
            return match self {
                AppLocale::Korean => "주간".to_owned(),
                AppLocale::Chinese => "1周".to_owned(),
                AppLocale::English => "1 week".to_owned(),
            };
        }
        if minutes >= 1_440 && minutes % 1_440 == 0 {
            return match self {
                AppLocale::Korean => with_unit(minutes / 1_440, "일"),
                AppLocale::Chinese => with_unit(minutes / 1_440, "天"),
                AppLocale::English => plural(minutes / 1_440, "day"),
            };
        }
        if minutes >= 60 && minutes % 60 == 0 {
            return match self {
                AppLocale::Korean => with_unit(minutes / 60, "시간"),
                AppLocale::Chinese => with_unit(minutes / 60, "小时"),
                AppLocale::English => plural(minutes / 60, "hour"),
            };
        }
        match self {
            AppLocale::Korean => "현재".to_owned(),
            AppLocale::Chinese => "当前".to_owned(),
            AppLocale::English => "Current".to_owned(),
        }
    }

    /// When a window resets, in words.
    pub fn reset_label(self, window: &LimitWindow) -> (r: String)
        requires
            window.valid(),
        ensures
            r@ == self.reset_words(*window),
    {
        let reset: LocalTime = match window.resets_at {
            Some(reset) => reset,
            None => {
                return "--".to_owned();
            },
        };
        let mut text = String::new();
        if window.duration_minutes < 1_440 {
            let time = reset.civil();
            push_two_places(&mut text, time.hour as u64);
            text.append(":");
            push_two_places(&mut text, time.minute as u64);
            assert(text@ =~= self.reset_words(*window));
            return text;
        }
        match self {
            AppLocale::Korean => {
                let date = reset.civil();
                push_decimal(&mut text, date.month as u64);
                text.append("/");
                push_decimal(&mut text, date.day as u64);
            },
            AppLocale::Chinese => {
                let date = reset.civil();
                push_decimal(&mut text, date.month as u64);
                text.append("月");
                push_decimal(&mut text, date.day as u64);
                text.append("日");
            },
            AppLocale::English => {
                text = reset.short_date();
            },
        }
        assert(text@ =~= self.reset_words(*window));
        text
    }
}

fn push_rounded(out: &mut String, budget: Budget)
    requires
        budget.parts > 0,
    ensures
        final(out)@ == old(out)@ + rounded(budget),
{
    let ticks: i128 = budget.ticks as i128;
    let size: u128 = if ticks < 0 {
        (-ticks) as u128
    } else {
        ticks as u128
    };
    if ticks < 0 {
        out.append("-");
    }
    let whole: u128 = 420 * budget.parts as u128;
    assert(0 <= size as int / whole as int <= size) by (nonlinear_arith)
        requires
            size >= 0,
            whole >= 1,
    ;
    let percent = round_half_even(size, whole);
    push_decimal(out, percent as u64);
    assert(out@ =~= old(out)@ + rounded(budget));
}

fn with_unit(value: u64, unit: &str) -> (r: String)
    ensures
        r@ == decimal(value as nat) + unit@,
{
    let mut text = String::new();
    push_decimal(&mut text, value);
    text.append(unit);
    assert(text@ =~= decimal(value as nat) + unit@);
    text
}

/// A number with its unit, in the plural unless the number is one.
pub fn plural(value: u64, unit: &str) -> (r: String)
    ensures
        r@ == counted(value as nat, unit@),
{
    let mut text = String::new();
    push_decimal(&mut text, value);
    text.append(" ");
    text.append(unit);
    if value != 1 {
        text.append("s");
    }
    assert(text@ =~= counted(value as nat, unit@));
    text
}

/// The locale that the configuration sets: the first line that sets one counts.
pub fn codex_locale_override(contents: &str) -> (r: Option<String>)
    ensures
        match (r, override_from(contents@, 0)) {
            (Some(locale), Some(wanted)) => locale@ == wanted,
            (None, None) => true,
            _ => false,
        },
{
    let text = chars_of(contents);
    let mut from: usize = 0;
    while from < text.len()
        invariant
            from <= text.len(),
            text@ == contents@,
            override_from(contents@, 0) == override_from(contents@, from as int),
        decreases text.len() - from,
    {
        let ghost line_start = from as int;
        let end = match find_char(&text, '\n', from) {
            Some(end) => end,
            None => text.len(),
        };
        let line = string_of(&slice_chars(&text, from, end));
        let found = parse_locale_override(line.as_str());
        if found.is_some() {
            return found;
        }
        assert(end == line_end(contents@, line_start));
        if end == text.len() {
            assert(override_from(contents@, end + 1) is None);
            return None;
        }
        from = end + 1;
    }
    None
}

/// The locale that a line of the configuration sets, if it sets one.
pub fn parse_locale_override(line: &str) -> (r: Option<String>)
    ensures
        match (r, override_in_line(line@)) {
            (Some(locale), Some(wanted)) => locale@ == wanted,
            (None, None) => true,
            _ => false,
        },
{
    let line = trim(&chars_of(line));
    if starts_with(&line, "#") {
        return None;
    }
    let at = match find_char(&line, '=', 0) {
        Some(at) => at,
        None => {
            return None;
        },
    };
    let key = slice_chars(&line, 0, at);
    assert(key@ == line@.take(at as int));
    if !text_is(&trim(&key), "localeOverride") {
        return None;
    }
    let value = slice_chars(&line, at + 1, line.len());
    assert(value@ == line@.skip(at + 1));
    let value = trim(&value);
    if value.len() == 0 {
        return None;
    }
    let quote = value[0];
    if quote != '"' && quote != '\'' {
        return None;
    }
    let end = match find_char(&value, quote, 1) {
        Some(end) => end,
        None => {
            return None;
        },
    };
    let locale = trim(&slice_chars(&value, 1, end));
    if locale.len() == 0 {
        return None;
    }
    Some(string_of(&locale))
}

/// The language of the system: that of its locale name, and English where there is
/// none. The name is given by `length` units, the last of which is a zero.
pub open spec fn system_language(name: Seq<u16>, length: int) -> AppLocale {
    if length > 1 {
        language(utf16_text(name.take(length - 1)))
    } else {
        AppLocale::English
    }
}

/// The language of the system.
pub fn system_locale(name: &Vec<u16>, length: i32) -> (r: AppLocale)
    requires
        length - 1 <= name.len(),
    ensures
        r == system_language(name@, length as int),
{
    if length > 1 {
        let tag = string_of(&from_utf16_lossy(name, (length - 1) as usize));
        AppLocale::from_language_tag(tag.as_str())
    } else {
        AppLocale::English
    }
}

/// The configuration file: a path below a home directory.
#[derive(Clone, Debug)]
pub struct ConfigFile<P> {
    pub home: P,
    pub name: &'static str,
}

/// Where the configuration is: in its own home directory where one is set, or else below
/// that of the user.
pub fn codex_config_path<P>(codex_home: Option<P>, user_profile: Option<P>) -> (r: Option<
    ConfigFile<P>,
>)
    ensures
        match (codex_home, user_profile) {
            (Some(home), _) => r matches Some(file) && file.home == home && file.name@
                == "config.toml"@,
            (None, Some(home)) => r matches Some(file) && file.home == home && file.name@
                == ".codex/config.toml"@,
            (None, None) => r is None,
        },
{
    if let Some(home) = codex_home {
        return Some(ConfigFile { home, name: "config.toml" });
    }
    match user_profile {
        Some(home) => Some(ConfigFile { home, name: ".codex/config.toml" }),
        None => None,
    }
}

/// The language in use and when to look it up again.
#[derive(Clone, Copy, Debug, PartialEq, Eq, Structural)]
pub struct LocaleWatch {
    pub locale: AppLocale,
    pub next_check_ms: u64,
}

impl LocaleWatch {
    /// A language that was looked up just now.
    pub fn new(locale: AppLocale, now_ms: u64) -> (r: Self)
        requires
            now_ms <= u64::MAX - LOCALE_CHECK_INTERVAL_MS,
        ensures
            r == (LocaleWatch {
                locale,
                next_check_ms: (now_ms + LOCALE_CHECK_INTERVAL_MS) as u64,
            }),
    {
        LocaleWatch { locale, next_check_ms: now_ms + LOCALE_CHECK_INTERVAL_MS }
    }

    /// Whether it is time to look the language up again.
    pub fn is_due(&self, now_ms: u64) -> (r: bool)
        ensures
            r == (now_ms >= self.next_check_ms),
    {
        now_ms >= self.next_check_ms
    }

    /// Takes in the language that was looked up. Gives whether it has changed, so that
    /// the overlay has to be painted again.
    pub fn found(&mut self, locale: AppLocale, now_ms: u64) -> (changed: bool)
        requires
            now_ms <= u64::MAX - LOCALE_CHECK_INTERVAL_MS,
        ensures
            changed == (locale != old(self).locale),
            final(self).locale == locale,
            final(self).next_check_ms == now_ms + LOCALE_CHECK_INTERVAL_MS,
    {
        let changed = locale != self.locale;
        self.locale = locale;
        self.next_check_ms = now_ms + LOCALE_CHECK_INTERVAL_MS;
        changed
    }
}

// ---------------------------------------------------------------------------------
// Laws
// ---------------------------------------------------------------------------------

/// The first two letters of a language tag decide, in either case and whatever follows:
/// `ko` is Korean, `zh` is Chinese, and everything else is English.
pub proof fn law_two_letters_decide_the_language(tag: Seq<char>)
    ensures
        ({
            let t = trimmed(tag);
            let korean = t.len() >= 2 && (t[0] == 'k' || t[0] == 'K') && (t[1] == 'o' || t[1]
                == 'O');
            let chinese = t.len() >= 2 && (t[0] == 'z' || t[0] == 'Z') && (t[1] == 'h' || t[1]
                == 'H');
            &&& language(tag) == AppLocale::Korean <==> korean
            &&& language(tag) == AppLocale::Chinese <==> chinese
        }),
{
    reveal_strlit("ko");
    reveal_strlit("zh");
    let t = trimmed(tag);
    let low = lower(t);
    if t.len() >= 2 {
        crate::text::law_only_ascii_letters_change_case(t, 0);
        crate::text::law_only_ascii_letters_change_case(t, 1);
        let two = low.subrange(0, 2);
        assert(two[0] == low[0] && two[1] == low[1]);
        if low[0] == 'k' && low[1] == 'o' {
            assert(two =~= "ko"@);
        }
        if low[0] == 'z' && low[1] == 'h' {
            assert(two =~= "zh"@);
        }
        assert("ko"@[0] == 'k' && "ko"@[1] == 'o' && "zh"@[0] == 'z' && "zh"@[1] == 'h');
    }
}

/// A line that sets the locale: the text between the first equals sign's quote and its next
/// occurrence, trimmed, is the locale, whatever follows it; an empty one is none.
pub proof fn law_a_quoted_override_is_read(line: Seq<char>, at: int, end: int)
    requires
        ({
            let l = trimmed(line);
            let value = trimmed(l.skip(at + 1));
            &&& 0 <= at < l.len()
            &&& l[0] != '#'
            &&& l[at] == '='
            &&& forall|i: int| 0 <= i < at ==> #[trigger] l[i] != '='
            &&& trimmed(l.take(at)) == "localeOverride"@
            &&& 0 < end < value.len()
            &&& value[0] == '"' || value[0] == '\''
            &&& value[end] == value[0]
            &&& forall|i: int| 1 <= i < end ==> #[trigger] value[i] != value[0]
        }),
    ensures
        ({
            let inner = trimmed(trimmed(trimmed(line).skip(at + 1)).subrange(1, end));
            &&& inner.len() > 0 ==> override_in_line(line) == Some(inner)
            &&& inner.len() == 0 ==> override_in_line(line) is None
        }),
{
    reveal_strlit("#");
    let l = trimmed(line);
    let value = trimmed(l.skip(at + 1));
    assert(l.subrange(0, 1)[0] == l[0]);
    lemma_is_first(l, '=', 0, at);
    lemma_is_first(value, value[0], 1, end);
}

/// A line sets no locale where it is a comment, has no equals sign, assigns to another key,
/// or gives a value that is not quoted or whose quote does not end.
pub proof fn law_other_lines_set_no_locale(line: Seq<char>, at: int)
    requires
        ({
            let l = trimmed(line);
            let value = trimmed(l.skip(at + 1));
            let first = 0 <= at < l.len() && l[at] == '=' && forall|i: int|
                0 <= i < at ==> #[trigger] l[i] != '=';
            ||| l.len() == 0
            ||| l[0] == '#'
            ||| forall|i: int| 0 <= i < l.len() ==> #[trigger] l[i] != '='
            ||| first && trimmed(l.take(at)) != "localeOverride"@
            ||| first && value.len() == 0
            ||| first && value[0] != '"' && value[0] != '\''
            ||| first && forall|i: int| 1 <= i < value.len() ==> #[trigger] value[i] != value[0]
        }),
    ensures
        override_in_line(line) is None,
{
    reveal_strlit("#");
    let l = trimmed(line);
    let value = trimmed(l.skip(at + 1));
    if l.len() > 0 {
        assert(l.subrange(0, 1)[0] == l[0]);
        if l[0] == '#' {
            assert(l.subrange(0, 1) =~= "#"@);
        }
    }
    law_the_first_occurrence_is_found(l, '=', 0);
    if value.len() > 0 {
        law_the_first_occurrence_is_found(value, value[0], 1);
    }
}

proof fn lemma_first_from_behind(head: Seq<char>, s: Seq<char>, c: char, from: int)
    requires
        0 <= from,
    ensures
        first_from(head + s, c, head.len() + from) == match first_from(s, c, from) {
            Some(at) => Some(head.len() + at),
            None => None,
        },
    decreases s.len() - from,
{
    if from < s.len() {
        assert((head + s)[head.len() + from] == s[from]);
        if s[from] != c {
            lemma_first_from_behind(head, s, c, from + 1);
        }
    }
}

proof fn lemma_override_behind(head: Seq<char>, s: Seq<char>, from: int)
    requires
        0 <= from,
    ensures
        override_from(head + s, head.len() + from) == override_from(s, from),
    decreases s.len() - from + 1,
{
    if from < s.len() {
        lemma_first_from_behind(head, s, '\n', from);
        lemma_first_from_in_range(s, '\n', from);
        let end = line_end(s, from);
        assert(line_end(head + s, head.len() + from) == head.len() + end);
        assert((head + s).subrange(head.len() + from, head.len() + end) =~= s.subrange(from, end));
        lemma_override_behind(head, s, end + 1);
    }
}

/// The configuration is read line by line: a line that sets a locale decides, and after one
/// that sets none the lines behind it do.
pub proof fn law_the_first_line_that_sets_a_locale_counts(line: Seq<char>, rest: Seq<char>)
    requires
        forall|i: int| 0 <= i < line.len() ==> #[trigger] line[i] != '\n',
    ensures
        override_in_line(line) is Some ==> override_from(line + seq!['\n'] + rest, 0)
            == override_in_line(line),
        override_in_line(line) is None ==> override_from(line + seq!['\n'] + rest, 0)
            == override_from(rest, 0),
        line.len() > 0 ==> override_from(line, 0) == override_in_line(line),
        override_from(Seq::<char>::empty(), 0) is None,
{
    let head = line + seq!['\n'];
    let all = head + rest;
    assert(all =~= line + seq!['\n'] + rest);
    assert(all[line.len() as int] == '\n');
    assert forall|i: int| 0 <= i < line.len() implies #[trigger] all[i] != '\n' by {
        assert(all[i] == line[i]);
    }
    lemma_is_first(all, '\n', 0, line.len() as int);
    assert(all.subrange(0, line.len() as int) =~= line);
    lemma_override_behind(head, rest, 0);
    law_the_first_occurrence_is_found(line, '\n', 0);
    if line.len() > 0 {
        assert(line_end(line, 0) == line.len());
        assert(line.subrange(0, line.len() as int) =~= line);
        assert(override_from(line, (line.len() + 1) as int) is None);
    }
}

/// A budget reads as the whole percentage nearest to it, from the middle between two the
/// even one, with a minus sign where it is negative.
pub proof fn law_budgets_read_as_the_nearest_percentage(budget: Budget) -> (p: int)
    requires
        budget.parts > 0,
    ensures
        0 <= p,
        budget.ticks >= 0 ==> rounded(budget) == decimal(p as nat),
        budget.ticks < 0 ==> rounded(budget) == "-"@ + decimal(p as nat),
        ({
            let size: int = if budget.ticks < 0 {
                -budget.ticks
            } else {
                budget.ticks as int
            };
            let whole = 420 * budget.parts;
            let off = size - p * whole;
            &&& -whole <= 2 * off <= whole
            &&& 2 * off == whole || 2 * off == -whole ==> p % 2 == 0
        }),
{
    let size: int = if budget.ticks < 0 {
        -budget.ticks
    } else {
        budget.ticks as int
    };
    let whole = 420 * budget.parts;
    let p = nearest_even(size, whole);
    crate::percent::law_rounding_goes_to_the_nearest(size, whole);
    assert(0 <= p) by (nonlinear_arith)
        requires
            -whole <= 2 * (size - p * whole) <= whole,
            size >= 0,
            whole > 0,
    ;
    p
}

/// A week has its own name; any other number of whole days reads in days.
pub proof fn law_whole_days_read_in_days(minutes: u64, days: nat)
    requires
        minutes == 1_440 * days,
        days > 0,
    ensures
        days == 7 ==> AppLocale::Korean.duration_words(minutes) == "주간"@
            && AppLocale::Chinese.duration_words(minutes) == "1周"@
            && AppLocale::English.duration_words(minutes) == "1 week"@,
        days != 7 ==> AppLocale::Korean.duration_words(minutes) == decimal(days) + "일"@
            && AppLocale::Chinese.duration_words(minutes) == decimal(days) + "天"@,
        days == 1 ==> AppLocale::English.duration_words(minutes) == decimal(1) + " "@ + "day"@,
        days > 1 && days != 7 ==> AppLocale::English.duration_words(minutes) == decimal(days)
            + " "@ + "day"@ + "s"@,
{
}

/// Whole hours that are no whole days read in hours, and anything else has no length to
/// tell.
pub proof fn law_whole_hours_read_in_hours(minutes: u64, hours: nat, rest: nat)
    requires
        minutes == 60 * hours + rest,
        rest < 60,
        rest > 0 || hours == 0 || hours % 24 != 0,
    ensures
        rest == 0 && hours > 0 ==> AppLocale::Korean.duration_words(minutes) == decimal(hours)
            + "시간"@ && AppLocale::Chinese.duration_words(minutes) == decimal(hours) + "小时"@,
        rest == 0 && hours == 1 ==> AppLocale::English.duration_words(minutes) == decimal(1) + " "@
            + "hour"@,
        rest == 0 && hours > 1 ==> AppLocale::English.duration_words(minutes) == decimal(hours)
            + " "@ + "hour"@ + "s"@,
        rest > 0 || hours == 0 ==> AppLocale::Korean.duration_words(minutes) == "현재"@
            && AppLocale::Chinese.duration_words(minutes) == "当前"@
            && AppLocale::English.duration_words(minutes) == "Current"@,
{
}

/// A number with its unit has one unit exactly where the number is one.
pub proof fn law_only_one_is_in_the_singular(value: nat, unit: Seq<char>)
    ensures
        value == 1 ==> counted(value, unit) == decimal(1) + " "@ + unit,
        value != 1 ==> counted(value, unit) == decimal(value) + " "@ + unit + "s"@,
{
}

/// Windows of a day or more tell the date of their reset, in the manner of the language.
pub proof fn law_long_windows_tell_the_date(
    window: LimitWindow,
    reset: LocalTime,
    year: int,
    month: int,
    day: int,
)
    requires
        window.resets_at == Some(reset),
        window.duration_minutes >= 1_440,
        crate::calendar::names_day(reset.local_seconds() / 86_400, year, month, day),
    ensures
        AppLocale::Korean.reset_words(window) == decimal(month as nat) + "/"@ + decimal(day as nat),
        AppLocale::Chinese.reset_words(window) == decimal(month as nat) + "月"@ + decimal(
            day as nat,
        ) + "日"@,
        AppLocale::English.reset_words(window) == crate::calendar::month_abbreviation(month)
            + seq![' '] + decimal(day as nat),
{
    crate::calendar::law_local_dates(reset, year, month, day);
}

/// Shorter windows tell the clock time of their reset in every language, and a window
/// without a reset time two dashes.
pub proof fn law_short_windows_tell_the_time(
    locale: AppLocale,
    window: LimitWindow,
    reset: LocalTime,
    hour: nat,
    minute: nat,
    second: int,
)
    requires
        window.duration_minutes < 1_440,
        hour < 24,
        minute < 60,
        0 <= second < 60,
        exists|days: int|
            reset.local_seconds() == #[trigger] (days * 86_400) + hour * 3_600 + minute * 60
                + second,
    ensures
        window.resets_at == Some(reset) ==> locale.reset_words(window) == two_places(hour) + ":"@
            + two_places(minute),
{
    crate::calendar::law_clock_times(reset, hour as int, minute as int, second);
}

/// Without a reset time two dashes stand for it, in every language and for every length.
pub proof fn law_unknown_resets_are_dashes(locale: AppLocale, window: LimitWindow)
    requires
        window.resets_at is None,
    ensures
        locale.reset_words(window) == "--"@,
{
}

/// The quota of a window in words: its length, what is left of it and when it resets.
pub proof fn law_metrics_name_length_rest_and_reset(window: LimitWindow)
    ensures
        ({
            let left = decimal(window.remaining_percent as nat);
            &&& AppLocale::Korean.metric_words(window) == AppLocale::Korean.duration_words(
                window.duration_minutes,
            ) + " "@ + left + "% · "@ + AppLocale::Korean.reset_words(window) + " 리셋"@
            &&& AppLocale::Chinese.metric_words(window) == AppLocale::Chinese.duration_words(
                window.duration_minutes,
            ) + "额度 "@ + left + "% · "@ + AppLocale::Chinese.reset_words(window) + "重置"@
            &&& AppLocale::English.metric_words(window) == AppLocale::English.duration_words(
                window.duration_minutes,
            ) + " quota "@ + left + "% · resets "@ + AppLocale::English.reset_words(window)
        }),
{
}

/// The plan in words: what is left of the week, what is used of today's budget, the budget,
/// and when the week resets.
pub proof fn law_plans_name_week_usage_budget_and_reset(
    window: LimitWindow,
    today_used: Percent,
    today_budget: Budget,
)
    ensures
        ({
            let left = decimal(window.remaining_percent as nat);
            let used = rounded(Budget { ticks: today_used.ticks, parts: 1 });
            let budget = rounded(today_budget);
            &&& AppLocale::Korean.weekly_plan_words(window, today_used, today_budget) == "주간 "@
                + left + "% · 오늘 "@ + used + "/"@ + budget + "% · "@
                + AppLocale::Korean.reset_words(window)
            &&& AppLocale::Chinese.weekly_plan_words(window, today_used, today_budget) == "本周 "@
                + left + "% · 今日 "@ + used + "/"@ + budget + "% · "@
                + AppLocale::Chinese.reset_words(window)
            &&& AppLocale::English.weekly_plan_words(window, today_used, today_budget) == "Week "@
                + left + "% · today "@ + used + "/"@ + budget + "% · "@
                + AppLocale::English.reset_words(window)
        }),
{
}

/// The language of the system is that of its locale name, whatever stands behind the name;
/// without a name it is English.
pub proof fn law_the_system_speaks_its_locale(tag: Seq<char>, behind: Seq<u16>, length: int)
    ensures
        tag.len() > 0 ==> system_language(
            crate::text::utf16(tag) + behind,
            (crate::text::utf16(tag).len() + 1) as int,
        ) == language(tag),
        length <= 1 ==> system_language(behind, length) == AppLocale::English,
{
    let name = crate::text::utf16(tag);
    assert((name + behind).take(name.len() as int) =~= name);
    crate::text::law_utf16_round_trip(tag);
    if tag.len() > 0 {
        let last = seq![tag.last()];
        assert(tag =~= tag.drop_last() + last);
        crate::text::law_utf16_goes_by_characters(tag.drop_last(), last, tag.last());
    }
}

/// The language is looked up again two seconds after it was.
pub proof fn law_the_language_is_looked_up_after_two_seconds()
    ensures
        LOCALE_CHECK_INTERVAL_MS == 2_000,
{
}

} // verus!
