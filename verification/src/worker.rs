//! The status line of a background worker: when it is shown and what it says.

use std::time::UNIX_EPOCH;

use vstd::prelude::*;

use crate::text::{
    chars_of, decimal, join_words, lower, push_decimal, slice_chars, spaced, string_of, text_is,
    to_lower, to_upper, trim, trimmed, upper, words,
};

verus! {

/// How long the status of a running worker is shown after its last update.
pub const ACTIVE_TTL_MS: u64 = 180_000;

/// How long the status of a finished worker is shown after its last update.
pub const FINISHED_TTL_MS: u64 = 60_000;

/// The longest detail that is shown, in characters.
pub const MAX_DETAIL_CHARS: usize = 44;

/// What a worker reports of itself.
#[derive(Clone, Debug, PartialEq, Eq)]
pub struct WorkerStatus {
    pub schema: u32,
    pub run_id: String,
    pub worker: String,
    pub model: Option<String>,
    pub model_actual: Option<String>,
    pub fallback_from: Option<String>,
    pub fallback_to: Option<String>,
    pub phase: String,
    pub started_at_ms: u64,
    pub updated_at_ms: u64,
    pub tool_calls: u32,
    pub changed_files: u32,
    pub current_tool: Option<String>,
    pub current_command: Option<String>,
    pub patch_ready: bool,
    pub ok: Option<bool>,
}

impl Default for WorkerStatus {
    fn default() -> (r: Self)
        ensures
            r.schema == 0,
            r.run_id@ == Seq::<char>::empty(),
            r.worker@ == Seq::<char>::empty(),
            r.model is None,
            r.model_actual is None,
            r.fallback_from is None,
            r.fallback_to is None,
            r.phase@ == Seq::<char>::empty(),
            r.started_at_ms == 0,
            r.updated_at_ms == 0,
            r.tool_calls == 0,
            r.changed_files == 0,
            r.current_tool is None,
            r.current_command is None,
            !r.patch_ready,
            r.ok is None,
    {
        WorkerStatus {
            schema: 0,
            run_id: String::new(),
            worker: String::new(),
            model: None,
            model_actual: None,
            fallback_from: None,
            fallback_to: None,
            phase: String::new(),
            started_at_ms: 0,
            updated_at_ms: 0,
            tool_calls: 0,
            changed_files: 0,
            current_tool: None,
            current_command: None,
            patch_ready: false,
            ok: None,
        }
    }
}

/// The time that has passed, in milliseconds; a moment to come counts as now.
pub open spec fn since(then: u64, now: u64) -> int {
    if now < then {
        0
    } else {
        now - then
    }
}

/// The short name of a model.
pub open spec fn model_name(value: Seq<char>) -> Seq<char> {
    let name = lower(trimmed(value));
    if name == "cloud-flash"@ {
        "AUTO"@
    } else if name == "glm-5.3-flash"@ {
        "GLM5.3F"@
    } else if name == "deepseek-v4.1-flash"@ {
        "DSV4.1F"@
    } else if name == "deepseek-v4-flash"@ || name == "deepseek-v4-flash:0731"@ {
        "DSV4F"@
    } else if name == "nemotron-3-nano:30b"@ {
        "NEMO-N"@
    } else {
        upper(name)
    }
}

/// A detail on one line: its words with single spaces between them, cut off with an
/// ellipsis where they are too long.
pub open spec fn detail(value: Seq<char>) -> Seq<char> {
    let line = spaced(words(value));
    if line.len() <= MAX_DETAIL_CHARS {
        line
    } else {
        line.take(MAX_DETAIL_CHARS - 1).push('…')
    }
}

/// A detail where one is given, and nothing where none is.
pub open spec fn optional_detail(value: Option<String>) -> Seq<char> {
    match value {
        Some(text) => detail(text@),
        None => seq![],
    }
}

impl WorkerStatus {
    /// Whether the worker has come to an end.
    pub open spec fn finished(self) -> bool {
        self.phase@ == "DONE"@ || self.phase@ == "FAILED"@
    }

    /// Whether the status is complete enough to be shown.
    pub open spec fn complete(self) -> bool {
        &&& self.schema == 1
        &&& self.run_id@.len() > 0
        &&& self.phase@.len() > 0
        &&& self.updated_at_ms > 0
    }

    /// Whether the status is shown at a moment.
    pub open spec fn visible(self, now_ms: u64) -> bool {
        &&& self.complete()
        &&& since(self.updated_at_ms, now_ms) <= if self.finished() {
            FINISHED_TTL_MS
        } else {
            ACTIVE_TTL_MS
        }
    }

    /// The model that does the work, or the way from one model to the other.
    pub open spec fn route(self) -> Seq<char> {
        match (self.fallback_to, self.fallback_from) {
            (Some(to), Some(from)) => model_name(from@) + "→"@ + model_name(to@),
            (Some(to), None) => model_name(to@),
            _ => match (self.model_actual, self.model) {
                (Some(actual), _) => model_name(actual@),
                (None, Some(model)) => model_name(model@),
                _ => "AUTO"@,
            },
        }
    }

    /// What is shown behind the figures: the current command, or else the current tool.
    pub open spec fn tail(self) -> Seq<char> {
        let command = optional_detail(self.current_command);
        let tool = optional_detail(self.current_tool);
        if command.len() > 0 {
            " · "@ + command
        } else if tool.len() > 0 {
            " · "@ + tool
        } else {
            seq![]
        }
    }

    /// The status line at a moment.
    pub open spec fn label(self, now_ms: u64) -> Seq<char> {
        "DSH "@ + self.route() + " "@ + upper(self.phase@) + " "@ + decimal(
            (since(self.started_at_ms, now_ms) / 1_000) as nat,
        ) + "s · "@ + decimal(self.changed_files as nat) + "f · "@ + decimal(
            self.tool_calls as nat,
        ) + "t"@ + self.tail()
    }

    /// Whether the worker has come to an end.
    pub fn is_finished(&self) -> (r: bool)
        ensures
            r == self.finished(),
    {
        let phase = chars_of(self.phase.as_str());
        text_is(&phase, "DONE") || text_is(&phase, "FAILED")
    }

    /// Whether the status is shown at a moment.
    pub fn visible_at(&self, now_ms: u64) -> (r: bool)
        ensures
            r == self.visible(now_ms),
    {
        if self.schema != 1 || self.run_id.as_str().is_empty() || self.phase.as_str().is_empty()
            || self.updated_at_ms == 0 {
            return false;
        }
        let age = now_ms.saturating_sub(self.updated_at_ms);
        age <= if self.is_finished() {
            FINISHED_TTL_MS
        } else {
            ACTIVE_TTL_MS
        }
    }

    /// The status line at a moment.
    pub fn compact_label(&self, now_ms: u64) -> (r: String)
        ensures
            r@ == self.label(now_ms),
    {
        let elapsed_s = now_ms.saturating_sub(self.started_at_ms) / 1_000;
        let model = route_label(self);
        let phase = chars_of(self.phase.as_str());
        let phase = string_of(&to_upper(&phase));
        let mut label = String::new();
        label.append("DSH ");
        label.append(model.as_str());
        label.append(" ");
        label.append(phase.as_str());
        label.append(" ");
        push_decimal(&mut label, elapsed_s);
        label.append("s · ");
        push_decimal(&mut label, self.changed_files as u64);
        label.append("f · ");
        push_decimal(&mut label, self.tool_calls as u64);
        label.append("t");
        let ghost figures = label@;
        let command = shown_detail(&self.current_command);
        if !command.as_str().is_empty() {
            label.append(" · ");
            label.append(command.as_str());
        } else {
            let tool = shown_detail(&self.current_tool);
            if !tool.as_str().is_empty() {
                label.append(" · ");
                label.append(tool.as_str());
            }
        }
        assert(label@ =~= figures + self.tail());
        assert(label@ =~= self.label(now_ms));
        label
    }
}

fn shown_detail(value: &Option<String>) -> (r: String)
    ensures
        r@ == optional_detail(*value),
{
    match value {
        Some(text) => compact_text(text.as_str()),
        None => String::new(),
    }
}

/// The model that does the work, or the way from one model to the other.
pub fn route_label(status: &WorkerStatus) -> (r: String)
    ensures
        r@ == status.route(),
{
    match (&status.fallback_to, &status.fallback_from) {
        (Some(to), Some(from)) => {
            let mut route = model_label(from.as_str());
            route.append("→");
            route.append(model_label(to.as_str()).as_str());
            route
        },
        (Some(to), None) => model_label(to.as_str()),
        _ => match (&status.model_actual, &status.model) {
            (Some(actual), _) => model_label(actual.as_str()),
            (None, Some(model)) => model_label(model.as_str()),
            _ => "AUTO".to_owned(),
        },
    }
}

/// The short name of a model.
pub fn model_label(value: &str) -> (r: String)
    ensures
        r@ == model_name(value@),
{
    let name = to_lower(&trim(&chars_of(value)));
    if text_is(&name, "cloud-flash") {
        "AUTO".to_owned()
    } else if text_is(&name, "glm-5.3-flash") {
        "GLM5.3F".to_owned()
    } else if text_is(&name, "deepseek-v4.1-flash") {
        "DSV4.1F".to_owned()
    } else if text_is(&name, "deepseek-v4-flash") || text_is(&name, "deepseek-v4-flash:0731") {
        "DSV4F".to_owned()
    } else if text_is(&name, "nemotron-3-nano:30b") {
        "NEMO-N".to_owned()
    } else {
        string_of(&to_upper(&name))
    }
}

/// A detail on one line of limited length.
pub fn compact_text(value: &str) -> (r: String)
    ensures
        r@ == detail(value@),
{
    let line = join_words(&chars_of(value));
    if line.len() <= MAX_DETAIL_CHARS {
        return string_of(&line);
    }
    let mut shortened = slice_chars(&line, 0, MAX_DETAIL_CHARS - 1);
    shortened.push('…');
    assert(shortened@ =~= detail(value@));
    string_of(&shortened)
}

/// The status that is to be shown at a moment, out of what could be read.
pub fn visible_status(status: Option<WorkerStatus>, now_ms: u64) -> (r: Option<WorkerStatus>)
    ensures
        r == match status {
            Some(s) => if s.visible(now_ms) {
                Some(s)
            } else {
                None
            },
            None => None,
        },
{
    match status {
        Some(status) => if status.visible_at(now_ms) {
            Some(status)
        } else {
            None
        },
        None => None,
    }
}

/// The status that is to be shown now, out of what could be read.
pub fn load_visible(status: Option<WorkerStatus>) -> (r: Option<WorkerStatus>)
    ensures
        r is Some ==> r == status,
        status matches Some(s) && !s.complete() ==> r is None,
        status matches Some(s) ==> exists|now_ms: u64|
            (r is Some) == #[trigger] s.visible(now_ms),
{
    let now_ms = now_millis();
    let r = visible_status(status, now_ms);
    assert(status matches Some(s) ==> (r is Some) == s.visible(now_ms));
    r
}

/// `std::time::SystemTime::elapsed` on the start of 1970 reads the clock of the machine;
/// here its result is given as milliseconds, and as nothing where the clock stands before
/// that moment. What the clock says rests on the machine, so nothing is said of it.
#[verifier::external_body]
fn clock_millis() -> (r: Option<u128>) {
    match UNIX_EPOCH.elapsed() {
        Ok(elapsed) => Some(elapsed.as_millis()),
        Err(_) => None,
    }
}

/// A reading of the clock as a number of milliseconds; a clock that stands before 1970
/// counts as zero, and one that stands too far off as the largest number.
pub open spec fn millis_of(elapsed: Option<u128>) -> int {
    match elapsed {
        Some(millis) => if millis <= u64::MAX {
            millis as int
        } else {
            u64::MAX as int
        },
        None => 0,
    }
}

/// A reading of the clock as a number of milliseconds.
pub fn millis_from(elapsed: Option<u128>) -> (r: u64)
    ensures
        r == millis_of(elapsed),
{
    match elapsed {
        Some(millis) => if millis <= u64::MAX as u128 {
            millis as u64
        } else {
            u64::MAX
        },
        None => 0,
    }
}

/// The current time in milliseconds since 1970.
pub fn now_millis() -> (r: u64)
    ensures
        exists|elapsed: Option<u128>| r == #[trigger] millis_of(elapsed),
{
    millis_from(clock_millis())
}

/// A status that has expired is not shown again unless it is updated.
pub proof fn law_an_expired_status_stays_hidden(status: WorkerStatus, now_ms: u64, later_ms: u64)
    requires
        now_ms <= later_ms,
        !status.visible(now_ms),
    ensures
        !status.visible(later_ms),
{
}

/// A status whose writer has disappeared is shown for its whole time to live and not a
/// millisecond longer; a finished one has the shorter time.
pub proof fn law_a_status_lives_exactly_its_time(status: WorkerStatus, now_ms: u64)
    requires
        status.complete(),
        status.updated_at_ms <= now_ms,
    ensures
        status.visible(now_ms) <==> now_ms <= status.updated_at_ms + if status.finished() {
            FINISHED_TTL_MS
        } else {
            ACTIVE_TTL_MS
        },
{
}

/// A detail never takes more than the allowed number of characters.
pub proof fn law_details_are_short(value: Seq<char>)
    ensures
        detail(value).len() <= MAX_DETAIL_CHARS,
{
}

/// A status is shown exactly when it is complete and its last update is at most a minute
/// old, or three minutes as long as the worker is neither done nor has failed; an update
/// that is still to come counts as now.
pub proof fn law_when_a_status_is_shown(status: WorkerStatus, now_ms: u64)
    ensures
        ({
            let finished = status.phase@ == "DONE"@ || status.phase@ == "FAILED"@;
            let complete = status.schema == 1 && status.run_id@.len() > 0 && status.phase@.len()
                > 0 && status.updated_at_ms > 0;
            status.visible(now_ms) <==> complete && now_ms <= status.updated_at_ms + if finished {
                60_000int
            } else {
                180_000int
            }
        }),
{
}

/// A model without a short name reads as its name in upper case, trimmed.
pub proof fn law_other_models_read_in_upper_case(value: Seq<char>, i: int)
    requires
        ({
            let name = lower(trimmed(value));
            &&& name != "cloud-flash"@
            &&& name != "glm-5.3-flash"@
            &&& name != "deepseek-v4.1-flash"@
            &&& name != "deepseek-v4-flash"@
            &&& name != "deepseek-v4-flash:0731"@
            &&& name != "nemotron-3-nano:30b"@
        }),
        0 <= i < trimmed(value).len(),
    ensures
        ({
            let c = trimmed(value)[i];
            let shown = model_name(value);
            &&& shown.len() == trimmed(value).len()
            &&& 97 <= c as u32 <= 122 ==> shown[i] as u32 == c as u32 - 32
            &&& !(97 <= c as u32 <= 122) ==> shown[i] == c
        }),
{
    let t = trimmed(value);
    crate::text::law_only_ascii_letters_change_case(t, i);
    crate::text::law_only_ascii_letters_change_case(lower(t), i);
}

/// Known models have their short names, however they are written.
pub proof fn law_known_models_have_short_names(value: Seq<char>)
    ensures
        ({
            let name = lower(trimmed(value));
            &&& name == "cloud-flash"@ ==> model_name(value) == "AUTO"@
            &&& name == "glm-5.3-flash"@ ==> model_name(value) == "GLM5.3F"@
            &&& name == "deepseek-v4.1-flash"@ ==> model_name(value) == "DSV4.1F"@
            &&& name == "deepseek-v4-flash"@ ==> model_name(value) == "DSV4F"@
            &&& name == "deepseek-v4-flash:0731"@ ==> model_name(value) == "DSV4F"@
            &&& name == "nemotron-3-nano:30b"@ ==> model_name(value) == "NEMO-N"@
        }),
{
    reveal_strlit("cloud-flash");
    reveal_strlit("glm-5.3-flash");
    reveal_strlit("deepseek-v4.1-flash");
    reveal_strlit("deepseek-v4-flash");
    reveal_strlit("deepseek-v4-flash:0731");
    reveal_strlit("nemotron-3-nano:30b");
    assert("cloud-flash"@.len() == 11 && "glm-5.3-flash"@.len() == 13);
    assert("deepseek-v4.1-flash"@.len() == 19 && "deepseek-v4-flash"@.len() == 17);
    assert("deepseek-v4-flash:0731"@.len() == 22 && "nemotron-3-nano:30b"@.len() == 19);
    assert("deepseek-v4.1-flash"@[0] == 'd' && "nemotron-3-nano:30b"@[0] == 'n');
}

/// A detail is the words of its text on one line; beyond 44 characters the line keeps its
/// first 43 and ends in an ellipsis.
pub proof fn law_details_keep_their_beginning(value: Seq<char>)
    ensures
        ({
            let line = spaced(words(value));
            let shown = detail(value);
            &&& line.len() <= 44 ==> shown == line
            &&& line.len() > 44 ==> shown.len() == 44 && shown[43] == '…' && forall|i: int|
                0 <= i < 43 ==> #[trigger] shown[i] == line[i]
        }),
{
}

/// A detail is empty exactly where its text is blank.
proof fn lemma_blank_details(value: Seq<char>)
    ensures
        detail(value).len() > 0 <==> exists|i: int|
            0 <= i < value.len() && !crate::text::white_space(#[trigger] value[i]),
{
    crate::text::law_only_blank_texts_have_no_words(value);
}

/// The status line names the route, the phase, the whole seconds since the start, the
/// changed files and the tool calls, each after the one before it, and then what is done
/// now.
pub proof fn law_the_status_line_names_its_figures(
    status: WorkerStatus,
    now_ms: u64,
    seconds: nat,
    rest: nat,
) -> (tail: Seq<char>)
    requires
        rest < 1_000,
        now_ms >= status.started_at_ms ==> now_ms - status.started_at_ms == 1_000 * seconds + rest,
        now_ms < status.started_at_ms ==> seconds == 0,
    ensures
        status.label(now_ms) == "DSH "@ + status.route() + " "@ + upper(status.phase@) + " "@
            + decimal(seconds) + "s · "@ + decimal(status.changed_files as nat) + "f · "@ + decimal(
            status.tool_calls as nat,
        ) + "t"@ + tail,
        ({
            let command = status.current_command is Some && exists|i: int|
                0 <= i < status.current_command.unwrap()@.len() && !crate::text::white_space(
                    #[trigger] status.current_command.unwrap()@[i],
                );
            let tool = status.current_tool is Some && exists|i: int|
                0 <= i < status.current_tool.unwrap()@.len() && !crate::text::white_space(
                    #[trigger] status.current_tool.unwrap()@[i],
                );
            &&& command ==> tail == " · "@ + detail(status.current_command.unwrap()@)
            &&& !command && tool ==> tail == " · "@ + detail(status.current_tool.unwrap()@)
            &&& !command && !tool ==> tail.len() == 0
        }),
{
    if let Some(text) = status.current_command {
        lemma_blank_details(text@);
    }
    if let Some(text) = status.current_tool {
        lemma_blank_details(text@);
    }
    assert(since(status.started_at_ms, now_ms) / 1_000 == seconds);
    status.tail()
}

/// Whenever the current command is not blank, the status line ends with it, whatever the
/// current tool is.
pub proof fn law_the_current_command_goes_before_the_tool(
    status: WorkerStatus,
    command: String,
    now_ms: u64,
    i: int,
)
    requires
        status.current_command == Some(command),
        0 <= i < command@.len(),
        !crate::text::white_space(command@[i]),
    ensures
        crate::text::ends_in(status.label(now_ms), " · "@ + detail(command@)),
{
    lemma_blank_details(command@);
    let passed = since(status.started_at_ms, now_ms);
    let tail = law_the_status_line_names_its_figures(
        status,
        now_ms,
        (passed / 1_000) as nat,
        (passed % 1_000) as nat,
    );
    let label = status.label(now_ms);
    let end = " · "@ + detail(command@);
    assert(tail == end);
    assert(label.subrange(label.len() - end.len(), label.len() as int) =~= end);
}

/// The route goes from the model that was given up to the one that took over; without both
/// it is the model that took over, the actual model, the asked-for model, or automatic, in
/// this order.
pub proof fn law_the_route_names_the_model_at_work(status: WorkerStatus)
    ensures
        status.fallback_to matches Some(to) ==> (status.fallback_from matches Some(from)
            ==> status.route() == model_name(from@) + "→"@ + model_name(to@)),
        status.fallback_to matches Some(to) ==> (status.fallback_from is None ==> status.route()
            == model_name(to@)),
        status.fallback_to is None ==> (status.model_actual matches Some(actual)
            ==> status.route() == model_name(actual@)),
        status.fallback_to is None && status.model_actual is None ==> (
        status.model matches Some(model) ==> status.route() == model_name(model@)),
        status.fallback_to is None && status.model_actual is None && status.model is None
            ==> status.route() == "AUTO"@,
{
}

/// A reading of the clock keeps its milliseconds as long as they fit.
pub proof fn law_clock_readings_keep_their_milliseconds(millis: u128)
    ensures
        millis <= 0xffff_ffff_ffff_ffff ==> millis_of(Some(millis)) == millis,
        millis > 0xffff_ffff_ffff_ffff ==> millis_of(Some(millis)) == 0xffff_ffff_ffff_ffff,
        millis_of(None) == 0,
{
}

/// A worker has come to an end exactly when it is done or has failed, in capitals.
pub proof fn law_which_workers_are_finished(status: WorkerStatus)
    ensures
        status.finished() <==> status.phase@ == "DONE"@ || status.phase@ == "FAILED"@,
{
}

} // verus!
