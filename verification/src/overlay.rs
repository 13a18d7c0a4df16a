//! Where the overlay sits, which window it belongs to, and how it answers messages.

use vstd::prelude::*;

use crate::percent::{nearest_up, smaller};
use crate::text::{chars_of, contains, ends_in, ends_with, has_part, lower, to_lower};

verus! {

/// Window style bits of a title bar.
pub const WS_CAPTION: u32 = 0x00c0_0000;

/// Window style bit of a pop-up window.
pub const WS_POPUP: u32 = 0x8000_0000;

/// Extended window style bit of a tool window.
pub const WS_EX_TOOLWINDOW: u32 = 0x0000_0080;

/// The event that an object has moved or changed its size.
pub const EVENT_OBJECT_LOCATIONCHANGE: u32 = 0x800b;

/// The object identifier of a window itself.
pub const OBJID_WINDOW: i32 = 0;

/// The child identifier of an object itself.
pub const CHILDID_SELF: i32 = 0;

/// The timer that looks for the window to follow.
pub const TRACK_TIMER: usize = 1;

pub const WM_DESTROY: u32 = 0x0002;

pub const WM_PAINT: u32 = 0x000f;

pub const WM_ERASEBKGND: u32 = 0x0014;

pub const WM_MOUSEACTIVATE: u32 = 0x0021;

pub const WM_NCCREATE: u32 = 0x0081;

pub const WM_TIMER: u32 = 0x0113;

pub const WM_LBUTTONDOWN: u32 = 0x0201;

pub const WM_LBUTTONDBLCLK: u32 = 0x0203;

pub const WM_RBUTTONUP: u32 = 0x0205;

/// The resolution, in dots per inch, at which lengths are given.
pub const BASE_DPI: u32 = 96;

/// The room that is left free for the menus on the left.
pub const LEFT_RESERVE: u32 = 220;

/// The room that is left free for the buttons on the right.
pub const RIGHT_RESERVE: u32 = 158;

/// The least width that is worth showing.
pub const MINIMUM_WIDTH: u32 = 170;

/// The width to aim for when there is a weekly plan to show.
pub const PLAN_WIDTH: u32 = 440;

/// The width to aim for otherwise.
pub const COMPACT_WIDTH: u32 = 220;

/// A rectangle on the screen.
#[derive(Clone, Copy, Debug, PartialEq, Eq, Structural)]
pub struct Rect {
    pub left: i64,
    pub top: i64,
    pub right: i64,
    pub bottom: i64,
}

impl Rect {
    /// Whether the coordinates are such as the screen has.
    pub open spec fn on_screen(self) -> bool {
        &&& i32::MIN <= self.left <= i32::MAX
        &&& i32::MIN <= self.top <= i32::MAX
        &&& i32::MIN <= self.right <= i32::MAX
        &&& i32::MIN <= self.bottom <= i32::MAX
    }

    /// Whether the coordinates are small enough to be reckoned with.
    pub open spec fn modest(self) -> bool {
        &&& -0x100_0000_0000 <= self.left <= 0x100_0000_0000
        &&& -0x100_0000_0000 <= self.top <= 0x100_0000_0000
        &&& -0x100_0000_0000 <= self.right <= 0x100_0000_0000
        &&& -0x100_0000_0000 <= self.bottom <= 0x100_0000_0000
    }

    /// Whether the rectangle holds anything.
    pub open spec fn has_area(self) -> bool {
        self.left < self.right && self.top < self.bottom
    }

    /// Whether the rectangle lies inside of another one.
    pub open spec fn inside(self, other: Rect) -> bool {
        &&& other.left <= self.left
        &&& other.top <= self.top
        &&& self.right <= other.right
        &&& self.bottom <= other.bottom
    }
}

/// A length at a resolution: scaled and rounded to whole dots, and at most what a
/// 32-bit coordinate can hold.
pub open spec fn scaled_to(length: int, dpi: u32) -> int {
    smaller(nearest_up(length * dpi, 96), i32::MAX as int)
}

/// Scaled lengths are no less than zero and fit into 32-bit coordinates.
pub proof fn lemma_scaled_range(length: int, dpi: u32)
    requires
        length >= 0,
    ensures
        0 <= scaled_to(length, dpi) <= i32::MAX,
{
    assert(length * dpi >= 0) by (nonlinear_arith)
        requires
            length >= 0,
            dpi >= 0,
    ;
}

/// A length at a resolution.
pub fn scaled(length: u32, dpi: u32) -> (r: i64)
    ensures
        r == scaled_to(length as int, dpi),
        0 <= r <= i32::MAX,
{
    assert(0 <= length * dpi <= u32::MAX * u32::MAX) by (nonlinear_arith)
        requires
            0 <= length <= u32::MAX,
            0 <= dpi <= u32::MAX,
    ;
    let product: u64 = length as u64 * dpi as u64;
    let whole: u64 = product / 96;
    let rounded: u64 = if 2 * (product % 96) < 96 {
        whole
    } else {
        whole + 1
    };
    if rounded < i32::MAX as u64 {
        rounded as i64
    } else {
        i32::MAX as i64
    }
}

/// The place of the overlay in a title bar: its left edge and its width. It keeps the
/// reserves free, sits beside the right one, and is left out where it gets too narrow.
pub open spec fn layout(total_width: int, dpi: u32, preferred_width: int) -> Option<(int, int)> {
    let right_reserve = scaled_to(RIGHT_RESERVE as int, dpi);
    let available = total_width - scaled_to(LEFT_RESERVE as int, dpi) - right_reserve;
    if available < scaled_to(MINIMUM_WIDTH as int, dpi) {
        None
    } else {
        let width = smaller(scaled_to(preferred_width, dpi), available);
        Some((total_width - right_reserve - width, width))
    }
}

/// The place of the overlay in a title bar of a given width.
pub fn overlay_layout(total_width: i64, dpi: u32, preferred_width: u32) -> (r: Option<(i64, i64)>)
    requires
        -0x1_0000_0000 <= total_width <= 0x1_0000_0000,
    ensures
        match (r, layout(total_width as int, dpi, preferred_width as int)) {
            (Some(place), Some(wanted)) => place.0 == wanted.0 && place.1 == wanted.1,
            (None, None) => true,
            _ => false,
        },
        r matches Some(place) ==> 0 <= place.0 <= total_width && 0 <= place.1 <= total_width,
{
    let left_reserve = scaled(LEFT_RESERVE, dpi);
    let right_reserve = scaled(RIGHT_RESERVE, dpi);
    let preferred = scaled(preferred_width, dpi);
    let available = total_width - left_reserve - right_reserve;
    if available < scaled(MINIMUM_WIDTH, dpi) {
        return None;
    }
    let width = if preferred < available {
        preferred
    } else {
        available
    };
    Some((total_width - right_reserve - width, width))
}

/// The overlay never covers the menus on the left nor the buttons on the right, and
/// it touches the room for the buttons.
pub proof fn law_the_overlay_covers_no_controls(total_width: int, dpi: u32, preferred_width: int)
    requires
        0 <= preferred_width,
    ensures
        layout(total_width, dpi, preferred_width) matches Some(place) ==> {
            &&& place.0 >= scaled_to(LEFT_RESERVE as int, dpi)
            &&& place.0 + place.1 + scaled_to(RIGHT_RESERVE as int, dpi) == total_width
            &&& 0 <= place.1 <= scaled_to(preferred_width, dpi)
        },
{
    lemma_scaled_range(preferred_width, dpi);
    lemma_scaled_range(MINIMUM_WIDTH as int, dpi);
}

// ---------------------------------------------------------------------------------
// Which window
// ---------------------------------------------------------------------------------

/// Whether a window can be the main window: it has a title bar and is no tool window.
pub fn is_main_window_candidate(style: u32, extended_style: u32) -> (r: bool)
    ensures
        r == (style & WS_CAPTION != 0 && extended_style & WS_EX_TOOLWINDOW == 0),
{
    style & WS_CAPTION != 0 && extended_style & WS_EX_TOOLWINDOW == 0
}

/// What the system tells of a window.
#[derive(Clone, Copy, Debug, PartialEq, Eq, Structural)]
pub struct WindowFacts {
    pub visible: bool,
    pub minimized: bool,
    pub style: u32,
    pub extended_style: u32,
    /// How the window is cloaked, where the system could tell; zero for not at all.
    pub cloaked: Option<u32>,
}

impl WindowFacts {
    /// Whether the window can be followed, whatever program it belongs to.
    pub open spec fn can_be_followed(self) -> bool {
        &&& self.visible
        &&& !self.minimized
        &&& self.style & WS_CAPTION != 0
        &&& self.extended_style & WS_EX_TOOLWINDOW == 0
        &&& self.cloaked is None || self.cloaked == Some(0u32)
    }

    /// Whether the window can be followed, whatever program it belongs to.
    pub fn is_candidate(&self) -> (r: bool)
        ensures
            r == self.can_be_followed(),
    {
        if !self.visible || self.minimized {
            return false;
        }
        if !is_main_window_candidate(self.style, self.extended_style) {
            return false;
        }
        match self.cloaked {
            Some(cloaked) => cloaked == 0,
            None => true,
        }
    }
}

/// Whether a path is that of the desktop program.
pub open spec fn is_codex_path(path: Seq<char>) -> bool {
    has_part(lower(path), "\\openai.codex_"@) && ends_in(lower(path), "\\app\\chatgpt.exe"@)
}

/// Whether a path is that of the desktop program.
pub fn is_codex_executable(path: &str) -> (r: bool)
    ensures
        r == is_codex_path(path@),
{
    let normalized = to_lower(&chars_of(path));
    contains(&normalized, "\\openai.codex_") && ends_with(&normalized, "\\app\\chatgpt.exe")
}

/// Whether a window is the one to follow; a program that cannot be told is not.
pub fn is_codex_window(facts: &WindowFacts, path: Option<&str>) -> (r: bool)
    ensures
        r == (facts.can_be_followed() && match path {
            Some(path) => is_codex_path(path@),
            None => false,
        }),
{
    facts.is_candidate() && match path {
        Some(path) => is_codex_executable(path),
        None => false,
    }
}

/// Whether an event says that the followed window has moved. Windows are told apart by
/// their handles; zero is no window.
pub fn should_sync_location_event(
    event: u32,
    hwnd: usize,
    target: usize,
    id_object: i32,
    id_child: i32,
) -> (r: bool)
    ensures
        r == (event == EVENT_OBJECT_LOCATIONCHANGE && hwnd != 0 && hwnd == target && id_object
            == OBJID_WINDOW && id_child == CHILDID_SELF),
{
    event == EVENT_OBJECT_LOCATIONCHANGE && hwnd != 0 && hwnd == target && id_object
        == OBJID_WINDOW && id_child == CHILDID_SELF
}

/// The window with a handle; zero is no window.
pub fn window_at(handle: usize) -> (r: Option<usize>)
    ensures
        r == if handle == 0 {
            None
        } else {
            Some(handle)
        },
{
    if handle == 0 {
        None
    } else {
        Some(handle)
    }
}

// ---------------------------------------------------------------------------------
// Following a window
// ---------------------------------------------------------------------------------

/// What is to be done so that the overlay follows its window.
#[derive(Clone, Copy, Debug, PartialEq, Eq, Structural)]
pub struct OverlayStep {
    /// Whether the program counts as active afterwards.
    pub active: bool,
    /// Whether the window that was found becomes the one to follow.
    pub adopt_target: bool,
    /// Whether the overlay is to be attached to the window that was found.
    pub attach: bool,
    /// Where the overlay is shown; it is hidden where there is no place.
    pub place: Option<Place>,
}

/// A place for the overlay on the screen.
#[derive(Clone, Copy, Debug, PartialEq, Eq, Structural)]
pub struct Place {
    pub left: i64,
    pub top: i64,
    pub width: i64,
    pub height: i64,
}

/// The larger of a resolution and the base resolution.
pub open spec fn at_least_base(dpi: u32) -> u32 {
    if dpi < BASE_DPI {
        BASE_DPI
    } else {
        dpi
    }
}

/// The larger of a resolution and the base resolution.
pub fn effective_dpi(dpi: u32) -> (r: u32)
    ensures
        r == at_least_base(dpi),
{
    if dpi < BASE_DPI {
        BASE_DPI
    } else {
        dpi
    }
}

/// The width that the overlay aims for.
pub open spec fn wanted_width(weekly_known: bool) -> int {
    if weekly_known {
        PLAN_WIDTH as int
    } else {
        COMPACT_WIDTH as int
    }
}

impl OverlayStep {
    /// Whether this is the step for a window with the given bounds: it is followed where
    /// there is room for the overlay in its title bar, and the overlay is hidden where
    /// there is none or the bounds are not known.
    pub open spec fn follows(
        self,
        bounds: Option<Rect>,
        dpi: u32,
        weekly_known: bool,
        is_current_target: bool,
    ) -> bool {
        match bounds {
            None => self == (OverlayStep {
                active: false,
                adopt_target: false,
                attach: false,
                place: None,
            }),
            Some(b) => {
                let dpi = at_least_base(dpi);
                match layout(b.right - b.left, dpi, wanted_width(weekly_known)) {
                    None => self == (OverlayStep {
                        active: true,
                        adopt_target: false,
                        attach: false,
                        place: None,
                    }),
                    Some(wanted) => {
                        &&& self.active
                        &&& self.adopt_target
                        &&& self.attach == !is_current_target
                        &&& self.place matches Some(place)
                        &&& place.left == b.left + wanted.0
                        &&& place.top == b.top + scaled_to(5, dpi)
                        &&& place.width == wanted.1
                        &&& place.height == scaled_to(30, dpi)
                    },
                }
            },
        }
    }
}

/// The step for what was found: without a window, or with a minimized one, the program
/// counts as inactive and the overlay is hidden; else the window is followed.
pub fn step_for_target(
    found: bool,
    minimized: bool,
    bounds: Option<Rect>,
    dpi: u32,
    weekly_known: bool,
    is_current_target: bool,
) -> (r: OverlayStep)
    requires
        bounds matches Some(b) ==> b.on_screen(),
    ensures
        !found || minimized ==> r == (OverlayStep {
            active: false,
            adopt_target: true,
            attach: false,
            place: None,
        }),
        found && !minimized ==> r.follows(bounds, dpi, weekly_known, is_current_target),
{
    if !found || minimized {
        step_without_window()
    } else {
        step_for_window(bounds, dpi, weekly_known, is_current_target)
    }
}

/// The step when no window can be followed: none was found, or it is minimized.
pub fn step_without_window() -> (r: OverlayStep)
    ensures
        r == (OverlayStep { active: false, adopt_target: true, attach: false, place: None }),
{
    OverlayStep { active: false, adopt_target: true, attach: false, place: None }
}

/// The step for a window with the given bounds: it is followed where there is room for
/// the overlay in its title bar.
pub fn step_for_window(
    bounds: Option<Rect>,
    dpi: u32,
    weekly_known: bool,
    is_current_target: bool,
) -> (r: OverlayStep)
    requires
        bounds matches Some(b) ==> b.on_screen(),
    ensures
        r.follows(bounds, dpi, weekly_known, is_current_target),
{
    let bounds = match bounds {
        Some(bounds) => bounds,
        None => {
            return OverlayStep { active: false, adopt_target: false, attach: false, place: None };
        },
    };
    let dpi = effective_dpi(dpi);
    let preferred = if weekly_known {
        PLAN_WIDTH
    } else {
        COMPACT_WIDTH
    };
    match overlay_layout(bounds.right - bounds.left, dpi, preferred) {
        Some((left, width)) => OverlayStep {
            active: true,
            adopt_target: true,
            attach: !is_current_target,
            place: Some(
                Place {
                    left: bounds.left + left,
                    top: bounds.top + scaled(5, dpi),
                    width,
                    height: scaled(30, dpi),
                },
            ),
        },
        None => OverlayStep { active: true, adopt_target: false, attach: false, place: None },
    }
}

// ---------------------------------------------------------------------------------
// Messages
// ---------------------------------------------------------------------------------

/// How the overlay answers a message.
#[derive(Clone, Copy, Debug, PartialEq, Eq, Structural)]
pub enum Answer {
    /// Keep the creation data and go on with creation.
    Create,
    /// Look for the window to follow.
    Track,
    /// Paint the overlay.
    Paint,
    /// Leave the background alone: it is painted with the rest.
    KeepBackground,
    /// Take the click without being activated.
    StayInactive,
    /// See where the pointer was pressed.
    Press,
    /// Pass the double click on to the title bar.
    ForwardDoubleClick,
    /// Choose the next palette.
    CyclePalette,
    /// End the program.
    Quit,
    /// Leave the message to the system.
    Default,
}

/// How the overlay answers a message.
pub open spec fn answer_to(message: u32, wparam: usize) -> Answer {
    if message == WM_NCCREATE {
        Answer::Create
    } else if message == WM_TIMER && wparam == TRACK_TIMER {
        Answer::Track
    } else if message == WM_PAINT {
        Answer::Paint
    } else if message == WM_ERASEBKGND {
        Answer::KeepBackground
    } else if message == WM_MOUSEACTIVATE {
        Answer::StayInactive
    } else if message == WM_LBUTTONDOWN {
        Answer::Press
    } else if message == WM_LBUTTONDBLCLK {
        Answer::ForwardDoubleClick
    } else if message == WM_RBUTTONUP {
        Answer::CyclePalette
    } else if message == WM_DESTROY {
        Answer::Quit
    } else {
        Answer::Default
    }
}

/// How the overlay answers a message.
pub fn answer(message: u32, wparam: usize) -> (r: Answer)
    ensures
        r == answer_to(message, wparam),
{
    match message {
        WM_NCCREATE => Answer::Create,
        WM_PAINT => Answer::Paint,
        WM_ERASEBKGND => Answer::KeepBackground,
        WM_MOUSEACTIVATE => Answer::StayInactive,
        WM_LBUTTONDOWN => Answer::Press,
        WM_LBUTTONDBLCLK => Answer::ForwardDoubleClick,
        WM_RBUTTONUP => Answer::CyclePalette,
        WM_DESTROY => Answer::Quit,
        _ => if message == WM_TIMER && wparam == TRACK_TIMER {
            Answer::Track
        } else {
            Answer::Default
        },
    }
}

/// What a press of the left button does.
#[derive(Clone, Copy, Debug, PartialEq, Eq, Structural)]
pub enum PressAction {
    /// Choose the next palette.
    CyclePalette,
    /// Drag the followed window.
    DragWindow,
    /// Nothing: there is no window to drag.
    Nothing,
}

/// The width of the settings corner at a resolution.
pub open spec fn settings_corner(dpi: u32) -> int {
    24 * at_least_base(dpi) / 96
}

/// What a press of the left button does: in the settings corner at the right edge it
/// chooses the next palette, elsewhere it drags the followed window.
pub fn press_action(x: u16, client_right: i64, dpi: u32, has_target: bool) -> (r: PressAction)
    requires
        i32::MIN <= client_right <= i32::MAX,
    ensures
        r == if x >= client_right - settings_corner(dpi) {
            PressAction::CyclePalette
        } else if has_target {
            PressAction::DragWindow
        } else {
            PressAction::Nothing
        },
{
    let corner: i64 = 24 * effective_dpi(dpi) as i64 / 96;
    if x as i64 >= client_right - corner {
        PressAction::CyclePalette
    } else if has_target {
        PressAction::DragWindow
    } else {
        PressAction::Nothing
    }
}

// ---------------------------------------------------------------------------------
// Laws
// ---------------------------------------------------------------------------------

/// A scaled length is the whole number of dots nearest to the length times the resolution
/// over 96, from the middle between two the larger one, and at most the largest coordinate.
pub proof fn law_lengths_scale_with_the_resolution(length: int, dpi: u32)
    requires
        0 <= length,
    ensures
        ({
            let r = scaled_to(length, dpi);
            let off = length * dpi - 96 * r;
            &&& r <= 0x7fff_ffff
            &&& length * dpi < 96 * 0x7fff_ffff ==> -96 <= 2 * off < 96
            &&& length * dpi >= 96 * 0x7fff_ffff ==> r == 0x7fff_ffff
            &&& dpi == 96 && length <= 0x7fff_ffff ==> r == length
        }),
{
    assert(length * dpi >= 0) by (nonlinear_arith)
        requires
            length >= 0,
            dpi >= 0,
    ;
}

/// Where there is room, the overlay takes the smaller of its scaled preferred width and the
/// room between the reserves, beside the right one; it is left out exactly where that room
/// is less than the scaled least width.
pub proof fn law_the_overlay_takes_its_width_or_the_room(
    total_width: int,
    dpi: u32,
    preferred_width: int,
)
    ensures
        ({
            let right = scaled_to(158, dpi);
            let room = total_width - scaled_to(220, dpi) - right;
            let wanted = scaled_to(preferred_width, dpi);
            let place = layout(total_width, dpi, preferred_width);
            &&& place is None <==> room < scaled_to(170, dpi)
            &&& place matches Some(p) ==> {
                &&& wanted <= room ==> p.1 == wanted
                &&& wanted >= room ==> p.1 == room
                &&& p.0 + p.1 + right == total_width
            }
        }),
{
}

/// A step for a window with known bounds: the program counts as active; where the layout
/// gives a place, the window is adopted, attached to unless it was followed already, and
/// the overlay stands in it five dots below its top and thirty dots high, both scaled;
/// where it gives none, nothing changes but that the overlay is hidden.
pub proof fn law_a_window_is_followed_where_there_is_room(
    step: OverlayStep,
    bounds: Rect,
    dpi: u32,
    weekly_known: bool,
    is_current_target: bool,
)
    requires
        step.follows(Some(bounds), dpi, weekly_known, is_current_target),
    ensures
        ({
            let dpi: u32 = if dpi < 96 {
                96
            } else {
                dpi
            };
            let width: int = if weekly_known {
                440
            } else {
                220
            };
            let place = layout(bounds.right - bounds.left, dpi, width);
            &&& step.active
            &&& step.adopt_target <==> place is Some
            &&& step.attach <==> place is Some && !is_current_target
            &&& step.place is Some <==> place is Some
            &&& place matches Some(wanted) ==> {
                let shown = step.place.unwrap();
                &&& shown.left == bounds.left + wanted.0
                &&& shown.width == wanted.1
                &&& shown.top == bounds.top + scaled_to(5, dpi)
                &&& shown.height == scaled_to(30, dpi)
            }
        }),
{
}

/// A window whose bounds are not known changes nothing but that the program counts as
/// inactive and the overlay is hidden.
pub proof fn law_a_window_without_bounds_is_not_followed(
    step: OverlayStep,
    dpi: u32,
    weekly_known: bool,
    is_current_target: bool,
)
    requires
        step.follows(None, dpi, weekly_known, is_current_target),
    ensures
        !step.active,
        !step.adopt_target,
        !step.attach,
        step.place is None,
{
}

/// The numbers that the system gives its styles, events and messages, and the program's own
/// measures.
pub proof fn law_system_numbers()
    ensures
        WS_CAPTION == 0x00c0_0000,
        WS_POPUP == 0x8000_0000,
        WS_EX_TOOLWINDOW == 0x0000_0080,
        EVENT_OBJECT_LOCATIONCHANGE == 0x800b,
        OBJID_WINDOW == 0,
        CHILDID_SELF == 0,
        TRACK_TIMER == 1,
        BASE_DPI == 96,
        LEFT_RESERVE == 220,
        RIGHT_RESERVE == 158,
        MINIMUM_WIDTH == 170,
        PLAN_WIDTH == 440,
        COMPACT_WIDTH == 220,
{
}

/// Each message has its own answer: of the timers only the first one counts, and a message
/// that is not listed is left to the system.
pub proof fn law_each_message_has_its_answer(message: u32, wparam: usize)
    ensures
        ({
            let a = answer_to(message, wparam);
            &&& a == Answer::Create <==> message == 0x81
            &&& a == Answer::Track <==> message == 0x113 && wparam == 1
            &&& a == Answer::Paint <==> message == 0x0f
            &&& a == Answer::KeepBackground <==> message == 0x14
            &&& a == Answer::StayInactive <==> message == 0x21
            &&& a == Answer::Press <==> message == 0x201
            &&& a == Answer::ForwardDoubleClick <==> message == 0x203
            &&& a == Answer::CyclePalette <==> message == 0x205
            &&& a == Answer::Quit <==> message == 0x02
        }),
{
}

/// The settings corner is 24 dots wide at 96 dots per inch and grows with the resolution,
/// rounded down.
pub proof fn law_the_settings_corner_grows_with_the_resolution(dpi: u32)
    ensures
        dpi <= 96 ==> settings_corner(dpi) == 24,
        dpi >= 96 ==> 96 * settings_corner(dpi) <= 24 * dpi < 96 * (settings_corner(dpi) + 1),
{
}

/// A window can be followed exactly when it is visible, not minimized, has a title bar, is
/// no tool window and is not cloaked as far as the system can tell.
pub proof fn law_which_windows_can_be_followed(facts: WindowFacts)
    ensures
        facts.can_be_followed() <==> facts.visible && !facts.minimized && facts.style
            & 0x00c0_0000u32 != 0 && facts.extended_style & 0x80u32 == 0 && (
        facts.cloaked matches Some(cloaked) ==> cloaked == 0),
{
}

/// The desktop program is told by its package directory and its executable, in whatever
/// ASCII case they are written and whatever stands before and between them; a path with
/// another end, or without the package directory, is another program.
pub proof fn law_the_program_is_told_by_package_and_executable(
    path: Seq<char>,
    before: Seq<char>,
    between: Seq<char>,
)
    requires
        lower(path) == before + "\\openai.codex_"@ + between + "\\app\\chatgpt.exe"@,
    ensures
        is_codex_path(path),
{
    let package = "\\openai.codex_"@;
    let program = "\\app\\chatgpt.exe"@;
    let low = lower(path);
    assert(low.subrange(before.len() as int, (before.len() + package.len()) as int) =~= package);
    assert(crate::text::stands_at(low, package, before.len() as int));
    assert(low.subrange(low.len() - program.len(), low.len() as int) =~= program);
}

/// A path of the desktop program holds the package directory and ends in the executable.
pub proof fn law_other_paths_are_other_programs(path: Seq<char>)
    requires
        is_codex_path(path),
    ensures
        ({
            let package = "\\openai.codex_"@;
            let program = "\\app\\chatgpt.exe"@;
            let low = lower(path);
            &&& exists|before: Seq<char>, after: Seq<char>|
                low == #[trigger] (before + package + after)
            &&& exists|before: Seq<char>| low == #[trigger] (before + program)
        }),
{
    let package = "\\openai.codex_"@;
    let program = "\\app\\chatgpt.exe"@;
    let low = lower(path);
    let at = choose|at: int| #[trigger] crate::text::stands_at(low, package, at);
    let before = low.take(at);
    let after = low.skip(at + package.len());
    assert(low =~= before + package + after);
    let head = low.take(low.len() - program.len());
    assert(low =~= head + program);
}

/// Resolutions below the base one count as the base one, and others as they are.
pub proof fn law_resolutions_start_at_the_base(dpi: u32)
    ensures
        dpi <= 96 ==> at_least_base(dpi) == 96,
        dpi >= 96 ==> at_least_base(dpi) == dpi,
        wanted_width(true) == 440,
        wanted_width(false) == 220,
{
}

/// A rectangle is on the screen exactly when its edges are 32-bit coordinates, and holds
/// something exactly when its edges stand in their order.
pub proof fn law_rectangles_on_the_screen(rect: Rect)
    ensures
        rect.on_screen() <==> -0x8000_0000 <= rect.left <= 0x7fff_ffff && -0x8000_0000 <= rect.top
            <= 0x7fff_ffff && -0x8000_0000 <= rect.right <= 0x7fff_ffff && -0x8000_0000
            <= rect.bottom <= 0x7fff_ffff,
        rect.on_screen() ==> rect.modest(),
        rect.has_area() <==> rect.left < rect.right && rect.top < rect.bottom,
{
}

} // verus!
