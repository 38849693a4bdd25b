//! Placement and input handling of the virtual desktop indicator: a row of
//! dots on the taskbar, one per virtual desktop.
//!
//! Drawing (floating-point geometry and anti-aliasing) and the window
//! itself stay with the caller; this module places the indicator, keeps the
//! hover and "move window" state, and decides what each window message
//! does.

use vstd::prelude::*;
use crate::taskbar::Rect;
use crate::text::{push_decimal, decimal};
use crate::utils::{first_where, lemma_first_where_extend, truncate, truncated};

verus! {

broadcast use vstd::string::group_string_axioms;

/// Gap between the indicator and the taskbar edge or the system tray.
pub const INDICATOR_MARGIN: i32 = 6;
/// Command id of "Move to Desktop N"; the next id is "Move and jump to
/// Desktop N".
pub const MENU_MOVE_BASE: usize = 1000;

/// Where the indicator sits on the taskbar.
#[derive(Clone, Copy, Debug, PartialEq, Eq, Structural)]
pub enum IndicatorPosition {
    /// At the left edge when the taskbar is centered, just left of the
    /// system tray when it is left-aligned.
    Auto,
    /// At the left edge of the taskbar.
    Left,
    /// Just left of the system tray.
    Right,
}

impl IndicatorPosition {
    pub open spec fn from_u8_spec(value: u8) -> IndicatorPosition {
        if value == 1 {
            IndicatorPosition::Left
        } else if value == 2 {
            IndicatorPosition::Right
        } else {
            IndicatorPosition::Auto
        }
    }

    pub open spec fn to_u8_spec(self) -> u8 {
        match self {
            IndicatorPosition::Auto => 0,
            IndicatorPosition::Left => 1,
            IndicatorPosition::Right => 2,
        }
    }

    /// The position stored as `value`: 1 is Left, 2 is Right, anything else
    /// Auto.
    pub fn from_u8(value: u8) -> (r: IndicatorPosition)
        ensures
            r == Self::from_u8_spec(value),
    {
        match value {
            1 => IndicatorPosition::Left,
            2 => IndicatorPosition::Right,
            _ => IndicatorPosition::Auto,
        }
    }

    /// The number a position is stored as: Auto 0, Left 1, Right 2.
    pub fn to_u8(self) -> (r: u8)
        ensures
            r == self.to_u8_spec(),
    {
        match self {
            IndicatorPosition::Auto => 0,
            IndicatorPosition::Left => 1,
            IndicatorPosition::Right => 2,
        }
    }
}

/// Storing a position and reading it back gives the same position, and
/// the numbers 0, 1 and 2 are exactly the stored forms.
pub proof fn position_round_trip(p: IndicatorPosition, v: u8)
    ensures
        IndicatorPosition::from_u8_spec(p.to_u8_spec()) == p,
        v <= 2 ==> IndicatorPosition::from_u8_spec(v).to_u8_spec() == v,
{
}

/// Whether the taskbar buttons are left-aligned, from the `TaskbarAl`
/// setting (`None` when it could not be read): only the value 0 means left;
/// a missing setting means centered.
pub fn is_left_aligned(taskbar_al: Option<u32>) -> (r: bool)
    ensures
        r == (taskbar_al == Some(0u32)),
{
    match taskbar_al {
        Some(v) => v == 0,
        None => false,
    }
}

/// Left edge just left of the system tray (but not past the taskbar's
/// left edge), or at the taskbar's right end when the tray is not found.
pub open spec fn left_of_tray(taskbar: Rect, width: i32, tray_left: Option<i32>) -> int {
    match tray_left {
        Some(l) => {
            let x = l - INDICATOR_MARGIN - width;
            if x >= taskbar.left { x } else { taskbar.left as int }
        },
        None => taskbar.right - INDICATOR_MARGIN - width,
    }
}

/// The screen x of the indicator's left edge.
pub open spec fn indicator_left_spec(
    position: IndicatorPosition,
    taskbar: Rect,
    width: i32,
    tray_left: Option<i32>,
    alignment_left: bool,
) -> int {
    match position {
        IndicatorPosition::Left => taskbar.left + 10,
        IndicatorPosition::Right => left_of_tray(taskbar, width, tray_left),
        IndicatorPosition::Auto => if alignment_left {
            left_of_tray(taskbar, width, tray_left)
        } else {
            taskbar.left + 10
        },
    }
}

/// The left-of-tray position, computed as `(x - margin) - width`, stays
/// within `i32`.
pub open spec fn tray_position_fits(taskbar: Rect, width: i32, tray_left: Option<i32>) -> bool {
    match tray_left {
        Some(l) => l - INDICATOR_MARGIN >= i32::MIN && i32::MIN <= l - INDICATOR_MARGIN - width
            <= i32::MAX,
        None => taskbar.right - INDICATOR_MARGIN >= i32::MIN && i32::MIN <= taskbar.right
            - INDICATOR_MARGIN - width <= i32::MAX,
    }
}

/// Computes where the indicator of width `width` sits on a taskbar with
/// bounds `taskbar`, given the left edge of the system tray (if found) and
/// whether the taskbar buttons are left-aligned.
pub fn indicator_left(
    position: IndicatorPosition,
    taskbar: Rect,
    width: i32,
    tray_left: Option<i32>,
    alignment_left: bool,
) -> (r: i32)
    requires
        tray_position_fits(taskbar, width, tray_left),
        position == IndicatorPosition::Left || (position == IndicatorPosition::Auto
            && !alignment_left) ==> taskbar.left + 10 <= i32::MAX,
    ensures
        r == indicator_left_spec(position, taskbar, width, tray_left, alignment_left),
{
    let tray = match tray_left {
        Some(l) => {
            let x = l - INDICATOR_MARGIN - width;
            if x >= taskbar.left {
                x
            } else {
                taskbar.left
            }
        },
        None => taskbar.right - INDICATOR_MARGIN - width,
    };
    match position {
        IndicatorPosition::Left => taskbar.left + 10,
        IndicatorPosition::Right => tray,
        IndicatorPosition::Auto => {
            if alignment_left {
                tray
            } else {
                taskbar.left + 10
            }
        },
    }
}

/// Index predicate: desktop `i` is the current one.
pub open spec fn is_current_at(is_current: Seq<bool>) -> spec_fn(int) -> bool {
    |i: int| is_current[i]
}

/// The index of the current desktop among the desktops: the first one
/// found equal to the current desktop, or 0 when none is (the current
/// desktop could not be read, or is not in the list).
pub open spec fn current_index_of(is_current: Seq<bool>) -> int {
    match first_where(is_current.len() as int, is_current_at(is_current)) {
        Some(i) => i,
        None => 0,
    }
}

/// Finds the index of the current desktop, given for each desktop in order
/// whether it is the current one.
pub fn current_desktop_index(is_current: &Vec<bool>) -> (r: usize)
    ensures
        r == current_index_of(is_current@),
{
    let ghost p = is_current_at(is_current@);
    let mut i: usize = 0;
    while i < is_current.len()
        invariant
            i <= is_current@.len(),
            p == is_current_at(is_current@),
            first_where(i as int, p) is None,
        decreases is_current.len() - i,
    {
        if is_current[i] {
            proof {
                assert(p(i as int));
                assert(first_where(i + 1, p) == Some(i as int));
                lemma_first_where_extend(i + 1, is_current@.len() as int, p);
            }
            return i;
        }
        proof {
            assert(!p(i as int));
        }
        i = i + 1;
    }
    0
}

/// The mouse cursor shown over the indicator.
#[derive(Clone, Copy, Debug, PartialEq, Eq, Structural)]
pub enum CursorKind {
    /// A hand: clicking switches desktop.
    Hand,
    /// A four-way arrow: the move modifier (Alt) is held and clicking moves
    /// the foreground window.
    SizeAll,
}

/// A window message for the indicator, with what the caller read for it.
#[derive(Clone, Copy, Debug, PartialEq, Eq, Structural)]
pub enum IndicatorEvent {
    /// Desktops changed; the indicator must be redrawn.
    DesktopsChanged,
    /// Display or settings changed (`WM_DISPLAYCHANGE`, `WM_SETTINGCHANGE`).
    DisplayChanged,
    /// The mouse moved over the dot `hovered` (if any).
    MouseMove { hovered: Option<usize>, move_modifier_down: bool },
    /// The mouse left the indicator.
    MouseLeave,
    /// Left click over the dot `hovered`; `desktop_count` is `None` when
    /// the desktops could not be listed.
    LeftClick { hovered: Option<usize>, desktop_count: Option<usize>, move_modifier_down: bool },
    /// Right click over the dot `hovered`; `foreground_target` is the
    /// window that a move would apply to, if any.
    RightClick { hovered: Option<usize>, foreground_target: Option<isize> },
    /// A menu command (`WM_COMMAND` with this `wparam`).
    Command { wparam: usize, desktop_count: Option<usize> },
    /// The cursor must be set (`WM_SETCURSOR`).
    SetCursor { move_modifier_down: bool },
    /// Any other message.
    Other,
}

/// What the caller does in response to a message.
#[derive(Clone, Copy, Debug, PartialEq, Eq, Structural)]
pub enum IndicatorAction {
    /// Hand the message to the default window procedure.
    Default,
    /// Nothing to do; the message is handled.
    Nothing,
    /// Redraw the indicator.
    Render,
    /// Redraw, and ask to be told when the mouse leaves.
    RenderAndTrackLeave,
    /// Post the "desktops changed" message to the indicator, to redraw
    /// once the current input-synchronous call has returned.
    PostDesktopsChanged,
    /// Switch to desktop `index`.
    SwitchDesktop(usize),
    /// Move the foreground window to desktop `index` and follow it there.
    MoveForegroundToDesktop(usize),
    /// Show the move menu for window `target` and desktop `index`.
    ShowMoveMenu { target: isize, index: usize },
    /// Move window `target` to desktop `index`, staying here.
    MoveWindowOnly { target: isize, index: usize },
    /// Move window `target` to desktop `index` and follow it there.
    MoveAndJump { target: isize, index: usize },
    /// Show this cursor.
    SetCursor(CursorKind),
}

/// The indicator's state between messages.
#[derive(Clone, Copy, Debug, PartialEq, Eq, Structural)]
pub struct IndicatorState {
    /// Placement preset.
    pub position: IndicatorPosition,
    /// The dot under the mouse, if any.
    pub hover_index: Option<usize>,
    /// Whether the move modifier was held at the last check.
    pub move_mode: bool,
    /// Window chosen by the last right click (0 when none).
    pub move_target_hwnd: isize,
    /// Desktop chosen by the last right click (-1 when none).
    pub move_target_index: i32,
}

/// The low word of a command's `wparam`: the command id.
pub open spec fn command_id(wparam: usize) -> u32 {
    (wparam as u32) & 0xFFFF
}

/// The state and action that follow message `e` in state `s`.
pub open spec fn step(s: IndicatorState, e: IndicatorEvent) -> (IndicatorState, IndicatorAction) {
    match e {
        IndicatorEvent::DesktopsChanged => (s, IndicatorAction::Render),
        IndicatorEvent::DisplayChanged => (s, IndicatorAction::PostDesktopsChanged),
        IndicatorEvent::MouseMove { hovered, move_modifier_down } => {
            if s.hover_index != hovered {
                (
                    IndicatorState { hover_index: hovered, ..s },
                    if hovered is Some {
                        IndicatorAction::RenderAndTrackLeave
                    } else {
                        IndicatorAction::Render
                    },
                )
            } else if s.move_mode != move_modifier_down {
                (
                    IndicatorState { move_mode: move_modifier_down, ..s },
                    if hovered is Some {
                        IndicatorAction::RenderAndTrackLeave
                    } else {
                        IndicatorAction::Render
                    },
                )
            } else {
                (s, IndicatorAction::Nothing)
            }
        },
        IndicatorEvent::MouseLeave => (IndicatorState { hover_index: None, ..s }, IndicatorAction::Render),
        IndicatorEvent::LeftClick { hovered, desktop_count, move_modifier_down } => {
            match (hovered, desktop_count) {
                (Some(i), Some(n)) => if i < n {
                    if move_modifier_down {
                        (s, IndicatorAction::MoveForegroundToDesktop(i))
                    } else {
                        (s, IndicatorAction::SwitchDesktop(i))
                    }
                } else {
                    (s, IndicatorAction::Nothing)
                },
                _ => (s, IndicatorAction::Nothing),
            }
        },
        IndicatorEvent::RightClick { hovered, foreground_target } => {
            match (hovered, foreground_target) {
                (Some(i), Some(t)) => (
                    IndicatorState { move_target_hwnd: t, move_target_index: i as i32, ..s },
                    IndicatorAction::ShowMoveMenu { target: t, index: i },
                ),
                _ => (s, IndicatorAction::Nothing),
            }
        },
        IndicatorEvent::Command { wparam, desktop_count } => {
            let id = command_id(wparam);
            let target = s.move_target_hwnd;
            let idx = s.move_target_index;
            if (id == 1000 || id == 1001) && target != 0 && idx >= 0 && desktop_count is Some && (
            idx as usize) < desktop_count->0 {
                if id == 1000 {
                    (s, IndicatorAction::MoveWindowOnly { target, index: idx as usize })
                } else {
                    (s, IndicatorAction::MoveAndJump { target, index: idx as usize })
                }
            } else {
                (s, IndicatorAction::Nothing)
            }
        },
        IndicatorEvent::SetCursor { move_modifier_down } => (
            s,
            IndicatorAction::SetCursor(
                if move_modifier_down {
                    CursorKind::SizeAll
                } else {
                    CursorKind::Hand
                },
            ),
        ),
        IndicatorEvent::Other => (s, IndicatorAction::Default),
    }
}

impl IndicatorState {
    /// The state of a new indicator: nothing hovered or chosen.
    pub fn new(position: IndicatorPosition) -> (r: IndicatorState)
        ensures
            r == (IndicatorState {
                position,
                hover_index: None,
                move_mode: false,
                move_target_hwnd: 0isize,
                move_target_index: -1i32,
            }),
    {
        IndicatorState {
            position,
            hover_index: None,
            move_mode: false,
            move_target_hwnd: 0,
            move_target_index: -1,
        }
    }

    /// Changes the placement preset; the indicator is then redrawn.
    pub fn set_position(&mut self, position: IndicatorPosition) -> (action: IndicatorAction)
        ensures
            *final(self) == (IndicatorState { position, ..*old(self) }),
            action == IndicatorAction::Render,
    {
        self.position = position;
        IndicatorAction::Render
    }

    /// Handles a window message: updates the state and returns what the
    /// caller must do.
    pub fn handle(&mut self, e: IndicatorEvent) -> (action: IndicatorAction)
        ensures
            (*final(self), action) == step(*old(self), e),
    {
        match e {
            IndicatorEvent::DesktopsChanged => IndicatorAction::Render,
            IndicatorEvent::DisplayChanged => IndicatorAction::PostDesktopsChanged,
            IndicatorEvent::MouseMove { hovered, move_modifier_down } => {
                let changed = if self.hover_index != hovered {
                    true
                } else if self.move_mode != move_modifier_down {
                    self.move_mode = move_modifier_down;
                    true
                } else {
                    false
                };
                if changed {
                    self.hover_index = hovered;
                    if hovered.is_some() {
                        IndicatorAction::RenderAndTrackLeave
                    } else {
                        IndicatorAction::Render
                    }
                } else {
                    IndicatorAction::Nothing
                }
            },
            IndicatorEvent::MouseLeave => {
                self.hover_index = None;
                IndicatorAction::Render
            },
            IndicatorEvent::LeftClick { hovered, desktop_count, move_modifier_down } => {
                match (hovered, desktop_count) {
                    (Some(i), Some(n)) => {
                        if i < n {
                            if move_modifier_down {
                                IndicatorAction::MoveForegroundToDesktop(i)
                            } else {
                                IndicatorAction::SwitchDesktop(i)
                            }
                        } else {
                            IndicatorAction::Nothing
                        }
                    },
                    _ => IndicatorAction::Nothing,
                }
            },
            IndicatorEvent::RightClick { hovered, foreground_target } => {
                match (hovered, foreground_target) {
                    (Some(i), Some(t)) => {
                        self.move_target_hwnd = t;
                        self.move_target_index = i as i32;
                        IndicatorAction::ShowMoveMenu { target: t, index: i }
                    },
                    _ => IndicatorAction::Nothing,
                }
            },
            IndicatorEvent::Command { wparam, desktop_count } => {
                let id = (wparam as u32) & 0xFFFF;
                let target = self.move_target_hwnd;
                let idx = self.move_target_index;
                if (id == 1000 || id == 1001) && target != 0 && idx >= 0 {
                    match desktop_count {
                        Some(n) => {
                            let i = idx as usize;
                            if i < n {
                                if id == 1000 {
                                    IndicatorAction::MoveWindowOnly { target, index: i }
                                } else {
                                    IndicatorAction::MoveAndJump { target, index: i }
                                }
                            } else {
                                IndicatorAction::Nothing
                            }
                        },
                        None => IndicatorAction::Nothing,
                    }
                } else {
                    IndicatorAction::Nothing
                }
            },
            IndicatorEvent::SetCursor { move_modifier_down } => {
                IndicatorAction::SetCursor(
                    if move_modifier_down {
                        CursorKind::SizeAll
                    } else {
                        CursorKind::Hand
                    },
                )
            },
            IndicatorEvent::Other => IndicatorAction::Default,
        }
    }
}

/// Choosing "Move to Desktop" (or "Move and jump") in the menu opened by a
/// right click acts on the window and desktop of that right click, as long
/// as the desktop still exists.
pub proof fn menu_acts_on_right_clicked(
    s: IndicatorState,
    index: usize,
    target: isize,
    jump: bool,
    desktop_count: usize,
)
    requires
        target != 0,
        index <= i32::MAX,
        index < desktop_count,
    ensures
        ({
            let s1 = step(s, IndicatorEvent::RightClick { hovered: Some(index), foreground_target: Some(target) }).0;
            let wparam: usize = if jump { 1001 } else { 1000 };
            step(s1, IndicatorEvent::Command { wparam, desktop_count: Some(desktop_count) }).1 == if jump {
                IndicatorAction::MoveAndJump { target, index }
            } else {
                IndicatorAction::MoveWindowOnly { target, index }
            }
        }),
{
    assert((1000usize as u32) & 0xFFFF == 1000) by (bit_vector);
    assert((1001usize as u32) & 0xFFFF == 1001) by (bit_vector);
}

/// Leaving the indicator always clears the hover state and redraws; a
/// mouse move always leaves the hovered dot recorded.
pub proof fn hover_follows_mouse(s: IndicatorState, hovered: Option<usize>, down: bool)
    ensures
        step(s, IndicatorEvent::MouseLeave) == (
        IndicatorState { hover_index: None, ..s },
        IndicatorAction::Render,
        ),
        step(s, IndicatorEvent::MouseMove { hovered, move_modifier_down: down }).0.hover_index
            == hovered,
{
}

/// How the indicator answers each message: a change of desktops redraws it
/// and a display change posts that redraw, both leaving the state as it is;
/// the cursor is the four-way arrow exactly while the move modifier is held;
/// a left click on an existing desktop's dot switches to it, or moves the
/// foreground window there while the modifier is held, and does nothing
/// otherwise; a right click on a dot with a window to move opens the menu
/// for them and remembers both; a menu command acts only on the window and
/// desktop remembered from the right click, if the desktop still exists; a mouse move redraws only when the hovered
/// dot or the modifier changed, asking to hear of the mouse leaving while a
/// dot is hovered; other messages go to the default procedure.
pub proof fn indicator_answers_messages(s: IndicatorState, e: IndicatorEvent)
    ensures
        ({
            let (t, a) = step(s, e);
            match e {
                IndicatorEvent::DesktopsChanged => t == s && a == IndicatorAction::Render,
                IndicatorEvent::DisplayChanged => t == s && a == IndicatorAction::PostDesktopsChanged,
                IndicatorEvent::Other => t == s && a == IndicatorAction::Default,
                IndicatorEvent::SetCursor { move_modifier_down } => t == s && (a
                    == IndicatorAction::SetCursor(CursorKind::SizeAll) || a
                    == IndicatorAction::SetCursor(CursorKind::Hand)) && (a
                    == IndicatorAction::SetCursor(CursorKind::SizeAll)) == move_modifier_down,
                IndicatorEvent::LeftClick { hovered, desktop_count, move_modifier_down } => t == s
                    && if hovered is Some && desktop_count is Some && hovered->0 < desktop_count->0 {
                    a == if move_modifier_down {
                        IndicatorAction::MoveForegroundToDesktop(hovered->0)
                    } else {
                        IndicatorAction::SwitchDesktop(hovered->0)
                    }
                } else {
                    a == IndicatorAction::Nothing
                },
                IndicatorEvent::RightClick { hovered, foreground_target } => if hovered is Some
                    && foreground_target is Some {
                    a == (IndicatorAction::ShowMoveMenu {
                        target: foreground_target->0,
                        index: hovered->0,
                    }) && t.move_target_hwnd == foreground_target->0 && t.move_target_index
                        == hovered->0 as i32 && t.position == s.position && t.hover_index
                        == s.hover_index && t.move_mode == s.move_mode
                } else {
                    t == s && a == IndicatorAction::Nothing
                },
                IndicatorEvent::MouseMove { hovered, move_modifier_down } => t.hover_index
                    == hovered && t.position == s.position && t.move_target_hwnd
                    == s.move_target_hwnd && t.move_target_index == s.move_target_index && if s.hover_index
                    == hovered && s.move_mode == move_modifier_down {
                    t == s && a == IndicatorAction::Nothing
                } else {
                    a == if hovered is Some {
                        IndicatorAction::RenderAndTrackLeave
                    } else {
                        IndicatorAction::Render
                    }
                },
                IndicatorEvent::MouseLeave => t.hover_index is None && a == IndicatorAction::Render,
                IndicatorEvent::Command { wparam, desktop_count } => t == s && (a
                    == IndicatorAction::Nothing || (s.move_target_hwnd != 0 && 0
                    <= s.move_target_index && desktop_count is Some && s.move_target_index
                    < desktop_count->0 && (a == (IndicatorAction::MoveWindowOnly {
                    target: s.move_target_hwnd,
                    index: s.move_target_index as usize,
                }) || a == (IndicatorAction::MoveAndJump {
                    target: s.move_target_hwnd,
                    index: s.move_target_index as usize,
                })))),
            }
        }),
{
}

/// The "Move to Desktop" context menu of a right-clicked dot.
pub struct MoveMenu {
    /// Disabled first line: the quoted window title.
    pub header: String,
    /// "Move to Desktop N".
    pub move_label: String,
    /// False when the window is already on that desktop.
    pub move_enabled: bool,
    /// "Move and jump to Desktop N".
    pub jump_label: String,
}

/// The title shown in the menu header: the window title cut to 40
/// characters, or "current window" when the window has no title.
pub open spec fn menu_title(window_title: Seq<char>) -> Seq<char> {
    if window_title.len() > 0 {
        truncated(window_title, 40)
    } else {
        "current window"@
    }
}

/// The move menu for the dot of desktop `desktop_idx` (0-based; labels
/// count from 1), or nothing when no such desktop exists.
pub fn move_menu(desktop_idx: usize, desktop_count: usize, window_title: &str, already_here: bool) -> (r: Option<MoveMenu>)
    ensures
        desktop_idx >= desktop_count <==> r is None,
        r matches Some(m) ==> {
            let n = decimal((desktop_idx + 1) as nat);
            &&& m.header@ == seq!['"'] + menu_title(window_title@) + seq!['"']
            &&& m.move_label@ == "Move to Desktop "@ + n
            &&& m.move_enabled == !already_here
            &&& m.jump_label@ == "Move and jump to Desktop "@ + n
        },
{
    if desktop_idx >= desktop_count {
        return None;
    }
    let n = (desktop_idx + 1) as u64;
    let title = if window_title.unicode_len() > 0 {
        truncate(window_title, 40)
    } else {
        String::from_str("current window")
    };
    let mut header = String::from_str("\"");
    header.append(title.as_str());
    header.append("\"");
    let mut move_label = String::from_str("Move to Desktop ");
    push_decimal(&mut move_label, n);
    let mut jump_label = String::from_str("Move and jump to Desktop ");
    push_decimal(&mut jump_label, n);
    proof {
        reveal_strlit("\"");
    }
    assert(header@ =~= seq!['"'] + menu_title(window_title@) + seq!['"']);
    Some(MoveMenu { header, move_label, move_enabled: !already_here, jump_label })
}

/// Whether the foreground window can be moved to another desktop: a valid,
/// visible window that is neither a system window nor one of this
/// application's own (the tray window and the indicator). A window whose
/// class name could not be read is accepted.
pub fn is_move_target(valid: bool, visible: bool, class_name: &str, is_system_class: bool) -> (r: bool)
    ensures
        r == (valid && visible && (class_name@.len() == 0 || !(is_system_class || class_name@
            == "WinGlideTray"@ || class_name@ == "TaskbarSwitcherIndicator"@))),
{
    if !valid || !visible {
        return false;
    }
    if class_name.unicode_len() > 0 {
        let class = String::from_str(class_name);
        let tray = String::from_str("WinGlideTray");
        let indicator = String::from_str("TaskbarSwitcherIndicator");
        if is_system_class || class == tray || class == indicator {
            return false;
        }
    }
    true
}

/// Whether a window is to be moved to the target desktop: not when it is
/// pinned to all desktops, nor when it is already there.
pub fn should_move_window(pinned: bool, already_on_target: bool) -> (r: bool)
    ensures
        r == (!pinned && !already_on_target),
{
    !pinned && !already_on_target
}

/// The signed x coordinate packed in the low word of a mouse message's
/// `lparam`.
pub open spec fn low_word_signed(lparam: isize) -> int {
    let lo = (lparam as u16) as int;
    if lo < 0x8000 {
        lo
    } else {
        lo - 0x10000
    }
}

/// Extracts the x coordinate of a mouse message (the low word of `lparam`,
/// sign-extended, as `GET_X_LPARAM` does).
pub fn x_from_lparam(lparam: isize) -> (x: i32)
    ensures
        x == low_word_signed(lparam),
{
    let lo: u16 = lparam as u16;
    if lo < 0x8000 {
        lo as i32
    } else {
        lo as i32 - 0x10000
    }
}

} // verus!
