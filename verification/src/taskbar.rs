//! Windows 11 taskbar buttons, in left-to-right order, and the flat list of
//! windows that keyboard cycling walks through.
//!
//! The buttons are read through UI Automation by the caller; this module
//! filters and orders them, expands them into windows, and matches the
//! foreground window to its button.

use vstd::prelude::*;
use crate::sort::{SortKey, stable_sort, stable_sorted, is_sorted};
use crate::utils::{first_where, lemma_first_where, lemma_first_where_extend};
use crate::text::{
    lemma_last_occurrence, chars_of, contains, contains_seq, last_occurrence, occurs_at, rfind, string_from_chars,
};

verus! {

broadcast use vstd::string::group_string_axioms;

/// The part of a button name before a trailing `" - N running window(s)"`.
pub open spec fn clean_name(name: Seq<char>) -> Seq<char> {
    match last_occurrence(name, " running window"@) {
        Some(pos) => {
            let before = name.take(pos);
            match last_occurrence(before, " - "@) {
                Some(d) => before.take(d),
                None => match last_occurrence(before, " \u{2014} "@) {
                    Some(d) => before.take(d),
                    None => before,
                },
            }
        },
        None => name,
    }
}

/// Strips the `" - N running window(s)"` suffix that Windows 11 appends to
/// the names of buttons with open windows: the text before the last
/// `" running window"`, cut at the last `" - "` (or `" \u{2014} "`) before
/// it. Names without that marker come back unchanged.
pub fn clean_button_name(name: &str) -> (r: String)
    ensures
        r@ == clean_name(name@),
        name@.take(r@.len() as int) == r@,
{
    let cs = chars_of(name);
    let marker = chars_of(" running window");
    match rfind(&cs, &marker) {
        Some(pos) => {
            assert(occurs_at(cs@, marker@, pos as int));
            let before = string_from_chars(&cs, 0, pos);
            let bcs = chars_of(before.as_str());
            assert(bcs@ =~= name@.take(pos as int));
            let dash = chars_of(" - ");
            match rfind(&bcs, &dash) {
                Some(d) => {
                    assert(occurs_at(bcs@, dash@, d as int));
                    let r = string_from_chars(&bcs, 0, d);
                    assert(name@.take(r@.len() as int) =~= r@);
                    r
                },
                None => {
                    let em = chars_of(" \u{2014} ");
                    match rfind(&bcs, &em) {
                        Some(d) => {
                            assert(occurs_at(bcs@, em@, d as int));
                            let r = string_from_chars(&bcs, 0, d);
                            assert(name@.take(r@.len() as int) =~= r@);
                            r
                        },
                        None => {
                            assert(name@.take(before@.len() as int) =~= before@);
                            before
                        },
                    }
                },
            }
        },
        None => {
            let r = string_from_chars(&cs, 0, cs.len());
            assert(r@ =~= name@);
            assert(name@.take(r@.len() as int) =~= r@);
            r
        },
    }
}

/// A name without `" running window"` is its own clean name, and every
/// clean name is a prefix of the name it comes from.
pub proof fn clean_name_keeps_plain_names(name: Seq<char>)
    ensures
        !contains_seq(name, " running window"@) ==> clean_name(name) == name,
        clean_name(name).len() <= name.len(),
        name.take(clean_name(name).len() as int) == clean_name(name),
{
    lemma_last_occurrence(name, " running window"@);
    match last_occurrence(name, " running window"@) {
        Some(pos) => {
            let before = name.take(pos);
            lemma_last_occurrence(before, " - "@);
            lemma_last_occurrence(before, " \u{2014} "@);
            match last_occurrence(before, " - "@) {
                Some(d) => {
                    assert(name.take(d) =~= before.take(d));
                },
                None => match last_occurrence(before, " \u{2014} "@) {
                    Some(d) => {
                        assert(name.take(d) =~= before.take(d));
                    },
                    None => {
                        assert(name.take(pos) =~= before);
                    },
                },
            }
        },
        None => {
            assert(name.take(name.len() as int) =~= name);
        },
    }
}

/// Screen rectangle in pixels.
#[derive(Clone, Copy, Debug, PartialEq, Eq, Structural)]
pub struct Rect {
    pub left: i32,
    pub top: i32,
    pub right: i32,
    pub bottom: i32,
}

/// A button of the Windows 11 taskbar. It has no window handle of its own:
/// the XAML taskbar draws its buttons inside the shell's window.
#[derive(Clone, Debug)]
pub struct TaskbarButton {
    /// Display name, e.g. `"Chrome - 3 running windows"`.
    pub name: String,
    /// Position on screen; `rect.left` orders the buttons.
    pub rect: Rect,
    /// Process owning the button (usually the shell's own process).
    pub process_id: i32,
    /// UI Automation id, which may hold the AppUserModelID.
    pub automation_id: Option<String>,
}

/// The button belongs to the foreground process.
pub open spec fn pid_matches(b: TaskbarButton, fg_pid: i32) -> bool {
    b.process_id == fg_pid && fg_pid > 0
}

/// The cleaned button name is non-empty and one of the two cleaned names
/// contains the other.
pub open spec fn name_matches(b: TaskbarButton, fg_clean: Seq<char>) -> bool {
    let btn = clean_name(b.name@);
    btn.len() > 0 && (contains_seq(fg_clean, btn) || contains_seq(btn, fg_clean))
}

/// Index predicate: button `i` belongs to the foreground process.
pub open spec fn by_pid(buttons: Seq<TaskbarButton>, fg_pid: i32) -> spec_fn(int) -> bool {
    |i: int| pid_matches(buttons[i], fg_pid)
}

/// Index predicate: button `i` matches the cleaned foreground name.
pub open spec fn by_name(buttons: Seq<TaskbarButton>, fg_clean: Seq<char>) -> spec_fn(int) -> bool {
    |i: int| name_matches(buttons[i], fg_clean)
}

/// The index of the button of the foreground window: the first button of
/// the foreground process, else the first button whose cleaned name and the
/// foreground window's cleaned name contain one another.
pub open spec fn active_index(buttons: Seq<TaskbarButton>, fg_pid: i32, fg_name: Seq<char>) -> Option<int> {
    match first_where(buttons.len() as int, by_pid(buttons, fg_pid)) {
        Some(i) => Some(i),
        None => first_where(buttons.len() as int, by_name(buttons, clean_name(fg_name))),
    }
}

/// Finds the button of the foreground window, given the process id and
/// name that UI Automation reports for that window.
pub fn find_active_button_index(buttons: &Vec<TaskbarButton>, fg_pid: i32, fg_name: &str) -> (r: Option<usize>)
    ensures
        match r {
            Some(i) => active_index(buttons@, fg_pid, fg_name@) == Some(i as int),
            None => active_index(buttons@, fg_pid, fg_name@) is None,
        },
{
    let ghost pid_p = by_pid(buttons@, fg_pid);
    let mut i: usize = 0;
    while i < buttons.len()
        invariant
            i <= buttons@.len(),
            pid_p == by_pid(buttons@, fg_pid),
            first_where(i as int, pid_p) is None,
        decreases buttons.len() - i,
    {
        if buttons[i].process_id == fg_pid && fg_pid > 0 {
            proof {
                assert(pid_p(i as int));
                assert(first_where(i + 1, pid_p) == Some(i as int));
                lemma_first_where_extend(i + 1, buttons@.len() as int, pid_p);
            }
            return Some(i);
        }
        proof {
            assert(!pid_p(i as int));
        }
        i = i + 1;
    }
    let fg_clean = clean_button_name(fg_name);
    let fg_chars = chars_of(fg_clean.as_str());
    let ghost name_p = by_name(buttons@, clean_name(fg_name@));
    let mut j: usize = 0;
    while j < buttons.len()
        invariant
            j <= buttons@.len(),
            fg_chars@ == clean_name(fg_name@),
            first_where(buttons@.len() as int, pid_p) is None,
            first_where(j as int, name_p) is None,
            pid_p == by_pid(buttons@, fg_pid),
            name_p == by_name(buttons@, clean_name(fg_name@)),
        decreases buttons.len() - j,
    {
        let btn = clean_button_name(buttons[j].name.as_str());
        let btn_chars = chars_of(btn.as_str());
        if btn_chars.len() > 0 && (contains(&fg_chars, &btn_chars) || contains(&btn_chars, &fg_chars)) {
            proof {
                assert(name_p(j as int));
                assert(first_where(j + 1, name_p) == Some(j as int));
                lemma_first_where_extend(j + 1, buttons@.len() as int, name_p);
            }
            return Some(j);
        }
        proof {
            assert(!name_p(j as int));
        }
        j = j + 1;
    }
    None
}

/// An element found under the taskbar by UI Automation, with the
/// properties the caller read from it (empty strings and process id 0 when
/// a property could not be read; no rectangle when its bounds could not).
pub struct UiaElement {
    pub class_name: String,
    pub name: String,
    pub rect: Option<Rect>,
    pub process_id: i32,
    pub automation_id: Option<String>,
}

/// UI Automation class of the application buttons of the Windows 11
/// taskbar.
pub open spec fn taskbar_button_class() -> Seq<char> {
    "Taskbar.TaskListButtonAutomationPeer"@
}

/// An element is an application button with known bounds.
pub open spec fn is_button_element(e: UiaElement) -> bool {
    e.class_name@ == taskbar_button_class() && e.rect is Some
}

/// The button an application-button element describes.
pub open spec fn button_of(e: UiaElement) -> TaskbarButton {
    TaskbarButton {
        name: e.name,
        rect: e.rect->0,
        process_id: e.process_id,
        automation_id: e.automation_id,
    }
}

/// The buttons among `items`, in their order.
pub open spec fn buttons_of(items: Seq<UiaElement>) -> Seq<TaskbarButton>
    decreases items.len(),
{
    if items.len() == 0 {
        Seq::empty()
    } else if is_button_element(items.last()) {
        buttons_of(items.drop_last()).push(button_of(items.last()))
    } else {
        buttons_of(items.drop_last())
    }
}

fn clone_opt_string(o: &Option<String>) -> (r: Option<String>)
    ensures
        r == *o,
{
    match o {
        Some(s) => Some(s.clone()),
        None => None,
    }
}

/// Appends to `buttons` the application buttons among `items` (elements
/// of the class `Taskbar.TaskListButtonAutomationPeer` whose bounds are
/// known), in order; other elements (start, search, clock...) are skipped.
pub fn collect_buttons(items: &Vec<UiaElement>, buttons: &mut Vec<TaskbarButton>)
    ensures
        final(buttons)@ == old(buttons)@ + buttons_of(items@),
{
    let class = String::from_str("Taskbar.TaskListButtonAutomationPeer");
    let mut i: usize = 0;
    while i < items.len()
        invariant
            i <= items@.len(),
            class@ == taskbar_button_class(),
            buttons@ == old(buttons)@ + buttons_of(items@.take(i as int)),
        decreases items.len() - i,
    {
        let item = &items[i];
        assert(items@.take(i + 1).drop_last() =~= items@.take(i as int));
        if item.class_name == class {
            match item.rect {
                Some(rect) => {
                    buttons.push(
                        TaskbarButton {
                            name: item.name.clone(),
                            rect,
                            process_id: item.process_id,
                            automation_id: clone_opt_string(&item.automation_id),
                        },
                    );
                },
                None => {},
            }
        }
        i = i + 1;
        assert(buttons@ =~= old(buttons)@ + buttons_of(items@.take(i as int)));
    }
    assert(items@.take(i as int) =~= items@);
}

impl SortKey for TaskbarButton {
    open spec fn key_le(self, other: Self) -> bool {
        self.rect.left <= other.rect.left
    }

    proof fn lemma_key_le_total(a: Self, b: Self) {
    }

    proof fn lemma_key_le_trans(a: Self, b: Self, c: Self) {
    }

    fn le(&self, other: &Self) -> (r: bool) {
        self.rect.left <= other.rect.left
    }
}

/// Orders buttons left to right by `rect.left`; buttons at the same
/// position keep their order.
pub fn sort_buttons_left_to_right(buttons: Vec<TaskbarButton>) -> (r: Vec<TaskbarButton>)
    ensures
        r@ == stable_sorted(buttons@),
        is_sorted(r@),
        r@.to_multiset() == buttons@.to_multiset(),
{
    stable_sort(buttons)
}

/// A window found for a taskbar button.
pub struct ButtonWindow {
    pub title: String,
    pub hwnd: usize,
    pub rect: Rect,
}

/// One window in the cycling list. Grouped buttons are expanded into one
/// entry per window.
#[derive(Clone, Debug)]
pub struct CycleEntry {
    /// Window title.
    pub name: String,
    /// Window handle to activate.
    pub hwnd: usize,
    /// Left edge of the taskbar button the window belongs to.
    pub taskbar_left: i32,
    /// Whether the button holds more than one window.
    pub is_grouped: bool,
    /// Window position on screen, ordering windows of one button.
    pub window_rect: Rect,
}

impl SortKey for CycleEntry {
    /// By taskbar position, then window position, then handle.
    open spec fn key_le(self, other: Self) -> bool {
        ||| self.taskbar_left < other.taskbar_left
        ||| self.taskbar_left == other.taskbar_left && self.window_rect.left < other.window_rect.left
        ||| self.taskbar_left == other.taskbar_left && self.window_rect.left == other.window_rect.left
            && self.hwnd <= other.hwnd
    }

    proof fn lemma_key_le_total(a: Self, b: Self) {
    }

    proof fn lemma_key_le_trans(a: Self, b: Self, c: Self) {
    }

    fn le(&self, other: &Self) -> (r: bool) {
        if self.taskbar_left != other.taskbar_left {
            self.taskbar_left < other.taskbar_left
        } else if self.window_rect.left != other.window_rect.left {
            self.window_rect.left < other.window_rect.left
        } else {
            self.hwnd <= other.hwnd
        }
    }
}

/// The entry for window `w` of a button at `taskbar_left`.
pub open spec fn entry_of(w: ButtonWindow, taskbar_left: i32, is_grouped: bool) -> CycleEntry {
    CycleEntry { name: w.title, hwnd: w.hwnd, taskbar_left, is_grouped, window_rect: w.rect }
}

/// The entries of the windows `ws` of one button.
pub open spec fn button_entries(ws: Seq<ButtonWindow>, taskbar_left: i32, is_grouped: bool) -> Seq<CycleEntry> {
    Seq::new(ws.len(), |k: int| entry_of(ws[k], taskbar_left, is_grouped))
}

/// The entries of the first `k` buttons, button by button, before sorting.
/// With combining on, the windows of a button holding more than one are
/// marked grouped.
pub open spec fn unsorted_entries(
    buttons: Seq<TaskbarButton>,
    windows: Seq<Vec<ButtonWindow>>,
    combine_enabled: bool,
    k: int,
) -> Seq<CycleEntry>
    decreases k,
{
    if k <= 0 {
        Seq::empty()
    } else {
        unsorted_entries(buttons, windows, combine_enabled, k - 1) + button_entries(
            windows[k - 1]@,
            buttons[k - 1].rect.left,
            combine_enabled && windows[k - 1]@.len() > 1,
        )
    }
}

/// Builds the flat cycling list: one entry per window found for each
/// button (`windows[i]` for `buttons[i]`; with combining off the caller
/// finds at most one window per button), ordered by taskbar position, then
/// window position, then handle.
pub fn build_cycle_entries(
    buttons: &Vec<TaskbarButton>,
    windows: &Vec<Vec<ButtonWindow>>,
    combine_enabled: bool,
) -> (r: Vec<CycleEntry>)
    requires
        windows@.len() == buttons@.len(),
    ensures
        r@ == stable_sorted(unsorted_entries(buttons@, windows@, combine_enabled, buttons@.len() as int)),
        is_sorted(r@),
        r@.to_multiset() == unsorted_entries(
            buttons@,
            windows@,
            combine_enabled,
            buttons@.len() as int,
        ).to_multiset(),
{
    let mut entries: Vec<CycleEntry> = Vec::new();
    let mut i: usize = 0;
    while i < buttons.len()
        invariant
            i <= buttons@.len(),
            windows@.len() == buttons@.len(),
            entries@ == unsorted_entries(buttons@, windows@, combine_enabled, i as int),
        decreases buttons.len() - i,
    {
        let ws = &windows[i];
        let left = buttons[i].rect.left;
        let is_grouped = combine_enabled && ws.len() > 1;
        let ghost before = entries@;
        let mut k: usize = 0;
        while k < ws.len()
            invariant
                k <= ws@.len(),
                entries@ == before + button_entries(ws@, left, is_grouped).take(k as int),
            decreases ws.len() - k,
        {
            entries.push(
                CycleEntry {
                    name: ws[k].title.clone(),
                    hwnd: ws[k].hwnd,
                    taskbar_left: left,
                    is_grouped,
                    window_rect: ws[k].rect,
                },
            );
            k = k + 1;
            assert(entries@ =~= before + button_entries(ws@, left, is_grouped).take(k as int));
        }
        assert(button_entries(ws@, left, is_grouped).take(k as int) =~= button_entries(
            ws@,
            left,
            is_grouped,
        ));
        i = i + 1;
    }
    stable_sort(entries)
}

/// The button of the foreground window is the first button of the
/// foreground process (for a positive process id); when there is none, it
/// is the first button whose non-empty cleaned name contains the cleaned
/// foreground name or is contained in it; when there is neither, no button
/// is found.
pub proof fn active_button_is_first_match(buttons: Seq<TaskbarButton>, fg_pid: i32, fg_name: Seq<char>)
    ensures
        match active_index(buttons, fg_pid, fg_name) {
            Some(i) => 0 <= i < buttons.len() && ((buttons[i].process_id == fg_pid && fg_pid > 0
                && forall|j: int|
                0 <= j < i ==> !(#[trigger] buttons[j].process_id == fg_pid && fg_pid > 0)) || ((
            forall|j: int|
                0 <= j < buttons.len() ==> !(#[trigger] buttons[j].process_id == fg_pid && fg_pid
                    > 0)) && clean_name(buttons[i].name@).len() > 0 && (contains_seq(
                clean_name(fg_name),
                clean_name(buttons[i].name@),
            ) || contains_seq(clean_name(buttons[i].name@), clean_name(fg_name))) && forall|j: int|
                0 <= j < i ==> !(clean_name(#[trigger] buttons[j].name@).len() > 0 && (contains_seq(
                    clean_name(fg_name),
                    clean_name(buttons[j].name@),
                ) || contains_seq(clean_name(buttons[j].name@), clean_name(fg_name)))))),
            None => forall|j: int|
                0 <= j < buttons.len() ==> !(#[trigger] buttons[j].process_id == fg_pid && fg_pid
                    > 0) && !(clean_name(buttons[j].name@).len() > 0 && (contains_seq(
                    clean_name(fg_name),
                    clean_name(buttons[j].name@),
                ) || contains_seq(clean_name(buttons[j].name@), clean_name(fg_name)))),
        },
{
    let n = buttons.len() as int;
    let fg = clean_name(fg_name);
    let pp = by_pid(buttons, fg_pid);
    let np = by_name(buttons, fg);
    lemma_first_where(n, pp);
    lemma_first_where(n, np);
    match first_where(n, pp) {
        Some(i) => {
            assert forall|j: int| 0 <= j < i implies !(#[trigger] buttons[j].process_id == fg_pid
                && fg_pid > 0) by {
                assert(!pp(j));
            }
        },
        None => {
            assert forall|j: int| 0 <= j < n implies !(#[trigger] buttons[j].process_id == fg_pid
                && fg_pid > 0) by {
                assert(!pp(j));
            }
            match first_where(n, np) {
                Some(i) => {
                    assert(np(i));
                    assert forall|j: int| 0 <= j < i implies !(clean_name(
                        #[trigger] buttons[j].name@,
                    ).len() > 0 && (contains_seq(fg, clean_name(buttons[j].name@)) || contains_seq(
                        clean_name(buttons[j].name@),
                        fg,
                    ))) by {
                        assert(!np(j));
                    }
                },
                None => {
                    assert forall|j: int| 0 <= j < n implies !(#[trigger] buttons[j].process_id
                        == fg_pid && fg_pid > 0) && !(clean_name(buttons[j].name@).len() > 0 && (
                    contains_seq(fg, clean_name(buttons[j].name@)) || contains_seq(
                        clean_name(buttons[j].name@),
                        fg,
                    ))) by {
                        assert(!pp(j));
                        assert(!np(j));
                    }
                },
            }
        },
    }
}

} // verus!
