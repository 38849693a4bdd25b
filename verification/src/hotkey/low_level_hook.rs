//! The low-level keyboard hook's hotkey set.
//!
//! Some shortcuts (`Win+<number>`, `Win+L`...) belong to Windows and cannot
//! be registered; a low-level keyboard hook sees each key press first and
//! swallows those that match a hotkey, which the caller then posts as a
//! hotkey message. This module keeps the hook's hotkeys, tells the caller
//! when to install or remove the hook, and matches key presses.

use vstd::prelude::*;
use crate::utils::{first_where, lemma_first_where};

verus! {

/// `MOD_ALT`: an Alt key is part of the combination.
pub const MOD_ALT: u32 = 0x0001;
/// `MOD_CONTROL`: a Ctrl key is part of the combination.
pub const MOD_CONTROL: u32 = 0x0002;
/// `MOD_SHIFT`: a Shift key is part of the combination.
pub const MOD_SHIFT: u32 = 0x0004;
/// `MOD_WIN`: a Windows key is part of the combination.
pub const MOD_WIN: u32 = 0x0008;
/// `WM_KEYDOWN`.
pub const WM_KEYDOWN: u32 = 0x0100;
/// `WM_SYSKEYDOWN`.
pub const WM_SYSKEYDOWN: u32 = 0x0104;

/// A hotkey caught by the low-level keyboard hook.
#[derive(Clone, Copy, Debug, PartialEq, Eq, Structural)]
pub struct LowLevelHotkey {
    /// Hotkey id; the hotkey manager maps it back to an action.
    pub id: i32,
    /// `MOD_*` mask of the modifiers that must be held, and no others.
    pub modifiers: u32,
    /// Virtual key code of the main key.
    pub vk: u32,
}

/// Which of the four standard modifiers are held down (either the left or
/// the right key of each).
#[derive(Clone, Copy, Debug, PartialEq, Eq, Structural)]
pub struct HeldModifiers {
    pub win: bool,
    pub ctrl: bool,
    pub alt: bool,
    pub shift: bool,
}

/// Exactly the modifiers in `required` are held, as `RegisterHotKey`
/// matches them.
pub open spec fn modifiers_match_spec(required: u32, held: HeldModifiers) -> bool {
    &&& (required & MOD_WIN != 0) == held.win
    &&& (required & MOD_CONTROL != 0) == held.ctrl
    &&& (required & MOD_ALT != 0) == held.alt
    &&& (required & MOD_SHIFT != 0) == held.shift
}

/// Whether exactly the modifiers in `required` (and none of the other
/// standard modifiers) are held.
pub fn modifiers_match(required: u32, held: HeldModifiers) -> (r: bool)
    ensures
        r == modifiers_match_spec(required, held),
{
    (required & MOD_WIN != 0) == held.win && (required & MOD_CONTROL != 0) == held.ctrl && (
    required & MOD_ALT != 0) == held.alt && (required & MOD_SHIFT != 0) == held.shift
}

/// What the caller must do to the system hook after the hotkey set changed.
#[derive(Clone, Copy, Debug, PartialEq, Eq, Structural)]
pub enum HookChange {
    /// Install the hook, then report success with `hook_installed`.
    Install,
    /// Remove the installed hook.
    Remove,
    /// Leave the hook as it is.
    Keep,
}

/// The hook's hotkeys and whether the system hook is installed.
pub struct LowLevelKeyHook {
    hotkeys: Vec<LowLevelHotkey>,
    installed: bool,
}

/// Index predicate: hotkey `i` matches key `vk` with modifiers `held`.
pub open spec fn key_matches(hotkeys: Seq<LowLevelHotkey>, vk: u32, held: HeldModifiers) -> spec_fn(int) -> bool {
    |i: int| hotkeys[i].vk == vk && modifiers_match_spec(hotkeys[i].modifiers, held)
}

/// The id posted for a keyboard event: for a key press (`WM_KEYDOWN` or
/// `WM_SYSKEYDOWN`, with a non-negative hook code), the id of the first
/// hotkey on that key whose modifiers are exactly those held.
pub open spec fn matched_id(
    hotkeys: Seq<LowLevelHotkey>,
    n_code: i32,
    msg: u32,
    vk: u32,
    held: HeldModifiers,
) -> Option<i32> {
    if n_code >= 0 && (msg == WM_KEYDOWN || msg == WM_SYSKEYDOWN) {
        match first_where(hotkeys.len() as int, key_matches(hotkeys, vk, held)) {
            Some(i) => Some(hotkeys[i].id),
            None => None,
        }
    } else {
        None
    }
}

/// How the installed flag and the required change follow from a new set.
pub open spec fn change_for(installed: bool, empty: bool) -> HookChange {
    if !empty && !installed {
        HookChange::Install
    } else if empty && installed {
        HookChange::Remove
    } else {
        HookChange::Keep
    }
}

impl LowLevelKeyHook {
    /// The hotkeys the hook matches.
    pub closed spec fn hotkeys(&self) -> Seq<LowLevelHotkey> {
        self.hotkeys@
    }

    /// Whether the system hook is installed.
    pub closed spec fn installed(&self) -> bool {
        self.installed
    }

    /// No hotkeys and no hook.
    pub fn new() -> (r: LowLevelKeyHook)
        ensures
            r.hotkeys() == Seq::<LowLevelHotkey>::empty(),
            !r.installed(),
    {
        LowLevelKeyHook { hotkeys: Vec::new(), installed: false }
    }

    /// Replaces the hotkey set. The hook is to be installed when the set
    /// becomes non-empty and removed when it becomes empty.
    pub fn set_hotkeys(&mut self, hotkeys: &[LowLevelHotkey]) -> (change: HookChange)
        ensures
            final(self).hotkeys() == hotkeys@,
            change == change_for(old(self).installed(), hotkeys@.len() == 0),
            final(self).installed() == (old(self).installed() && change != HookChange::Remove),
    {
        let mut v: Vec<LowLevelHotkey> = Vec::new();
        let mut i: usize = 0;
        while i < hotkeys.len()
            invariant
                i <= hotkeys@.len(),
                v@ == hotkeys@.take(i as int),
            decreases hotkeys.len() - i,
        {
            v.push(hotkeys[i]);
            i = i + 1;
            assert(v@ =~= hotkeys@.take(i as int));
        }
        assert(hotkeys@.take(i as int) =~= hotkeys@);
        self.hotkeys = v;
        let install = hotkeys.len() > 0;
        if install && !self.installed {
            HookChange::Install
        } else if !install && self.installed {
            self.installed = false;
            HookChange::Remove
        } else {
            HookChange::Keep
        }
    }

    /// Records that the system hook was installed.
    pub fn hook_installed(&mut self)
        ensures
            final(self).installed(),
            final(self).hotkeys() == old(self).hotkeys(),
    {
        self.installed = true;
    }

    /// Drops every hotkey; returns whether the installed hook must be
    /// removed.
    pub fn clear(&mut self) -> (was_installed: bool)
        ensures
            was_installed == old(self).installed(),
            final(self).hotkeys() == Seq::<LowLevelHotkey>::empty(),
            !final(self).installed(),
    {
        self.hotkeys = Vec::new();
        let was = self.installed;
        self.installed = false;
        was
    }

    /// Decides a keyboard event seen by the hook: the id of the hotkey to
    /// post (and the key to swallow), or `None` to pass the key on.
    pub fn on_key(&self, n_code: i32, msg: u32, vk: u32, held: HeldModifiers) -> (r: Option<i32>)
        ensures
            r == matched_id(self.hotkeys(), n_code, msg, vk, held),
    {
        if n_code < 0 || !(msg == WM_KEYDOWN || msg == WM_SYSKEYDOWN) {
            return None;
        }
        let ghost p = key_matches(self.hotkeys@, vk, held);
        let mut i: usize = 0;
        while i < self.hotkeys.len()
            invariant
                i <= self.hotkeys@.len(),
                p == key_matches(self.hotkeys@, vk, held),
                n_code >= 0 && (msg == WM_KEYDOWN || msg == WM_SYSKEYDOWN),
                first_where(i as int, p) is None,
            decreases self.hotkeys.len() - i,
        {
            let h = self.hotkeys[i];
            if h.vk == vk && modifiers_match(h.modifiers, held) {
                proof {
                    assert(p(i as int));
                    assert(first_where(i + 1, p) == Some(i as int));
                    crate::utils::lemma_first_where_extend(i + 1, self.hotkeys@.len() as int, p);
                }
                return Some(h.id);
            }
            proof {
                assert(!p(i as int));
            }
            i = i + 1;
        }
        None
    }
}

/// Once the caller has carried out the change (installing successfully
/// when asked to), the hook is installed exactly when the hotkey set is
/// non-empty.
pub proof fn hook_follows_hotkeys(installed: bool, empty: bool)
    ensures
        ({
            let change = change_for(installed, empty);
            let after = if change == HookChange::Install {
                true
            } else {
                installed && change != HookChange::Remove
            };
            after == !empty
        }),
{
}

/// A swallowed key always belongs to a hotkey of the set: its key code is
/// the pressed key and its modifiers are exactly those held.
pub proof fn matched_key_is_a_hotkey(
    hotkeys: Seq<LowLevelHotkey>,
    n_code: i32,
    msg: u32,
    vk: u32,
    held: HeldModifiers,
)
    ensures
        matched_id(hotkeys, n_code, msg, vk, held) matches Some(id) ==> exists|i: int|
            0 <= i < hotkeys.len() && #[trigger] hotkeys[i].id == id && hotkeys[i].vk == vk
                && modifiers_match_spec(hotkeys[i].modifiers, held),
{
    lemma_first_where(hotkeys.len() as int, key_matches(hotkeys, vk, held));
    match first_where(hotkeys.len() as int, key_matches(hotkeys, vk, held)) {
        Some(i) => {
            assert(key_matches(hotkeys, vk, held)(i));
        },
        None => {},
    }
}

/// Each of the four modifiers takes part in the match: a hotkey matches
/// exactly when Win, Ctrl, Alt and Shift are each held if and only if the
/// hotkey's mask names them.
pub proof fn modifiers_are_matched_exactly(required: u32, held: HeldModifiers)
    ensures
        modifiers_match_spec(required, held) <==> (held.win == (required & MOD_WIN != 0) && held.ctrl
            == (required & MOD_CONTROL != 0) && held.alt == (required & MOD_ALT != 0) && held.shift
            == (required & MOD_SHIFT != 0)),
{
}

/// The hook swallows a key event exactly when it is a key press of a
/// hotkey's key with exactly that hotkey's modifiers held, and then posts
/// the id of the first such hotkey; any extra or missing modifier lets the
/// key through.
pub proof fn hook_swallows_exact_combinations(
    hotkeys: Seq<LowLevelHotkey>,
    n_code: i32,
    msg: u32,
    vk: u32,
    held: HeldModifiers,
)
    ensures
        ({
            let press = n_code >= 0 && (msg == WM_KEYDOWN || msg == WM_SYSKEYDOWN);
            match matched_id(hotkeys, n_code, msg, vk, held) {
                Some(id) => press && exists|i: int|
                    0 <= i < hotkeys.len() && #[trigger] hotkeys[i].id == id && hotkeys[i].vk == vk
                        && held.win == (hotkeys[i].modifiers & MOD_WIN != 0) && held.ctrl == (
                    hotkeys[i].modifiers & MOD_CONTROL != 0) && held.alt == (hotkeys[i].modifiers
                        & MOD_ALT != 0) && held.shift == (hotkeys[i].modifiers & MOD_SHIFT != 0)
                        && forall|j: int|
                        0 <= j < i ==> !(#[trigger] hotkeys[j].vk == vk && held.win == (
                        hotkeys[j].modifiers & MOD_WIN != 0) && held.ctrl == (hotkeys[j].modifiers
                            & MOD_CONTROL != 0) && held.alt == (hotkeys[j].modifiers & MOD_ALT != 0)
                            && held.shift == (hotkeys[j].modifiers & MOD_SHIFT != 0)),
                None => !press || forall|i: int|
                    0 <= i < hotkeys.len() ==> !(#[trigger] hotkeys[i].vk == vk && held.win == (
                    hotkeys[i].modifiers & MOD_WIN != 0) && held.ctrl == (hotkeys[i].modifiers
                        & MOD_CONTROL != 0) && held.alt == (hotkeys[i].modifiers & MOD_ALT != 0)
                        && held.shift == (hotkeys[i].modifiers & MOD_SHIFT != 0)),
            }
        }),
{
    let p = key_matches(hotkeys, vk, held);
    lemma_first_where(hotkeys.len() as int, p);
    match first_where(hotkeys.len() as int, p) {
        Some(i) => {
            assert(p(i));
            assert forall|j: int| 0 <= j < i implies !(#[trigger] hotkeys[j].vk == vk && held.win == (
            hotkeys[j].modifiers & MOD_WIN != 0) && held.ctrl == (hotkeys[j].modifiers & MOD_CONTROL
                != 0) && held.alt == (hotkeys[j].modifiers & MOD_ALT != 0) && held.shift == (
            hotkeys[j].modifiers & MOD_SHIFT != 0)) by {
                assert(!p(j));
            }
        },
        None => {
            assert forall|i: int| 0 <= i < hotkeys.len() implies !(#[trigger] hotkeys[i].vk == vk
                && held.win == (hotkeys[i].modifiers & MOD_WIN != 0) && held.ctrl == (
            hotkeys[i].modifiers & MOD_CONTROL != 0) && held.alt == (hotkeys[i].modifiers & MOD_ALT
                != 0) && held.shift == (hotkeys[i].modifiers & MOD_SHIFT != 0)) by {
                assert(!p(i));
            }
        },
    }
}

} // verus!
