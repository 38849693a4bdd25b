//! The hotkey set: which hotkeys exist for a configuration, how each one is
//! delivered, and which action an id stands for.
//!
//! By default two hotkeys cycle through the taskbar (`Alt+[` and `Alt+]`,
//! ids 1 and 2) and nine jump to a virtual desktop (`<modifiers>+1` to
//! `<modifiers>+9`, ids 11 to 19). Combinations with the Win modifier
//! cannot be registered with the system (Windows owns `Win+<number>` and
//! reserved combinations), so the low-level keyboard hook delivers them;
//! both mechanisms use the same ids.

use vstd::prelude::*;
use crate::hotkey::low_level_hook::{LowLevelHotkey, MOD_WIN};
use crate::utils::{first_where, lemma_first_where, lemma_first_where_extend};

verus! {

/// How a hotkey reaches the application.
#[derive(Clone, Copy, Debug, PartialEq, Eq, Structural)]
pub enum HotkeyDispatch {
    /// Registered with the system, which posts the hotkey message.
    Registered,
    /// Caught by the low-level keyboard hook, which posts the message.
    LowLevelHook,
}

/// Actions that hotkeys trigger.
#[derive(Clone, Copy, Debug, PartialEq, Eq, Structural)]
pub enum HotkeyAction {
    /// Focus the window left of the current one on the taskbar.
    CycleLeft,
    /// Focus the window right of the current one on the taskbar.
    CycleRight,
    /// Switch to the virtual desktop with this 0-based index.
    SwitchVirtualDesktop(u32),
}

/// One hotkey of the set.
#[derive(Clone, Copy, Debug, PartialEq, Eq, Structural)]
pub struct Hotkey {
    /// Id carried by the hotkey message.
    pub id: i32,
    pub action: HotkeyAction,
    /// `MOD_*` mask of the modifiers.
    pub modifiers: u32,
    /// Virtual key code of the main key.
    pub vk: u32,
    pub dispatch: HotkeyDispatch,
}

/// The hotkey settings of the application configuration.
#[derive(Clone, Copy, Debug, PartialEq, Eq, Structural)]
pub struct HotkeyConfig {
    /// Whether the taskbar cycling hotkeys are enabled.
    pub cycle_taskbar_based: bool,
    pub hotkey_left_modifiers: u32,
    pub hotkey_left_vk: u32,
    pub hotkey_right_modifiers: u32,
    pub hotkey_right_vk: u32,
    /// Modifiers of the jump-to-desktop hotkeys; 0 disables them.
    pub jump_desktop_modifiers: u32,
}

/// Reasons why hotkeys are not available.
#[derive(Clone, Debug)]
pub enum HotkeyError {
    /// The system refused to register the hotkeys with ids `failed`
    /// (usually because another application holds the combination). The
    /// hotkey set is given up: the caller unregisters the ids
    /// `to_unregister` again, those of every hotkey meant for the system.
    RegistrationFailed { failed: Vec<i32>, to_unregister: Vec<i32> },
}

/// Win-involved combinations go through the low-level hook; the rest are
/// registered with the system.
pub open spec fn dispatch_of(modifiers: u32) -> HotkeyDispatch {
    if modifiers & MOD_WIN != 0 {
        HotkeyDispatch::LowLevelHook
    } else {
        HotkeyDispatch::Registered
    }
}

/// Chooses the delivery mechanism for a hotkey with these modifiers.
pub fn dispatch_for(modifiers: u32) -> (r: HotkeyDispatch)
    ensures
        r == dispatch_of(modifiers),
{
    if modifiers & MOD_WIN != 0 {
        HotkeyDispatch::LowLevelHook
    } else {
        HotkeyDispatch::Registered
    }
}

/// The jump hotkey for desktop `k` (0-based): id `11 + k`, key `'1' + k`.
pub open spec fn jump_hotkey(k: int, modifiers: u32) -> Hotkey {
    Hotkey {
        id: (11 + k) as i32,
        action: HotkeyAction::SwitchVirtualDesktop(k as u32),
        modifiers,
        vk: (0x31 + k) as u32,
        dispatch: dispatch_of(modifiers),
    }
}

/// The hotkeys of a configuration, in order: the two cycling hotkeys when
/// enabled, then the nine jump hotkeys when their modifiers are set.
pub open spec fn hotkeys_for(c: HotkeyConfig) -> Seq<Hotkey> {
    (if c.cycle_taskbar_based {
        seq![
            Hotkey {
                id: 1,
                action: HotkeyAction::CycleLeft,
                modifiers: c.hotkey_left_modifiers,
                vk: c.hotkey_left_vk,
                dispatch: dispatch_of(c.hotkey_left_modifiers),
            },
            Hotkey {
                id: 2,
                action: HotkeyAction::CycleRight,
                modifiers: c.hotkey_right_modifiers,
                vk: c.hotkey_right_vk,
                dispatch: dispatch_of(c.hotkey_right_modifiers),
            },
        ]
    } else {
        Seq::empty()
    }) + (if c.jump_desktop_modifiers != 0 {
        Seq::new(9, |k: int| jump_hotkey(k, c.jump_desktop_modifiers))
    } else {
        Seq::empty()
    })
}

/// Index predicate: hotkey `i` has id `id`.
pub open spec fn has_id(hotkeys: Seq<Hotkey>, id: i32) -> spec_fn(int) -> bool {
    |i: int| hotkeys[i].id == id
}

/// The action of the first hotkey with id `id`.
pub open spec fn action_of(hotkeys: Seq<Hotkey>, id: i32) -> Option<HotkeyAction> {
    match first_where(hotkeys.len() as int, has_id(hotkeys, id)) {
        Some(i) => Some(hotkeys[i].action),
        None => None,
    }
}

/// The low-level form of a hotkey.
pub open spec fn low_level_form(h: Hotkey) -> LowLevelHotkey {
    LowLevelHotkey { id: h.id, modifiers: h.modifiers, vk: h.vk }
}

/// The hotkeys delivered by the low-level hook, in order, in low-level
/// form.
pub open spec fn low_level_of(hotkeys: Seq<Hotkey>) -> Seq<LowLevelHotkey>
    decreases hotkeys.len(),
{
    if hotkeys.len() == 0 {
        Seq::empty()
    } else if hotkeys.last().dispatch == HotkeyDispatch::LowLevelHook {
        low_level_of(hotkeys.drop_last()).push(low_level_form(hotkeys.last()))
    } else {
        low_level_of(hotkeys.drop_last())
    }
}

/// The hotkeys registered with the system, in order.
pub open spec fn registered_of(hotkeys: Seq<Hotkey>) -> Seq<Hotkey>
    decreases hotkeys.len(),
{
    if hotkeys.len() == 0 {
        Seq::empty()
    } else if hotkeys.last().dispatch == HotkeyDispatch::Registered {
        registered_of(hotkeys.drop_last()).push(hotkeys.last())
    } else {
        registered_of(hotkeys.drop_last())
    }
}

/// The ids of the hotkeys registered with the system, in order.
pub open spec fn registered_ids(hotkeys: Seq<Hotkey>) -> Seq<i32> {
    registered_of(hotkeys).map_values(|h: Hotkey| h.id)
}

/// The application's hotkey set.
pub struct HotkeyManager {
    hotkeys: Vec<Hotkey>,
}

impl View for HotkeyManager {
    type V = Seq<Hotkey>;

    closed spec fn view(&self) -> Seq<Hotkey> {
        self.hotkeys@
    }
}

/// Builds the hotkeys of a configuration.
fn hotkeys_of_config(config: &HotkeyConfig) -> (r: Vec<Hotkey>)
    ensures
        r@ == hotkeys_for(*config),
{
    let mut hotkeys: Vec<Hotkey> = Vec::new();
    if config.cycle_taskbar_based {
        hotkeys.push(
            Hotkey {
                id: 1,
                action: HotkeyAction::CycleLeft,
                modifiers: config.hotkey_left_modifiers,
                vk: config.hotkey_left_vk,
                dispatch: dispatch_for(config.hotkey_left_modifiers),
            },
        );
        hotkeys.push(
            Hotkey {
                id: 2,
                action: HotkeyAction::CycleRight,
                modifiers: config.hotkey_right_modifiers,
                vk: config.hotkey_right_vk,
                dispatch: dispatch_for(config.hotkey_right_modifiers),
            },
        );
    }
    let ghost head = hotkeys@;
    let dispatch = dispatch_for(config.jump_desktop_modifiers);
    if config.jump_desktop_modifiers != 0 {
        let mut i: u32 = 1;
        while i <= 9
            invariant
                1 <= i <= 10,
                config.jump_desktop_modifiers != 0,
                dispatch == dispatch_of(config.jump_desktop_modifiers),
                hotkeys@ == head + Seq::new(
                    (i - 1) as nat,
                    |k: int| jump_hotkey(k, config.jump_desktop_modifiers),
                ),
            decreases 10 - i,
        {
            hotkeys.push(
                Hotkey {
                    id: 10 + i as i32,
                    action: HotkeyAction::SwitchVirtualDesktop(i - 1),
                    modifiers: config.jump_desktop_modifiers,
                    vk: 0x30 + i,
                    dispatch,
                },
            );
            i = i + 1;
            assert(hotkeys@ =~= head + Seq::new(
                (i - 1) as nat,
                |k: int| jump_hotkey(k, config.jump_desktop_modifiers),
            ));
        }
    }
    assert(hotkeys@ =~= hotkeys_for(*config));
    hotkeys
}

impl HotkeyManager {
    /// The hotkey set of `config`. The caller registers
    /// [`HotkeyManager::registrations`] with the system and reports the
    /// outcome to [`HotkeyManager::registration_result`].
    pub fn new(config: &HotkeyConfig) -> (r: HotkeyManager)
        ensures
            r@ == hotkeys_for(*config),
    {
        HotkeyManager { hotkeys: hotkeys_of_config(config) }
    }

    /// The outcome of registering the hotkeys: the hotkey set itself when
    /// the system registered all of them; otherwise the set is given up and
    /// the error names the ids the system refused and the ids to unregister
    /// again (those of all registered hotkeys, as when the set is dropped).
    pub fn registration_result(self, failed_ids: Vec<i32>) -> (r: Result<HotkeyManager, HotkeyError>)
        ensures
            failed_ids@.len() == 0 <==> r is Ok,
            r matches Ok(m) ==> m@ == self@,
            r matches Err(HotkeyError::RegistrationFailed { failed, to_unregister }) ==> failed@
                == failed_ids@ && to_unregister@ == registered_ids(self@),
    {
        if failed_ids.len() == 0 {
            Ok(self)
        } else {
            let to_unregister = self.unregister_all();
            Err(HotkeyError::RegistrationFailed { failed: failed_ids, to_unregister })
        }
    }

    /// The hotkeys the system must register (those without the Win
    /// modifier), in order.
    pub fn registrations(&self) -> (r: Vec<Hotkey>)
        ensures
            r@ == registered_of(self@),
    {
        let mut r: Vec<Hotkey> = Vec::new();
        let mut i: usize = 0;
        while i < self.hotkeys.len()
            invariant
                i <= self.hotkeys@.len(),
                r@ == registered_of(self.hotkeys@.take(i as int)),
            decreases self.hotkeys.len() - i,
        {
            let h = self.hotkeys[i];
            assert(self.hotkeys@.take(i + 1).drop_last() =~= self.hotkeys@.take(i as int));
            if h.dispatch == HotkeyDispatch::Registered {
                r.push(h);
            }
            i = i + 1;
        }
        assert(self.hotkeys@.take(i as int) =~= self.hotkeys@);
        r
    }

    /// The ids to unregister from the system: those of the registered
    /// hotkeys, in order.
    pub fn unregister_all(&self) -> (ids: Vec<i32>)
        ensures
            ids@ == registered_ids(self@),
    {
        let regs = self.registrations();
        let mut ids: Vec<i32> = Vec::new();
        let mut i: usize = 0;
        while i < regs.len()
            invariant
                i <= regs@.len(),
                ids@ == regs@.take(i as int).map_values(|h: Hotkey| h.id),
            decreases regs.len() - i,
        {
            ids.push(regs[i].id);
            i = i + 1;
            assert(ids@ =~= regs@.take(i as int).map_values(|h: Hotkey| h.id));
        }
        assert(regs@.take(i as int) =~= regs@);
        ids
    }

    /// The hotkeys the low-level keyboard hook must catch (Win-involved
    /// combinations), in order.
    pub fn low_level_hotkeys(&self) -> (r: Vec<LowLevelHotkey>)
        ensures
            r@ == low_level_of(self@),
    {
        let mut r: Vec<LowLevelHotkey> = Vec::new();
        let mut i: usize = 0;
        while i < self.hotkeys.len()
            invariant
                i <= self.hotkeys@.len(),
                r@ == low_level_of(self.hotkeys@.take(i as int)),
            decreases self.hotkeys.len() - i,
        {
            let h = self.hotkeys[i];
            assert(self.hotkeys@.take(i + 1).drop_last() =~= self.hotkeys@.take(i as int));
            if h.dispatch == HotkeyDispatch::LowLevelHook {
                r.push(LowLevelHotkey { id: h.id, modifiers: h.modifiers, vk: h.vk });
            }
            i = i + 1;
        }
        assert(self.hotkeys@.take(i as int) =~= self.hotkeys@);
        r
    }

    /// The action of the hotkey with id `id`, as carried by a hotkey
    /// message.
    pub fn action_from_id(&self, id: i32) -> (r: Option<HotkeyAction>)
        ensures
            r == action_of(self@, id),
    {
        let ghost p = has_id(self.hotkeys@, id);
        let mut i: usize = 0;
        while i < self.hotkeys.len()
            invariant
                i <= self.hotkeys@.len(),
                p == has_id(self.hotkeys@, id),
                first_where(i as int, p) is None,
            decreases self.hotkeys.len() - i,
        {
            if self.hotkeys[i].id == id {
                proof {
                    assert(p(i as int));
                    assert(first_where(i + 1, p) == Some(i as int));
                    lemma_first_where_extend(i + 1, self.hotkeys@.len() as int, p);
                }
                return Some(self.hotkeys[i].action);
            }
            proof {
                assert(!p(i as int));
            }
            i = i + 1;
        }
        None
    }

    /// Replaces the hotkey set with that of `config`. Returns the ids of the
    /// previously registered hotkeys, which the caller unregisters before
    /// registering [`HotkeyManager::registrations`] again; hotkeys that fail
    /// to register then are only reported, so reloading always succeeds.
    pub fn reload(&mut self, config: &HotkeyConfig) -> (r: Result<Vec<i32>, HotkeyError>)
        ensures
            r matches Ok(ids) && ids@ == registered_ids(old(self)@),
            final(self)@ == hotkeys_for(*config),
    {
        let old_ids = self.unregister_all();
        self.hotkeys = hotkeys_of_config(config);
        Ok(old_ids)
    }
}

/// The hotkeys of every configuration have pairwise distinct ids.
pub proof fn hotkey_ids_distinct(c: HotkeyConfig)
    ensures
        forall|i: int, j: int|
            0 <= i < j < hotkeys_for(c).len() ==> #[trigger] hotkeys_for(c)[i].id
                != #[trigger] hotkeys_for(c)[j].id,
{
    let hs = hotkeys_for(c);
    let h = if c.cycle_taskbar_based { 2int } else { 0int };
    assert forall|i: int| 0 <= i < hs.len() implies (i < h ==> #[trigger] hs[i].id == i + 1) && (h
        <= i ==> hs[i].id == 11 + (i - h)) by {}
}

/// With distinct ids, looking up the id of any hotkey finds that hotkey.
proof fn lemma_lookup_distinct(hs: Seq<Hotkey>, i: int)
    requires
        0 <= i < hs.len(),
        forall|a: int, b: int| 0 <= a < b < hs.len() ==> #[trigger] hs[a].id != #[trigger] hs[b].id,
    ensures
        first_where(hs.len() as int, has_id(hs, hs[i].id)) == Some(i),
{
    let p = has_id(hs, hs[i].id);
    lemma_first_where(hs.len() as int, p);
    assert(p(i));
    match first_where(hs.len() as int, p) {
        Some(j) => {
            assert(p(j));
            if j < i {
                assert(hs[j].id != hs[i].id);
            }
        },
        None => {},
    }
}

/// Every hotkey of a configuration is found again by its id: the id a
/// hotkey message carries always maps to the action of that hotkey, however
/// the message was delivered.
pub proof fn id_maps_to_its_action(c: HotkeyConfig, i: int)
    requires
        0 <= i < hotkeys_for(c).len(),
    ensures
        action_of(hotkeys_for(c), hotkeys_for(c)[i].id) == Some(hotkeys_for(c)[i].action),
{
    hotkey_ids_distinct(c);
    lemma_lookup_distinct(hotkeys_for(c), i);
}

/// Every id posted by the low-level hook maps to an action.
pub proof fn low_level_ids_have_actions(c: HotkeyConfig, k: int)
    requires
        0 <= k < low_level_of(hotkeys_for(c)).len(),
    ensures
        action_of(hotkeys_for(c), low_level_of(hotkeys_for(c))[k].id) is Some,
{
    let hs = hotkeys_for(c);
    lemma_low_level_from(hs, k);
    let i = choose|i: int| 0 <= i < hs.len() && low_level_form(hs[i]) == low_level_of(hs)[k];
    id_maps_to_its_action(c, i);
}

/// Every low-level hotkey comes from a hotkey of the sequence.
proof fn lemma_low_level_from(hs: Seq<Hotkey>, k: int)
    requires
        0 <= k < low_level_of(hs).len(),
    ensures
        exists|i: int| 0 <= i < hs.len() && low_level_form(hs[i]) == low_level_of(hs)[k],
    decreases hs.len(),
{
    if hs.len() > 0 {
        let d = hs.drop_last();
        if hs.last().dispatch == HotkeyDispatch::LowLevelHook && k == low_level_of(d).len() {
            assert(low_level_form(hs[hs.len() - 1]) == low_level_of(hs)[k]);
        } else {
            lemma_low_level_from(d, k);
            let i = choose|i: int| 0 <= i < d.len() && low_level_form(d[i]) == low_level_of(d)[k];
            assert(low_level_form(hs[i]) == low_level_of(hs)[k]);
        }
    }
}

/// The jump hotkeys: with modifiers set, id `11 + k` switches to desktop
/// `k` (0-based, `k < 9`) and is bound to key `'1' + k`; with modifiers 0
/// none of these ids maps to an action.
pub proof fn jump_hotkeys(c: HotkeyConfig, k: int)
    requires
        0 <= k < 9,
    ensures
        c.jump_desktop_modifiers != 0 ==> action_of(hotkeys_for(c), (11 + k) as i32) == Some(
            HotkeyAction::SwitchVirtualDesktop(k as u32),
        ),
        c.jump_desktop_modifiers != 0 ==> hotkeys_for(c).contains(
            jump_hotkey(k, c.jump_desktop_modifiers),
        ),
        c.jump_desktop_modifiers == 0 ==> action_of(hotkeys_for(c), (11 + k) as i32) is None,
{
    let hs = hotkeys_for(c);
    let h = if c.cycle_taskbar_based { 2int } else { 0int };
    if c.jump_desktop_modifiers != 0 {
        assert(hs[h + k] == jump_hotkey(k, c.jump_desktop_modifiers));
        id_maps_to_its_action(c, h + k);
    } else {
        let p = has_id(hs, (11 + k) as i32);
        lemma_first_where(hs.len() as int, p);
        assert forall|j: int| 0 <= j < hs.len() implies !#[trigger] p(j) by {}
    }
}

/// The cycling hotkeys: id 1 cycles left and id 2 cycles right exactly
/// when taskbar cycling is enabled.
pub proof fn cycle_hotkeys(c: HotkeyConfig)
    ensures
        action_of(hotkeys_for(c), 1) == (if c.cycle_taskbar_based {
            Some(HotkeyAction::CycleLeft)
        } else {
            None
        }),
        action_of(hotkeys_for(c), 2) == (if c.cycle_taskbar_based {
            Some(HotkeyAction::CycleRight)
        } else {
            None
        }),
{
    let hs = hotkeys_for(c);
    if c.cycle_taskbar_based {
        id_maps_to_its_action(c, 0);
        id_maps_to_its_action(c, 1);
    } else {
        let p1 = has_id(hs, 1);
        let p2 = has_id(hs, 2);
        lemma_first_where(hs.len() as int, p1);
        lemma_first_where(hs.len() as int, p2);
        assert forall|j: int| 0 <= j < hs.len() implies !#[trigger] p1(j) && !p2(j) by {}
    }
}

/// Every hotkey is delivered by exactly one mechanism: the low-level hook
/// when its modifiers include Win, the system otherwise.
pub proof fn delivery_is_a_partition(c: HotkeyConfig)
    ensures
        forall|i: int|
            0 <= i < hotkeys_for(c).len() ==> (#[trigger] hotkeys_for(c)[i]).dispatch == dispatch_of(
                hotkeys_for(c)[i].modifiers,
            ),
        registered_of(hotkeys_for(c)).len() + low_level_of(hotkeys_for(c)).len() == hotkeys_for(
            c,
        ).len(),
{
    lemma_split_counts(hotkeys_for(c));
}

proof fn lemma_split_counts(hs: Seq<Hotkey>)
    ensures
        registered_of(hs).len() + low_level_of(hs).len() == hs.len(),
    decreases hs.len(),
{
    if hs.len() > 0 {
        lemma_split_counts(hs.drop_last());
    }
}

/// What each hotkey of a configuration is: cycling left is id 1 on the
/// configured left key and modifiers, cycling right id 2 on the right key
/// and modifiers, and switching to desktop `k` is id `11 + k` on the key
/// `'1' + k` with the jump modifiers; a hotkey goes through the low-level
/// hook exactly when its modifiers include Win. The set holds the two
/// cycling hotkeys first when cycling is enabled, and nine jump hotkeys when
/// jump modifiers are set.
pub proof fn hotkeys_follow_config(c: HotkeyConfig)
    ensures
        hotkeys_for(c).len() == (if c.cycle_taskbar_based {
            2int
        } else {
            0int
        }) + (if c.jump_desktop_modifiers != 0 {
            9int
        } else {
            0int
        }),
        c.cycle_taskbar_based ==> hotkeys_for(c)[0].action == HotkeyAction::CycleLeft
            && hotkeys_for(c)[1].action == HotkeyAction::CycleRight,
        forall|i: int|
            0 <= i < hotkeys_for(c).len() ==> {
                let h = #[trigger] hotkeys_for(c)[i];
                &&& h.action == HotkeyAction::CycleLeft ==> h.id == 1 && h.vk == c.hotkey_left_vk
                    && h.modifiers == c.hotkey_left_modifiers
                &&& h.action == HotkeyAction::CycleRight ==> h.id == 2 && h.vk
                    == c.hotkey_right_vk && h.modifiers == c.hotkey_right_modifiers
                &&& h.action matches HotkeyAction::SwitchVirtualDesktop(k) ==> k < 9 && h.id == 11
                    + k && h.vk == 0x31 + k && h.modifiers == c.jump_desktop_modifiers
                    && c.jump_desktop_modifiers != 0
                &&& (h.dispatch == HotkeyDispatch::LowLevelHook) == (h.modifiers & MOD_WIN != 0)
                &&& (h.dispatch == HotkeyDispatch::Registered) == (h.modifiers & MOD_WIN == 0)
            },
{
    let hs = hotkeys_for(c);
    let h = if c.cycle_taskbar_based { 2int } else { 0int };
    assert forall|i: int| 0 <= i < hs.len() implies (i < h ==> #[trigger] hs[i] == (if i == 0 {
        Hotkey {
            id: 1,
            action: HotkeyAction::CycleLeft,
            modifiers: c.hotkey_left_modifiers,
            vk: c.hotkey_left_vk,
            dispatch: dispatch_of(c.hotkey_left_modifiers),
        }
    } else {
        Hotkey {
            id: 2,
            action: HotkeyAction::CycleRight,
            modifiers: c.hotkey_right_modifiers,
            vk: c.hotkey_right_vk,
            dispatch: dispatch_of(c.hotkey_right_modifiers),
        }
    })) && (h <= i ==> hs[i] == jump_hotkey(i - h, c.jump_desktop_modifiers)
        && c.jump_desktop_modifiers != 0) by {}
}

} // verus!
