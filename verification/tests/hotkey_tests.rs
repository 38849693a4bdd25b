use winglide::hotkey::low_level_hook::{
    modifiers_match, HeldModifiers, HookChange, LowLevelHotkey, LowLevelKeyHook, MOD_ALT,
    MOD_CONTROL, MOD_SHIFT, MOD_WIN, WM_KEYDOWN, WM_SYSKEYDOWN,
};
use winglide::hotkey::manager::{
    dispatch_for, HotkeyAction, HotkeyConfig, HotkeyDispatch, HotkeyError, HotkeyManager,
};

fn config(cycle: bool, jump: u32) -> HotkeyConfig {
    HotkeyConfig {
        cycle_taskbar_based: cycle,
        hotkey_left_modifiers: MOD_ALT,
        hotkey_left_vk: 0xDB,
        hotkey_right_modifiers: MOD_ALT,
        hotkey_right_vk: 0xDD,
        jump_desktop_modifiers: jump,
    }
}

const NONE: HeldModifiers = HeldModifiers { win: false, ctrl: false, alt: false, shift: false };

#[test]
fn default_hotkeys_map_ids_to_actions() {
    let m = HotkeyManager::new(&config(true, MOD_ALT));
    assert_eq!(m.action_from_id(1), Some(HotkeyAction::CycleLeft));
    assert_eq!(m.action_from_id(2), Some(HotkeyAction::CycleRight));
    for i in 1..=9 {
        assert_eq!(m.action_from_id(10 + i), Some(HotkeyAction::SwitchVirtualDesktop(i as u32 - 1)));
    }
    assert_eq!(m.action_from_id(0), None);
    assert_eq!(m.action_from_id(3), None);
    assert_eq!(m.action_from_id(20), None);
}

#[test]
fn registrations_without_win_modifier() {
    let m = HotkeyManager::new(&config(true, MOD_ALT));
    let regs = m.registrations();
    assert_eq!(regs.len(), 11);
    assert!(regs.iter().all(|h| h.dispatch == HotkeyDispatch::Registered));
    assert_eq!(regs[2].vk, 0x31);
    assert_eq!(regs[10].vk, 0x39);
    assert!(m.low_level_hotkeys().is_empty());
    assert_eq!(m.unregister_all(), vec![1, 2, 11, 12, 13, 14, 15, 16, 17, 18, 19]);
}

#[test]
fn win_hotkeys_go_through_the_hook() {
    let m = HotkeyManager::new(&config(true, MOD_WIN));
    let ll = m.low_level_hotkeys();
    assert_eq!(ll.len(), 9);
    assert_eq!(ll[0], LowLevelHotkey { id: 11, modifiers: MOD_WIN, vk: 0x31 });
    assert_eq!(ll[8], LowLevelHotkey { id: 19, modifiers: MOD_WIN, vk: 0x39 });
    assert_eq!(m.unregister_all(), vec![1, 2]);
    for h in &ll {
        assert!(m.action_from_id(h.id).is_some());
    }
}

#[test]
fn disabled_hotkeys_are_absent() {
    let m = HotkeyManager::new(&config(false, 0));
    assert!(m.registrations().is_empty());
    assert_eq!(m.action_from_id(1), None);
    assert_eq!(m.action_from_id(11), None);
}

#[test]
fn dispatch_depends_on_win_bit() {
    assert_eq!(dispatch_for(MOD_WIN | MOD_SHIFT), HotkeyDispatch::LowLevelHook);
    assert_eq!(dispatch_for(MOD_CONTROL | MOD_ALT), HotkeyDispatch::Registered);
    assert_eq!(dispatch_for(0), HotkeyDispatch::Registered);
}

#[test]
fn reload_returns_old_registrations() {
    let mut m = HotkeyManager::new(&config(true, MOD_WIN));
    let old = m.reload(&config(false, MOD_CONTROL)).unwrap();
    assert_eq!(old, vec![1, 2]);
    assert_eq!(m.action_from_id(1), None);
    assert_eq!(m.action_from_id(15), Some(HotkeyAction::SwitchVirtualDesktop(4)));
    assert_eq!(m.unregister_all(), vec![11, 12, 13, 14, 15, 16, 17, 18, 19]);
}

#[test]
fn registration_result_reports_failures() {
    let ok = HotkeyManager::new(&config(true, MOD_ALT)).registration_result(vec![]);
    match ok {
        Ok(m) => assert_eq!(m.action_from_id(2), Some(HotkeyAction::CycleRight)),
        Err(e) => panic!("unexpected error {:?}", e),
    }
    match HotkeyManager::new(&config(true, MOD_ALT)).registration_result(vec![2, 11]) {
        Err(HotkeyError::RegistrationFailed { failed, to_unregister }) => {
            assert_eq!(failed, vec![2, 11]);
            assert_eq!(to_unregister, vec![1, 2, 11, 12, 13, 14, 15, 16, 17, 18, 19]);
        }
        Ok(_) => panic!("expected an error"),
    }
}

#[test]
fn failed_registration_with_win_jump_keys_unregisters_cycle_keys_only() {
    match HotkeyManager::new(&config(true, MOD_WIN)).registration_result(vec![1]) {
        Err(HotkeyError::RegistrationFailed { failed, to_unregister }) => {
            assert_eq!(failed, vec![1]);
            assert_eq!(to_unregister, vec![1, 2]);
        }
        Ok(_) => panic!("expected an error"),
    }
}

#[test]
fn modifiers_must_match_exactly() {
    let win = HeldModifiers { win: true, ..NONE };
    assert!(modifiers_match(MOD_WIN, win));
    assert!(!modifiers_match(MOD_WIN | MOD_SHIFT, win));
    assert!(!modifiers_match(MOD_WIN, HeldModifiers { shift: true, ..win }));
    assert!(modifiers_match(0, NONE));
    assert!(modifiers_match(
        MOD_ALT | MOD_CONTROL | MOD_SHIFT | MOD_WIN,
        HeldModifiers { win: true, ctrl: true, alt: true, shift: true }
    ));
}

#[test]
fn hook_installs_and_removes_with_the_set() {
    let mut hook = LowLevelKeyHook::new();
    let set = [LowLevelHotkey { id: 11, modifiers: MOD_WIN, vk: 0x31 }];
    assert_eq!(hook.set_hotkeys(&set), HookChange::Install);
    hook.hook_installed();
    assert_eq!(hook.set_hotkeys(&set), HookChange::Keep);
    assert_eq!(hook.set_hotkeys(&[]), HookChange::Remove);
    assert_eq!(hook.set_hotkeys(&[]), HookChange::Keep);
    assert_eq!(hook.set_hotkeys(&set), HookChange::Install);
    assert!(!hook.clear());
}

#[test]
fn hook_matches_key_presses() {
    let mut hook = LowLevelKeyHook::new();
    let set = [
        LowLevelHotkey { id: 11, modifiers: MOD_WIN, vk: 0x31 },
        LowLevelHotkey { id: 12, modifiers: MOD_WIN | MOD_SHIFT, vk: 0x31 },
    ];
    hook.set_hotkeys(&set);
    let win = HeldModifiers { win: true, ..NONE };
    assert_eq!(hook.on_key(0, WM_KEYDOWN, 0x31, win), Some(11));
    assert_eq!(hook.on_key(0, WM_SYSKEYDOWN, 0x31, HeldModifiers { shift: true, ..win }), Some(12));
    assert_eq!(hook.on_key(0, 0x0101, 0x31, win), None);
    assert_eq!(hook.on_key(-1, WM_KEYDOWN, 0x31, win), None);
    assert_eq!(hook.on_key(0, WM_KEYDOWN, 0x32, win), None);
    assert_eq!(hook.on_key(0, WM_KEYDOWN, 0x31, NONE), None);
    hook.hook_installed();
    assert!(hook.clear());
    assert_eq!(hook.on_key(0, WM_KEYDOWN, 0x31, win), None);
}
