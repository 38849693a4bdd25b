use winglide::fatal_error::{crash_location, crash_message, startup_error_message};
use winglide::virtual_desktop::indicator::{current_desktop_index, is_left_aligned};
use winglide::admin::{restart_outcome, restart_parameters, AdminError};
use winglide::bootstrap::{is_single_instance, ExistingInstance, InstanceType};
use winglide::event::{WM_APP_RELOAD_CONFIG, WM_APP_RESTART_AS_ADMIN};
use winglide::taskbar::Rect;
use winglide::uncombine::{UncombineManager, WindowAumid};
use winglide::updater::{update_from_release, Asset, Release};
use winglide::virtual_desktop::indicator::{
    indicator_left, is_move_target, move_menu, should_move_window, x_from_lparam, CursorKind,
    IndicatorAction, IndicatorEvent, IndicatorPosition, IndicatorState,
};
use winglide::winevent::{should_request_uncombine, EVENT_OBJECT_SHOW, WM_APP_UNCOMBINE};

#[test]
fn uncombine_one_assigns_unique_aumid_once() {
    let mut m = UncombineManager::new();
    assert!(!m.is_tracked(1234));
    let a = m.uncombine_one(1234, Some("Chrome.App".to_string()));
    assert_eq!(a.as_deref(), Some("TaskbarSwitcher_1234"));
    assert!(m.is_tracked(1234));
    assert_eq!(m.uncombine_one(1234, Some("Other".to_string())), None);
    assert_eq!(m.uncombine_one(-7, None).as_deref(), Some("TaskbarSwitcher_-7"));
}

#[test]
fn restore_all_gives_back_original_aumids() {
    let mut m = UncombineManager::new();
    m.uncombine_one(1234, Some("Chrome.App".to_string()));
    m.uncombine_one(5678, None);
    let r = m.restore_all();
    assert_eq!(r.len(), 1);
    assert_eq!(r[0].hwnd, 1234);
    assert_eq!(r[0].aumid, "Chrome.App");
}

#[test]
fn uncombine_all_skips_tracked_windows() {
    let mut m = UncombineManager::new();
    m.uncombine_one(1, Some("A".to_string()));
    let r = m.uncombine_all(vec![
        WindowAumid { hwnd: 1, original: Some("ignored".to_string()) },
        WindowAumid { hwnd: 2, original: Some("B".to_string()) },
        WindowAumid { hwnd: 3, original: None },
    ]);
    let got: Vec<(isize, &str)> = r.iter().map(|a| (a.hwnd, a.aumid.as_str())).collect();
    assert_eq!(got, vec![(2, "TaskbarSwitcher_2"), (3, "TaskbarSwitcher_3")]);
    let mut restored: Vec<(isize, String)> = m.restore_all().into_iter().map(|a| (a.hwnd, a.aumid)).collect();
    restored.sort();
    assert_eq!(restored, vec![(1, "A".to_string()), (2, "B".to_string())]);
}

fn release(tag: &str, assets: &[(&str, &str)]) -> Release {
    Release {
        tag_name: tag.to_string(),
        body: Some("notes".to_string()),
        assets: assets
            .iter()
            .map(|(n, u)| Asset { name: n.to_string(), browser_download_url: u.to_string() })
            .collect(),
    }
}

#[test]
fn update_offered_for_new_version_with_msi() {
    let r = release("v1.3.0", &[("WinGlide.zip", "u1"), ("WinGlide.msi", "u2"), ("b.msi", "u3")]);
    let info = update_from_release(&r, "1.2.0").unwrap();
    assert_eq!(info.latest_version, "1.3.0");
    assert_eq!(info.download_url, "u2");
    assert_eq!(info.release_notes.as_deref(), Some("notes"));
}

#[test]
fn no_update_for_same_version_or_without_msi() {
    assert!(update_from_release(&release("v1.2.0", &[("a.msi", "u")]), "1.2.0").is_none());
    assert!(update_from_release(&release("1.2.0", &[("a.msi", "u")]), "1.2.0").is_none());
    assert!(update_from_release(&release("v2.0.0", &[("a.zip", "u")]), "1.2.0").is_none());
    assert!(update_from_release(&release("v2.0.0", &[]), "1.2.0").is_none());
}

#[test]
fn update_strips_every_leading_v() {
    let info = update_from_release(&release("vv2.0", &[("x.msi", "u")]), "1.0").unwrap();
    assert_eq!(info.latest_version, "2.0");
}

#[test]
fn position_round_trip_values() {
    for p in [IndicatorPosition::Auto, IndicatorPosition::Left, IndicatorPosition::Right] {
        assert_eq!(IndicatorPosition::from_u8(p.to_u8()), p);
    }
    assert_eq!(IndicatorPosition::from_u8(7), IndicatorPosition::Auto);
    assert_eq!(IndicatorPosition::Right.to_u8(), 2);
}

#[test]
fn indicator_left_by_position() {
    let taskbar = Rect { left: 0, top: 1032, right: 1920, bottom: 1080 };
    assert_eq!(indicator_left(IndicatorPosition::Left, taskbar, 60, Some(1700), false), 10);
    assert_eq!(indicator_left(IndicatorPosition::Right, taskbar, 60, Some(1700), false), 1634);
    assert_eq!(indicator_left(IndicatorPosition::Right, taskbar, 60, None, false), 1854);
    assert_eq!(indicator_left(IndicatorPosition::Right, taskbar, 60, Some(20), false), 0);
    assert_eq!(indicator_left(IndicatorPosition::Auto, taskbar, 60, Some(1700), true), 1634);
    assert_eq!(indicator_left(IndicatorPosition::Auto, taskbar, 60, Some(1700), false), 10);
}

#[test]
fn indicator_state_machine() {
    let mut s = IndicatorState::new(IndicatorPosition::Auto);
    assert_eq!(
        s.handle(IndicatorEvent::MouseMove { hovered: Some(1), move_modifier_down: false }),
        IndicatorAction::RenderAndTrackLeave
    );
    assert_eq!(s.hover_index, Some(1));
    assert_eq!(
        s.handle(IndicatorEvent::MouseMove { hovered: Some(1), move_modifier_down: false }),
        IndicatorAction::Nothing
    );
    assert_eq!(
        s.handle(IndicatorEvent::MouseMove { hovered: Some(1), move_modifier_down: true }),
        IndicatorAction::RenderAndTrackLeave
    );
    assert!(s.move_mode);
    assert_eq!(s.handle(IndicatorEvent::MouseLeave), IndicatorAction::Render);
    assert_eq!(s.hover_index, None);
    assert_eq!(
        s.handle(IndicatorEvent::LeftClick { hovered: Some(2), desktop_count: Some(3), move_modifier_down: false }),
        IndicatorAction::SwitchDesktop(2)
    );
    assert_eq!(
        s.handle(IndicatorEvent::LeftClick { hovered: Some(2), desktop_count: Some(3), move_modifier_down: true }),
        IndicatorAction::MoveForegroundToDesktop(2)
    );
    assert_eq!(
        s.handle(IndicatorEvent::LeftClick { hovered: Some(3), desktop_count: Some(3), move_modifier_down: false }),
        IndicatorAction::Nothing
    );
    assert_eq!(
        s.handle(IndicatorEvent::Command { wparam: 1000, desktop_count: Some(3) }),
        IndicatorAction::Nothing
    );
    assert_eq!(
        s.handle(IndicatorEvent::RightClick { hovered: Some(1), foreground_target: Some(0x5000) }),
        IndicatorAction::ShowMoveMenu { target: 0x5000, index: 1 }
    );
    assert_eq!(
        s.handle(IndicatorEvent::Command { wparam: 0x0001_03E8, desktop_count: Some(3) }),
        IndicatorAction::MoveWindowOnly { target: 0x5000, index: 1 }
    );
    assert_eq!(
        s.handle(IndicatorEvent::Command { wparam: 1001, desktop_count: Some(3) }),
        IndicatorAction::MoveAndJump { target: 0x5000, index: 1 }
    );
    assert_eq!(
        s.handle(IndicatorEvent::Command { wparam: 1001, desktop_count: Some(1) }),
        IndicatorAction::Nothing
    );
    assert_eq!(
        s.handle(IndicatorEvent::SetCursor { move_modifier_down: true }),
        IndicatorAction::SetCursor(CursorKind::SizeAll)
    );
    assert_eq!(s.handle(IndicatorEvent::DisplayChanged), IndicatorAction::PostDesktopsChanged);
    assert_eq!(s.handle(IndicatorEvent::Other), IndicatorAction::Default);
    assert_eq!(s.set_position(IndicatorPosition::Right), IndicatorAction::Render);
    assert_eq!(s.position, IndicatorPosition::Right);
}

#[test]
fn move_menu_labels() {
    let m = move_menu(1, 3, "A very long window title that keeps going on", false).unwrap();
    assert_eq!(m.header, "\"A very long window title that keeps goin...\"");
    assert_eq!(m.move_label, "Move to Desktop 2");
    assert_eq!(m.jump_label, "Move and jump to Desktop 2");
    assert!(m.move_enabled);
    let m = move_menu(0, 1, "", true).unwrap();
    assert_eq!(m.header, "\"current window\"");
    assert!(!m.move_enabled);
    assert!(move_menu(3, 3, "x", false).is_none());
}

#[test]
fn move_target_rules() {
    assert!(is_move_target(true, true, "Notepad", false));
    assert!(is_move_target(true, true, "", true));
    assert!(!is_move_target(true, true, "WinGlideTray", false));
    assert!(!is_move_target(true, true, "TaskbarSwitcherIndicator", false));
    assert!(!is_move_target(true, true, "Progman", true));
    assert!(!is_move_target(false, true, "Notepad", false));
    assert!(!is_move_target(true, false, "Notepad", false));
    assert!(should_move_window(false, false));
    assert!(!should_move_window(true, false));
    assert!(!should_move_window(false, true));
}

#[test]
fn x_coordinate_is_sign_extended() {
    assert_eq!(x_from_lparam(0x0032_0064), 100);
    assert_eq!(x_from_lparam(0x0032_FFFF), -1);
    assert_eq!(x_from_lparam(0x8000), -32768);
}

#[test]
fn winevent_filter() {
    assert!(should_request_uncombine(EVENT_OBJECT_SHOW, 42, 0, 0, true, false, 7));
    assert!(!should_request_uncombine(EVENT_OBJECT_SHOW, 42, 1, 0, true, false, 7));
    assert!(!should_request_uncombine(EVENT_OBJECT_SHOW, 42, 0, 3, true, false, 7));
    assert!(!should_request_uncombine(0x8003, 42, 0, 0, true, false, 7));
    assert!(!should_request_uncombine(EVENT_OBJECT_SHOW, 0, 0, 0, true, false, 7));
    assert!(!should_request_uncombine(EVENT_OBJECT_SHOW, 42, 0, 0, false, false, 7));
    assert!(!should_request_uncombine(EVENT_OBJECT_SHOW, 42, 0, 0, true, true, 7));
    assert!(!should_request_uncombine(EVENT_OBJECT_SHOW, 42, 0, 0, true, false, 0));
}

#[test]
fn message_ids() {
    assert_eq!(WM_APP_UNCOMBINE, 0x0500);
    assert_eq!(WM_APP_RELOAD_CONFIG, 0x0502);
    assert_eq!(WM_APP_RESTART_AS_ADMIN, 0x0503);
}

#[test]
fn single_instance_rules() {
    assert_eq!(InstanceType::SettingsUI.mutex_name(), "Global\\WinGlide_SettingsUIMutex");
    assert_eq!(InstanceType::Background.mutex_name(), "Global\\WinGlide_BackgroundMutex");
    match InstanceType::SettingsUI.on_existing_instance() {
        ExistingInstance::RestoreWindow { title } => assert_eq!(title, "WinGlide"),
        other => panic!("unexpected {other:?}"),
    }
    match InstanceType::Background.on_existing_instance() {
        ExistingInstance::OpenSettingsFromTray { tray_class } => assert_eq!(tray_class, "WinGlideTray"),
        other => panic!("unexpected {other:?}"),
    }
    assert!(is_single_instance(false));
    assert!(!is_single_instance(true));
}

#[test]
fn admin_restart_rules() {
    assert_eq!(restart_parameters(true).as_deref(), Some("--reopen-ui"));
    assert_eq!(restart_parameters(false), None);
    assert_eq!(restart_outcome(33), Ok(()));
    assert_eq!(restart_outcome(5), Err(AdminError::RestartFailed(5)));
}

#[test]
fn left_alignment_setting() {
    assert!(is_left_aligned(Some(0)));
    assert!(!is_left_aligned(Some(1)));
    assert!(!is_left_aligned(None));
}

#[test]
fn fatal_error_texts() {
    assert_eq!(crash_location("src/main.rs", 42, 7), "src/main.rs:42:7");
    assert_eq!(
        crash_message("boom", "src/main.rs:42:7"),
        "The application has encountered a critical error and must be closed (Crash)!\n\nError Details:\nboom\n\nLocation:\nsrc/main.rs:42:7"
    );
    assert_eq!(startup_error_message("no taskbar"), "Cannot start or run the application!\n\nError:\nno taskbar");
}

#[test]
fn current_desktop_index_is_first_match_or_zero() {
    assert_eq!(current_desktop_index(&vec![false, false, true, false]), 2);
    assert_eq!(current_desktop_index(&vec![false, true, true]), 1);
    assert_eq!(current_desktop_index(&vec![false, false]), 0);
    assert_eq!(current_desktop_index(&vec![]), 0);
}
