use winglide::taskbar::{
    build_cycle_entries, clean_button_name, collect_buttons, find_active_button_index,
    sort_buttons_left_to_right, ButtonWindow, Rect, TaskbarButton, UiaElement,
};

fn rect(left: i32) -> Rect {
    Rect { left, top: 1040, right: left + 40, bottom: 1080 }
}

fn button(name: &str, left: i32, pid: i32) -> TaskbarButton {
    TaskbarButton { name: name.to_string(), rect: rect(left), process_id: pid, automation_id: None }
}

#[test]
fn clean_button_name_examples() {
    assert_eq!(clean_button_name("Chrome - 3 running windows"), "Chrome");
    assert_eq!(clean_button_name("VS Code - main.rs - 1 running window"), "VS Code - main.rs");
    assert_eq!(clean_button_name("Notepad"), "Notepad");
    assert_eq!(clean_button_name("Notepad - Pinned"), "Notepad - Pinned");
}

#[test]
fn clean_button_name_em_dash_and_no_dash() {
    assert_eq!(clean_button_name("Word \u{2014} 2 running windows"), "Word");
    assert_eq!(clean_button_name("Paint 1 running window"), "Paint 1");
    assert_eq!(clean_button_name(""), "");
}

#[test]
fn active_button_by_process_id() {
    let buttons = vec![button("A", 0, 10), button("B", 50, 20), button("C", 100, 20)];
    assert_eq!(find_active_button_index(&buttons, 20, "whatever"), Some(1));
}

#[test]
fn active_button_by_name_when_pid_is_the_shell() {
    let buttons = vec![
        button("Chrome - 3 running windows", 0, 4),
        button("VS Code - 1 running window", 50, 4),
    ];
    assert_eq!(find_active_button_index(&buttons, 99, "main.rs - VS Code"), Some(1));
    assert_eq!(find_active_button_index(&buttons, 0, "Chrome"), Some(0));
    assert_eq!(find_active_button_index(&buttons, -1, "Terminal"), None);
}

#[test]
fn active_button_ignores_empty_cleaned_names_and_non_positive_pid() {
    let buttons = vec![button("", 0, -1), button("Files", 50, 3)];
    assert_eq!(find_active_button_index(&buttons, -1, "Files - Downloads"), Some(1));
}

#[test]
fn collect_buttons_keeps_only_app_buttons_with_bounds() {
    let items = vec![
        UiaElement {
            class_name: "StartButton".to_string(),
            name: "Start".to_string(),
            rect: Some(rect(0)),
            process_id: 1,
            automation_id: None,
        },
        UiaElement {
            class_name: "Taskbar.TaskListButtonAutomationPeer".to_string(),
            name: "Edge".to_string(),
            rect: Some(rect(200)),
            process_id: 7,
            automation_id: Some("MSEdge".to_string()),
        },
        UiaElement {
            class_name: "Taskbar.TaskListButtonAutomationPeer".to_string(),
            name: "Ghost".to_string(),
            rect: None,
            process_id: 7,
            automation_id: None,
        },
        UiaElement {
            class_name: "Taskbar.TaskListButtonAutomationPeer".to_string(),
            name: "Files".to_string(),
            rect: Some(rect(100)),
            process_id: 7,
            automation_id: None,
        },
    ];
    let mut buttons = Vec::new();
    collect_buttons(&items, &mut buttons);
    let names: Vec<&str> = buttons.iter().map(|b| b.name.as_str()).collect();
    assert_eq!(names, vec!["Edge", "Files"]);
    assert_eq!(buttons[0].automation_id.as_deref(), Some("MSEdge"));
    let sorted = sort_buttons_left_to_right(buttons);
    let names: Vec<&str> = sorted.iter().map(|b| b.name.as_str()).collect();
    assert_eq!(names, vec!["Files", "Edge"]);
}

#[test]
fn sort_buttons_is_stable() {
    let buttons = vec![button("x", 10, 0), button("y", 5, 0), button("z", 10, 0), button("w", 5, 0)];
    let sorted = sort_buttons_left_to_right(buttons);
    let names: Vec<&str> = sorted.iter().map(|b| b.name.as_str()).collect();
    assert_eq!(names, vec!["y", "w", "x", "z"]);
}

fn win(title: &str, hwnd: usize, left: i32) -> ButtonWindow {
    ButtonWindow { title: title.to_string(), hwnd, rect: rect(left) }
}

#[test]
fn cycle_entries_expand_groups_left_to_right() {
    // Taskbar: [Settings] [Chrome (3 windows)] [VS Code] [Explorer], found in a
    // different order than displayed.
    let buttons = vec![
        button("VS Code", 300, 1),
        button("Settings", 100, 1),
        button("Explorer", 400, 1),
        button("Chrome - 3 running windows", 200, 1),
    ];
    let windows = vec![
        vec![win("VS Code#1", 50, 0)],
        vec![win("Settings#1", 40, 0)],
        vec![win("Explorer#1", 60, 0)],
        vec![win("Chrome#3", 13, 30), win("Chrome#1", 11, 10), win("Chrome#2", 12, 10)],
    ];
    let entries = build_cycle_entries(&buttons, &windows, true);
    let names: Vec<&str> = entries.iter().map(|e| e.name.as_str()).collect();
    assert_eq!(
        names,
        vec!["Settings#1", "Chrome#1", "Chrome#2", "Chrome#3", "VS Code#1", "Explorer#1"]
    );
    let grouped: Vec<bool> = entries.iter().map(|e| e.is_grouped).collect();
    assert_eq!(grouped, vec![false, true, true, true, false, false]);
    assert_eq!(entries[1].taskbar_left, 200);
    assert_eq!(entries[1].hwnd, 11);
}

#[test]
fn cycle_entries_without_combining_are_never_grouped() {
    let buttons = vec![button("B", 20, 1), button("A", 10, 1), button("C", 30, 1)];
    let windows = vec![vec![win("b", 2, 0)], vec![win("a", 1, 0)], vec![]];
    let entries = build_cycle_entries(&buttons, &windows, false);
    let names: Vec<&str> = entries.iter().map(|e| e.name.as_str()).collect();
    assert_eq!(names, vec!["a", "b"]);
    assert!(entries.iter().all(|e| !e.is_grouped));
}
