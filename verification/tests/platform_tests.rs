use wm98_core::config::Config;
use wm98_core::layout::{FloatingLayout, Rect};
use wm98_core::theme::Theme;
use wm98_core::toplevel::place_new_toplevel;
use wm98_core::window_list::{collect_windows, has_window_for_pid, window_info, WindowEntry, WindowInfo};
use wm98_core::window_manager::{WindowManager, WmError};

fn entry(layer: Option<i32>, pid: Option<i32>, owner: Option<&str>, name: Option<&str>) -> WindowEntry {
    WindowEntry {
        layer,
        owner_pid: pid,
        owner_name: owner.map(|s| s.to_string()),
        name: name.map(|s| s.to_string()),
    }
}

#[test]
fn toplevel_placed_at_cascade_position() {
    let mut l = FloatingLayout::new();
    assert_eq!(place_new_toplevel(&mut l, "a".to_string(), Some((2560, 1440))), (60, 60));
    assert_eq!(l.windows[0].rect, Rect { x: 60, y: 60, w: 1706, h: 960 });
    assert_eq!(place_new_toplevel(&mut l, "b".to_string(), None), (88, 88));
    assert_eq!(l.windows[1].rect, Rect { x: 88, y: 88, w: 1280, h: 720 });
    assert_eq!(l.focused().unwrap().title, "b");
}

#[test]
fn window_info_keeps_normal_windows() {
    let w = window_info(&entry(Some(0), Some(42), Some("Safari"), Some("Apple"))).unwrap();
    assert_eq!((w.pid, w.title.as_str()), (42, "Apple"));
    let w = window_info(&entry(None, Some(7), Some("Finder"), Some(""))).unwrap();
    assert_eq!((w.pid, w.title.as_str()), (7, "Finder"));
    let w = window_info(&entry(Some(0), Some(7), None, None)).unwrap();
    assert_eq!(w.title, "<unknown>");
}

#[test]
fn window_info_skips_other_layers_and_unknown_pids() {
    assert!(window_info(&entry(Some(25), Some(42), Some("Dock"), None)).is_none());
    assert!(window_info(&entry(Some(0), Some(0), Some("x"), None)).is_none());
    assert!(window_info(&entry(Some(0), None, Some("x"), None)).is_none());
}

#[test]
fn collect_windows_in_order() {
    let entries = vec![
        entry(Some(0), Some(1), Some("A"), Some("one")),
        entry(Some(3), Some(2), Some("B"), Some("two")),
        entry(Some(0), Some(3), Some("C"), None),
        entry(Some(0), None, Some("D"), Some("four")),
    ];
    let ws: Vec<(i32, String)> = collect_windows(&entries).into_iter().map(|w| (w.pid, w.title)).collect();
    assert_eq!(ws, vec![(1, "one".to_string()), (3, "C".to_string())]);
    assert!(collect_windows(&vec![]).is_empty());
}

#[test]
fn overlay_kept_only_for_live_pid() {
    let ws = vec![WindowInfo { pid: 5, title: "a".to_string() }, WindowInfo { pid: 9, title: "b".to_string() }];
    assert!(has_window_for_pid(&ws, 9));
    assert!(!has_window_for_pid(&ws, 6));
    assert!(!has_window_for_pid(&vec![], 5));
}

#[test]
fn window_manager_needs_accessibility() {
    match WindowManager::new(Config::default(), Theme::default(), false) {
        Err(e) => assert_eq!(e, WmError::AccessibilityNotGranted),
        Ok(_) => panic!("expected an error"),
    }
    let wm = WindowManager::new(Config::default(), Theme::default(), true).ok().unwrap();
    assert!(wm.layout.windows.is_empty());
    assert!(wm.windows.is_empty());
    assert_eq!(wm.config.keybinds.len(), 3);
}

#[test]
fn poll_step_reports_every_tenth_tick() {
    assert_eq!(WindowManager::poll_step(0), (true, 1));
    assert_eq!(WindowManager::poll_step(1), (false, 2));
    assert_eq!(WindowManager::poll_step(9), (false, 10));
    assert_eq!(WindowManager::poll_step(10), (true, 11));
    assert_eq!(WindowManager::poll_step(20), (true, 21));
}
