use wm98_core::layout::{FloatingLayout, Rect};

fn three_windows() -> (FloatingLayout, u64, u64, u64) {
    let mut l = FloatingLayout::new();
    let a = l.add("alpha".to_string(), 1920, 1080);
    let b = l.add("beta".to_string(), 1920, 1080);
    let c = l.add("gamma".to_string(), 1920, 1080);
    (l, a, b, c)
}

#[test]
fn new_layout_is_empty() {
    let l = FloatingLayout::new();
    assert!(l.windows.is_empty());
    assert!(l.focused().is_none());
    assert!(l.get(1).is_none());
}

#[test]
fn add_returns_increasing_ids() {
    let (_, a, b, c) = three_windows();
    assert_eq!((a, b, c), (1, 2, 3));
}

#[test]
fn add_cascades_and_sizes_to_two_thirds() {
    let (l, _, _, _) = three_windows();
    assert_eq!(l.windows[0].rect, Rect { x: 60, y: 60, w: 1280, h: 720 });
    assert_eq!(l.windows[1].rect, Rect { x: 88, y: 88, w: 1280, h: 720 });
    assert_eq!(l.windows[2].rect, Rect { x: 116, y: 116, w: 1280, h: 720 });
    assert_eq!(l.windows[2].title, "gamma");
    assert!(!l.windows[2].minimized);
    assert!(!l.windows[2].maximized);
}

#[test]
fn add_cascade_wraps_after_180() {
    let mut l = FloatingLayout::new();
    let mut xs = Vec::new();
    for i in 0..8 {
        let id = l.add(format!("w{i}"), 1920, 1080);
        xs.push(l.get(id).unwrap().rect.x);
    }
    // offsets 0, 28, 56, 84, 112, 140, 168, then (196 % 180) = 16
    assert_eq!(xs, vec![60, 88, 116, 144, 172, 200, 228, 76]);
}

#[test]
fn add_enforces_minimum_size() {
    let mut l = FloatingLayout::new();
    let id = l.add("small".to_string(), 300, 300);
    let w = l.get(id).unwrap();
    assert_eq!((w.rect.w, w.rect.h), (400, 300));
    let id2 = l.add("odd".to_string(), 1000, 460);
    let w2 = l.get(id2).unwrap();
    // 1000 * 2 / 3 = 666, 460 * 2 / 3 = 306
    assert_eq!((w2.rect.w, w2.rect.h), (666, 306));
}

#[test]
fn add_focuses_only_the_new_window() {
    let (l, _, _, c) = three_windows();
    let focused: Vec<bool> = l.windows.iter().map(|w| w.focused).collect();
    assert_eq!(focused, vec![false, false, true]);
    assert_eq!(l.focused().unwrap().id, c);
}

#[test]
fn get_after_add_gives_the_new_window() {
    let (l, a, b, _) = three_windows();
    assert_eq!(l.get(a).unwrap().title, "alpha");
    assert_eq!(l.get(b).unwrap().title, "beta");
    assert!(l.get(99).is_none());
}

#[test]
fn remove_drops_window_and_focuses_top() {
    let (mut l, a, b, c) = three_windows();
    l.remove(c);
    assert!(l.get(c).is_none());
    assert_eq!(l.windows.len(), 2);
    assert!(l.get(b).unwrap().focused);
    assert!(l.get(a).is_some());
}

#[test]
fn remove_of_a_lower_window_keeps_focus_and_marks_top() {
    let (mut l, a, b, c) = three_windows();
    l.focus(a);
    l.remove(b);
    let ids: Vec<u64> = l.windows.iter().map(|w| w.id).collect();
    assert_eq!(ids, vec![a, c]);
    // the previously focused window keeps its flag, the top one gets it too
    assert!(l.get(a).unwrap().focused);
    assert!(l.get(c).unwrap().focused);
}

#[test]
fn remove_unknown_id_only_focuses_top() {
    let (mut l, a, _, c) = three_windows();
    l.focus(a);
    l.remove(42);
    assert_eq!(l.windows.len(), 3);
    assert!(l.get(c).unwrap().focused);
}

#[test]
fn remove_last_window_leaves_empty_layout() {
    let mut l = FloatingLayout::new();
    let a = l.add("only".to_string(), 800, 600);
    l.remove(a);
    assert!(l.windows.is_empty());
    assert!(l.focused().is_none());
}

#[test]
fn focus_sets_exactly_one_flag() {
    let (mut l, a, b, _) = three_windows();
    l.focus(b);
    let focused: Vec<bool> = l.windows.iter().map(|w| w.focused).collect();
    assert_eq!(focused, vec![false, true, false]);
    assert_eq!(l.focused().unwrap().id, b);
    l.focus(a);
    assert_eq!(l.focused().unwrap().id, a);
}

#[test]
fn focus_unknown_id_unfocuses_everything() {
    let (mut l, _, _, _) = three_windows();
    l.focus(1000);
    assert!(l.focused().is_none());
}

#[test]
fn move_then_get_gives_new_position() {
    let (mut l, a, b, _) = three_windows();
    let before = l.get(b).unwrap().rect;
    l.move_window(a, -5, 300);
    let w = l.get(a).unwrap();
    assert_eq!((w.rect.x, w.rect.y), (-5, 300));
    assert_eq!((w.rect.w, w.rect.h), (1280, 720));
    assert_eq!(l.get(b).unwrap().rect, before);
}

#[test]
fn move_unknown_id_changes_nothing() {
    let (mut l, _, _, _) = three_windows();
    let before: Vec<Rect> = l.windows.iter().map(|w| w.rect).collect();
    l.move_window(77, 1, 1);
    let after: Vec<Rect> = l.windows.iter().map(|w| w.rect).collect();
    assert_eq!(before, after);
}

#[test]
fn resize_clamps_to_minimum() {
    let (mut l, a, _, _) = three_windows();
    l.resize_window(a, 50, 10);
    let w = l.get(a).unwrap();
    assert_eq!((w.rect.w, w.rect.h), (120, 80));
    l.resize_window(a, 640, 480);
    let w = l.get(a).unwrap();
    assert_eq!((w.rect.w, w.rect.h), (640, 480));
    assert_eq!((w.rect.x, w.rect.y), (60, 60));
    l.resize_window(a, 120, 80);
    let w = l.get(a).unwrap();
    assert_eq!((w.rect.w, w.rect.h), (120, 80));
}

#[test]
fn toggle_maximize_covers_screen_then_clears_flag() {
    let (mut l, a, _, _) = three_windows();
    l.toggle_maximize(a, 2560, 1440);
    let w = l.get(a).unwrap();
    assert!(w.maximized);
    assert_eq!(w.rect, Rect { x: 0, y: 0, w: 2560, h: 1440 });
    l.toggle_maximize(a, 2560, 1440);
    let w = l.get(a).unwrap();
    assert!(!w.maximized);
    // the pre-maximize rectangle is not restored
    assert_eq!(w.rect, Rect { x: 0, y: 0, w: 2560, h: 1440 });
}

#[test]
fn toggle_maximize_unknown_id_changes_nothing() {
    let (mut l, _, _, _) = three_windows();
    l.toggle_maximize(9, 10, 10);
    assert!(l.windows.iter().all(|w| !w.maximized));
}

#[test]
fn operations_act_on_first_window_with_duplicate_id() {
    let (mut l, a, _, _) = three_windows();
    let mut dup = l.windows[0].clone();
    dup.title = "dup".to_string();
    l.windows.push(dup);
    l.move_window(a, 1, 2);
    assert_eq!((l.windows[0].rect.x, l.windows[0].rect.y), (1, 2));
    assert_eq!((l.windows[3].rect.x, l.windows[3].rect.y), (60, 60));
    assert_eq!(l.get(a).unwrap().title, "alpha");
    l.remove(a);
    assert!(l.get(a).is_none());
    assert_eq!(l.windows.len(), 2);
}

#[test]
fn default_equals_new() {
    let l: FloatingLayout = Default::default();
    assert!(l.windows.is_empty());
    let mut l = l;
    assert_eq!(l.add("x".to_string(), 100, 100), 1);
}

#[test]
fn ids_never_reused_after_remove() {
    let mut l = FloatingLayout::new();
    let a = l.add("a".to_string(), 1920, 1080);
    let b = l.add("b".to_string(), 1920, 1080);
    l.remove(b);
    l.remove(a);
    l.focus(a);
    l.move_window(b, 3, 4);
    let c = l.add("c".to_string(), 1920, 1080);
    assert_eq!((a, b, c), (1, 2, 3));
    assert_eq!(l.get(c).unwrap().title, "c");
    assert_eq!(l.windows.len(), 1);
}

#[test]
fn add_focuses_new_window_whatever_flags_were() {
    let (mut l, a, b, _) = three_windows();
    l.windows[0].focused = true;
    l.windows[1].focused = true;
    let d = l.add("delta".to_string(), 1920, 1080);
    assert_eq!(l.windows.iter().filter(|w| w.focused).count(), 1);
    assert_eq!(l.focused().unwrap().id, d);
    assert!(!l.get(a).unwrap().focused && !l.get(b).unwrap().focused);
}

#[test]
fn remove_right_after_add_restores_windows() {
    let (mut l, _, _, _) = three_windows();
    let before: Vec<(u64, String, Rect, bool, bool, bool)> = l
        .windows
        .iter()
        .map(|w| (w.id, w.title.clone(), w.rect, w.focused, w.minimized, w.maximized))
        .collect();
    let d = l.add("delta".to_string(), 800, 600);
    l.remove(d);
    let after: Vec<(u64, String, Rect, bool, bool, bool)> = l
        .windows
        .iter()
        .map(|w| (w.id, w.title.clone(), w.rect, w.focused, w.minimized, w.maximized))
        .collect();
    // only the topmost window was focused before, so everything is back
    assert_eq!(before, after);
    assert_eq!(l.add("epsilon".to_string(), 800, 600), d + 1);
}

#[test]
fn can_add_on_a_fresh_layout() {
    let (l, _, _, _) = three_windows();
    assert!(l.can_add());
    assert!(FloatingLayout::new().can_add());
}
