use wm98_core::config::{Config, Keybind};
use wm98_core::keys::{key_action, terminal_command, KeyAction, KEYSYM_Q, KEYSYM_Q_UPPER, KEYSYM_RETURN};

fn bind(key: &str, action: &str) -> Keybind {
    Keybind { modifiers: vec!["super".to_string()], key: key.to_string(), action: action.to_string() }
}

#[test]
fn release_is_forwarded() {
    let c = Config::default();
    assert_eq!(key_action(&c, false, true, true, KEYSYM_Q), KeyAction::Forward);
    assert_eq!(key_action(&c, false, true, false, KEYSYM_RETURN), KeyAction::Forward);
}

#[test]
fn super_q_closes_focused_window() {
    let c = Config::default();
    assert_eq!(key_action(&c, true, true, false, KEYSYM_Q), KeyAction::CloseFocused);
}

#[test]
fn super_shift_q_quits() {
    let c = Config::default();
    assert_eq!(key_action(&c, true, true, true, KEYSYM_Q), KeyAction::Quit);
}

#[test]
fn super_return_spawns_terminal() {
    let c = Config::default();
    assert_eq!(
        key_action(&c, true, true, false, KEYSYM_RETURN),
        KeyAction::Spawn("alacritty".to_string())
    );
    assert_eq!(
        key_action(&c, true, true, true, KEYSYM_RETURN),
        KeyAction::Spawn("alacritty".to_string())
    );
}

#[test]
fn keys_without_super_are_forwarded() {
    let c = Config::default();
    assert_eq!(key_action(&c, true, false, false, KEYSYM_Q), KeyAction::Forward);
    assert_eq!(key_action(&c, true, false, true, KEYSYM_RETURN), KeyAction::Forward);
    assert_eq!(key_action(&c, true, true, false, 0x61), KeyAction::Forward);
}

#[test]
fn terminal_from_first_return_binding() {
    let mut c = Config::default();
    c.keybinds = vec![bind("q", "spawn nope"), bind("Return", "spawn foot --server"), bind("Return", "spawn xterm")];
    assert_eq!(terminal_command(&c), "foot --server");
}

#[test]
fn terminal_falls_back_when_action_is_not_spawn() {
    let mut c = Config::default();
    c.keybinds = vec![bind("Return", "close_window"), bind("Return", "spawn xterm")];
    assert_eq!(terminal_command(&c), "alacritty");
    c.keybinds = vec![bind("Return", "spawn")];
    assert_eq!(terminal_command(&c), "alacritty");
}

#[test]
fn terminal_falls_back_without_return_binding() {
    let mut c = Config::default();
    c.keybinds = vec![];
    assert_eq!(terminal_command(&c), "alacritty");
    c.keybinds = vec![bind("return", "spawn kitty")];
    assert_eq!(terminal_command(&c), "alacritty");
}

#[test]
fn terminal_keeps_unicode_and_empty_rest() {
    let mut c = Config::default();
    c.keybinds = vec![bind("Return", "spawn tërm")];
    assert_eq!(terminal_command(&c), "tërm");
    c.keybinds = vec![bind("Return", "spawn ")];
    assert_eq!(terminal_command(&c), "");
}

#[test]
fn spawn_uses_configured_terminal() {
    let mut c = Config::default();
    c.keybinds = vec![bind("Return", "spawn wezterm")];
    assert_eq!(
        key_action(&c, true, true, false, KEYSYM_RETURN),
        KeyAction::Spawn("wezterm".to_string())
    );
}

#[test]
fn super_shift_q_quits_with_shifted_keysym() {
    let c = Config::default();
    // with Shift held the keyboard state turns q into Q
    assert_eq!(key_action(&c, true, true, true, KEYSYM_Q_UPPER), KeyAction::Quit);
    assert_eq!(KEYSYM_Q_UPPER, 0x51);
}

#[test]
fn super_q_under_caps_lock_closes_focused_window() {
    let c = Config::default();
    assert_eq!(key_action(&c, true, true, false, KEYSYM_Q_UPPER), KeyAction::CloseFocused);
    assert_eq!(key_action(&c, false, true, true, KEYSYM_Q_UPPER), KeyAction::Forward);
    assert_eq!(key_action(&c, true, false, true, KEYSYM_Q_UPPER), KeyAction::Forward);
}
