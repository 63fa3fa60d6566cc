use wm98_core::config::{Config, ThemeConfig};

#[test]
fn default_theme_config() {
    let t = ThemeConfig::default();
    assert_eq!(t.name, "bubble98");
    assert_eq!(
        (t.border_width, t.titlebar_height, t.corner_radius, t.shadow_blur, t.button_size),
        (3, 36, 12, 20, 18)
    );
}

#[test]
fn default_config() {
    let c = Config::default();
    assert_eq!((c.gaps.inner, c.gaps.outer), (8, 16));
    assert_eq!(c.keybinds.len(), 3);
    assert_eq!(c.keybinds[0].modifiers, vec!["super".to_string()]);
    assert_eq!(c.keybinds[0].key, "Return");
    assert_eq!(c.keybinds[0].action, "spawn alacritty");
    assert_eq!(c.keybinds[1].modifiers, vec!["super".to_string()]);
    assert_eq!(c.keybinds[1].key, "q");
    assert_eq!(c.keybinds[1].action, "close_window");
    assert_eq!(c.keybinds[2].modifiers, vec!["super".to_string(), "shift".to_string()]);
    assert_eq!(c.keybinds[2].key, "q");
    assert_eq!(c.keybinds[2].action, "quit");
    assert!(c.autostart.is_empty());
    assert_eq!(c.theme.name, "bubble98");
}

#[test]
fn config_path_under_home() {
    assert_eq!(
        Config::config_path(Some("/home/ada".to_string())),
        "/home/ada/.config/98wm/config.toml"
    );
}

#[test]
fn config_path_home_with_trailing_slash() {
    assert_eq!(
        Config::config_path(Some("/home/ada/".to_string())),
        "/home/ada/.config/98wm/config.toml"
    );
}

#[test]
fn config_path_without_home() {
    assert_eq!(Config::config_path(None), "./.config/98wm/config.toml");
}

#[test]
fn config_path_empty_home() {
    assert_eq!(Config::config_path(Some(String::new())), ".config/98wm/config.toml");
}

#[test]
fn config_path_matches_std_path_join() {
    for home in ["/root", "/", "relative/dir", "/home/ünï", ""] {
        let expected = std::path::PathBuf::from(home)
            .join(".config")
            .join("98wm")
            .join("config.toml");
        assert_eq!(
            Config::config_path(Some(home.to_string())),
            expected.to_str().unwrap()
        );
    }
}
