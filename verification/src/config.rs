//! The user configuration and its defaults.
use vstd::prelude::*;
use vstd::string::*;

verus! {

/// The whole configuration, as read from `~/.config/98wm/config.toml`.
#[derive(Debug, Clone)]
pub struct Config {
    pub theme: ThemeConfig,
    pub gaps: GapsConfig,
    pub keybinds: Vec<Keybind>,
    pub autostart: Vec<String>,
}

#[derive(Debug, Clone)]
pub struct ThemeConfig {
    /// Which named theme to load (e.g. "bubble98", "aqua2k")
    pub name: String,
    pub border_width: u32,
    pub titlebar_height: u32,
    pub corner_radius: u32,
    pub shadow_blur: u32,
    pub button_size: u32,
}

#[derive(Debug, Clone)]
pub struct GapsConfig {
    pub inner: u32,
    pub outer: u32,
}

#[derive(Debug, Clone)]
pub struct Keybind {
    pub modifiers: Vec<String>,
    pub key: String,
    /// Space-separated action, e.g. "spawn alacritty" or "close_window"
    pub action: String,
}

/// The text of each string of `v`.
pub open spec fn texts(v: Seq<String>) -> Seq<Seq<char>> {
    v.map_values(|s: String| s@)
}

/// `k` binds the modifiers `mods` and the key `key` to `action`.
pub open spec fn binds(k: Keybind, mods: Seq<Seq<char>>, key: Seq<char>, action: Seq<char>) -> bool {
    &&& texts(k.modifiers@) == mods
    &&& k.key@ == key
    &&& k.action@ == action
}

/// The default theme settings: "bubble98", 3 px border, 36 px titlebar,
/// 12 px corners, 20 px shadow blur, 18 px buttons.
pub open spec fn is_default_theme_config(t: ThemeConfig) -> bool {
    &&& t.name@ == "bubble98"@
    &&& t.border_width == 3
    &&& t.titlebar_height == 36
    &&& t.corner_radius == 12
    &&& t.shadow_blur == 20
    &&& t.button_size == 18
}

/// The default configuration: the default theme, gaps 8/16, three key
/// bindings (super+Return spawns alacritty, super+q closes the window,
/// super+shift+q quits) and nothing to autostart.
pub open spec fn is_default_config(c: Config) -> bool {
    &&& is_default_theme_config(c.theme)
    &&& c.gaps.inner == 8
    &&& c.gaps.outer == 16
    &&& c.keybinds@.len() == 3
    &&& binds(c.keybinds@[0], seq!["super"@], "Return"@, "spawn alacritty"@)
    &&& binds(c.keybinds@[1], seq!["super"@], "q"@, "close_window"@)
    &&& binds(c.keybinds@[2], seq!["super"@, "shift"@], "q"@, "quit"@)
    &&& c.autostart@.len() == 0
}

impl Default for ThemeConfig {
    fn default() -> (t: Self)
        ensures
            is_default_theme_config(t),
    {
        ThemeConfig {
            name: "bubble98".to_owned(),
            border_width: 3,
            titlebar_height: 36,
            corner_radius: 12,
            shadow_blur: 20,
            button_size: 18,
        }
    }
}

/// A key binding with the given modifiers, key and action.
fn keybind(modifiers: Vec<String>, key: &str, action: &str) -> (k: Keybind)
    ensures
        k.modifiers == modifiers,
        k.key@ == key@,
        k.action@ == action@,
{
    Keybind { modifiers, key: key.to_owned(), action: action.to_owned() }
}

impl Default for Config {
    fn default() -> (c: Self)
        ensures
            is_default_config(c),
    {
        let mut super_only: Vec<String> = Vec::new();
        super_only.push("super".to_owned());
        let mut super_only2: Vec<String> = Vec::new();
        super_only2.push("super".to_owned());
        let mut super_shift: Vec<String> = Vec::new();
        super_shift.push("super".to_owned());
        super_shift.push("shift".to_owned());

        let mut keybinds: Vec<Keybind> = Vec::new();
        keybinds.push(keybind(super_only, "Return", "spawn alacritty"));
        keybinds.push(keybind(super_only2, "q", "close_window"));
        keybinds.push(keybind(super_shift, "q", "quit"));
        let c = Config {
            theme: ThemeConfig::default(),
            gaps: GapsConfig { inner: 8, outer: 16 },
            keybinds,
            autostart: Vec::new(),
        };
        assert(texts(c.keybinds@[0].modifiers@) =~= seq!["super"@]);
        assert(texts(c.keybinds@[1].modifiers@) =~= seq!["super"@]);
        assert(texts(c.keybinds@[2].modifiers@) =~= seq!["super"@, "shift"@]);
        c
    }
}

/// The relative location of the configuration file under the home directory.
pub open spec fn config_file_suffix() -> Seq<char> {
    ".config/98wm/config.toml"@
}

/// `rel` appended to the path `base` as a path join does it: with a `/`
/// between them, unless `base` is empty or already ends in one.
pub open spec fn path_join(base: Seq<char>, rel: Seq<char>) -> Seq<char> {
    if base.len() == 0 {
        rel
    } else if base.last() == '/' {
        base + rel
    } else {
        base + seq!['/'] + rel
    }
}

/// Where the configuration file is for the home directory `home` (the
/// current directory when there is none).
pub open spec fn config_path_spec(home: Option<String>) -> Seq<char> {
    let base = match home {
        Some(h) => h@,
        None => seq!['.'],
    };
    path_join(base, config_file_suffix())
}

impl Config {
    /// The configuration file's path: `$HOME/.config/98wm/config.toml`, where
    /// `home` is the value of `HOME` (`None` when it is unset or not unicode,
    /// in which case the current directory stands for it).
    pub fn config_path(home: Option<String>) -> (p: String)
        ensures
            p@ == config_path_spec(home),
    {
        let mut base = match home {
            Some(h) => h,
            None => ".".to_owned(),
        };
        proof {
            reveal_strlit(".");
            reveal_strlit("/");
        }
        let n = base.as_str().unicode_len();
        if n > 0 && base.as_str().get_char(n - 1) != '/' {
            base.append("/");
        }
        base.append(".config/98wm/config.toml");
        base
    }
}

} // verus!
