//! What the compositor does with a key press.
use crate::config::{Config, Keybind};
use vstd::prelude::*;
use vstd::string::*;

verus! {

/// The X keysym of the `q` key.
pub const KEYSYM_Q: u32 = 0x0071;

/// The X keysym of `Q`: the q key with Shift or Caps Lock applied.
pub const KEYSYM_Q_UPPER: u32 = 0x0051;

/// The keysym comes from the q key, whether or not Shift or Caps Lock made it
/// upper case.
pub open spec fn is_q_key(keysym: u32) -> bool {
    keysym == KEYSYM_Q || keysym == KEYSYM_Q_UPPER
}

/// The X keysym of the Return key.
pub const KEYSYM_RETURN: u32 = 0xff0d;

/// What to do with a keyboard event.
#[derive(Debug, Clone, PartialEq, Eq)]
pub enum KeyAction {
    /// Hand the key to the focused client.
    Forward,
    /// Ask the focused window to close.
    CloseFocused,
    /// Quit the compositor.
    Quit,
    /// Launch this program.
    Spawn(String),
}

/// The program that super+Return launches: the action of the first binding
/// of the key "Return" without its "spawn " prefix; "alacritty" when there is
/// no such binding or its action does not start with "spawn ".
pub open spec fn terminal_spec(keybinds: Seq<Keybind>) -> Seq<char>
    decreases keybinds.len(),
{
    if keybinds.len() == 0 {
        "alacritty"@
    } else if keybinds[0].key@ == "Return"@ {
        if "spawn "@.is_prefix_of(keybinds[0].action@) {
            keybinds[0].action@.skip(6)
        } else {
            "alacritty"@
        }
    } else {
        terminal_spec(keybinds.drop_first())
    }
}

/// The program that super+Return launches under `config`.
pub fn terminal_command(config: &Config) -> (t: String)
    ensures
        t@ == terminal_spec(config.keybinds@),
{
    let ks = &config.keybinds;
    let return_key = "Return".to_owned();
    let spawn = "spawn ".to_owned();
    let mut i: usize = 0;
    assert(ks@.skip(0) =~= ks@);
    while i < ks.len()
        invariant
            0 <= i <= ks@.len(),
            ks@ == config.keybinds@,
            return_key@ == "Return"@,
            spawn@ == "spawn "@,
            terminal_spec(ks@) == terminal_spec(ks@.skip(i as int)),
        decreases ks@.len() - i,
    {
        proof {
            reveal_strlit("spawn ");
            reveal_strlit("alacritty");
        }
        assert(ks@.skip(i as int)[0] == ks@[i as int]);
        assert(ks@.skip(i as int).drop_first() =~= ks@.skip(i + 1));
        if ks[i].key == return_key {
            let action = ks[i].action.as_str();
            let n = action.unicode_len();
            if n >= 6 {
                let head = action.substring_char(0, 6).to_owned();
                if head == spawn {
                    assert("spawn "@.is_prefix_of(action@)) by {
                        assert(action@.subrange(0, 6) =~= "spawn "@);
                    }
                    let rest = action.substring_char(6, n);
                    assert(rest@ =~= action@.skip(6));
                    return rest.to_owned();
                }
                assert(!"spawn "@.is_prefix_of(action@)) by {
                    if "spawn "@.is_prefix_of(action@) {
                        assert(action@.subrange(0, 6) =~= "spawn "@);
                    }
                }
            }
            return "alacritty".to_owned();
        }
        i = i + 1;
    }
    assert(ks@.skip(i as int).len() == 0);
    "alacritty".to_owned()
}

/// The action for a key event: nothing but presses with super held are
/// taken; super+shift+q quits, super+q (without shift, in either case)
/// closes the focused window and super+Return launches the terminal;
/// everything else is forwarded.
pub open spec fn key_action_matches(
    config: Config,
    pressed: bool,
    logo: bool,
    shift: bool,
    keysym: u32,
    a: KeyAction,
) -> bool {
    if pressed && logo && is_q_key(keysym) {
        if shift {
            a is Quit
        } else {
            a is CloseFocused
        }
    } else if pressed && logo && keysym == KEYSYM_RETURN {
        a matches KeyAction::Spawn(t) && t@ == terminal_spec(config.keybinds@)
    } else {
        a is Forward
    }
}

/// Decide what a key event does: `pressed` is whether the key went down,
/// `logo` and `shift` whether super and shift are held, `keysym` the keysym
/// with the keyboard state applied (so the q key gives `Q` under Shift or
/// Caps Lock; both cases count as the q key).
pub fn key_action(config: &Config, pressed: bool, logo: bool, shift: bool, keysym: u32) -> (a: KeyAction)
    ensures
        key_action_matches(*config, pressed, logo, shift, keysym, a),
        // only a press with super held does anything but forward the key
        !(pressed && logo) ==> a is Forward,
        a is Quit ==> shift && (keysym == 0x71 || keysym == 0x51),
        a is CloseFocused ==> !shift && (keysym == 0x71 || keysym == 0x51),
        a is Spawn ==> keysym == 0xff0d,
{
    if !pressed {
        return KeyAction::Forward;
    }
    // Super + Shift + Q — quit compositor
    let q_key = keysym == KEYSYM_Q || keysym == KEYSYM_Q_UPPER;
    if logo && shift && q_key {
        return KeyAction::Quit;
    }
    // Super + Q — close focused window
    if logo && q_key {
        return KeyAction::CloseFocused;
    }
    // Super + Return — launch terminal
    if logo && keysym == KEYSYM_RETURN {
        return KeyAction::Spawn(terminal_command(config));
    }
    KeyAction::Forward
}

/// Only a press with super held does anything but forward the key: a release,
/// or any press without super, reaches the focused client. Quitting needs
/// shift and the q key, closing needs the q key without shift, and a launch
/// needs the Return key.
pub proof fn law_key_action_needs_super(
    config: Config,
    pressed: bool,
    logo: bool,
    shift: bool,
    keysym: u32,
    a: KeyAction,
)
    requires
        key_action_matches(config, pressed, logo, shift, keysym, a),
    ensures
        !(pressed && logo) ==> a is Forward,
        !(a is Forward) ==> pressed && logo,
        a is Quit ==> shift && (keysym == 0x71 || keysym == 0x51),
        a is CloseFocused ==> !shift && (keysym == 0x71 || keysym == 0x51),
        a is Spawn ==> keysym == 0xff0d,
{
}

/// Under the default configuration super+Return launches alacritty.
pub proof fn law_default_terminal(config: Config)
    requires
        crate::config::is_default_config(config),
    ensures
        terminal_spec(config.keybinds@) == "alacritty"@,
{
    reveal_strlit("spawn alacritty");
    reveal_strlit("spawn ");
    reveal_strlit("alacritty");
    let a = config.keybinds@[0].action@;
    assert(a.subrange(0, 6) =~= "spawn "@);
    assert(a.skip(6) =~= "alacritty"@);
}

} // verus!
