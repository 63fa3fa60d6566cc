# wm98_core

The verified core of 98wm, a floating window manager with an early-2000s
"bubble" look that runs as a Wayland compositor on Linux and as an
Accessibility-API window manager on macOS.

- `src/` — the library, verified with Verus:
  - `layout.rs`: the floating layout (windows in stacking order, ids,
    cascading placement, focus, move/resize/maximize) with its model and laws;
  - `config.rs`: the configuration, its defaults and the config file path;
  - `keys.rs`: what a key press does (close, quit, spawn the terminal);
  - `theme.rs`: palette, geometry, titlebar colours and button positions;
  - `toplevel.rs`: where the compositor maps a new top-level window;
  - `window_list.rs`, `window_manager.rs`: the macOS window list and the
    manager's state and poll loop decisions.
- `app/` — the program: smithay compositor, AppKit overlays, CoreGraphics
  window list, tiny-skia drawing and TOML I/O.
- `tests/` — tests of the library.
