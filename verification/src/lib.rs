//! Platform-agnostic core of the 98wm window manager: the floating layout,
//! configuration defaults, theme geometry and the decision logic that the
//! Wayland compositor and the macOS manager share.

pub mod layout;
pub mod config;
pub mod keys;
pub mod theme;
pub mod toplevel;
pub mod window_list;
pub mod window_manager;
