//! The macOS window manager's state and the decisions of its polling loop.
use crate::config::Config;
use crate::layout::FloatingLayout;
use crate::theme::Theme;
use crate::window_list::ManagedWindow;
use std::collections::HashMap;
use vstd::prelude::*;

verus! {

/// Why the window manager cannot start.
#[derive(Debug, Clone, Copy, PartialEq, Eq, Structural)]
pub enum WmError {
    /// The process may not use the Accessibility API.
    AccessibilityNotGranted,
}

pub struct WindowManager {
    pub config: Config,
    pub theme: Theme,
    pub layout: FloatingLayout,
    pub windows: HashMap<u64, ManagedWindow>,
}

/// The poll loop reports the window list every 10 ticks (once a second at
/// 100 ms per tick), starting with the first.
pub open spec fn is_report_tick(tick: u64) -> bool {
    tick % 10 == 0
}

impl WindowManager {
    /// A manager with an empty layout, when the process may use the
    /// Accessibility API (`accessibility_trusted`); an error otherwise.
    pub fn new(config: Config, theme: Theme, accessibility_trusted: bool) -> (r: Result<Self, WmError>)
        ensures
            r is Ok <==> accessibility_trusted,
            r matches Err(e) ==> e == WmError::AccessibilityNotGranted,
            r matches Ok(wm) ==> {
                &&& wm.config == config
                &&& wm.theme == theme
                &&& wm.layout@.windows.len() == 0
                &&& wm.layout@.next_id == 0
                &&& wm.layout@.cascade_step == 0
                &&& wm.windows@ == Map::<u64, ManagedWindow>::empty()
            },
    {
        if !accessibility_trusted {
            return Err(WmError::AccessibilityNotGranted);
        }
        Ok(WindowManager { config, theme, layout: FloatingLayout::new(), windows: HashMap::new() })
    }

    /// One step of the poll loop at tick `tick`: whether to report the window
    /// list, and the next tick.
    pub fn poll_step(tick: u64) -> (r: (bool, u64))
        requires
            tick < u64::MAX,
        ensures
            r.0 == is_report_tick(tick),
            r.1 == tick + 1,
    {
        (tick % 10 == 0, tick + 1)
    }
}

} // verus!
