//! Where the compositor puts a new top-level window.
use crate::layout::{after_add, all_unfocused, law_focused_after_add, new_window, FloatingLayout, LayoutView};
use vstd::prelude::*;

verus! {

/// The screen size a new window is laid out for: the current output mode's
/// size, or 1920×1080 when there is none.
pub open spec fn screen_size(output_size: Option<(i32, i32)>) -> (u32, u32) {
    match output_size {
        Some((w, h)) => (w as u32, h as u32),
        None => (1920, 1080),
    }
}

/// Register a new top-level window titled `title` in `layout`, for an output
/// whose current mode has size `output_size` (if any), and return where to
/// map it: the position of the focused window, which is the new one.
pub fn place_new_toplevel(layout: &mut FloatingLayout, title: String, output_size: Option<(i32, i32)>) -> (pos: (i32, i32))
    requires
        old(layout)@.next_id < u64::MAX,
        0 <= old(layout)@.cascade_step < 180,
        output_size matches Some((w, h)) ==> 0 <= w && 0 <= h,
    ensures
        final(layout)@.next_id == old(layout)@.next_id + 1,
        final(layout)@.cascade_step == (old(layout)@.cascade_step + 28) % 180,
        final(layout)@.windows == all_unfocused(old(layout)@.windows).push(
            new_window(
                (old(layout)@.next_id + 1) as u64,
                title,
                old(layout)@.cascade_step,
                screen_size(output_size).0,
                screen_size(output_size).1,
            ),
        ),
        pos == ((60 + old(layout)@.cascade_step) as i32, (60 + old(layout)@.cascade_step) as i32),
        old(layout)@.wf() ==> final(layout)@.wf(),
        // the new window is laid out for the output's own width and height
        final(layout)@.windows.last().rect.w == extent_for(output_size, true),
        final(layout)@.windows.last().rect.h == extent_for(output_size, false),
{
    let (sw, sh) = match output_size {
        Some((w, h)) => (w as u32, h as u32),
        None => (1920u32, 1080u32),
    };
    let ghost before = layout@.windows;
    let _id = layout.add(title, sw, sh);
    proof {
        law_focused_after_add(before, layout@.windows.last());
        assert(layout@.windows =~= all_unfocused(before).push(layout@.windows.last()));
    }
    let x = match layout.focused() {
        Some(w) => w.rect.x,
        None => 60,
    };
    let y = match layout.focused() {
        Some(w) => w.rect.y,
        None => 60,
    };
    proof {
        law_toplevel_size(old(layout)@, title, output_size);
    }
    (x, y)
}

/// Two thirds of the output's width (`horizontal`) or height, at least 400
/// wide or 300 high; 1280×720 when there is no output mode.
pub open spec fn extent_for(output_size: Option<(i32, i32)>, horizontal: bool) -> int {
    match output_size {
        Some((w, h)) => if horizontal {
            if w * 2 / 3 >= 400 { w * 2 / 3 } else { 400 }
        } else {
            if h * 2 / 3 >= 300 { h * 2 / 3 } else { 300 }
        },
        None => if horizontal { 1280 } else { 720 },
    }
}

/// A new top-level window gets two thirds of the output's own width and
/// height (at least 400×300), in that orientation, or 1280×720 without an
/// output mode.
pub proof fn law_toplevel_size(v: LayoutView, title: String, output_size: Option<(i32, i32)>)
    requires
        output_size matches Some((w, h)) ==> 0 <= w && 0 <= h,
    ensures
        after_add(v, title, screen_size(output_size).0, screen_size(output_size).1).windows.last().rect.w
            == extent_for(output_size, true),
        after_add(v, title, screen_size(output_size).0, screen_size(output_size).1).windows.last().rect.h
            == extent_for(output_size, false),
{
}

} // verus!
