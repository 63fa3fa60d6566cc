//! Platform-agnostic floating layout manager.
//! Both the Wayland compositor and the macOS AX-API manager use this to
//! track logical window positions before translating to their respective APIs.
use vstd::prelude::*;

verus! {

/// A window rectangle in logical screen coordinates.
#[derive(Debug, Clone, Copy, PartialEq, Eq, Structural)]
pub struct Rect {
    pub x: i32,
    pub y: i32,
    pub w: u32,
    pub h: u32,
}

/// What the layout knows of one window.
#[derive(Debug, Clone)]
pub struct WindowState {
    pub id: u64,
    pub title: String,
    pub rect: Rect,
    pub focused: bool,
    pub minimized: bool,
    pub maximized: bool,
}

/// The floating layout: windows in stacking order, the last one on top.
#[derive(Debug)]
pub struct FloatingLayout {
    pub windows: Vec<WindowState>,
    next_id: u64,
    cascade_step: i32,
}

/// The abstract state of a layout: its windows in stacking order, the last
/// id handed out by `add` (0 before the first one), and the cascade offset
/// that the next added window gets.
pub struct LayoutView {
    pub windows: Seq<WindowState>,
    pub next_id: u64,
    pub cascade_step: i32,
}

impl View for FloatingLayout {
    type V = LayoutView;

    closed spec fn view(&self) -> LayoutView {
        LayoutView { windows: self.windows@, next_id: self.next_id, cascade_step: self.cascade_step }
    }
}

// ---------------------------------------------------------------------------
// Model
// ---------------------------------------------------------------------------

/// `w` with its focus flag set to `f`.
pub open spec fn with_focus(w: WindowState, f: bool) -> WindowState {
    WindowState { focused: f, ..w }
}

/// Every window unfocused.
pub open spec fn all_unfocused(s: Seq<WindowState>) -> Seq<WindowState> {
    s.map_values(|w: WindowState| with_focus(w, false))
}

/// Every window focused exactly when its id is `id`.
pub open spec fn focus_only(s: Seq<WindowState>, id: u64) -> Seq<WindowState> {
    s.map_values(|w: WindowState| with_focus(w, w.id == id))
}

/// The windows whose id is not `id`, in their order.
pub open spec fn without_id(s: Seq<WindowState>, id: u64) -> Seq<WindowState> {
    s.filter(id_is_not(id))
}

/// The predicate "does not have id `id`".
pub open spec fn id_is_not(id: u64) -> spec_fn(WindowState) -> bool {
    |w: WindowState| w.id != id
}

/// The topmost (last) window, if any, gets the focus flag.
pub open spec fn focus_top(s: Seq<WindowState>) -> Seq<WindowState> {
    if s.len() == 0 {
        s
    } else {
        s.update(s.len() - 1, with_focus(s.last(), true))
    }
}

/// The predicate "has id `id`".
pub open spec fn id_is(id: u64) -> spec_fn(WindowState) -> bool {
    |w: WindowState| w.id == id
}

/// The predicate "is focused".
pub open spec fn is_focused() -> spec_fn(WindowState) -> bool {
    |w: WindowState| w.focused
}

/// `i` is the first index of `s` whose window satisfies `p`.
pub open spec fn is_first_where(s: Seq<WindowState>, p: spec_fn(WindowState) -> bool, i: int) -> bool {
    &&& 0 <= i < s.len()
    &&& p(s[i])
    &&& forall|j: int| 0 <= j < i ==> !p(#[trigger] s[j])
}

/// Some window of `s` satisfies `p`.
pub open spec fn has_where(s: Seq<WindowState>, p: spec_fn(WindowState) -> bool) -> bool {
    exists|i: int| 0 <= i < s.len() && p(#[trigger] s[i])
}

/// The first index whose window satisfies `p` (meaningful when `has_where`).
pub open spec fn first_where(s: Seq<WindowState>, p: spec_fn(WindowState) -> bool) -> int {
    choose|i: int| is_first_where(s, p, i)
}

/// The first window that satisfies `p`, if any.
pub open spec fn find_where(s: Seq<WindowState>, p: spec_fn(WindowState) -> bool) -> Option<WindowState> {
    if has_where(s, p) {
        Some(s[first_where(s, p)])
    } else {
        None
    }
}

/// Apply `f` to the first window with id `id`; leave `s` as it is when there is none.
pub open spec fn map_first(s: Seq<WindowState>, id: u64, f: spec_fn(WindowState) -> WindowState) -> Seq<WindowState> {
    if has_where(s, id_is(id)) {
        s.update(first_where(s, id_is(id)), f(s[first_where(s, id_is(id))]))
    } else {
        s
    }
}

/// `w` moved to `(x, y)`.
pub open spec fn moved(w: WindowState, x: i32, y: i32) -> WindowState {
    WindowState { rect: Rect { x: x, y: y, ..w.rect }, ..w }
}

/// The smallest width a window can be resized to.
pub const MIN_WIDTH: u32 = 120;

/// The smallest height a window can be resized to.
pub const MIN_HEIGHT: u32 = 80;

/// `v`, or `lo` when `v` is smaller.
pub open spec fn at_least(v: u32, lo: u32) -> u32 {
    if v >= lo { v } else { lo }
}

/// `w` resized to `(width, height)`, clamped below by the minimum size.
pub open spec fn resized(w: WindowState, width: u32, height: u32) -> WindowState {
    WindowState {
        rect: Rect { w: at_least(width, MIN_WIDTH), h: at_least(height, MIN_HEIGHT), ..w.rect },
        ..w
    }
}

/// The rectangle of the whole screen.
pub open spec fn full_screen(screen_w: u32, screen_h: u32) -> Rect {
    Rect { x: 0, y: 0, w: screen_w, h: screen_h }
}

/// `w` after a maximize toggle: a maximized window only loses the flag, any
/// other one covers the whole screen.
pub open spec fn toggled(w: WindowState, screen_w: u32, screen_h: u32) -> WindowState {
    if w.maximized {
        WindowState { maximized: false, ..w }
    } else {
        WindowState { maximized: true, rect: Rect { x: 0, y: 0, w: screen_w, h: screen_h }, ..w }
    }
}

/// The size a new window gets along one axis: two thirds of the screen, at
/// least `lo`.
pub open spec fn initial_extent(screen: u32, lo: u32) -> u32 {
    at_least((screen * 2 / 3) as u32, lo)
}

/// The window that `add` creates.
pub open spec fn new_window(id: u64, title: String, offset: i32, screen_w: u32, screen_h: u32) -> WindowState {
    WindowState {
        id: id,
        title: title,
        rect: Rect {
            x: (60 + offset) as i32,
            y: (60 + offset) as i32,
            w: initial_extent(screen_w, 400),
            h: initial_extent(screen_h, 300),
        },
        focused: true,
        minimized: false,
        maximized: false,
    }
}

/// No two windows share an id.
pub open spec fn ids_distinct(s: Seq<WindowState>) -> bool {
    forall|i: int, j: int| 0 <= i < s.len() && 0 <= j < s.len() && i != j ==> s[i].id != s[j].id
}

/// Every window id is at most `n`.
pub open spec fn ids_at_most(s: Seq<WindowState>, n: u64) -> bool {
    forall|i: int| 0 <= i < s.len() ==> s[i].id <= n
}

impl LayoutView {
    /// The state that the layout's own operations keep: ids are distinct and
    /// were all handed out already, and the cascade offset is in range.
    pub open spec fn wf(self) -> bool {
        &&& ids_distinct(self.windows)
        &&& ids_at_most(self.windows, self.next_id)
        &&& 0 <= self.cascade_step < 180
    }
}


// ---------------------------------------------------------------------------
// What each operation does to the abstract state
// ---------------------------------------------------------------------------

/// A layout without windows, before any id was handed out.
pub open spec fn empty_layout() -> LayoutView {
    LayoutView { windows: Seq::empty(), next_id: 0, cascade_step: 0 }
}

/// `v` with the windows `ws`.
pub open spec fn with_windows(v: LayoutView, ws: Seq<WindowState>) -> LayoutView {
    LayoutView { windows: ws, next_id: v.next_id, cascade_step: v.cascade_step }
}

/// The state after `add(title, screen_w, screen_h)`: the next id, the next
/// cascade offset, every window unfocused and the new one on top.
pub open spec fn after_add(v: LayoutView, title: String, screen_w: u32, screen_h: u32) -> LayoutView {
    LayoutView {
        windows: all_unfocused(v.windows).push(
            new_window((v.next_id + 1) as u64, title, v.cascade_step, screen_w, screen_h),
        ),
        next_id: (v.next_id + 1) as u64,
        cascade_step: ((v.cascade_step + 28) % 180) as i32,
    }
}

/// The state after `remove(id)`.
pub open spec fn after_remove(v: LayoutView, id: u64) -> LayoutView {
    with_windows(v, focus_top(without_id(v.windows, id)))
}

/// The state after `focus(id)`.
pub open spec fn after_focus(v: LayoutView, id: u64) -> LayoutView {
    with_windows(v, focus_only(v.windows, id))
}

/// The state after `move_window(id, x, y)`.
pub open spec fn after_move(v: LayoutView, id: u64, x: i32, y: i32) -> LayoutView {
    with_windows(v, map_first(v.windows, id, |w: WindowState| moved(w, x, y)))
}

/// The state after `resize_window(id, width, height)`.
pub open spec fn after_resize(v: LayoutView, id: u64, width: u32, height: u32) -> LayoutView {
    with_windows(v, map_first(v.windows, id, |w: WindowState| resized(w, width, height)))
}

/// The state after `toggle_maximize(id, screen_w, screen_h)`.
pub open spec fn after_toggle(v: LayoutView, id: u64, screen_w: u32, screen_h: u32) -> LayoutView {
    with_windows(v, map_first(v.windows, id, |w: WindowState| toggled(w, screen_w, screen_h)))
}

/// A call of one of the layout's mutating operations, with its arguments.
pub enum LayoutOp {
    Add { title: String, screen_w: u32, screen_h: u32 },
    Remove { id: u64 },
    Focus { id: u64 },
    Move { id: u64, x: i32, y: i32 },
    Resize { id: u64, width: u32, height: u32 },
    ToggleMaximize { id: u64, screen_w: u32, screen_h: u32 },
}

/// The state after the call `op`.
pub open spec fn step(v: LayoutView, op: LayoutOp) -> LayoutView {
    match op {
        LayoutOp::Add { title, screen_w, screen_h } => after_add(v, title, screen_w, screen_h),
        LayoutOp::Remove { id } => after_remove(v, id),
        LayoutOp::Focus { id } => after_focus(v, id),
        LayoutOp::Move { id, x, y } => after_move(v, id, x, y),
        LayoutOp::Resize { id, width, height } => after_resize(v, id, width, height),
        LayoutOp::ToggleMaximize { id, screen_w, screen_h } => after_toggle(v, id, screen_w, screen_h),
    }
}

/// The state after the calls `ops`, in order, starting from `v`.
pub open spec fn run(v: LayoutView, ops: Seq<LayoutOp>) -> LayoutView
    decreases ops.len(),
{
    if ops.len() == 0 {
        v
    } else {
        step(run(v, ops.drop_last()), ops.last())
    }
}

/// How many of the calls `ops` are `add`.
pub open spec fn add_count(ops: Seq<LayoutOp>) -> nat
    decreases ops.len(),
{
    if ops.len() == 0 {
        0
    } else {
        add_count(ops.drop_last()) + if ops.last() is Add { 1nat } else { 0nat }
    }
}

// ---------------------------------------------------------------------------
// Lemmas
// ---------------------------------------------------------------------------

/// When some window satisfies `p`, `first_where` names the first one.
pub proof fn lemma_has_first(s: Seq<WindowState>, p: spec_fn(WindowState) -> bool)
    requires
        has_where(s, p),
    ensures
        is_first_where(s, p, first_where(s, p)),
{
    let i = choose|i: int| 0 <= i < s.len() && p(#[trigger] s[i]);
    lemma_first_below(s, p, i);
}

proof fn lemma_first_below(s: Seq<WindowState>, p: spec_fn(WindowState) -> bool, i: int)
    requires
        0 <= i < s.len(),
        p(s[i]),
    ensures
        exists|k: int| is_first_where(s, p, k),
    decreases i,
{
    if forall|j: int| 0 <= j < i ==> !p(#[trigger] s[j]) {
        assert(is_first_where(s, p, i));
    } else {
        let j = choose|j: int| 0 <= j < i && p(#[trigger] s[j]);
        lemma_first_below(s, p, j);
    }
}

/// The first match is unique, so `first_where` names it.
pub proof fn lemma_first_where(s: Seq<WindowState>, p: spec_fn(WindowState) -> bool, i: int)
    requires
        is_first_where(s, p, i),
    ensures
        has_where(s, p),
        first_where(s, p) == i,
        find_where(s, p) == Some(s[i]),
{
    assert(has_where(s, p));
    let k = first_where(s, p);
    assert(is_first_where(s, p, k));
    if k < i {
        assert(!p(s[k]));
    } else if k > i {
        assert(!p(s[i]));
    }
}

/// A filter keeps distinct, bounded ids distinct and bounded.
proof fn lemma_filter_ids(s: Seq<WindowState>, pred: spec_fn(WindowState) -> bool, n: u64)
    requires
        ids_distinct(s),
        ids_at_most(s, n),
    ensures
        ids_distinct(s.filter(pred)),
        ids_at_most(s.filter(pred), n),
        forall|i: int| 0 <= i < s.filter(pred).len() ==> s.contains(#[trigger] s.filter(pred)[i]),
    decreases s.len(),
{
    reveal(Seq::filter);
    if s.len() > 0 {
        let rest = s.drop_last();
        assert(ids_distinct(rest));
        assert(ids_at_most(rest, n));
        lemma_filter_ids(rest, pred, n);
        let fr = rest.filter(pred);
        assert forall|i: int| 0 <= i < fr.len() implies #[trigger] fr[i].id != s.last().id by {
            assert(rest.contains(fr[i]));
            let j = choose|j: int| 0 <= j < rest.len() && rest[j] == fr[i];
            assert(s[j] == rest[j]);
        }
        assert forall|i: int| 0 <= i < fr.len() implies s.contains(#[trigger] fr[i]) by {
            assert(rest.contains(fr[i]));
            let j = choose|j: int| 0 <= j < rest.len() && rest[j] == fr[i];
            assert(s[j] == rest[j]);
        }
        if pred(s.last()) {
            let out = fr.push(s.last());
            assert(s.filter(pred) == out);
            assert forall|i: int| 0 <= i < out.len() implies s.contains(#[trigger] out[i]) by {
                if i == out.len() - 1 {
                    assert(s[s.len() - 1] == out[i]);
                } else {
                    assert(out[i] == fr[i]);
                }
            }
        }
    }
}

/// `add` on a well-formed layout hands out a fresh id and keeps the layout
/// well-formed.
pub proof fn lemma_add_view(v: LayoutView, title: String, screen_w: u32, screen_h: u32)
    requires
        v.wf(),
        v.next_id < u64::MAX,
    ensures
        after_add(v, title, screen_w, screen_h).wf(),
        !has_where(v.windows, id_is((v.next_id + 1) as u64)),
        forall|i: int| 0 <= i < v.windows.len() ==> #[trigger] v.windows[i].id < v.next_id + 1,
{
    let id = (v.next_id + 1) as u64;
    let before = v.windows;
    let fin = after_add(v, title, screen_w, screen_h).windows;
    if has_where(before, id_is(id)) {
        let k = choose|k: int| 0 <= k < before.len() && id_is(id)(#[trigger] before[k]);
        assert(before[k].id <= v.next_id);
    }
    assert forall|a: int, b: int|
        0 <= a < fin.len() && 0 <= b < fin.len() && a != b implies fin[a].id != fin[b].id by {
        if a < before.len() {
            assert(fin[a].id == before[a].id);
        }
        if b < before.len() {
            assert(fin[b].id == before[b].id);
        }
    }
    assert forall|a: int| 0 <= a < fin.len() implies fin[a].id <= id by {
        if a < before.len() {
            assert(fin[a].id == before[a].id);
        }
    }
}

/// Changing the first window with an id, without changing its id, keeps
/// every id in place.
proof fn lemma_map_first_ids(s: Seq<WindowState>, id: u64, f: spec_fn(WindowState) -> WindowState)
    requires
        forall|w: WindowState| #[trigger] f(w).id == w.id,
    ensures
        map_first(s, id, f).len() == s.len(),
        forall|i: int| 0 <= i < s.len() ==> #[trigger] map_first(s, id, f)[i].id == s[i].id,
{
    if has_where(s, id_is(id)) {
        lemma_has_first(s, id_is(id));
        let k = first_where(s, id_is(id));
        assert(f(s[k]).id == s[k].id);
    }
}

/// Removing by id leaves no window with that id, and keeps ids distinct and bounded.
proof fn lemma_remove_model(v: Seq<WindowState>, id: u64, n: u64)
    ensures
        !has_where(focus_top(without_id(v, id)), id_is(id)),
        ids_distinct(v) && ids_at_most(v, n) ==> ids_distinct(focus_top(without_id(v, id)))
            && ids_at_most(focus_top(without_id(v, id)), n),
{
    let pred = id_is_not(id);
    let f = without_id(v, id);
    broadcast use Seq::lemma_filter_pred;
    assert forall|i: int| 0 <= i < f.len() implies #[trigger] f[i].id != id by {
        assert(pred(f[i]));
    }
    let r = focus_top(f);
    assert forall|i: int| 0 <= i < r.len() implies #[trigger] r[i].id == f[i].id by {}
    if has_where(r, id_is(id)) {
        let i = choose|i: int| 0 <= i < r.len() && id_is(id)(#[trigger] r[i]);
        assert(r[i].id == f[i].id);
    }
    if ids_distinct(v) && ids_at_most(v, n) {
        lemma_filter_ids(v, pred, n);
    }
}

impl Default for FloatingLayout {
    fn default() -> (r: Self)
        ensures
            r@ == empty_layout(),
    {
        let r = FloatingLayout { windows: Vec::new(), next_id: 0, cascade_step: 0 };
        assert(r@.windows =~= Seq::<WindowState>::empty());
        r
    }
}

impl FloatingLayout {
    /// An empty layout.
    pub fn new() -> (r: Self)
        ensures
            r@ == empty_layout(),
            r@.wf(),
    {
        Self::default()
    }

    /// Whether `add` can hand out another id: the id counter has not reached
    /// its maximum, and the cascade offset is in range (which it always is).
    pub fn can_add(&self) -> (b: bool)
        ensures
            b == (self@.next_id < u64::MAX && 0 <= self@.cascade_step < 180),
    {
        self.next_id < u64::MAX && 0 <= self.cascade_step && self.cascade_step < 180
    }

    /// Register a new window; returns its layout id.
    ///
    /// The window is cascaded from the previous one, gets two thirds of the
    /// screen (at least 400×300), goes on top and takes the focus.
    pub fn add(&mut self, title: String, screen_w: u32, screen_h: u32) -> (id: u64)
        requires
            old(self)@.next_id < u64::MAX,
            0 <= old(self)@.cascade_step < 180,
            screen_w <= u32::MAX / 2,
            screen_h <= u32::MAX / 2,
        ensures
            id == old(self)@.next_id + 1,
            final(self)@ == after_add(old(self)@, title, screen_w, screen_h),
            // the new window is the only focused one
            forall|i: int|
                0 <= i < final(self)@.windows.len() ==> (#[trigger] final(self)@.windows[i].focused
                    <==> i == final(self)@.windows.len() - 1),
            // a fresh id: no window had it
            old(self)@.wf() ==> !has_where(old(self)@.windows, id_is(id)),
            old(self)@.wf() ==> final(self)@.wf(),
    {
        self.next_id = self.next_id + 1;
        let id = self.next_id;

        let off = self.cascade_step;
        self.cascade_step = (self.cascade_step + 28) % 180;

        let sw = screen_w * 2 / 3;
        let w = if sw >= 400 { sw } else { 400 };
        let sh = screen_h * 2 / 3;
        let h = if sh >= 300 { sh } else { 300 };

        // Unfocus existing windows
        let ghost before = self.windows@;
        let mut i: usize = 0;
        while i < self.windows.len()
            invariant
                self.windows@.len() == before.len(),
                self.next_id == id,
                self.cascade_step == (off + 28) % 180,
                0 <= i <= before.len(),
                forall|j: int| 0 <= j < i ==> self.windows@[j] == with_focus(before[j], false),
                forall|j: int| i <= j < before.len() ==> self.windows@[j] == before[j],
            decreases before.len() - i,
        {
            self.windows[i].focused = false;
            i = i + 1;
        }
        assert(self.windows@ =~= all_unfocused(before));

        self.windows.push(
            WindowState {
                id,
                title,
                rect: Rect { x: 60 + off, y: 60 + off, w, h },
                focused: true,
                minimized: false,
                maximized: false,
            },
        );
        proof {
            assert(self.windows@ =~= after_add(old(self)@, title, screen_w, screen_h).windows);
            if old(self)@.wf() {
                lemma_add_view(old(self)@, title, screen_w, screen_h);
            }
        }
        id
    }

    /// Drop every window with id `id`; the topmost remaining window, if any,
    /// gets the focus flag.
    pub fn remove(&mut self, id: u64)
        ensures
            final(self)@ == after_remove(old(self)@, id),
            !has_where(final(self)@.windows, id_is(id)),
            old(self)@.wf() ==> final(self)@.wf(),
    {
        let ghost before = self.windows@;
        let ghost pred = id_is_not(id);
        let ghost mut k: int = 0;
        let mut i: usize = 0;
        proof {
            reveal_with_fuel(Seq::filter, 1);
            assert(before.subrange(0, 0) =~= Seq::<WindowState>::empty());
            assert(before.subrange(0, 0).filter(pred) =~= Seq::<WindowState>::empty());
            assert(self.windows@.subrange(0, 0) =~= Seq::<WindowState>::empty());
            assert(self.windows@.subrange(0, self.windows@.len() as int) =~= before.subrange(0, before.len() as int));
        }
        while i < self.windows.len()
            invariant
                0 <= i <= self.windows@.len(),
                0 <= k <= before.len(),
                self.windows@.len() - i == before.len() - k,
                self.next_id == old(self).next_id,
                self.cascade_step == old(self).cascade_step,
                self.windows@.subrange(0, i as int) == before.subrange(0, k).filter(pred),
                self.windows@.subrange(i as int, self.windows@.len() as int) == before.subrange(k, before.len() as int),
                pred == id_is_not(id),
            decreases self.windows@.len() - i,
        {
            let ghost cur = self.windows@;
            proof {
                assert(cur[i as int] == cur.subrange(i as int, cur.len() as int)[0]);
                assert(before.subrange(0, k + 1) =~= before.subrange(0, k).push(before[k]));
                before.subrange(0, k).lemma_filter_push(before[k], pred);
            }
            if self.windows[i].id == id {
                self.windows.remove(i);
                proof {
                    assert(self.windows@.subrange(0, i as int) =~= cur.subrange(0, i as int));
                    let tail = before.subrange(k, before.len() as int);
                    assert(cur.subrange(i as int + 1, cur.len() as int) =~= cur.subrange(i as int, cur.len() as int).subrange(1, tail.len() as int));
                    assert(before.subrange(k + 1, before.len() as int) =~= tail.subrange(1, tail.len() as int));
                    assert(self.windows@.subrange(i as int, self.windows@.len() as int)
                        =~= cur.subrange(i as int + 1, cur.len() as int));
                    k = k + 1;
                }
            } else {
                i = i + 1;
                proof {
                    assert(self.windows@.subrange(0, i as int) =~= cur.subrange(0, i - 1).push(cur[i - 1]));
                    let tail = before.subrange(k, before.len() as int);
                    assert(cur.subrange(i as int, cur.len() as int) =~= cur.subrange(i - 1, cur.len() as int).subrange(1, tail.len() as int));
                    assert(before.subrange(k + 1, before.len() as int) =~= tail.subrange(1, tail.len() as int));
                    k = k + 1;
                }
            }
        }
        proof {
            assert(self.windows@.subrange(0, i as int) =~= self.windows@);
            assert(before.subrange(0, k) =~= before);
            assert(self.windows@ == without_id(before, id));
        }
        let n = self.windows.len();
        if n > 0 {
            self.windows[n - 1].focused = true;
        }
        proof {
            assert(self.windows@ =~= focus_top(without_id(before, id)));
            lemma_remove_model(before, id, self.next_id);
        }
    }

    /// Give the focus flag to the windows with id `id`, take it from all others.
    pub fn focus(&mut self, id: u64)
        ensures
            final(self)@ == after_focus(old(self)@, id),
            forall|i: int|
                0 <= i < final(self)@.windows.len() ==> (#[trigger] final(self)@.windows[i].focused
                    <==> final(self)@.windows[i].id == id),
            old(self)@.wf() ==> final(self)@.wf(),
    {
        let ghost before = self.windows@;
        let mut i: usize = 0;
        while i < self.windows.len()
            invariant
                self.windows@.len() == before.len(),
                self.next_id == old(self).next_id,
                self.cascade_step == old(self).cascade_step,
                0 <= i <= before.len(),
                forall|j: int| 0 <= j < i ==> self.windows@[j] == with_focus(before[j], before[j].id == id),
                forall|j: int| i <= j < before.len() ==> self.windows@[j] == before[j],
            decreases before.len() - i,
        {
            let is_target = self.windows[i].id == id;
            self.windows[i].focused = is_target;
            i = i + 1;
        }
        assert(self.windows@ =~= focus_only(before, id));
    }

    /// The index of the first window with id `id`.
    fn index_of(&self, id: u64) -> (r: Option<usize>)
        ensures
            match r {
                Some(i) => is_first_where(self@.windows, id_is(id), i as int),
                None => !has_where(self@.windows, id_is(id)),
            },
    {
        let mut i: usize = 0;
        while i < self.windows.len()
            invariant
                0 <= i <= self.windows@.len(),
                forall|j: int| 0 <= j < i ==> !id_is(id)(#[trigger] self.windows@[j]),
            decreases self.windows@.len() - i,
        {
            if self.windows[i].id == id {
                return Some(i);
            }
            i = i + 1;
        }
        None
    }

    /// The index of the first focused window.
    fn focused_index(&self) -> (r: Option<usize>)
        ensures
            match r {
                Some(i) => is_first_where(self@.windows, is_focused(), i as int),
                None => !has_where(self@.windows, is_focused()),
            },
    {
        let mut i: usize = 0;
        while i < self.windows.len()
            invariant
                0 <= i <= self.windows@.len(),
                forall|j: int| 0 <= j < i ==> !is_focused()(#[trigger] self.windows@[j]),
            decreases self.windows@.len() - i,
        {
            if self.windows[i].focused {
                return Some(i);
            }
            i = i + 1;
        }
        None
    }

    /// Move the first window with id `id` to `(x, y)`.
    pub fn move_window(&mut self, id: u64, x: i32, y: i32)
        ensures
            final(self)@ == after_move(old(self)@, id, x, y),
            old(self)@.wf() ==> final(self)@.wf(),
            // `get(id)` then finds the same window, now at (x, y)
            (find_where(final(self)@.windows, id_is(id)) is Some) == (find_where(old(self)@.windows, id_is(id)) is Some),
            find_where(final(self)@.windows, id_is(id)) matches Some(w) ==> w.rect.x == x && w.rect.y == y,
    {
        let ghost before = self.windows@;
        if let Some(i) = self.index_of(id) {
            proof { lemma_first_where(before, id_is(id), i as int); }
            self.windows[i].rect.x = x;
            self.windows[i].rect.y = y;
            assert(self.windows@ =~= before.update(i as int, moved(before[i as int], x, y)));
        }
        proof {
            lemma_update_keeps_ids(before, self.windows@, self.next_id);
            law_move_sets_position(before, id, x, y);
        }
    }

    /// Resize the first window with id `id`, to at least 120×80.
    pub fn resize_window(&mut self, id: u64, width: u32, height: u32)
        ensures
            final(self)@ == after_resize(old(self)@, id, width, height),
            old(self)@.wf() ==> final(self)@.wf(),
            // each side is clamped on its own: max(width, 120) by max(height, 80)
            (find_where(final(self)@.windows, id_is(id)) is Some) == (find_where(old(self)@.windows, id_is(id)) is Some),
            find_where(final(self)@.windows, id_is(id)) matches Some(w) ==> w.rect.w == (if width >= 120 {
                width
            } else {
                120u32
            }) && w.rect.h == (if height >= 80 {
                height
            } else {
                80u32
            }),
    {
        let ghost before = self.windows@;
        if let Some(i) = self.index_of(id) {
            proof { lemma_first_where(before, id_is(id), i as int); }
            self.windows[i].rect.w = if width >= MIN_WIDTH { width } else { MIN_WIDTH };
            self.windows[i].rect.h = if height >= MIN_HEIGHT { height } else { MIN_HEIGHT };
            assert(self.windows@ =~= before.update(i as int, resized(before[i as int], width, height)));
        }
        proof {
            lemma_update_keeps_ids(before, self.windows@, self.next_id);
            law_resize_each_side(before, id, width, height);
        }
    }

    /// Maximize the first window with id `id` to the whole screen, or take
    /// the maximized flag from it when it has it (its rectangle then stays).
    pub fn toggle_maximize(&mut self, id: u64, screen_w: u32, screen_h: u32)
        ensures
            final(self)@ == after_toggle(old(self)@, id, screen_w, screen_h),
            old(self)@.wf() ==> final(self)@.wf(),
            // the flag flips; a window that becomes maximized covers the screen
            (find_where(final(self)@.windows, id_is(id)) is Some) == (find_where(old(self)@.windows, id_is(id)) is Some),
            find_where(final(self)@.windows, id_is(id)) matches Some(w) ==> w.maximized
                == !find_where(old(self)@.windows, id_is(id))->0.maximized,
            find_where(final(self)@.windows, id_is(id)) matches Some(w) ==> (w.maximized ==> w.rect
                == full_screen(screen_w, screen_h)),
    {
        let ghost before = self.windows@;
        if let Some(i) = self.index_of(id) {
            proof { lemma_first_where(before, id_is(id), i as int); }
            if self.windows[i].maximized {
                self.windows[i].maximized = false;
            } else {
                self.windows[i].maximized = true;
                self.windows[i].rect = Rect { x: 0, y: 0, w: screen_w, h: screen_h };
            }
            assert(self.windows@ =~= before.update(i as int, toggled(before[i as int], screen_w, screen_h)));
        }
        proof {
            lemma_update_keeps_ids(before, self.windows@, self.next_id);
            law_toggle_flips_flag(before, id, screen_w, screen_h);
        }
    }

    /// The first focused window, if any.
    pub fn focused(&self) -> (r: Option<&WindowState>)
        ensures
            match r {
                Some(w) => find_where(self@.windows, is_focused()) == Some(*w),
                None => find_where(self@.windows, is_focused()) is None,
            },
    {
        match self.focused_index() {
            Some(i) => {
                proof { lemma_first_where(self@.windows, is_focused(), i as int); }
                Some(&self.windows[i])
            },
            None => None,
        }
    }

    /// The first window with id `id`, if any.
    pub fn get(&self, id: u64) -> (r: Option<&WindowState>)
        ensures
            match r {
                Some(w) => find_where(self@.windows, id_is(id)) == Some(*w),
                None => find_where(self@.windows, id_is(id)) is None,
            },
    {
        match self.index_of(id) {
            Some(i) => {
                proof { lemma_first_where(self@.windows, id_is(id), i as int); }
                Some(&self.windows[i])
            },
            None => None,
        }
    }
}

/// Changing windows without changing their ids keeps the layout state.
proof fn lemma_update_keeps_ids(before: Seq<WindowState>, after: Seq<WindowState>, n: u64)
    requires
        after.len() == before.len(),
        forall|i: int| 0 <= i < before.len() ==> #[trigger] after[i].id == before[i].id,
    ensures
        ids_distinct(before) ==> ids_distinct(after),
        ids_at_most(before, n) ==> ids_at_most(after, n),
{
    if ids_distinct(before) {
        assert forall|i: int, j: int|
            0 <= i < after.len() && 0 <= j < after.len() && i != j implies after[i].id != after[j].id by {
            assert(after[i].id == before[i].id);
            assert(after[j].id == before[j].id);
        }
    }
}

// ---------------------------------------------------------------------------
// Laws
// ---------------------------------------------------------------------------

/// After `move_window(id, x, y)`, `get(id)` gives the window it gave before,
/// moved to `(x, y)`; when there was none, there still is none.
pub proof fn law_get_after_move(s: Seq<WindowState>, id: u64, x: i32, y: i32)
    ensures
        find_where(map_first(s, id, |w: WindowState| moved(w, x, y)), id_is(id)) == match find_where(s, id_is(id)) {
            Some(w) => Some(moved(w, x, y)),
            None => None,
        },
{
    lemma_map_first_find(s, id, |w: WindowState| moved(w, x, y));
}

/// After `resize_window(id, width, height)`, `get(id)` gives the window it
/// gave before, resized to at least the minimum size.
pub proof fn law_get_after_resize(s: Seq<WindowState>, id: u64, width: u32, height: u32)
    ensures
        find_where(map_first(s, id, |w: WindowState| resized(w, width, height)), id_is(id)) == match find_where(s, id_is(id)) {
            Some(w) => Some(resized(w, width, height)),
            None => None,
        },
{
    lemma_map_first_find(s, id, |w: WindowState| resized(w, width, height));
}

/// Toggling the maximized state twice gives the window its flag back.
pub proof fn law_toggle_twice_restores_flag(s: Seq<WindowState>, id: u64, screen_w: u32, screen_h: u32)
    requires
        has_where(s, id_is(id)),
    ensures
        find_where(
            map_first(
                map_first(s, id, |w: WindowState| toggled(w, screen_w, screen_h)),
                id,
                |w: WindowState| toggled(w, screen_w, screen_h),
            ),
            id_is(id),
        )->0.maximized == find_where(s, id_is(id))->0.maximized,
{
    let f = |w: WindowState| toggled(w, screen_w, screen_h);
    lemma_map_first_find(s, id, f);
    lemma_map_first_find(map_first(s, id, f), id, f);
}

/// Changing the window with one id leaves what `get` gives for every other id.
pub proof fn law_map_first_keeps_others(s: Seq<WindowState>, id: u64, other: u64, f: spec_fn(WindowState) -> WindowState)
    requires
        other != id,
        forall|w: WindowState| #[trigger] f(w).id == w.id,
    ensures
        find_where(map_first(s, id, f), id_is(other)) == find_where(s, id_is(other)),
{
    let t = map_first(s, id, f);
    if has_where(s, id_is(id)) {
        lemma_has_first(s, id_is(id));
    }
    assert(t.len() == s.len());
    assert forall|i: int| 0 <= i < s.len() implies (#[trigger] t[i]).id == s[i].id && (s[i].id == other ==> t[i] == s[i]) by {
        if has_where(s, id_is(id)) {
            lemma_has_first(s, id_is(id));
            let k = first_where(s, id_is(id));
            if i == k {
                assert(f(s[k]).id == s[k].id);
            }
        }
    }
    if has_where(s, id_is(other)) {
        lemma_has_first(s, id_is(other));
        let k = first_where(s, id_is(other));
        assert(is_first_where(t, id_is(other), k));
        lemma_first_where(t, id_is(other), k);
        lemma_first_where(s, id_is(other), k);
    } else {
        if has_where(t, id_is(other)) {
            let i = choose|i: int| 0 <= i < t.len() && id_is(other)(#[trigger] t[i]);
            assert(id_is(other)(s[i]));
        }
    }
}

/// After `remove(id)`, `get(id)` gives nothing.
pub proof fn law_get_after_remove(s: Seq<WindowState>, id: u64)
    ensures
        find_where(focus_top(without_id(s, id)), id_is(id)) is None,
{
    lemma_remove_model(s, id, 0);
}

/// `remove(id)` keeps every window with another id: `get` finds each other id
/// exactly when it did before.
pub proof fn law_remove_keeps_others(s: Seq<WindowState>, id: u64, other: u64)
    requires
        other != id,
    ensures
        has_where(focus_top(without_id(s, id)), id_is(other)) == has_where(s, id_is(other)),
{
    let f = without_id(s, id);
    let r = focus_top(f);
    assert forall|i: int| 0 <= i < r.len() implies #[trigger] r[i].id == f[i].id by {}
    if has_where(s, id_is(other)) {
        let i = choose|i: int| 0 <= i < s.len() && id_is(other)(#[trigger] s[i]);
        s.lemma_filter_contains(id_is_not(id), i);
        let j = choose|j: int| 0 <= j < f.len() && f[j] == s[i];
        assert(r[j].id == other);
        assert(id_is(other)(r[j]));
    }
    if has_where(r, id_is(other)) {
        let j = choose|j: int| 0 <= j < r.len() && id_is(other)(#[trigger] r[j]);
        assert(f.contains(f[j]));
        s.lemma_filter_contains_rev(id_is_not(id), f[j]);
        let i = choose|i: int| 0 <= i < s.len() && s[i] == f[j];
        assert(id_is(other)(s[i]));
    }
}

/// Every state reached from `new()` by any sequence of calls is well-formed
/// (ids distinct, each at most the last one handed out, cascade offset in
/// range), and the last id handed out is the number of `add` calls: ids start
/// at 1, grow by one per `add`, and are never reused, not even after `remove`.
pub proof fn law_reachable_state(ops: Seq<LayoutOp>)
    requires
        add_count(ops) <= u64::MAX,
    ensures
        run(empty_layout(), ops).wf(),
        run(empty_layout(), ops).next_id == add_count(ops),
    decreases ops.len(),
{
    if ops.len() > 0 {
        let p = ops.drop_last();
        law_reachable_state(p);
        let v = run(empty_layout(), p);
        let n = v.next_id;
        match ops.last() {
            LayoutOp::Add { title, screen_w, screen_h } => {
                lemma_add_view(v, title, screen_w, screen_h);
            },
            LayoutOp::Remove { id } => {
                lemma_remove_model(v.windows, id, n);
            },
            LayoutOp::Focus { id } => {
                lemma_update_keeps_ids(v.windows, focus_only(v.windows, id), n);
            },
            LayoutOp::Move { id, x, y } => {
                let f = |w: WindowState| moved(w, x, y);
                lemma_map_first_ids(v.windows, id, f);
                lemma_update_keeps_ids(v.windows, map_first(v.windows, id, f), n);
            },
            LayoutOp::Resize { id, width, height } => {
                let f = |w: WindowState| resized(w, width, height);
                lemma_map_first_ids(v.windows, id, f);
                lemma_update_keeps_ids(v.windows, map_first(v.windows, id, f), n);
            },
            LayoutOp::ToggleMaximize { id, screen_w, screen_h } => {
                let f = |w: WindowState| toggled(w, screen_w, screen_h);
                lemma_map_first_ids(v.windows, id, f);
                lemma_update_keeps_ids(v.windows, map_first(v.windows, id, f), n);
            },
        }
    }
}

/// On a state reached from `new()` by the calls `ops`, `add` returns the
/// number of earlier `add` calls plus one, an id larger than that of every
/// window; the ids stay distinct and `get` of the returned id gives the new
/// window.
pub proof fn law_add_on_reachable(ops: Seq<LayoutOp>, title: String, screen_w: u32, screen_h: u32)
    requires
        add_count(ops) < u64::MAX,
    ensures
        run(empty_layout(), ops).next_id + 1 == add_count(ops) + 1,
        forall|i: int|
            0 <= i < run(empty_layout(), ops).windows.len() ==> #[trigger] run(empty_layout(), ops).windows[i].id
                < add_count(ops) + 1,
        ids_distinct(after_add(run(empty_layout(), ops), title, screen_w, screen_h).windows),
        find_where(
            after_add(run(empty_layout(), ops), title, screen_w, screen_h).windows,
            id_is((add_count(ops) + 1) as u64),
        ) == Some(after_add(run(empty_layout(), ops), title, screen_w, screen_h).windows.last()),
{
    law_reachable_state(ops);
    let v = run(empty_layout(), ops);
    lemma_add_view(v, title, screen_w, screen_h);
    let w = new_window((v.next_id + 1) as u64, title, v.cascade_step, screen_w, screen_h);
    law_get_after_add(v.windows, w);
}

/// Whatever the focus flags were, after `add` exactly one window is focused,
/// the new one on top, and `focused()` gives it.
pub proof fn law_add_focus(v: LayoutView, title: String, screen_w: u32, screen_h: u32)
    ensures
        forall|i: int|
            0 <= i < after_add(v, title, screen_w, screen_h).windows.len() ==> (
            #[trigger] after_add(v, title, screen_w, screen_h).windows[i].focused <==> i
                == after_add(v, title, screen_w, screen_h).windows.len() - 1),
        find_where(after_add(v, title, screen_w, screen_h).windows, is_focused()) == Some(
            after_add(v, title, screen_w, screen_h).windows.last(),
        ),
{
    let w = new_window((v.next_id + 1) as u64, title, v.cascade_step, screen_w, screen_h);
    law_focused_after_add(v.windows, w);
}

/// A filter that keeps every element changes nothing.
proof fn lemma_filter_keeps_all(s: Seq<WindowState>, pred: spec_fn(WindowState) -> bool)
    requires
        forall|i: int| 0 <= i < s.len() ==> pred(#[trigger] s[i]),
    ensures
        s.filter(pred) == s,
    decreases s.len(),
{
    reveal(Seq::filter);
    if s.len() > 0 {
        lemma_filter_keeps_all(s.drop_last(), pred);
        assert(s.drop_last().push(s.last()) =~= s);
    }
}

/// `remove` of the id that `add` just returned, on a well-formed layout, gives
/// back the earlier windows, all unfocused but the topmost, which is focused;
/// the id is not handed out again. When the earlier topmost window was the
/// only focused one, the windows are exactly the earlier ones.
pub proof fn law_remove_after_add(v: LayoutView, title: String, screen_w: u32, screen_h: u32)
    requires
        v.wf(),
        v.next_id < u64::MAX,
    ensures
        after_remove(after_add(v, title, screen_w, screen_h), (v.next_id + 1) as u64).windows
            == focus_top(all_unfocused(v.windows)),
        after_remove(after_add(v, title, screen_w, screen_h), (v.next_id + 1) as u64).next_id
            == v.next_id + 1,
        (forall|i: int| 0 <= i < v.windows.len() ==> (#[trigger] v.windows[i].focused <==> i
            == v.windows.len() - 1)) ==> after_remove(
            after_add(v, title, screen_w, screen_h),
            (v.next_id + 1) as u64,
        ).windows == v.windows,
{
    let id = (v.next_id + 1) as u64;
    let u = all_unfocused(v.windows);
    let w = new_window(id, title, v.cascade_step, screen_w, screen_h);
    u.lemma_filter_push(w, id_is_not(id));
    assert forall|i: int| 0 <= i < u.len() implies id_is_not(id)(#[trigger] u[i]) by {
        assert(v.windows[i].id <= v.next_id);
    }
    lemma_filter_keeps_all(u, id_is_not(id));
    assert(without_id(u.push(w), id) == u);
    if forall|i: int| 0 <= i < v.windows.len() ==> (#[trigger] v.windows[i].focused <==> i
        == v.windows.len() - 1) {
        let t = focus_top(u);
        assert forall|i: int| 0 <= i < v.windows.len() implies t[i] == v.windows[i] by {
            assert(v.windows[i].focused == (i == v.windows.len() - 1));
        }
        assert(t =~= v.windows);
    }
}

/// After `move_window(id, x, y)`, `get(id)` finds a window exactly when it did
/// before, and it is at `(x, y)` with its size unchanged.
pub proof fn law_move_sets_position(s: Seq<WindowState>, id: u64, x: i32, y: i32)
    ensures
        (find_where(after_move(with_windows(empty_layout(), s), id, x, y).windows, id_is(id)) is Some) == (find_where(s, id_is(id)) is Some),
        find_where(after_move(with_windows(empty_layout(), s), id, x, y).windows, id_is(id)) matches Some(w)
            ==> w.rect.x == x && w.rect.y == y && w.rect.w == find_where(s, id_is(id))->0.rect.w && w.rect.h
            == find_where(s, id_is(id))->0.rect.h,
{
    lemma_map_first_find(s, id, |w: WindowState| moved(w, x, y));
}

/// After `resize_window(id, width, height)`, `get(id)` finds a window exactly
/// when it did before; its width is max(width, 120) and its height
/// max(height, 80), each side clamped on its own, and its position stays.
pub proof fn law_resize_each_side(s: Seq<WindowState>, id: u64, width: u32, height: u32)
    ensures
        (find_where(after_resize(with_windows(empty_layout(), s), id, width, height).windows, id_is(id)) is Some) == (find_where(s, id_is(id)) is Some),
        find_where(after_resize(with_windows(empty_layout(), s), id, width, height).windows, id_is(id)) matches Some(
            w,
        ) ==> w.rect.w == (if width >= 120 {
            width
        } else {
            120u32
        }) && w.rect.h == (if height >= 80 {
            height
        } else {
            80u32
        }) && w.rect.x == find_where(s, id_is(id))->0.rect.x && w.rect.y == find_where(s, id_is(id))->0.rect.y,
{
    lemma_map_first_find(s, id, |w: WindowState| resized(w, width, height));
}

/// After `toggle_maximize(id, screen_w, screen_h)`, `get(id)` finds a window
/// exactly when it did before; its maximized flag is flipped, and when it is
/// now maximized it covers the screen from the origin.
pub proof fn law_toggle_flips_flag(s: Seq<WindowState>, id: u64, screen_w: u32, screen_h: u32)
    ensures
        (find_where(after_toggle(with_windows(empty_layout(), s), id, screen_w, screen_h).windows, id_is(id)) is Some) == (find_where(s, id_is(id)) is Some),
        find_where(after_toggle(with_windows(empty_layout(), s), id, screen_w, screen_h).windows, id_is(id)) matches Some(
            w,
        ) ==> w.maximized == !find_where(s, id_is(id))->0.maximized && (w.maximized ==> w.rect == full_screen(
            screen_w,
            screen_h,
        )),
{
    lemma_map_first_find(s, id, |w: WindowState| toggled(w, screen_w, screen_h));
}

/// After `add`, `focused()` gives the new window.
pub proof fn law_focused_after_add(s: Seq<WindowState>, w: WindowState)
    requires
        w.focused,
    ensures
        find_where(all_unfocused(s).push(w), is_focused()) == Some(w),
{
    let t = all_unfocused(s).push(w);
    let n = t.len() - 1;
    assert forall|j: int| 0 <= j < n implies !is_focused()(#[trigger] t[j]) by {
        assert(t[j] == with_focus(s[j], false));
    }
    assert(is_first_where(t, is_focused(), n));
    lemma_first_where(t, is_focused(), n);
}

/// After `add` on a well-formed layout, `get` of the returned id gives the new
/// window.
pub proof fn law_get_after_add(s: Seq<WindowState>, w: WindowState)
    requires
        !has_where(s, id_is(w.id)),
    ensures
        find_where(all_unfocused(s).push(w), id_is(w.id)) == Some(w),
{
    let t = all_unfocused(s).push(w);
    let n = t.len() - 1;
    assert forall|j: int| 0 <= j < n implies !id_is(w.id)(#[trigger] t[j]) by {
        assert(t[j] == with_focus(s[j], false));
        assert(!id_is(w.id)(s[j]));
    }
    assert(is_first_where(t, id_is(w.id), n));
    lemma_first_where(t, id_is(w.id), n);
}

/// After `focus(id)`, `focused()` gives the window that `get(id)` gives, now
/// focused; when no window has that id, nothing is focused.
pub proof fn law_focused_after_focus(s: Seq<WindowState>, id: u64)
    ensures
        find_where(focus_only(s, id), is_focused()) == match find_where(s, id_is(id)) {
            Some(w) => Some(with_focus(w, true)),
            None => None,
        },
{
    let t = focus_only(s, id);
    assert forall|j: int| 0 <= j < s.len() implies (#[trigger] t[j]).focused == (s[j].id == id) && t[j] == with_focus(s[j], s[j].id == id) by {}
    if has_where(s, id_is(id)) {
        lemma_has_first(s, id_is(id));
        let k = first_where(s, id_is(id));
        assert(is_first_where(t, is_focused(), k));
        lemma_first_where(s, id_is(id), k);
        lemma_first_where(t, is_focused(), k);
    } else {
        if has_where(t, is_focused()) {
            let i = choose|i: int| 0 <= i < t.len() && is_focused()(#[trigger] t[i]);
            assert(id_is(id)(s[i]));
        }
    }
}

/// What `get` gives after a change to the first window with `id`.
proof fn lemma_map_first_find(s: Seq<WindowState>, id: u64, f: spec_fn(WindowState) -> WindowState)
    requires
        forall|w: WindowState| #[trigger] f(w).id == w.id,
    ensures
        find_where(map_first(s, id, f), id_is(id)) == match find_where(s, id_is(id)) {
            Some(w) => Some(f(w)),
            None => None,
        },
{
    let t = map_first(s, id, f);
    if has_where(s, id_is(id)) {
        lemma_has_first(s, id_is(id));
        let k = first_where(s, id_is(id));
        assert(f(s[k]).id == s[k].id);
        assert forall|j: int| 0 <= j < k implies !id_is(id)(#[trigger] t[j]) by {
            assert(t[j] == s[j]);
        }
        assert(is_first_where(t, id_is(id), k));
        lemma_first_where(t, id_is(id), k);
        lemma_first_where(s, id_is(id), k);
    }
}

} // verus!
