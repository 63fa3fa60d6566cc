//! The macOS window list: which on-screen windows the manager tracks, and
//! under what label.
use crate::layout::Rect;
use vstd::prelude::*;

verus! {

/// Lightweight snapshot returned by each sync pass.
#[derive(Debug, Clone)]
pub struct WindowInfo {
    pub pid: i32,
    pub title: String,
}

/// A window tracked by the macOS WM.
#[derive(Debug, Clone)]
pub struct ManagedWindow {
    pub pid: i32,
    pub title: String,
    pub frame: Rect,
}

/// One entry of the window server's on-screen window list, with the fields
/// that the manager reads; a field is `None` when the entry lacks it or it
/// has another type.
#[derive(Debug, Clone)]
pub struct WindowEntry {
    /// `kCGWindowLayer`
    pub layer: Option<i32>,
    /// `kCGWindowOwnerPID`
    pub owner_pid: Option<i32>,
    /// `kCGWindowOwnerName`
    pub owner_name: Option<String>,
    /// `kCGWindowName`
    pub name: Option<String>,
}

/// The value of `o`, or `d` when there is none.
pub open spec fn or_default(o: Option<i32>, d: i32) -> i32 {
    match o {
        Some(v) => v,
        None => d,
    }
}

/// The manager tracks normal application windows (layer 0) of a known
/// process (pid not 0).
pub open spec fn is_tracked(e: WindowEntry) -> bool {
    or_default(e.layer, 0) == 0 && or_default(e.owner_pid, 0) != 0
}

/// The label of a window: its name when it has a non-empty one, else its
/// owner's name, else "<unknown>".
pub open spec fn label_of(e: WindowEntry) -> Seq<char> {
    let app = match e.owner_name {
        Some(n) => n@,
        None => "<unknown>"@,
    };
    match e.name {
        Some(t) => if t@.len() == 0 { app } else { t@ },
        None => app,
    }
}

/// The pid and label of each tracked entry of `es`, in order.
pub open spec fn tracked_windows(es: Seq<WindowEntry>) -> Seq<(i32, Seq<char>)>
    decreases es.len(),
{
    if es.len() == 0 {
        Seq::empty()
    } else {
        let rest = tracked_windows(es.drop_last());
        let e = es.last();
        if is_tracked(e) {
            rest.push((or_default(e.owner_pid, 0), label_of(e)))
        } else {
            rest
        }
    }
}

/// The predicate "the manager tracks this entry".
pub open spec fn tracked_entry() -> spec_fn(WindowEntry) -> bool {
    |e: WindowEntry| is_tracked(e)
}

/// The pid and label that a tracked entry is listed with.
pub open spec fn entry_view(e: WindowEntry) -> (i32, Seq<char>) {
    (or_default(e.owner_pid, 0), label_of(e))
}

/// The pid and label of each window info.
pub open spec fn info_views(ws: Seq<WindowInfo>) -> Seq<(i32, Seq<char>)> {
    ws.map_values(|w: WindowInfo| (w.pid, w.title@))
}

/// The window info of an entry, when the manager tracks it.
pub fn window_info(e: &WindowEntry) -> (r: Option<WindowInfo>)
    ensures
        r is Some <==> is_tracked(*e),
        r matches Some(w) ==> w.pid == or_default(e.owner_pid, 0) && w.title@ == label_of(*e),
        // only normal application windows (layer 0) of a known process
        e.layer matches Some(l) && l != 0 ==> r is None,
        e.owner_pid is None ==> r is None,
        e.owner_pid == Some(0i32) ==> r is None,
        (e.layer is None || e.layer == Some(0i32)) && (e.owner_pid matches Some(p) && p != 0) ==> r is Some,
        r is Some ==> Some(r->0.pid) == e.owner_pid,
        // labelled by the window's own name when it has a non-empty one
        r is Some && e.name is Some && e.name->0@.len() > 0 ==> r->0.title@ == e.name->0@,
        r is Some && (e.name is None || e.name->0@.len() == 0) && e.owner_name is Some ==> r->0.title@
            == e.owner_name->0@,
        r is Some && (e.name is None || e.name->0@.len() == 0) && e.owner_name is None ==> r->0.title@
            == "<unknown>"@,
{
    let layer = match e.layer {
        Some(l) => l,
        None => 0,
    };
    // Skip background/desktop layers — only normal app windows (layer 0)
    if layer != 0 {
        return None;
    }
    let pid = match e.owner_pid {
        Some(p) => p,
        None => 0,
    };
    if pid == 0 {
        return None;
    }
    let app = match &e.owner_name {
        Some(n) => n.clone(),
        None => "<unknown>".to_owned(),
    };
    let label = match &e.name {
        Some(t) => if t.as_str().is_empty() { app } else { t.clone() },
        None => app,
    };
    Some(WindowInfo { pid, title: label })
}

/// The tracked windows among the on-screen window list `entries`, in order.
pub fn collect_windows(entries: &Vec<WindowEntry>) -> (r: Vec<WindowInfo>)
    ensures
        info_views(r@) == tracked_windows(entries@),
        // one item per tracked entry, in order: nothing merged, nothing dropped
        r@.len() == entries@.filter(tracked_entry()).len(),
        info_views(r@) == entries@.filter(tracked_entry()).map_values(|e: WindowEntry| entry_view(e)),
{
    let mut seen: Vec<WindowInfo> = Vec::new();
    let mut i: usize = 0;
    while i < entries.len()
        invariant
            0 <= i <= entries@.len(),
            info_views(seen@) == tracked_windows(entries@.take(i as int)),
        decreases entries@.len() - i,
    {
        let ghost before = seen@;
        let info = window_info(&entries[i]);
        proof {
            assert(entries@.take(i + 1).drop_last() =~= entries@.take(i as int));
            assert(entries@.take(i + 1).last() == entries@[i as int]);
        }
        match info {
            Some(w) => {
                seen.push(w);
                assert(info_views(seen@) =~= info_views(before).push((w.pid, w.title@)));
            },
            None => {},
        }
        i = i + 1;
    }
    assert(entries@.take(i as int) =~= entries@);
    proof {
        lemma_tracked_windows_filter(entries@);
    }
    seen
}

/// Whether some window of `windows` belongs to process `pid`: an overlay is
/// kept only for such a process.
pub fn has_window_for_pid(windows: &Vec<WindowInfo>, pid: i32) -> (r: bool)
    ensures
        r == exists|i: int| 0 <= i < windows@.len() && (#[trigger] windows@[i]).pid == pid,
{
    let mut i: usize = 0;
    while i < windows.len()
        invariant
            0 <= i <= windows@.len(),
            forall|j: int| 0 <= j < i ==> (#[trigger] windows@[j]).pid != pid,
        decreases windows@.len() - i,
    {
        if windows[i].pid == pid {
            return true;
        }
        i = i + 1;
    }
    false
}

/// The listed windows are the tracked entries, in order, each with its pid
/// and label.
pub proof fn lemma_tracked_windows_filter(es: Seq<WindowEntry>)
    ensures
        tracked_windows(es) == es.filter(tracked_entry()).map_values(|e: WindowEntry| entry_view(e)),
    decreases es.len(),
{
    reveal(Seq::filter);
    if es.len() > 0 {
        lemma_tracked_windows_filter(es.drop_last());
        let f = es.drop_last().filter(tracked_entry());
        if is_tracked(es.last()) {
            assert(f.push(es.last()).map_values(|e: WindowEntry| entry_view(e)) =~= f.map_values(
                |e: WindowEntry| entry_view(e),
            ).push(entry_view(es.last())));
        }
    }
}

/// An entry is tracked only in layer 0 (or with no layer) and with a known,
/// non-zero pid; its label is its own name when that is not empty, else the
/// owner's name, else "<unknown>".
pub proof fn law_tracked_entries(e: WindowEntry)
    ensures
        e.layer matches Some(l) && l != 0 ==> !is_tracked(e),
        e.owner_pid is None || e.owner_pid == Some(0i32) ==> !is_tracked(e),
        (e.layer is None || e.layer == Some(0i32)) && (e.owner_pid matches Some(p) && p != 0) ==> is_tracked(e),
        e.name is Some && e.name->0@.len() > 0 ==> label_of(e) == e.name->0@,
        (e.name is None || e.name->0@.len() == 0) && e.owner_name is Some ==> label_of(e) == e.owner_name->0@,
{
}

/// Listing keeps every tracked entry, one item each, in order: two windows of
/// one process are both listed.
pub proof fn law_list_keeps_every_tracked_entry(es: Seq<WindowEntry>)
    ensures
        tracked_windows(es).len() == es.filter(tracked_entry()).len(),
        forall|k: int|
            0 <= k < tracked_windows(es).len() ==> #[trigger] tracked_windows(es)[k] == entry_view(
                es.filter(tracked_entry())[k],
            ),
{
    lemma_tracked_windows_filter(es);
}

} // verus!
