//! Targets of the Linux front-end. On X11 they are the titled client
//! windows (with the owning process's name); on Wayland, where windows
//! cannot be addressed, they are the processes, sorted by name.

use vstd::prelude::*;

use crate::detect::DisplayServer;
use crate::sort::{
    key_lt, lemma_sort_orders_values, pairs_view, sort_by_key, spec_sort, truncated, KeyView,
    SortKey,
};
use crate::text::{chars_lt, decimal, lowercase, spec_decimal, spec_lowercase, to_chars};

verus! {

/// A window or process that keys can be sent to.
#[derive(Clone, Debug)]
pub struct Target {
    pub pid: u32,
    /// X11 window id (0 when there is none, as on Wayland).
    pub window_id: u32,
    pub name: String,
    pub title: String,
}

/// A target as plain values.
pub struct TargetView {
    pub pid: u32,
    pub window_id: u32,
    pub name: Seq<char>,
    pub title: Seq<char>,
}

impl View for Target {
    type V = TargetView;

    open spec fn view(&self) -> TargetView {
        TargetView { pid: self.pid, window_id: self.window_id, name: self.name@, title: self.title@ }
    }
}

/// The label shown in the target list: `name  (PID pid)`, followed by
/// `  "title"` for a window.
pub open spec fn spec_label(t: TargetView) -> Seq<char> {
    if t.window_id != 0 {
        t.name + "  (PID "@ + spec_decimal(t.pid as nat) + ")  \""@ + t.title + "\""@
    } else {
        t.name + "  (PID "@ + spec_decimal(t.pid as nat) + ")"@
    }
}

impl Target {
    /// The label shown in the target list.
    pub fn label(&self) -> (l: String)
        ensures
            l@ == spec_label(self@),
    {
        let mut l = self.name.clone();
        l.append("  (PID ");
        let pid = decimal(self.pid as u64);
        l.append(pid.as_str());
        if self.window_id != 0 {
            l.append(")  \"");
            l.append(self.title.as_str());
            l.append("\"");
        } else {
            l.append(")");
        }
        l
    }
}

/// A client window found on the X server, with the name of the process
/// that owns it (`None` when it could not be read).
pub struct WindowInfo {
    pub window_id: u32,
    pub pid: u32,
    pub title: String,
    pub process_name: Option<String>,
}

/// A window is listed unless it belongs to `exclude_pid` or has no title.
pub open spec fn keeps_window(w: WindowInfo, exclude_pid: u32) -> bool {
    w.pid != exclude_pid && w.title@.len() > 0
}

/// The target for a listed window; an unreadable process name reads `unknown`.
pub open spec fn window_target(w: WindowInfo) -> TargetView {
    TargetView {
        pid: w.pid,
        window_id: w.window_id,
        name: match w.process_name {
            Some(n) => n@,
            None => "unknown"@,
        },
        title: w.title@,
    }
}

pub open spec fn window_entry(exclude_pid: u32) -> spec_fn(WindowInfo) -> Option<TargetView> {
    |w: WindowInfo|
        if keeps_window(w, exclude_pid) {
            Some(window_target(w))
        } else {
            None
        }
}

/// The targets for the X server's windows: the listed ones, in order, at most 100.
pub open spec fn spec_window_targets(windows: Seq<WindowInfo>, exclude_pid: u32) -> Seq<
    TargetView,
> {
    truncated(windows.filter_map(window_entry(exclude_pid)), 100)
}

pub open spec fn targets_view(ts: Seq<Target>) -> Seq<TargetView> {
    ts.map_values(|t: Target| t@)
}

/// The targets for the X server's windows.
pub fn window_targets(windows: Vec<WindowInfo>, exclude_pid: u32) -> (ts: Vec<Target>)
    ensures
        targets_view(ts@) == spec_window_targets(windows@, exclude_pid),
{
    let ghost orig = windows@;
    let mut rest = windows;
    let n = rest.len();
    let mut out: Vec<Target> = Vec::new();
    let mut i: usize = 0;
    assert(orig.skip(0) =~= orig);
    assert(targets_view(out@) =~= orig.take(0).filter_map(window_entry(exclude_pid)));
    while i < n
        invariant
            n == orig.len(),
            i <= n,
            rest@ == orig.skip(i as int),
            targets_view(out@) == orig.take(i as int).filter_map(window_entry(exclude_pid)),
        decreases n - i,
    {
        let w = rest.remove(0);
        assert(w == orig[i as int]);
        assert(rest@ =~= orig.skip(i + 1));
        proof {
            orig.lemma_filter_map_take_succ(window_entry(exclude_pid), i as int);
        }
        let ghost before = out@;
        if w.pid != exclude_pid && w.title.as_str().unicode_len() > 0 {
            let name = match w.process_name {
                Some(n) => n,
                None => String::from_str("unknown"),
            };
            out.push(Target { pid: w.pid, window_id: w.window_id, name, title: w.title });
            assert(targets_view(out@) =~= targets_view(before) + seq![window_target(w)]);
        } else {
            assert(targets_view(out@) =~= targets_view(before) + Seq::<TargetView>::empty());
        }
        i = i + 1;
    }
    assert(orig.take(n as int) =~= orig);
    out.truncate(100);
    assert(targets_view(out@) =~= spec_window_targets(orig, exclude_pid));
    out
}

/// A running process: its id and its name.
pub struct ProcessInfo {
    pub pid: u32,
    pub name: String,
}

/// A process is listed unless it is `exclude_pid`, a low system pid
/// (below 100) or has an empty name.
pub open spec fn keeps_process(p: ProcessInfo, exclude_pid: u32) -> bool {
    p.pid != exclude_pid && p.pid >= 100 && spec_lowercase(p.name@).len() > 0
}

/// A listed process keyed by its lower-cased name.
pub open spec fn process_entry(exclude_pid: u32) -> spec_fn(ProcessInfo) -> Option<
    (KeyView, TargetView),
> {
    |p: ProcessInfo|
        if keeps_process(p, exclude_pid) {
            Some(
                (
                    KeyView {
                        primary: spec_lowercase(p.name@),
                        secondary: Seq::empty(),
                        number: 0,
                    },
                    TargetView { pid: p.pid, window_id: 0, name: p.name@, title: Seq::empty() },
                ),
            )
        } else {
            None
        }
}

pub open spec fn unkeyed<K, V>(s: Seq<(K, V)>) -> Seq<V> {
    s.map_values(|e: (K, V)| e.1)
}

/// The targets for the running processes: the listed ones, sorted by
/// lower-cased name (stably), at most 80.
pub open spec fn spec_process_targets(processes: Seq<ProcessInfo>, exclude_pid: u32) -> Seq<
    TargetView,
> {
    truncated(unkeyed(spec_sort(processes.filter_map(process_entry(exclude_pid)))), 80)
}

/// Takes the targets out of a keyed list, in order.
pub fn drop_keys(items: Vec<(SortKey, Target)>) -> (ts: Vec<Target>)
    ensures
        targets_view(ts@) == unkeyed(pairs_view(items@)),
{
    let ghost orig = items@;
    let mut rest = items;
    let n = rest.len();
    let mut out: Vec<Target> = Vec::new();
    let mut i: usize = 0;
    assert(orig.skip(0) =~= orig);
    while i < n
        invariant
            n == orig.len(),
            i <= n,
            rest@ == orig.skip(i as int),
            targets_view(out@) == unkeyed(pairs_view(orig.take(i as int))),
        decreases n - i,
    {
        let e = rest.remove(0);
        assert(e == orig[i as int]);
        assert(rest@ =~= orig.skip(i + 1));
        let ghost before = out@;
        out.push(e.1);
        assert(pairs_view(orig.take(i + 1)) =~= pairs_view(orig.take(i as int)).push(
            (e.0@, e.1@),
        ));
        assert(unkeyed(pairs_view(orig.take(i + 1))) =~= unkeyed(
            pairs_view(orig.take(i as int)),
        ).push(e.1@));
        assert(targets_view(out@) =~= targets_view(before).push(e.1@));
        i = i + 1;
    }
    assert(orig.take(n as int) =~= orig);
    out
}

/// The targets for the running processes.
pub fn process_targets(processes: Vec<ProcessInfo>, exclude_pid: u32) -> (ts: Vec<Target>)
    ensures
        targets_view(ts@) == spec_process_targets(processes@, exclude_pid),
{
    let ghost orig = processes@;
    let mut rest = processes;
    let n = rest.len();
    let mut keyed: Vec<(SortKey, Target)> = Vec::new();
    let mut i: usize = 0;
    assert(orig.skip(0) =~= orig);
    assert(pairs_view(keyed@) =~= orig.take(0).filter_map(process_entry(exclude_pid)));
    while i < n
        invariant
            n == orig.len(),
            i <= n,
            rest@ == orig.skip(i as int),
            pairs_view(keyed@) == orig.take(i as int).filter_map(process_entry(exclude_pid)),
        decreases n - i,
    {
        let p = rest.remove(0);
        assert(p == orig[i as int]);
        assert(rest@ =~= orig.skip(i + 1));
        proof {
            orig.lemma_filter_map_take_succ(process_entry(exclude_pid), i as int);
        }
        let ghost before = keyed@;
        if p.pid != exclude_pid && p.pid >= 100 {
            let lower = lowercase(p.name.as_str());
            if lower.as_str().unicode_len() > 0 {
                let key = SortKey { primary: to_chars(lower.as_str()), secondary: Vec::new(), number: 0 };
                let t = Target { pid: p.pid, window_id: 0, name: p.name, title: String::new() };
                keyed.push((key, t));
                assert(pairs_view(keyed@) =~= pairs_view(before) + seq![
                    process_entry(exclude_pid)(orig[i as int])->0,
                ]);
            } else {
                assert(pairs_view(keyed@) =~= pairs_view(before) + Seq::<(KeyView, TargetView)>::empty());
            }
        } else {
            assert(pairs_view(keyed@) =~= pairs_view(before) + Seq::<(KeyView, TargetView)>::empty());
        }
        i = i + 1;
    }
    assert(orig.take(n as int) =~= orig);
    let sorted = sort_by_key(keyed);
    let mut out = drop_keys(sorted);
    out.truncate(80);
    assert(targets_view(out@) =~= spec_process_targets(orig, exclude_pid));
    out
}

/// The targets offered for `ds`: on X11 the windows of the X server
/// (`windows`, `None` when they could not be listed), otherwise, or when
/// they could not be listed, the running processes.
pub open spec fn spec_enumerate_all(
    ds: DisplayServer,
    exclude_pid: u32,
    windows: Option<Seq<WindowInfo>>,
    processes: Seq<ProcessInfo>,
) -> Seq<TargetView> {
    match (ds, windows) {
        (DisplayServer::X11, Some(ws)) => spec_window_targets(ws, exclude_pid),
        _ => spec_process_targets(processes, exclude_pid),
    }
}

pub open spec fn windows_view(w: Option<Vec<WindowInfo>>) -> Option<Seq<WindowInfo>> {
    match w {
        Some(v) => Some(v@),
        None => None,
    }
}

/// Every target for the unified target list.
pub fn enumerate_all(
    ds: DisplayServer,
    exclude_pid: u32,
    windows: Option<Vec<WindowInfo>>,
    processes: Vec<ProcessInfo>,
) -> (ts: Vec<Target>)
    ensures
        targets_view(ts@) == spec_enumerate_all(
            ds,
            exclude_pid,
            windows_view(windows),
            processes@,
        ),
{
    match (ds, windows) {
        (DisplayServer::X11, Some(ws)) => window_targets(ws, exclude_pid),
        _ => process_targets(processes, exclude_pid),
    }
}

/// The window targets are titled windows of processes other than
/// `exclude_pid`, at most a hundred.
pub proof fn lemma_window_targets_listed(windows: Seq<WindowInfo>, exclude_pid: u32)
    ensures
        spec_window_targets(windows, exclude_pid).len() <= 100,
        forall|k: int|
            0 <= k < spec_window_targets(windows, exclude_pid).len() ==> {
                let t = #[trigger] spec_window_targets(windows, exclude_pid)[k];
                t.pid != exclude_pid && t.title.len() > 0
            },
{
    let f = window_entry(exclude_pid);
    let all = windows.filter_map(f);
    let ts = spec_window_targets(windows, exclude_pid);
    assert forall|k: int| 0 <= k < ts.len() implies {
        let t = #[trigger] ts[k];
        t.pid != exclude_pid && t.title.len() > 0
    } by {
        assert(ts[k] == all[k]);
        assert(all.contains(ts[k]));
        windows.lemma_filter_map_contains(f, ts[k]);
        let w = choose|w: WindowInfo| #[trigger] windows.contains(w) && f(w) == Some(ts[k]);
        assert(keeps_window(w, exclude_pid));
    }
}

/// The sort key of a process target: its lower-cased name.
pub open spec fn process_key(t: TargetView) -> KeyView {
    KeyView { primary: spec_lowercase(t.name), secondary: Seq::empty(), number: 0 }
}

/// The process targets are processes other than `exclude_pid`, with a pid
/// of at least 100 and a non-empty name, in the order of their lower-cased
/// names, at most eighty.
pub proof fn lemma_process_targets_listed(processes: Seq<ProcessInfo>, exclude_pid: u32)
    ensures
        spec_process_targets(processes, exclude_pid).len() <= 80,
        forall|k: int|
            0 <= k < spec_process_targets(processes, exclude_pid).len() ==> {
                let t = #[trigger] spec_process_targets(processes, exclude_pid)[k];
                &&& t.pid != exclude_pid
                &&& t.pid >= 100
                &&& t.window_id == 0
                &&& spec_lowercase(t.name).len() > 0
            },
        forall|i: int, j: int|
            0 <= i < j < spec_process_targets(processes, exclude_pid).len() ==> !chars_lt(
                spec_lowercase(#[trigger] spec_process_targets(processes, exclude_pid)[j].name),
                spec_lowercase(#[trigger] spec_process_targets(processes, exclude_pid)[i].name),
            ),
{
    let f = process_entry(exclude_pid);
    let es = processes.filter_map(f);
    let key = |t: TargetView| process_key(t);
    assert forall|k: int| 0 <= k < es.len() implies #[trigger] es[k].0 == key(es[k].1)
        && es[k].1.pid != exclude_pid && es[k].1.pid >= 100 && es[k].1.window_id == 0 by {
        assert(es.contains(es[k]));
        processes.lemma_filter_map_contains(f, es[k]);
        let p = choose|p: ProcessInfo| #[trigger] processes.contains(p) && f(p) == Some(es[k]);
        assert(keeps_process(p, exclude_pid));
    }
    lemma_sort_orders_values(es, key);
    let sorted = spec_sort(es);
    let ts = spec_process_targets(processes, exclude_pid);
    assert forall|k: int| 0 <= k < ts.len() implies {
        let t = #[trigger] ts[k];
        &&& t.pid != exclude_pid
        &&& t.pid >= 100
        &&& t.window_id == 0
        &&& spec_lowercase(t.name).len() > 0
    } by {
        assert(ts[k] == sorted[k].1);
        crate::sort::lemma_sort_contains(es, k);
        let m = choose|m: int| 0 <= m < es.len() && es[m] == sorted[k];
        assert(es[m].0 == key(es[m].1));
        assert(es.contains(es[m]));
        processes.lemma_filter_map_contains(f, es[m]);
        let p = choose|p: ProcessInfo| #[trigger] processes.contains(p) && f(p) == Some(es[m]);
        assert(keeps_process(p, exclude_pid));
    }
    assert forall|i: int, j: int| 0 <= i < j < ts.len() implies !chars_lt(
        spec_lowercase(#[trigger] ts[j].name),
        spec_lowercase(#[trigger] ts[i].name),
    ) by {
        assert(ts[i] == sorted[i].1);
        assert(ts[j] == sorted[j].1);
        assert(!key_lt(key(sorted[j].1), key(sorted[i].1)));
    }
}

} // verus!
