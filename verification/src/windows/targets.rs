//! Targets of the Windows front-end: console shells (PowerShell, pwsh,
//! cmd, WSL) and visible GUI windows. The unified list puts the terminals
//! first, then the GUI apps, each group sorted by lower-cased name, then
//! by pid.

use vstd::prelude::*;

use crate::sort::{
    key_lt, lemma_sort_keeps_apart, lemma_sort_orders_values, pairs_view, sort_by_key, spec_sort,
    KeyView, SortKey,
};
use crate::text::{
    decimal, is_blank, lowercase, spec_decimal, spec_is_blank, spec_lowercase, spec_trim_nuls,
    spec_utf16_lossy, str_eq, to_chars, trim_nuls, utf16_lossy,
};

verus! {

/// Which targets a panel lists.
#[derive(Clone, Copy, Debug, PartialEq, Eq)]
pub enum TargetMode {
    Terminal,
    App,
}

/// A console process or window that keys can be sent to.
#[derive(Clone, Debug)]
pub struct Target {
    pub pid: u32,
    /// Window handle value (0 for a console target).
    pub hwnd: i64,
    pub name: String,
    pub title: String,
    /// Detected as a terminal / console host.
    pub is_terminal: bool,
    /// Whether its console could be attached to.
    pub accessible: bool,
}

/// A target as plain values.
pub struct TargetView {
    pub pid: u32,
    pub hwnd: i64,
    pub name: Seq<char>,
    pub title: Seq<char>,
    pub is_terminal: bool,
    pub accessible: bool,
}

impl View for Target {
    type V = TargetView;

    open spec fn view(&self) -> TargetView {
        TargetView {
            pid: self.pid,
            hwnd: self.hwnd,
            name: self.name@,
            title: self.title@,
            is_terminal: self.is_terminal,
            accessible: self.accessible,
        }
    }
}

/// The label shown in the target list: `name  (PID pid)  “title”`.
pub open spec fn spec_label(t: TargetView) -> Seq<char> {
    t.name + "  (PID "@ + spec_decimal(t.pid as nat) + ")  \u{201C}"@ + t.title + "\u{201D}"@
}

impl Target {
    /// The label shown in the target list.
    pub fn label(&self) -> (l: String)
        ensures
            l@ == spec_label(self@),
    {
        let mut l = self.name.clone();
        l.append("  (PID ");
        let pid = decimal(self.pid as u64);
        l.append(pid.as_str());
        l.append(")  \u{201C}");
        l.append(self.title.as_str());
        l.append("\u{201D}");
        l
    }

    /// A copy of this target.
    pub fn duplicate(&self) -> (t: Target)
        ensures
            t@ == self@,
    {
        Target {
            pid: self.pid,
            hwnd: self.hwnd,
            name: self.name.clone(),
            title: self.title.clone(),
            is_terminal: self.is_terminal,
            accessible: self.accessible,
        }
    }
}

pub open spec fn targets_view(ts: Seq<Target>) -> Seq<TargetView> {
    ts.map_values(|t: Target| t@)
}

pub open spec fn unkeyed<K, V>(s: Seq<(K, V)>) -> Seq<V> {
    s.map_values(|e: (K, V)| e.1)
}

/// Targets keyed by lower-cased name, then pid.
pub open spec fn keyed_by_name_pid(ts: Seq<TargetView>) -> Seq<(KeyView, TargetView)> {
    ts.map_values(
        |t: TargetView|
            (
                KeyView { primary: spec_lowercase(t.name), secondary: Seq::empty(), number: t.pid as u64 },
                t,
            ),
    )
}

/// Targets sorted by lower-cased name, then pid (stably).
pub open spec fn spec_sorted_by_name_pid(ts: Seq<TargetView>) -> Seq<TargetView> {
    unkeyed(spec_sort(keyed_by_name_pid(ts)))
}

fn drop_keys(items: Vec<(SortKey, Target)>) -> (ts: Vec<Target>)
    ensures
        targets_view(ts@) == unkeyed(pairs_view(items@)),
{
    let ghost orig = items@;
    let mut rest = items;
    let n = rest.len();
    let mut out: Vec<Target> = Vec::new();
    let mut i: usize = 0;
    assert(orig.skip(0) =~= orig);
    while i < n
        invariant
            n == orig.len(),
            i <= n,
            rest@ == orig.skip(i as int),
            targets_view(out@) == unkeyed(pairs_view(orig.take(i as int))),
        decreases n - i,
    {
        let e = rest.remove(0);
        assert(e == orig[i as int]);
        assert(rest@ =~= orig.skip(i + 1));
        let ghost before = out@;
        out.push(e.1);
        assert(pairs_view(orig.take(i + 1)) =~= pairs_view(orig.take(i as int)).push(
            (e.0@, e.1@),
        ));
        assert(unkeyed(pairs_view(orig.take(i + 1))) =~= unkeyed(
            pairs_view(orig.take(i as int)),
        ).push(e.1@));
        assert(targets_view(out@) =~= targets_view(before).push(e.1@));
        i = i + 1;
    }
    assert(orig.take(n as int) =~= orig);
    out
}

/// Sorts targets by lower-cased name, then pid.
pub fn sort_by_name_pid(ts: Vec<Target>) -> (sorted: Vec<Target>)
    ensures
        targets_view(sorted@) == spec_sorted_by_name_pid(targets_view(ts@)),
{
    let ghost orig = ts@;
    let ghost ov = targets_view(orig);
    let mut rest = ts;
    let n = rest.len();
    let mut keyed: Vec<(SortKey, Target)> = Vec::new();
    let mut i: usize = 0;
    assert(orig.skip(0) =~= orig);
    while i < n
        invariant
            n == orig.len(),
            ov == targets_view(orig),
            i <= n,
            rest@ == orig.skip(i as int),
            pairs_view(keyed@) =~= keyed_by_name_pid(ov.take(i as int)),
        decreases n - i,
    {
        let t = rest.remove(0);
        assert(t == orig[i as int]);
        assert(rest@ =~= orig.skip(i + 1));
        let lower = lowercase(t.name.as_str());
        let key = SortKey { primary: to_chars(lower.as_str()), secondary: Vec::new(), number: t.pid as u64 };
        let ghost before = keyed@;
        keyed.push((key, t));
        assert(ov.take(i + 1) =~= ov.take(i as int).push(ov[i as int]));
        assert(pairs_view(keyed@) =~= pairs_view(before).push(keyed_by_name_pid(ov.take(i + 1)).last()));
        i = i + 1;
    }
    assert(ov.take(n as int) =~= ov);
    let sorted = sort_by_key(keyed);
    drop_keys(sorted)
}

/// The unified target list: the terminals, then the GUI apps, each group
/// sorted by lower-cased name, then pid.
pub open spec fn spec_enumerate_all(terminals: Seq<TargetView>, apps: Seq<TargetView>) -> Seq<TargetView> {
    spec_sorted_by_name_pid(terminals) + spec_sorted_by_name_pid(apps)
}

/// The unified target list and the number of terminals at its head.
pub fn enumerate_all(terminals: Vec<Target>, apps: Vec<Target>) -> (all: (Vec<Target>, usize))
    ensures
        targets_view(all.0@) == spec_enumerate_all(targets_view(terminals@), targets_view(apps@)),
        all.1 == terminals@.len(),
{
    let terminal_count = terminals.len();
    let mut all = sort_by_name_pid(terminals);
    let mut rest = sort_by_name_pid(apps);
    proof {
        crate::sort::lemma_sort_len(keyed_by_name_pid(targets_view(terminals@)));
    }
    let ghost a = all@;
    let ghost b = rest@;
    all.append(&mut rest);
    assert(targets_view(all@) =~= targets_view(a) + targets_view(b));
    (all, terminal_count)
}

// ─── Console shells ─────────────────────────────────────────────────────────
/// Process names (lower case) of the console shells offered as terminals.
pub open spec fn spec_shell_names() -> Seq<Seq<char>> {
    seq!["powershell.exe"@, "pwsh.exe"@, "cmd.exe"@, "wsl.exe"@]
}

/// A running process: its id and its name.
pub struct ProcessInfo {
    pub pid: u32,
    pub name: String,
}

/// A process is a shell candidate when its lower-cased name is one of the
/// shell names.
pub open spec fn is_shell(p: ProcessInfo) -> bool {
    spec_shell_names().contains(spec_lowercase(p.name@))
}

fn is_shell_name(lower: &str) -> (b: bool)
    ensures
        b == spec_shell_names().contains(lower@),
{
    let names = vec!["powershell.exe", "pwsh.exe", "cmd.exe", "wsl.exe"];
    assert(names@.map_values(|s: &'static str| s@) =~= spec_shell_names());
    let mut k: usize = 0;
    while k < names.len()
        invariant
            k <= names@.len(),
            names@.map_values(|s: &'static str| s@) == spec_shell_names(),
            forall|j: int| 0 <= j < k ==> spec_shell_names()[j] != lower@,
        decreases names.len() - k,
    {
        assert(spec_shell_names()[k as int] == names@[k as int]@);
        if str_eq(names[k], lower) {
            return true;
        }
        k = k + 1;
    }
    false
}

/// The processes of the list that are shell candidates, in their order.
pub open spec fn spec_candidate_shells(processes: Seq<ProcessInfo>) -> Seq<ProcessInfo> {
    processes.filter(|p: ProcessInfo| is_shell(p))
}

/// The processes that are shell candidates, in order.
pub fn list_candidate_shells(processes: Vec<ProcessInfo>) -> (shells: Vec<ProcessInfo>)
    ensures
        shells@ == spec_candidate_shells(processes@),
{
    let ghost orig = processes@;
    let mut rest = processes;
    let n = rest.len();
    let mut out: Vec<ProcessInfo> = Vec::new();
    let mut i: usize = 0;
    assert(orig.skip(0) =~= orig);
    while i < n
        invariant
            n == orig.len(),
            i <= n,
            rest@ == orig.skip(i as int),
            out@ == orig.take(i as int).filter(|p: ProcessInfo| is_shell(p)),
        decreases n - i,
    {
        proof {
            reveal_with_fuel(Seq::filter, 1);
            assert(orig.take(i + 1).drop_last() =~= orig.take(i as int));
        }
        let p = rest.remove(0);
        assert(p == orig[i as int]);
        assert(rest@ =~= orig.skip(i + 1));
        let lower = lowercase(p.name.as_str());
        if is_shell_name(lower.as_str()) {
            out.push(p);
        }
        i = i + 1;
    }
    assert(orig.take(n as int) =~= orig);
    out
}

/// What attaching to a shell's console gave: its title buffer (the UTF-16
/// units `GetConsoleTitleW` wrote), or the error code of `AttachConsole`.
pub enum ConsoleProbe {
    Attached(Vec<u16>),
    Failed(u32),
}

/// The title and accessibility of a probed shell: the console title
/// (without trailing NULs; `PID pid` when empty), or, when the console
/// could not be attached, a note of why.
pub open spec fn spec_probe_title(pid: u32, probe: ConsoleProbe) -> (Seq<char>, bool) {
    let tag = "PID "@ + spec_decimal(pid as nat);
    match probe {
        ConsoleProbe::Attached(buf) => {
            let t = spec_trim_nuls(spec_utf16_lossy(buf@));
            (if t.len() == 0 {
                tag
            } else {
                t
            }, true)
        },
        ConsoleProbe::Failed(code) => (if code == 5 {
            tag + " (access denied (elevated target?))"@
        } else if code == 6 {
            tag + " (no console attached)"@
        } else if code == 87 {
            tag + " (process exited)"@
        } else {
            tag + " (error "@ + spec_decimal(code as nat) + ")"@
        }, false),
    }
}

/// The title and accessibility of a probed shell.
pub fn probe_title(pid: u32, probe: ConsoleProbe) -> (r: (String, bool))
    ensures
        (r.0@, r.1) == spec_probe_title(pid, probe),
{
    let mut tag = String::from_str("PID ");
    let num = decimal(pid as u64);
    tag.append(num.as_str());
    match probe {
        ConsoleProbe::Attached(buf) => {
            let raw = utf16_lossy(buf.as_slice());
            let t = trim_nuls(raw.as_str());
            if t.as_str().unicode_len() == 0 {
                (tag, true)
            } else {
                (t, true)
            }
        },
        ConsoleProbe::Failed(code) => {
            if code == 5 {
                tag.append(" (access denied (elevated target?))");
            } else if code == 6 {
                tag.append(" (no console attached)");
            } else if code == 87 {
                tag.append(" (process exited)");
            } else {
                tag.append(" (error ");
                let c = decimal(code as u64);
                tag.append(c.as_str());
                tag.append(")");
            }
            (tag, false)
        },
    }
}

/// The terminal target for a shell with the given title and accessibility.
pub fn shell_target(shell: ProcessInfo, title: String, accessible: bool) -> (t: Target)
    ensures
        t@ == (TargetView {
            pid: shell.pid,
            hwnd: 0,
            name: shell.name@,
            title: title@,
            is_terminal: true,
            accessible,
        }),
{
    Target { pid: shell.pid, hwnd: 0, name: shell.name, title, is_terminal: true, accessible }
}

// ─── GUI windows ────────────────────────────────────────────────────────────
/// Window classes of the shell's own windows, never offered.
pub open spec fn spec_skip_classes() -> Seq<Seq<char>> {
    seq![
        "Shell_TrayWnd"@,
        "NotifyIconOverflowWindow"@,
        "tooltips_class32"@,
        "Shell_SecondaryTrayWnd"@,
    ]
}

fn is_skip_class(class: &str) -> (b: bool)
    ensures
        b == spec_skip_classes().contains(class@),
{
    let names = vec![
        "Shell_TrayWnd",
        "NotifyIconOverflowWindow",
        "tooltips_class32",
        "Shell_SecondaryTrayWnd",
    ];
    assert(names@.map_values(|s: &'static str| s@) =~= spec_skip_classes());
    let mut k: usize = 0;
    while k < names.len()
        invariant
            k <= names@.len(),
            names@.map_values(|s: &'static str| s@) == spec_skip_classes(),
            forall|j: int| 0 <= j < k ==> spec_skip_classes()[j] != class@,
        decreases names.len() - k,
    {
        assert(spec_skip_classes()[k as int] == names@[k as int]@);
        if str_eq(names[k], class) {
            return true;
        }
        k = k + 1;
    }
    false
}

/// A top-level window as `EnumWindows` finds it.
pub struct GuiWindow {
    pub hwnd: i64,
    pub visible: bool,
    /// Its text (`None` when it has none).
    pub title: Option<String>,
    /// Its owner's pid (0 when unknown).
    pub pid: u32,
    /// Its class name (`None` when it could not be read).
    pub class_name: Option<String>,
    /// Its owner's process name (`None` when it could not be read).
    pub process_name: Option<String>,
}

/// A window is a candidate when it is visible, has a title that is not
/// blank, belongs to a known process other than `exclude_pid` and is not
/// one of the shell's own windows.
pub open spec fn keeps_gui(w: GuiWindow, exclude_pid: u32) -> bool {
    &&& w.visible
    &&& w.title matches Some(t) && !spec_is_blank(t@)
    &&& w.pid != 0
    &&& w.pid != exclude_pid
    &&& !(w.class_name matches Some(c) && spec_skip_classes().contains(c@))
}

/// The target for a candidate window; an unreadable process name reads `unknown`.
pub open spec fn gui_target(w: GuiWindow) -> TargetView {
    TargetView {
        pid: w.pid,
        hwnd: w.hwnd,
        name: match w.process_name {
            Some(n) => n@,
            None => "unknown"@,
        },
        title: w.title->0@,
        is_terminal: false,
        accessible: true,
    }
}

/// The candidate windows, in order, each (pid, title) pair kept once.
pub open spec fn spec_gui_candidates(ws: Seq<GuiWindow>, exclude_pid: u32) -> Seq<TargetView>
    decreases ws.len(),
{
    if ws.len() == 0 {
        Seq::empty()
    } else {
        let prev = spec_gui_candidates(ws.drop_last(), exclude_pid);
        let w = ws.last();
        if keeps_gui(w, exclude_pid) && !(exists|k: int|
            0 <= k < prev.len() && #[trigger] prev[k].pid == w.pid && prev[k].title
                == w.title->0@) {
            prev.push(gui_target(w))
        } else {
            prev
        }
    }
}

/// Targets keyed by lower-cased name, then lower-cased title.
pub open spec fn keyed_by_name_title(ts: Seq<TargetView>) -> Seq<(KeyView, TargetView)> {
    ts.map_values(
        |t: TargetView|
            (
                KeyView {
                    primary: spec_lowercase(t.name),
                    secondary: spec_lowercase(t.title),
                    number: 0,
                },
                t,
            ),
    )
}

/// The GUI apps offered: the candidate windows sorted by lower-cased name,
/// then lower-cased title (stably).
pub open spec fn spec_list_candidate_apps(ws: Seq<GuiWindow>, exclude_pid: u32) -> Seq<TargetView> {
    unkeyed(spec_sort(keyed_by_name_title(spec_gui_candidates(ws, exclude_pid))))
}

fn seen_before(kept: &Vec<Target>, pid: u32, title: &String) -> (b: bool)
    ensures
        b == exists|k: int|
            0 <= k < kept@.len() && #[trigger] kept@[k]@.pid == pid && kept@[k]@.title == title@,
{
    let mut k: usize = 0;
    while k < kept.len()
        invariant
            k <= kept@.len(),
            forall|j: int| 0 <= j < k ==> !(#[trigger] kept@[j]@.pid == pid && kept@[j]@.title == title@),
        decreases kept.len() - k,
    {
        if kept[k].pid == pid && kept[k].title == *title {
            assert(kept@[k as int]@.pid == pid && kept@[k as int]@.title == title@);
            return true;
        }
        k = k + 1;
    }
    false
}

/// The GUI apps offered as targets.
pub fn list_candidate_apps(windows: Vec<GuiWindow>, exclude_pid: u32) -> (ts: Vec<Target>)
    ensures
        targets_view(ts@) == spec_list_candidate_apps(windows@, exclude_pid),
{
    let ghost orig = windows@;
    let mut rest = windows;
    let n = rest.len();
    let mut kept: Vec<Target> = Vec::new();
    let mut i: usize = 0;
    assert(orig.skip(0) =~= orig);
    assert(orig.take(0) =~= Seq::<GuiWindow>::empty());
    while i < n
        invariant
            n == orig.len(),
            i <= n,
            rest@ == orig.skip(i as int),
            targets_view(kept@) == spec_gui_candidates(orig.take(i as int), exclude_pid),
        decreases n - i,
    {
        let w = rest.remove(0);
        assert(w == orig[i as int]);
        assert(rest@ =~= orig.skip(i + 1));
        assert(orig.take(i + 1).drop_last() =~= orig.take(i as int));
        assert(orig.take(i + 1).last() == w);
        let ghost prev = targets_view(kept@);
        let ghost before = kept@;
        let keep = match (&w.title, &w.class_name) {
            (Some(t), class) => w.visible && !is_blank(t.as_str()) && w.pid != 0 && w.pid
                != exclude_pid && !(match class {
                Some(c) => is_skip_class(c.as_str()),
                None => false,
            }),
            (None, _) => false,
        };
        assert(keep == keeps_gui(w, exclude_pid));
        if keep {
            let title = match w.title {
                Some(t) => t,
                None => String::new(),
            };
            let seen = seen_before(&kept, w.pid, &title);
            proof {
                assert((exists|k: int|
                    0 <= k < before.len() && #[trigger] before[k]@.pid == w.pid
                        && before[k]@.title == title@) == (exists|k: int|
                    0 <= k < prev.len() && #[trigger] prev[k].pid == w.pid && prev[k].title
                        == title@)) by {
                    if exists|k: int|
                        0 <= k < before.len() && #[trigger] before[k]@.pid == w.pid
                            && before[k]@.title == title@ {
                        let k = choose|k: int|
                            0 <= k < before.len() && #[trigger] before[k]@.pid == w.pid
                                && before[k]@.title == title@;
                        assert(prev[k] == before[k]@);
                    }
                    if exists|k: int|
                        0 <= k < prev.len() && #[trigger] prev[k].pid == w.pid && prev[k].title
                            == title@ {
                        let k = choose|k: int|
                            0 <= k < prev.len() && #[trigger] prev[k].pid == w.pid
                                && prev[k].title == title@;
                        assert(prev[k] == before[k]@);
                    }
                }
            }
            if !seen {
                let name = match w.process_name {
                    Some(nm) => nm,
                    None => String::from_str("unknown"),
                };
                kept.push(Target { pid: w.pid, hwnd: w.hwnd, name, title, is_terminal: false, accessible: true });
                assert(targets_view(kept@) =~= prev.push(gui_target(w)));
            }
        }
        i = i + 1;
    }
    assert(orig.take(n as int) =~= orig);
    let ghost cands = targets_view(kept@);
    let mut keyed: Vec<(SortKey, Target)> = Vec::new();
    let mut rest2 = kept;
    let ghost kv = rest2@;
    let m = rest2.len();
    let mut j: usize = 0;
    assert(kv.skip(0) =~= kv);
    while j < m
        invariant
            m == kv.len(),
            cands == targets_view(kv),
            j <= m,
            rest2@ == kv.skip(j as int),
            pairs_view(keyed@) =~= keyed_by_name_title(cands.take(j as int)),
        decreases m - j,
    {
        let t = rest2.remove(0);
        assert(t == kv[j as int]);
        assert(rest2@ =~= kv.skip(j + 1));
        let ln = lowercase(t.name.as_str());
        let lt = lowercase(t.title.as_str());
        let key = SortKey { primary: to_chars(ln.as_str()), secondary: to_chars(lt.as_str()), number: 0 };
        let ghost before = keyed@;
        keyed.push((key, t));
        assert(cands.take(j + 1) =~= cands.take(j as int).push(cands[j as int]));
        assert(pairs_view(keyed@) =~= pairs_view(before).push(keyed_by_name_title(cands.take(j + 1)).last()));
        j = j + 1;
    }
    assert(cands.take(m as int) =~= cands);
    let sorted = sort_by_key(keyed);
    drop_keys(sorted)
}

/// Two targets with the same pid and title.
pub open spec fn same_pid_title(a: TargetView, b: TargetView) -> bool {
    a.pid == b.pid && a.title == b.title
}

/// The candidate windows are visible, titled windows of known processes
/// other than `exclude_pid`, and no (pid, title) pair is kept twice.
pub proof fn lemma_gui_candidates_distinct(ws: Seq<GuiWindow>, exclude_pid: u32)
    ensures
        forall|i: int, j: int|
            0 <= i < j < spec_gui_candidates(ws, exclude_pid).len() ==> !same_pid_title(
                #[trigger] spec_gui_candidates(ws, exclude_pid)[i],
                #[trigger] spec_gui_candidates(ws, exclude_pid)[j],
            ),
        forall|k: int|
            0 <= k < spec_gui_candidates(ws, exclude_pid).len() ==> {
                let t = #[trigger] spec_gui_candidates(ws, exclude_pid)[k];
                &&& t.pid != 0
                &&& t.pid != exclude_pid
                &&& !spec_is_blank(t.title)
                &&& !t.is_terminal
            },
    decreases ws.len(),
{
    if ws.len() > 0 {
        lemma_gui_candidates_distinct(ws.drop_last(), exclude_pid);
        let prev = spec_gui_candidates(ws.drop_last(), exclude_pid);
        let c = spec_gui_candidates(ws, exclude_pid);
        let w = ws.last();
        assert forall|i: int, j: int| 0 <= i < j < c.len() implies !same_pid_title(
            #[trigger] c[i],
            #[trigger] c[j],
        ) by {
            if j >= prev.len() {
                assert(c[i] == prev[i]);
                assert(c[j] == gui_target(w));
                if same_pid_title(prev[i], gui_target(w)) {
                    assert(prev[i].pid == w.pid && prev[i].title == w.title->0@);
                }
            } else {
                assert(c[i] == prev[i] && c[j] == prev[j]);
            }
        }
        assert forall|k: int| 0 <= k < c.len() implies {
            let t = #[trigger] c[k];
            &&& t.pid != 0
            &&& t.pid != exclude_pid
            &&& !spec_is_blank(t.title)
            &&& !t.is_terminal
        } by {
            if k < prev.len() {
                assert(c[k] == prev[k]);
            }
        }
    }
}

/// The sort key of a GUI app: its lower-cased name, then lower-cased title.
pub open spec fn name_title_key(t: TargetView) -> KeyView {
    KeyView { primary: spec_lowercase(t.name), secondary: spec_lowercase(t.title), number: 0 }
}

/// The GUI apps offered are in the order of their lower-cased names, then
/// titles, and no (pid, title) pair is offered twice.
pub proof fn lemma_candidate_apps_listed(ws: Seq<GuiWindow>, exclude_pid: u32)
    ensures
        forall|i: int, j: int|
            0 <= i < j < spec_list_candidate_apps(ws, exclude_pid).len() ==> {
                &&& !same_pid_title(
                    #[trigger] spec_list_candidate_apps(ws, exclude_pid)[i],
                    #[trigger] spec_list_candidate_apps(ws, exclude_pid)[j],
                )
                &&& !key_lt(
                    name_title_key(spec_list_candidate_apps(ws, exclude_pid)[j]),
                    name_title_key(spec_list_candidate_apps(ws, exclude_pid)[i]),
                )
            },
{
    let c = spec_gui_candidates(ws, exclude_pid);
    lemma_gui_candidates_distinct(ws, exclude_pid);
    let keyed = keyed_by_name_title(c);
    let key = |t: TargetView| name_title_key(t);
    let rel = |a: TargetView, b: TargetView| same_pid_title(a, b);
    assert forall|k: int| 0 <= k < keyed.len() implies #[trigger] keyed[k].0 == key(keyed[k].1) by {
    }
    assert(crate::sort::pairwise_apart(keyed, rel)) by {
        assert forall|i: int, j: int| #![trigger keyed[i], keyed[j]] 0 <= i < j < keyed.len() implies !rel(
            keyed[i].1,
            keyed[j].1,
        ) by {
            assert(keyed[i].1 == c[i] && keyed[j].1 == c[j]);
        }
    }
    lemma_sort_orders_values(keyed, key);
    lemma_sort_keeps_apart(keyed, rel);
    let sorted = spec_sort(keyed);
    let ts = spec_list_candidate_apps(ws, exclude_pid);
    assert forall|i: int, j: int| 0 <= i < j < ts.len() implies {
        &&& !same_pid_title(#[trigger] ts[i], #[trigger] ts[j])
        &&& !key_lt(name_title_key(ts[j]), name_title_key(ts[i]))
    } by {
        assert(ts[i] == sorted[i].1 && ts[j] == sorted[j].1);
        assert(!rel(sorted[i].1, sorted[j].1));
        assert(!key_lt(key(sorted[j].1), key(sorted[i].1)));
    }
}

/// The lower-cased process names of the console shells: PowerShell,
/// PowerShell 7, the command prompt and WSL.
pub open spec fn names_a_shell(lower: Seq<char>) -> bool {
    lower == "powershell.exe"@ || lower == "pwsh.exe"@ || lower == "cmd.exe"@ || lower
        == "wsl.exe"@
}

/// The console shells offered as terminals are exactly the processes whose
/// lower-cased name is `powershell.exe`, `pwsh.exe`, `cmd.exe` or
/// `wsl.exe`: every such process of the list is kept, in its order, and
/// no other.
pub proof fn lemma_shell_names(processes: Seq<ProcessInfo>)
    ensures
        forall|p: ProcessInfo| #[trigger] is_shell(p) <==> names_a_shell(spec_lowercase(p.name@)),
        forall|k: int|
            0 <= k < processes.len() ==> (spec_candidate_shells(processes).contains(
                #[trigger] processes[k],
            ) <==> names_a_shell(spec_lowercase(processes[k].name@))),
        forall|k: int|
            0 <= k < spec_candidate_shells(processes).len() ==> names_a_shell(
                spec_lowercase(#[trigger] spec_candidate_shells(processes)[k].name@),
            ),
{
    broadcast use vstd::seq_lib::group_filter_ensures;

    let names = spec_shell_names();
    assert(names[0] == "powershell.exe"@);
    assert(names[1] == "pwsh.exe"@);
    assert(names[2] == "cmd.exe"@);
    assert(names[3] == "wsl.exe"@);
    assert forall|p: ProcessInfo| #[trigger] is_shell(p) <==> names_a_shell(spec_lowercase(p.name@)) by {
        let l = spec_lowercase(p.name@);
        if names_a_shell(l) {
            if l == names[0] {
            } else if l == names[1] {
            } else if l == names[2] {
            } else {
                assert(l == names[3]);
            }
        }
    }
    let f = spec_candidate_shells(processes);
    assert forall|k: int| 0 <= k < processes.len() implies (f.contains(#[trigger] processes[k])
        <==> names_a_shell(spec_lowercase(processes[k].name@))) by {
        if f.contains(processes[k]) {
            let m = choose|m: int| 0 <= m < f.len() && f[m] == processes[k];
            assert(is_shell(f[m]));
        }
        if names_a_shell(spec_lowercase(processes[k].name@)) {
            assert(is_shell(processes[k]));
        }
    }
    assert forall|k: int| 0 <= k < f.len() implies names_a_shell(
        spec_lowercase(#[trigger] f[k].name@),
    ) by {
        assert(is_shell(f[k]));
    }
}

/// The window classes of the Windows shell's own windows: the taskbars of
/// the main and the other screens, the notification-area overflow and the
/// tooltips.
pub open spec fn names_a_shell_window_class(class: Seq<char>) -> bool {
    class == "Shell_TrayWnd"@ || class == "Shell_SecondaryTrayWnd"@ || class
        == "NotifyIconOverflowWindow"@ || class == "tooltips_class32"@
}

/// The classes left out of the GUI targets are exactly the shell's own
/// window classes, and a window of one of them is never a candidate,
/// whatever else holds of it.
pub proof fn lemma_shell_window_classes()
    ensures
        forall|c: Seq<char>| #[trigger] spec_skip_classes().contains(c) <==> names_a_shell_window_class(c),
        forall|w: GuiWindow, exclude_pid: u32|
            (w.class_name matches Some(c) && names_a_shell_window_class(c@)) ==> !#[trigger] keeps_gui(
                w,
                exclude_pid,
            ),
{
    let classes = spec_skip_classes();
    assert(classes[0] == "Shell_TrayWnd"@);
    assert(classes[1] == "NotifyIconOverflowWindow"@);
    assert(classes[2] == "tooltips_class32"@);
    assert(classes[3] == "Shell_SecondaryTrayWnd"@);
    assert forall|c: Seq<char>| #[trigger] classes.contains(c) <==> names_a_shell_window_class(c) by {
        if names_a_shell_window_class(c) {
            if c == classes[0] {
            } else if c == classes[1] {
            } else if c == classes[2] {
            } else {
                assert(c == classes[3]);
            }
        }
    }
}

} // verus!
