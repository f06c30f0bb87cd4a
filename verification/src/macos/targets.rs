//! Window targets of the macOS front-end, selected from the on-screen
//! window list (`CGWindowListCopyWindowInfo`, read by the caller): the
//! normal-layer windows of other processes, sorted by owner name, with
//! each (pid, title) pair kept once, at most 50; in terminal mode only
//! the windows of known terminal emulators.

use vstd::prelude::*;

use crate::sort::{
    key_lt, lemma_sort_contains, lemma_sort_orders_values, pairs_view, sort_by_key, spec_sort,
    truncated, KeyView, SortKey,
};
use crate::text::{
    chars_lt, contains_chars, decimal, lowercase, seq_contains, spec_decimal, spec_lowercase, to_chars,
};

verus! {

/// Which targets are offered.
#[derive(Clone, Copy, Debug, PartialEq, Eq)]
pub enum TargetMode {
    Terminal,
    App,
}

/// A window that keys can be sent to.
#[derive(Clone, Debug)]
pub struct Target {
    pub pid: u32,
    pub window_id: u32,
    pub name: String,
    pub title: String,
    pub mode: TargetMode,
}

/// A target as plain values.
pub struct TargetView {
    pub pid: u32,
    pub window_id: u32,
    pub name: Seq<char>,
    pub title: Seq<char>,
    pub mode: TargetMode,
}

impl View for Target {
    type V = TargetView;

    open spec fn view(&self) -> TargetView {
        TargetView {
            pid: self.pid,
            window_id: self.window_id,
            name: self.name@,
            title: self.title@,
            mode: self.mode,
        }
    }
}

/// The label shown in the target list: `name  (PID pid)`, followed by
/// `  "title"` when the window has a title.
pub open spec fn spec_label(t: TargetView) -> Seq<char> {
    if t.title.len() == 0 {
        t.name + "  (PID "@ + spec_decimal(t.pid as nat) + ")"@
    } else {
        t.name + "  (PID "@ + spec_decimal(t.pid as nat) + ")  \""@ + t.title + "\""@
    }
}

impl Target {
    /// The label shown in the target list.
    pub fn label(&self) -> (l: String)
        ensures
            l@ == spec_label(self@),
    {
        let mut l = self.name.clone();
        l.append("  (PID ");
        let pid = decimal(self.pid as u64);
        l.append(pid.as_str());
        if self.title.as_str().unicode_len() == 0 {
            l.append(")");
        } else {
            l.append(")  \"");
            l.append(self.title.as_str());
            l.append("\"");
        }
        l
    }
}

/// One entry of the window list, as the window server describes it
/// (missing strings read as empty, missing numbers as `None`).
pub struct RawWindow {
    /// `kCGWindowOwnerName`.
    pub owner_name: String,
    /// `kCGWindowName`.
    pub title: String,
    /// `kCGWindowOwnerPID`.
    pub pid: Option<i64>,
    /// `kCGWindowNumber`.
    pub number: Option<i64>,
    /// `kCGWindowLayer`.
    pub layer: Option<i64>,
}

pub open spec fn raw_pid(w: RawWindow) -> u32 {
    (match w.pid {
        Some(p) => p,
        None => 0,
    }) as u32
}

pub open spec fn raw_window_id(w: RawWindow) -> u32 {
    (match w.number {
        Some(n) => n,
        None => 0,
    }) as u32
}

/// A window is listed when it belongs to another process (pid not 0),
/// lies in the normal layer (0; a missing layer counts as -1) and has an
/// owner name or a title.
pub open spec fn keeps_raw(w: RawWindow, exclude_pid: u32) -> bool {
    &&& raw_pid(w) != exclude_pid
    &&& raw_pid(w) != 0
    &&& w.layer == Some(0i64)
    &&& !(w.owner_name@.len() == 0 && w.title@.len() == 0)
}

/// The listed window's name: its owner's name, `unknown` when empty.
pub open spec fn raw_name(w: RawWindow) -> Seq<char> {
    if w.owner_name@.len() == 0 {
        "unknown"@
    } else {
        w.owner_name@
    }
}

/// A listed window, keyed by its lower-cased name.
pub open spec fn raw_entry(exclude_pid: u32) -> spec_fn(RawWindow) -> Option<(KeyView, TargetView)> {
    |w: RawWindow|
        if keeps_raw(w, exclude_pid) {
            Some(
                (
                    KeyView {
                        primary: spec_lowercase(raw_name(w)),
                        secondary: Seq::empty(),
                        number: 0,
                    },
                    TargetView {
                        pid: raw_pid(w),
                        window_id: raw_window_id(w),
                        name: raw_name(w),
                        title: w.title@,
                        mode: TargetMode::App,
                    },
                ),
            )
        } else {
            None
        }
}

/// Two windows with the same pid and title.
pub open spec fn same_window(a: TargetView, b: TargetView) -> bool {
    a.pid == b.pid && a.title == b.title
}

/// `s` with each (pid, title) pair kept once: an element is dropped when
/// an element kept before it has the same pid and title.
pub open spec fn spec_dedup(s: Seq<TargetView>) -> Seq<TargetView>
    decreases s.len(),
{
    if s.len() == 0 {
        s
    } else {
        let d = spec_dedup(s.drop_last());
        if exists|k: int| 0 <= k < d.len() && #[trigger] same_window(d[k], s.last()) {
            d
        } else {
            d.push(s.last())
        }
    }
}


pub open spec fn unkeyed<K, V>(s: Seq<(K, V)>) -> Seq<V> {
    s.map_values(|e: (K, V)| e.1)
}

pub open spec fn targets_view(ts: Seq<Target>) -> Seq<TargetView> {
    ts.map_values(|t: Target| t@)
}

/// The on-screen windows offered as targets: the listed ones, sorted by
/// lower-cased name (stably), repeats dropped, at most 50.
pub open spec fn spec_list_windows(raw: Seq<RawWindow>, exclude_pid: u32) -> Seq<TargetView> {
    truncated(spec_dedup(unkeyed(spec_sort(raw.filter_map(raw_entry(exclude_pid))))), 50)
}

fn drop_keys(items: Vec<(SortKey, Target)>) -> (ts: Vec<Target>)
    ensures
        targets_view(ts@) == unkeyed(pairs_view(items@)),
{
    let ghost orig = items@;
    let mut rest = items;
    let n = rest.len();
    let mut out: Vec<Target> = Vec::new();
    let mut i: usize = 0;
    assert(orig.skip(0) =~= orig);
    while i < n
        invariant
            n == orig.len(),
            i <= n,
            rest@ == orig.skip(i as int),
            targets_view(out@) == unkeyed(pairs_view(orig.take(i as int))),
        decreases n - i,
    {
        let e = rest.remove(0);
        assert(e == orig[i as int]);
        assert(rest@ =~= orig.skip(i + 1));
        let ghost before = out@;
        out.push(e.1);
        assert(pairs_view(orig.take(i + 1)) =~= pairs_view(orig.take(i as int)).push(
            (e.0@, e.1@),
        ));
        assert(unkeyed(pairs_view(orig.take(i + 1))) =~= unkeyed(
            pairs_view(orig.take(i as int)),
        ).push(e.1@));
        assert(targets_view(out@) =~= targets_view(before).push(e.1@));
        i = i + 1;
    }
    assert(orig.take(n as int) =~= orig);
    out
}

fn seen_before(kept: &Vec<Target>, pid: u32, title: &String) -> (b: bool)
    ensures
        b == exists|k: int| 0 <= k < kept@.len() && kept@[k].pid == pid && kept@[k].title@ == title@,
{
    let mut k: usize = 0;
    while k < kept.len()
        invariant
            k <= kept@.len(),
            forall|j: int| 0 <= j < k ==> !(kept@[j].pid == pid && kept@[j].title@ == title@),
        decreases kept.len() - k,
    {
        if kept[k].pid == pid && crate::text::str_eq(kept[k].title.as_str(), title.as_str()) {
            return true;
        }
        k = k + 1;
    }
    false
}

fn dedup(items: Vec<Target>) -> (ts: Vec<Target>)
    ensures
        targets_view(ts@) == spec_dedup(targets_view(items@)),
{
    let ghost orig = items@;
    let ghost ov = targets_view(orig);
    let mut rest = items;
    let n = rest.len();
    let mut out: Vec<Target> = Vec::new();
    let mut i: usize = 0;
    assert(orig.skip(0) =~= orig);
    assert(ov.take(0) =~= Seq::<TargetView>::empty());
    while i < n
        invariant
            n == orig.len(),
            ov == targets_view(orig),
            i <= n,
            rest@ == orig.skip(i as int),
            targets_view(out@) == spec_dedup(ov.take(i as int)),
        decreases n - i,
    {
        let t = rest.remove(0);
        assert(t == orig[i as int]);
        assert(rest@ =~= orig.skip(i + 1));
        assert(ov.take(i + 1).drop_last() =~= ov.take(i as int));
        assert(ov.take(i + 1).last() == t@);
        let ghost before = out@;
        let repeat = seen_before(&out, t.pid, &t.title);
        proof {
            let d = targets_view(before);
            if repeat {
                let k = choose|k: int| 0 <= k < before.len() && before[k].pid == t.pid
                    && before[k].title@ == t.title@;
                assert(same_window(d[k], t@));
            } else {
                assert forall|k: int| 0 <= k < d.len() implies !#[trigger] same_window(d[k], t@) by {
                    assert(d[k] == before[k]@);
                }
            }
        }
        if !repeat {
            out.push(t);
            assert(targets_view(out@) =~= targets_view(before).push(t@));
        }
        i = i + 1;
    }
    assert(ov.take(n as int) =~= ov);
    out
}

/// The on-screen windows offered as targets.
pub fn list_windows(raw: Vec<RawWindow>, exclude_pid: u32) -> (ts: Vec<Target>)
    ensures
        targets_view(ts@) == spec_list_windows(raw@, exclude_pid),
{
    let ghost orig = raw@;
    let mut rest = raw;
    let n = rest.len();
    let mut keyed: Vec<(SortKey, Target)> = Vec::new();
    let mut i: usize = 0;
    assert(orig.skip(0) =~= orig);
    assert(pairs_view(keyed@) =~= orig.take(0).filter_map(raw_entry(exclude_pid)));
    while i < n
        invariant
            n == orig.len(),
            i <= n,
            rest@ == orig.skip(i as int),
            pairs_view(keyed@) == orig.take(i as int).filter_map(raw_entry(exclude_pid)),
        decreases n - i,
    {
        let w = rest.remove(0);
        assert(w == orig[i as int]);
        assert(rest@ =~= orig.skip(i + 1));
        proof {
            orig.lemma_filter_map_take_succ(raw_entry(exclude_pid), i as int);
        }
        let ghost before = keyed@;
        let pid = match w.pid {
            Some(p) => p,
            None => 0,
        } as u32;
        let wid = match w.number {
            Some(x) => x,
            None => 0,
        } as u32;
        let layer = match w.layer {
            Some(l) => l,
            None => -1,
        };
        let name_empty = w.owner_name.as_str().unicode_len() == 0;
        let title_empty = w.title.as_str().unicode_len() == 0;
        if pid != exclude_pid && pid != 0 && layer == 0 && !(name_empty && title_empty) {
            let name = if name_empty {
                String::from_str("unknown")
            } else {
                w.owner_name
            };
            let lower = lowercase(name.as_str());
            let key = SortKey { primary: to_chars(lower.as_str()), secondary: Vec::new(), number: 0 };
            let t = Target { pid, window_id: wid, name, title: w.title, mode: TargetMode::App };
            keyed.push((key, t));
            assert(pairs_view(keyed@) =~= pairs_view(before) + seq![
                raw_entry(exclude_pid)(orig[i as int])->0,
            ]);
        } else {
            assert(pairs_view(keyed@) =~= pairs_view(before) + Seq::<(KeyView, TargetView)>::empty());
        }
        i = i + 1;
    }
    assert(orig.take(n as int) =~= orig);
    let sorted = sort_by_key(keyed);
    let unsorted = drop_keys(sorted);
    let mut out = dedup(unsorted);
    out.truncate(50);
    assert(targets_view(out@) =~= spec_list_windows(orig, exclude_pid));
    out
}

/// Process names (lower case) of the known terminal emulators.
pub open spec fn spec_terminal_names() -> Seq<Seq<char>> {
    seq![
        "terminal"@,
        "iterm2"@,
        "iterm"@,
        "alacritty"@,
        "kitty"@,
        "wezterm"@,
        "hyper"@,
        "tabby"@,
        "warp"@,
    ]
}

fn terminal_names() -> (v: Vec<&'static str>)
    ensures
        v@.map_values(|s: &'static str| s@) == spec_terminal_names(),
{
    let v = vec![
        "terminal",
        "iterm2",
        "iterm",
        "alacritty",
        "kitty",
        "wezterm",
        "hyper",
        "tabby",
        "warp",
    ];
    assert(v@.map_values(|s: &'static str| s@) =~= spec_terminal_names());
    v
}

/// A window belongs to a terminal emulator when its lower-cased name
/// contains one of the known terminal names.
pub open spec fn is_terminal(t: TargetView) -> bool {
    exists|k: int|
        0 <= k < spec_terminal_names().len() && seq_contains(
            spec_lowercase(t.name),
            #[trigger] spec_terminal_names()[k],
        )
}

fn names_terminal(name: &str) -> (b: bool)
    ensures
        b == exists|k: int|
            0 <= k < spec_terminal_names().len() && seq_contains(
                spec_lowercase(name@),
                #[trigger] spec_terminal_names()[k],
            ),
{
    let lower = lowercase(name);
    let hay = to_chars(lower.as_str());
    let names = terminal_names();
    let mut k: usize = 0;
    while k < names.len()
        invariant
            k <= names@.len(),
            names@.map_values(|s: &'static str| s@) == spec_terminal_names(),
            hay@ == spec_lowercase(name@),
            forall|j: int|
                0 <= j < k ==> !seq_contains(hay@, #[trigger] spec_terminal_names()[j]),
        decreases names.len() - k,
    {
        let needle = to_chars(names[k]);
        assert(spec_terminal_names()[k as int] == names@[k as int]@);
        if contains_chars(&hay, &needle) {
            return true;
        }
        k = k + 1;
    }
    false
}

/// The targets offered in `mode`: all listed windows, or those of terminal
/// emulators.
pub open spec fn spec_enumerate(mode: TargetMode, raw: Seq<RawWindow>, exclude_pid: u32) -> Seq<
    TargetView,
> {
    match mode {
        TargetMode::Terminal => spec_list_windows(raw, exclude_pid).filter(
            |t: TargetView| is_terminal(t),
        ),
        TargetMode::App => spec_list_windows(raw, exclude_pid),
    }
}

/// The targets offered in `mode`, from the window server's list `raw`.
pub fn enumerate(mode: TargetMode, exclude_pid: u32, raw: Vec<RawWindow>) -> (ts: Vec<Target>)
    ensures
        targets_view(ts@) == spec_enumerate(mode, raw@, exclude_pid),
{
    let windows = list_windows(raw, exclude_pid);
    match mode {
        TargetMode::App => windows,
        TargetMode::Terminal => {
            let ghost all = targets_view(windows@);
            let ghost pred = |t: TargetView| is_terminal(t);
            let mut rest = windows;
            let n = rest.len();
            let mut out: Vec<Target> = Vec::new();
            let mut i: usize = 0;
            let ghost orig = rest@;
            assert(orig.skip(0) =~= orig);
            while i < n
                invariant
                    n == orig.len(),
                    all == targets_view(orig),
                    pred == (|t: TargetView| is_terminal(t)),
                    i <= n,
                    rest@ == orig.skip(i as int),
                    targets_view(out@) == all.take(i as int).filter(pred),
                decreases n - i,
            {
                proof {
                    reveal_with_fuel(Seq::filter, 1);
                    assert(all.take(i + 1).drop_last() =~= all.take(i as int));
                }
                let t = rest.remove(0);
                assert(t == orig[i as int]);
                assert(rest@ =~= orig.skip(i + 1));
                assert(all.take(i + 1).last() == t@);
                let ghost before = out@;
                if names_terminal(t.name.as_str()) {
                    out.push(t);
                    assert(targets_view(out@) =~= targets_view(before).push(all[i as int]));
                }
                i = i + 1;
            }
            assert(all.take(n as int) =~= all);
            out
        },
    }
}

/// No two windows share a (pid, title) pair.
pub open spec fn no_repeats(d: Seq<TargetView>) -> bool {
    forall|i: int, j: int| #![trigger d[i], d[j]] 0 <= i < j < d.len() ==> !same_window(d[i], d[j])
}

/// The windows are in the order of their lower-cased names.
pub open spec fn sorted_by_name(d: Seq<TargetView>) -> bool {
    forall|i: int, j: int|
        0 <= i < j < d.len() ==> !chars_lt(
            spec_lowercase(#[trigger] d[j].name),
            spec_lowercase(#[trigger] d[i].name),
        )
}

proof fn lemma_dedup_from(s: Seq<TargetView>, k: int)
    requires
        0 <= k < spec_dedup(s).len(),
    ensures
        s.contains(spec_dedup(s)[k]),
    decreases s.len(),
{
    let d = spec_dedup(s.drop_last());
    if k < d.len() {
        lemma_dedup_from(s.drop_last(), k);
        let m = choose|m: int| 0 <= m < s.drop_last().len() && s.drop_last()[m] == d[k];
        assert(s[m] == d[k]);
    } else {
        assert(s[s.len() - 1] == spec_dedup(s)[k]);
    }
}

/// Dropping repeats leaves no two windows with the same (pid, title),
/// keeps only windows of the list and keeps their order.
pub proof fn lemma_dedup_no_repeats(s: Seq<TargetView>)
    ensures
        no_repeats(spec_dedup(s)),
        spec_dedup(s).len() <= s.len(),
        forall|k: int| 0 <= k < spec_dedup(s).len() ==> s.contains(#[trigger] spec_dedup(s)[k]),
        sorted_by_name(s) ==> sorted_by_name(spec_dedup(s)),
    decreases s.len(),
{
    if s.len() > 0 {
        let p = s.drop_last();
        lemma_dedup_no_repeats(p);
        let d = spec_dedup(p);
        let r = spec_dedup(s);
        assert forall|k: int| 0 <= k < r.len() implies s.contains(#[trigger] r[k]) by {
            lemma_dedup_from(s, k);
        }
        if sorted_by_name(s) {
            assert(sorted_by_name(p)) by {
                assert forall|i: int, j: int| 0 <= i < j < p.len() implies !chars_lt(
                    spec_lowercase(#[trigger] p[j].name),
                    spec_lowercase(#[trigger] p[i].name),
                ) by {
                    assert(p[i] == s[i] && p[j] == s[j]);
                }
            }
            assert forall|i: int, j: int| 0 <= i < j < r.len() implies !chars_lt(
                spec_lowercase(#[trigger] r[j].name),
                spec_lowercase(#[trigger] r[i].name),
            ) by {
                if j >= d.len() {
                    assert(r[j] == s.last());
                    assert(p.contains(d[i]));
                    let m = choose|m: int| 0 <= m < p.len() && p[m] == d[i];
                    assert(s[m] == d[i]);
                    assert(r[i] == d[i]);
                } else {
                    assert(r[i] == d[i] && r[j] == d[j]);
                }
            }
        }
        assert forall|i: int, j: int| #![trigger r[i], r[j]] 0 <= i < j < r.len() implies !same_window(
            r[i],
            r[j],
        ) by {
            if j >= d.len() {
                assert(r[i] == d[i]);
                assert(r[j] == s.last());
                if same_window(d[i], s.last()) {
                    assert(exists|k: int| 0 <= k < d.len() && #[trigger] same_window(d[k], s.last()));
                }
            } else {
                assert(r[i] == d[i] && r[j] == d[j]);
            }
        }
    }
}

/// The window list offers windows of processes other than `exclude_pid`
/// (and not 0), in the order of their lower-cased names, no two with the
/// same (pid, title), at most fifty.
pub proof fn lemma_list_windows_listed(raw: Seq<RawWindow>, exclude_pid: u32)
    ensures
        spec_list_windows(raw, exclude_pid).len() <= 50,
        no_repeats(spec_list_windows(raw, exclude_pid)),
        sorted_by_name(spec_list_windows(raw, exclude_pid)),
        forall|k: int|
            0 <= k < spec_list_windows(raw, exclude_pid).len() ==> {
                let t = #[trigger] spec_list_windows(raw, exclude_pid)[k];
                t.pid != exclude_pid && t.pid != 0 && t.mode == TargetMode::App
            },
{
    let f = raw_entry(exclude_pid);
    let es = raw.filter_map(f);
    let key = |t: TargetView| KeyView { primary: spec_lowercase(t.name), secondary: Seq::empty(), number: 0 };
    assert forall|k: int| 0 <= k < es.len() implies #[trigger] es[k].0 == key(es[k].1)
        && es[k].1.pid != exclude_pid && es[k].1.pid != 0 && es[k].1.mode == TargetMode::App by {
        assert(es.contains(es[k]));
        raw.lemma_filter_map_contains(f, es[k]);
        let w = choose|w: RawWindow| #[trigger] raw.contains(w) && f(w) == Some(es[k]);
        assert(keeps_raw(w, exclude_pid));
    }
    lemma_sort_orders_values(es, key);
    let sorted = spec_sort(es);
    let u = unkeyed(sorted);
    assert forall|i: int, j: int| 0 <= i < j < u.len() implies !chars_lt(
        spec_lowercase(#[trigger] u[j].name),
        spec_lowercase(#[trigger] u[i].name),
    ) by {
        assert(u[i] == sorted[i].1 && u[j] == sorted[j].1);
        assert(!key_lt(key(sorted[j].1), key(sorted[i].1)));
    }
    assert forall|k: int| 0 <= k < u.len() implies (#[trigger] u[k]).pid != exclude_pid
        && u[k].pid != 0 && u[k].mode == TargetMode::App by {
        assert(u[k] == sorted[k].1);
        lemma_sort_contains(es, k);
        let m = choose|m: int| 0 <= m < es.len() && es[m] == sorted[k];
        assert(es[m].0 == key(es[m].1));
    }
    lemma_dedup_no_repeats(u);
    let d = spec_dedup(u);
    let ts = spec_list_windows(raw, exclude_pid);
    assert forall|k: int| 0 <= k < ts.len() implies {
        let t = #[trigger] ts[k];
        t.pid != exclude_pid && t.pid != 0 && t.mode == TargetMode::App
    } by {
        assert(ts[k] == d[k]);
        assert(u.contains(d[k]));
        let m = choose|m: int| 0 <= m < u.len() && u[m] == d[k];
        assert(u[m].pid != exclude_pid);
    }
    assert forall|i: int, j: int| #![trigger ts[i], ts[j]] 0 <= i < j < ts.len() implies !same_window(
        ts[i],
        ts[j],
    ) by {
        assert(ts[i] == d[i] && ts[j] == d[j]);
    }
    assert forall|i: int, j: int| 0 <= i < j < ts.len() implies !chars_lt(
        spec_lowercase(#[trigger] ts[j].name),
        spec_lowercase(#[trigger] ts[i].name),
    ) by {
        assert(ts[i] == d[i] && ts[j] == d[j]);
    }
}

/// The lower-cased window-owner name `lower` is a terminal emulator's:
/// it contains `terminal`, `iterm2`, `iterm`, `alacritty`, `kitty`,
/// `wezterm`, `hyper`, `tabby` or `warp`.
pub open spec fn names_a_terminal(lower: Seq<char>) -> bool {
    seq_contains(lower, "terminal"@) || seq_contains(lower, "iterm2"@) || seq_contains(
        lower,
        "iterm"@,
    ) || seq_contains(lower, "alacritty"@) || seq_contains(lower, "kitty"@) || seq_contains(
        lower,
        "wezterm"@,
    ) || seq_contains(lower, "hyper"@) || seq_contains(lower, "tabby"@) || seq_contains(
        lower,
        "warp"@,
    )
}

/// Terminal mode keeps exactly the windows of terminal emulators: those
/// whose lower-cased owner name contains one of `terminal`, `iterm2`,
/// `iterm`, `alacritty`, `kitty`, `wezterm`, `hyper`, `tabby`, `warp`.
/// Every such window of the full list is kept, and no other.
pub proof fn lemma_terminal_names(raw: Seq<RawWindow>, exclude_pid: u32)
    ensures
        forall|t: TargetView| #[trigger] is_terminal(t) <==> names_a_terminal(spec_lowercase(t.name)),
        forall|k: int|
            0 <= k < spec_list_windows(raw, exclude_pid).len() ==> (spec_enumerate(
                TargetMode::Terminal,
                raw,
                exclude_pid,
            ).contains(#[trigger] spec_list_windows(raw, exclude_pid)[k]) <==> names_a_terminal(
                spec_lowercase(spec_list_windows(raw, exclude_pid)[k].name),
            )),
        forall|k: int|
            0 <= k < spec_enumerate(TargetMode::Terminal, raw, exclude_pid).len()
                ==> names_a_terminal(
                spec_lowercase(
                    #[trigger] spec_enumerate(TargetMode::Terminal, raw, exclude_pid)[k].name,
                ),
            ),
{
    broadcast use vstd::seq_lib::group_filter_ensures;

    let names = spec_terminal_names();
    assert(names[0] == "terminal"@);
    assert(names[1] == "iterm2"@);
    assert(names[2] == "iterm"@);
    assert(names[3] == "alacritty"@);
    assert(names[4] == "kitty"@);
    assert(names[5] == "wezterm"@);
    assert(names[6] == "hyper"@);
    assert(names[7] == "tabby"@);
    assert(names[8] == "warp"@);
    assert forall|t: TargetView| #[trigger] is_terminal(t) <==> names_a_terminal(spec_lowercase(t.name)) by {
        let l = spec_lowercase(t.name);
        if is_terminal(t) {
            let k = choose|k: int| 0 <= k < names.len() && seq_contains(l, #[trigger] names[k]);
            assert(0 <= k < 9);
        }
        if names_a_terminal(l) {
            if seq_contains(l, names[0]) {
            } else if seq_contains(l, names[1]) {
            } else if seq_contains(l, names[2]) {
            } else if seq_contains(l, names[3]) {
            } else if seq_contains(l, names[4]) {
            } else if seq_contains(l, names[5]) {
            } else if seq_contains(l, names[6]) {
            } else if seq_contains(l, names[7]) {
            } else {
                assert(seq_contains(l, names[8]));
            }
        }
    }
    let all = spec_list_windows(raw, exclude_pid);
    let f = spec_enumerate(TargetMode::Terminal, raw, exclude_pid);
    assert(f == all.filter(|t: TargetView| is_terminal(t)));
    assert forall|k: int| 0 <= k < all.len() implies (f.contains(#[trigger] all[k])
        <==> names_a_terminal(spec_lowercase(all[k].name))) by {
        if f.contains(all[k]) {
            let m = choose|m: int| 0 <= m < f.len() && f[m] == all[k];
            assert(is_terminal(f[m]));
        }
        if names_a_terminal(spec_lowercase(all[k].name)) {
            assert(is_terminal(all[k]));
        }
    }
    assert forall|k: int| 0 <= k < f.len() implies names_a_terminal(
        spec_lowercase(#[trigger] f[k].name),
    ) by {
        assert(is_terminal(f[k]));
    }
}

} // verus!
