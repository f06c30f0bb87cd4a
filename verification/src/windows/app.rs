//! Panel bookkeeping of the Windows front-end. Each tab is a panel with a
//! mode (terminals or GUI apps), a key, an interval, a duration, its
//! targets (all found, and those matching the search text) and a status.
//! The window, the scans and the sender threads are the caller's; the
//! sender (of type `S`) is only held and handed back.

use vstd::prelude::*;

use crate::find::{first_with, lemma_first_with_found, lemma_first_with_none};
use crate::text::{
    decimal, hex_padded, lowercase, occurs_at, seq_contains, seq_starts_with, spec_decimal, spec_hex_padded,
    spec_lowercase, starts_with_chars, contains_chars, to_chars,
};
use crate::windows::engine::Event;
use crate::windows::keyboard::{all_keys, entry_view, spec_all_keys, table_view, KeyInfo};
use crate::windows::targets::{spec_label, targets_view, Target, TargetMode, TargetView};

verus! {

/// The key's codes as shown under the picker: `VK=0x..` and, for a key
/// that types a character, `  Char=0x....`; empty for an index that names
/// no key.
pub open spec fn spec_key_desc(idx: nat) -> Seq<char> {
    if idx < spec_all_keys().len() {
        let k = spec_all_keys()[idx as int];
        if k.unicode != 0 {
            "VK=0x"@ + spec_hex_padded(k.vk as nat, 2) + "  Char=0x"@ + spec_hex_padded(k.unicode as nat, 4)
        } else {
            "VK=0x"@ + spec_hex_padded(k.vk as nat, 2)
        }
    } else {
        Seq::empty()
    }
}

/// The key's codes as shown under the picker.
pub fn key_desc(idx: usize) -> (s: String)
    ensures
        s@ == spec_key_desc(idx as nat),
{
    let keys = all_keys();
    if idx < keys.len() {
        assert(table_view(keys@)[idx as int] == entry_view(keys@[idx as int]));
        let info = keys[idx].1;
        let mut s = String::from_str("VK=0x");
        let vk = hex_padded(info.vk as u64, 2);
        s.append(vk.as_str());
        if info.unicode != 0 {
            s.append("  Char=0x");
            let ch = hex_padded(info.unicode as u64, 4);
            s.append(ch.as_str());
        }
        s
    } else {
        String::new()
    }
}

/// One tab's settings and state.
pub struct PanelState<S> {
    pub id: i32,
    pub mode: TargetMode,
    pub key_index: usize,
    /// Interval in seconds, as typed.
    pub interval: String,
    /// Duration in minutes, as typed (0: until stopped).
    pub duration: String,
    /// Selected row of the target list (-1: none).
    pub target_index: i32,
    /// The targets listed (those matching the search text).
    pub targets: Vec<Target>,
    /// Every target found by the last scan.
    pub all_targets: Vec<Target>,
    pub target_labels: Vec<String>,
    pub search_text: String,
    pub status: String,
    pub running: bool,
    pub scanning: bool,
    pub sender: Option<S>,
}

/// A panel as plain values.
pub struct PanelView<S> {
    pub id: i32,
    pub mode: TargetMode,
    pub key_index: usize,
    pub interval: Seq<char>,
    pub duration: Seq<char>,
    pub target_index: i32,
    pub targets: Seq<TargetView>,
    pub all_targets: Seq<TargetView>,
    pub target_labels: Seq<Seq<char>>,
    pub search_text: Seq<char>,
    pub status: Seq<char>,
    pub running: bool,
    pub scanning: bool,
    pub sender: Option<S>,
}

pub open spec fn labels_view(ls: Seq<String>) -> Seq<Seq<char>> {
    ls.map_values(|s: String| s@)
}

impl<S> View for PanelState<S> {
    type V = PanelView<S>;

    open spec fn view(&self) -> PanelView<S> {
        PanelView {
            id: self.id,
            mode: self.mode,
            key_index: self.key_index,
            interval: self.interval@,
            duration: self.duration@,
            target_index: self.target_index,
            targets: targets_view(self.targets@),
            all_targets: targets_view(self.all_targets@),
            target_labels: labels_view(self.target_labels@),
            search_text: self.search_text@,
            status: self.status@,
            running: self.running,
            scanning: self.scanning,
            sender: self.sender,
        }
    }
}

/// What the window shows of a panel.
pub struct PanelData {
    pub id: i32,
    /// `terminal` or `app`.
    pub mode: &'static str,
    pub key_index: usize,
    pub key_desc: String,
    pub interval: String,
    pub duration: String,
    pub target_index: i32,
    pub target_labels: Vec<String>,
    pub search_text: String,
    pub status: String,
    pub running: bool,
    pub scanning: bool,
}

pub open spec fn mode_name(m: TargetMode) -> Seq<char> {
    match m {
        TargetMode::Terminal => "terminal"@,
        TargetMode::App => "app"@,
    }
}

fn clone_labels(ls: &Vec<String>) -> (out: Vec<String>)
    ensures
        labels_view(out@) == labels_view(ls@),
{
    let mut out: Vec<String> = Vec::new();
    let mut j: usize = 0;
    while j < ls.len()
        invariant
            j <= ls@.len(),
            labels_view(out@) =~= labels_view(ls@.take(j as int)),
        decreases ls.len() - j,
    {
        let ghost before = out@;
        out.push(ls[j].clone());
        assert(labels_view(out@) =~= labels_view(before).push(ls@[j as int]@));
        j = j + 1;
        assert(ls@.take(j as int) =~= ls@.take(j - 1).push(ls@[j - 1]));
    }
    assert(ls@.take(ls@.len() as int) =~= ls@);
    out
}

/// A fresh panel: terminal mode, the first key, a five-second interval,
/// no duration, no targets, idle.
pub open spec fn fresh_panel<S>(id: i32) -> PanelView<S> {
    PanelView {
        id,
        mode: TargetMode::Terminal,
        key_index: 0,
        interval: "5"@,
        duration: "0"@,
        target_index: -1i32,
        targets: Seq::empty(),
        all_targets: Seq::empty(),
        target_labels: Seq::empty(),
        search_text: Seq::empty(),
        status: "Idle. Configure settings and click Start."@,
        running: false,
        scanning: false,
        sender: None,
    }
}

impl<S> PanelState<S> {
    /// A fresh panel: terminal mode, the first key, a five-second interval,
    /// no duration, no targets, idle.
    pub fn new(id: i32) -> (p: Self)
        ensures
            p@ == fresh_panel::<S>(id),
    {
        let p = PanelState {
            id,
            mode: TargetMode::Terminal,
            key_index: 0,
            interval: String::from_str("5"),
            duration: String::from_str("0"),
            target_index: -1,
            targets: Vec::new(),
            all_targets: Vec::new(),
            target_labels: Vec::new(),
            search_text: String::new(),
            status: String::from_str("Idle. Configure settings and click Start."),
            running: false,
            scanning: false,
            sender: None,
        };
        assert(targets_view(p.targets@) =~= Seq::<TargetView>::empty());
        assert(targets_view(p.all_targets@) =~= Seq::<TargetView>::empty());
        assert(labels_view(p.target_labels@) =~= Seq::<Seq<char>>::empty());
        p
    }

    /// What the window shows of this panel.
    pub fn to_panel_data(&self) -> (d: PanelData)
        ensures
            d.id == self.id,
            d.mode@ == mode_name(self.mode),
            d.key_index == self.key_index,
            d.key_desc@ == spec_key_desc(self.key_index as nat),
            d.interval@ == self.interval@,
            d.duration@ == self.duration@,
            d.target_index == self.target_index,
            labels_view(d.target_labels@) == labels_view(self.target_labels@),
            d.search_text@ == self.search_text@,
            d.status@ == self.status@,
            d.running == self.running,
            d.scanning == self.scanning,
    {
        PanelData {
            id: self.id,
            mode: match self.mode {
                TargetMode::Terminal => "terminal",
                TargetMode::App => "app",
            },
            key_index: self.key_index,
            key_desc: key_desc(self.key_index),
            interval: self.interval.clone(),
            duration: self.duration.clone(),
            target_index: self.target_index,
            target_labels: clone_labels(&self.target_labels),
            search_text: self.search_text.clone(),
            status: self.status.clone(),
            running: self.running,
            scanning: self.scanning,
        }
    }
}

/// The first panel with `id`.
pub open spec fn spec_find<S>(panels: Seq<PanelState<S>>, id: i32) -> Option<int> {
    first_with(panels, |p: PanelState<S>| p.id == id)
}

/// `new` is `old` with the panel at `i` (when some) viewed as `pv`.
pub open spec fn panel_updated<S>(old: Seq<PanelState<S>>, new: Seq<PanelState<S>>, i: Option<int>, pv: PanelView<S>) -> bool {
    match i {
        None => new == old,
        Some(k) => {
            &&& new.len() == old.len()
            &&& forall|j: int| 0 <= j < old.len() && j != k ==> new[j] == old[j]
            &&& new[k]@ == pv
        },
    }
}

/// The view of the panel `i` of `panels` (arbitrary when `i` is `None`).
pub open spec fn panel_at<S>(panels: Seq<PanelState<S>>, i: Option<int>) -> PanelView<S> {
    panels[i->0]@
}

/// The largest panel id plus one (1 without panels).
pub open spec fn spec_next_id<S>(panels: Seq<PanelState<S>>) -> int
    decreases panels.len(),
{
    if panels.len() == 0 {
        1
    } else {
        let rest = spec_next_id(panels.drop_last());
        let mine = panels.last().id + 1;
        if mine > rest {
            mine
        } else {
            rest
        }
    }
}

/// The labels of targets.
pub open spec fn spec_labels(ts: Seq<TargetView>) -> Seq<Seq<char>> {
    ts.map_values(|t: TargetView| spec_label(t))
}

fn labels_of(ts: &Vec<Target>) -> (ls: Vec<String>)
    ensures
        labels_view(ls@) == spec_labels(targets_view(ts@)),
{
    let mut ls: Vec<String> = Vec::new();
    let mut j: usize = 0;
    while j < ts.len()
        invariant
            j <= ts@.len(),
            labels_view(ls@) =~= spec_labels(targets_view(ts@.take(j as int))),
        decreases ts.len() - j,
    {
        let ghost before = ls@;
        ls.push(ts[j].label());
        assert(labels_view(ls@) =~= labels_view(before).push(spec_label(ts@[j as int]@)));
        j = j + 1;
        assert(ts@.take(j as int) =~= ts@.take(j - 1).push(ts@[j - 1]));
    }
    assert(ts@.take(ts@.len() as int) =~= ts@);
    ls
}

fn duplicate_all(ts: &Vec<Target>) -> (out: Vec<Target>)
    ensures
        targets_view(out@) == targets_view(ts@),
{
    let mut out: Vec<Target> = Vec::new();
    let mut j: usize = 0;
    while j < ts.len()
        invariant
            j <= ts@.len(),
            targets_view(out@) =~= targets_view(ts@.take(j as int)),
        decreases ts.len() - j,
    {
        let ghost before = out@;
        out.push(ts[j].duplicate());
        assert(targets_view(out@) =~= targets_view(before).push(ts@[j as int]@));
        j = j + 1;
        assert(ts@.take(j as int) =~= ts@.take(j - 1).push(ts@[j - 1]));
    }
    assert(ts@.take(ts@.len() as int) =~= ts@);
    out
}

/// The status after a scan found `n` targets.
pub open spec fn spec_scan_status(n: nat) -> Seq<char> {
    if n == 0 {
        "No targets found. Click Refresh to retry."@
    } else {
        "Found "@ + spec_decimal(n) + " target(s). Select one and click Start."@
    }
}

/// Whether a target's lower-cased label begins with `query`.
pub open spec fn label_starts(query: Seq<char>) -> spec_fn(TargetView) -> bool {
    |t: TargetView| seq_starts_with(spec_lowercase(spec_label(t)), query)
}

/// Whether a target's lower-cased label contains `query` but does not
/// begin with it.
pub open spec fn label_contains_later(query: Seq<char>) -> spec_fn(TargetView) -> bool {
    |t: TargetView| !seq_starts_with(spec_lowercase(spec_label(t)), query) && seq_contains(spec_lowercase(spec_label(t)), query)
}

/// The targets matching a search text: all of them for an empty query
/// (the lower-cased text); otherwise those whose lower-cased label begins
/// with it, then those whose label contains it elsewhere, each in order.
pub open spec fn spec_filter(all: Seq<TargetView>, text: Seq<char>) -> Seq<TargetView> {
    let query = spec_lowercase(text);
    if query.len() == 0 {
        all
    } else {
        all.filter(label_starts(query)) + all.filter(label_contains_later(query))
    }
}

fn filter_matching(all: &Vec<Target>, query: &Vec<char>) -> (ts: Vec<Target>)
    ensures
        targets_view(ts@) == targets_view(all@).filter(label_starts(query@)) + targets_view(all@).filter(label_contains_later(query@)),
{
    let ghost av = targets_view(all@);
    let mut starts: Vec<Target> = Vec::new();
    let mut later: Vec<Target> = Vec::new();
    let mut j: usize = 0;
    while j < all.len()
        invariant
            j <= all@.len(),
            av == targets_view(all@),
            targets_view(starts@) == av.take(j as int).filter(label_starts(query@)),
            targets_view(later@) == av.take(j as int).filter(label_contains_later(query@)),
        decreases all.len() - j,
    {
        proof {
            reveal_with_fuel(Seq::filter, 1);
            assert(av.take(j + 1).drop_last() =~= av.take(j as int));
            assert(av.take(j + 1).last() == all@[j as int]@);
        }
        let label = all[j].label();
        let lower = lowercase(label.as_str());
        let hay = to_chars(lower.as_str());
        let ghost s0 = starts@;
        let ghost l0 = later@;
        if starts_with_chars(&hay, query) {
            starts.push(all[j].duplicate());
            assert(targets_view(starts@) =~= targets_view(s0).push(all@[j as int]@));
        } else if contains_chars(&hay, query) {
            later.push(all[j].duplicate());
            assert(targets_view(later@) =~= targets_view(l0).push(all@[j as int]@));
        }
        j = j + 1;
    }
    assert(av.take(all@.len() as int) =~= av);
    let ghost sv = targets_view(starts@);
    let ghost lv = targets_view(later@);
    starts.append(&mut later);
    assert(targets_view(starts@) =~= sv + lv);
    starts
}

/// The status line of one sender event, and whether the panel still
/// runs after it. `key` names the key pressed.
pub open spec fn spec_event_line(e: Event, key: Seq<char>) -> (Seq<char>, bool) {
    match e {
        Event::Tick { count, method } => ("Pressed "@ + key + " "@ + spec_decimal(count as nat) + " time(s) ["@ + method@ + "]"@, true),
        Event::Error(msg) => ("Stopped \u{2014} "@ + msg@, false),
        Event::Done(count) => ("Finished. Pressed "@ + key + " "@ + spec_decimal(count as nat) + " time(s)."@, false),
    }
}

/// The status line after a batch of sender events, if they set one, and
/// whether the panel still runs: the last event decides the line; an error
/// or the end stops the panel.
pub open spec fn spec_events_status(events: Seq<Event>, key: Seq<char>) -> (Option<Seq<char>>, bool)
    decreases events.len(),
{
    if events.len() == 0 {
        (None, true)
    } else {
        let prev = spec_events_status(events.drop_last(), key);
        let line = spec_event_line(events.last(), key);
        (Some(line.0), prev.1 && line.1)
    }
}

/// The status line of one event.
fn event_line(e: &Event, key: &str) -> (r: (String, bool))
    ensures
        spec_event_line(*e, key@) == (r.0@, r.1),
{
    match e {
        Event::Tick { count, method } => {
            let mut st = String::from_str("Pressed ");
            st.append(key);
            st.append(" ");
            let n = decimal(*count);
            st.append(n.as_str());
            st.append(" time(s) [");
            st.append(method);
            st.append("]");
            (st, true)
        },
        Event::Error(msg) => {
            let mut st = String::from_str("Stopped \u{2014} ");
            st.append(msg.as_str());
            (st, false)
        },
        Event::Done(count) => {
            let mut st = String::from_str("Finished. Pressed ");
            st.append(key);
            st.append(" ");
            let n = decimal(*count);
            st.append(n.as_str());
            st.append(" time(s)."); 
            (st, false)
        },
    }
}

/// The label of the key at `idx` (`key` for an index that names none).
pub open spec fn spec_key_label(idx: usize) -> Seq<char> {
    if idx < spec_all_keys().len() {
        spec_all_keys()[idx as int].display
    } else {
        "key"@
    }
}

fn key_label(idx: usize) -> (s: String)
    ensures
        s@ == spec_key_label(idx),
{
    let keys = all_keys();
    if idx < keys.len() {
        assert(table_view(keys@)[idx as int] == entry_view(keys@[idx as int]));
        String::from_str(keys[idx].1.display)
    } else {
        String::from_str("key")
    }
}

/// A panel after a batch of sender events, and the sender it hands back:
/// the last event sets the status; after an error or the end the panel
/// stops running and gives up its sender.
pub open spec fn spec_apply_events<S>(pv: PanelView<S>, events: Seq<Event>) -> (PanelView<S>, Option<S>) {
    let (st, keeps) = spec_events_status(events, spec_key_label(pv.key_index));
    let pv1 = match st {
        Some(s) => PanelView { status: s, ..pv },
        None => pv,
    };
    if keeps {
        (pv1, None)
    } else {
        (PanelView { running: false, sender: None, ..pv1 }, pv.sender)
    }
}

/// No two panels share an id.
pub open spec fn distinct_ids<S>(ps: Seq<PanelState<S>>) -> bool {
    forall|i: int, j: int| #![trigger ps[i], ps[j]] 0 <= i < j < ps.len() ==> ps[i].id != ps[j].id
}

/// The front-end's panels and the index of the shown one.
pub struct AppState<S> {
    pub panels: Vec<PanelState<S>>,
    pub current_idx: i32,
}

impl<S> AppState<S> {
    /// The front-end's lasting state, once its first tab is open: there is
    /// at least one panel, no two panels share an id, and the shown index
    /// is a panel's. Every method keeps it.
    pub open spec fn wf(&self) -> bool {
        &&& 1 <= self.panels@.len() <= i32::MAX
        &&& distinct_ids(self.panels@)
        &&& 0 <= self.current_idx < self.panels@.len()
    }

    /// No panels yet.
    pub fn new() -> (a: Self)
        ensures
            a.panels@.len() == 0,
            a.current_idx == 0,
    {
        AppState { panels: Vec::new(), current_idx: 0 }
    }

    /// The index of the first panel with `id`.
    pub fn find_panel(&self, id: i32) -> (pos: Option<usize>)
        ensures
            match (pos, spec_find(self.panels@, id)) {
                (Some(p), Some(q)) => p == q && p < self.panels@.len(),
                (None, None) => true,
                _ => false,
            },
    {
        let ghost pred = |p: PanelState<S>| p.id == id;
        let mut k: usize = 0;
        while k < self.panels.len()
            invariant
                k <= self.panels@.len(),
                pred == (|p: PanelState<S>| p.id == id),
                forall|j: int| 0 <= j < k ==> #[trigger] self.panels@[j].id != id,
            decreases self.panels.len() - k,
        {
            if self.panels[k].id == id {
                proof {
                    lemma_first_with_found(self.panels@, pred, k as int);
                }
                return Some(k);
            }
            k = k + 1;
        }
        proof {
            lemma_first_with_none(self.panels@, pred);
        }
        None
    }

    /// Sets the status line of the panel `id`.
    pub fn set_status(&mut self, id: i32, msg: &str)
        ensures
            old(self).wf() ==> final(self).wf(),
            final(self).current_idx == old(self).current_idx,
            panel_updated(old(self).panels@, final(self).panels@, spec_find(old(self).panels@, id),
                PanelView { status: msg@, ..panel_at(old(self).panels@, spec_find(old(self).panels@, id)) }),
    {
        if let Some(i) = self.find_panel(id) {
            self.panels[i].status = String::from_str(msg);
        }
    }

    /// Adds a panel, scanning for shells, with the largest id plus one, and
    /// shows it; returns its id (the caller starts the scan).
    pub fn add_tab(&mut self) -> (id: i32)
        requires
            spec_next_id(old(self).panels@) <= i32::MAX,
            old(self).panels@.len() < i32::MAX,
        ensures
            distinct_ids(old(self).panels@) ==> final(self).wf(),
            id == spec_next_id(old(self).panels@),
            final(self).panels@.len() == old(self).panels@.len() + 1,
            forall|j: int| 0 <= j < old(self).panels@.len() ==> final(self).panels@[j] == old(self).panels@[j],
            final(self).panels@.last()@ == (PanelView::<S> {
                scanning: true,
                status: "Scanning for shells..."@,
                ..fresh_panel::<S>(id)
            }),
            final(self).current_idx == old(self).panels@.len(),
    {
        let mut next: i32 = 1;
        let mut k: usize = 0;
        while k < self.panels.len()
            invariant
                k <= self.panels@.len(),
                next == spec_next_id(self.panels@.take(k as int)),
                spec_next_id(self.panels@) <= i32::MAX,
            decreases self.panels.len() - k,
        {
            proof {
                assert(self.panels@.take(k + 1).drop_last() =~= self.panels@.take(k as int));
                lemma_next_id_prefix(self.panels@, k + 1);
            }
            let mine = self.panels[k].id as i64 + 1;
            if mine > next as i64 {
                next = mine as i32;
            }
            k = k + 1;
        }
        assert(self.panels@.take(self.panels@.len() as int) =~= self.panels@);
        let mut state = PanelState::new(next);
        state.scanning = true;
        state.status = String::from_str("Scanning for shells...");
        let ghost before = self.panels@;
        self.panels.push(state);
        self.current_idx = (self.panels.len() - 1) as i32;
        proof {
            lemma_next_id_fresh(before);
            let ps = self.panels@;
            if distinct_ids(before) {
                assert forall|a: int, b: int| #![trigger ps[a], ps[b]] 0 <= a < b < ps.len() implies ps[a].id
                    != ps[b].id by {
                    assert(ps[a] == before[a]);
                    if b < before.len() {
                        assert(ps[b] == before[b]);
                    }
                }
            }
        }
        next
    }

    /// Closes every panel and opens a fresh one; returns the senders (to be
    /// stopped) and the new panel's id.
    pub fn close_all(&mut self) -> (r: (Vec<S>, i32))
        ensures
            final(self).wf(),
            r.0@ == old(self).panels@.filter_map(|p: PanelState<S>| p.sender),
            r.1 == 1,
            final(self).panels@.len() == 1,
            final(self).panels@[0]@.id == 1,
            final(self).panels@[0]@.scanning,
            final(self).panels@[0]@.status == "Scanning for shells..."@,
            final(self).current_idx == 0,
    {
        let ghost orig = self.panels@;
        let mut senders: Vec<S> = Vec::new();
        let mut rest = Vec::new();
        std::mem::swap(&mut rest, &mut self.panels);
        let n = rest.len();
        let mut i: usize = 0;
        assert(orig.skip(0) =~= orig);
        while i < n
            invariant
                n == orig.len(),
                i <= n,
                rest@ == orig.skip(i as int),
                senders@ == orig.take(i as int).filter_map(|p: PanelState<S>| p.sender),
            decreases n - i,
        {
            proof {
                orig.lemma_filter_map_take_succ(|p: PanelState<S>| p.sender, i as int);
            }
            let p = rest.remove(0);
            assert(p == orig[i as int]);
            assert(rest@ =~= orig.skip(i + 1));
            match p.sender {
                Some(s) => {
                    senders.push(s);
                },
                None => {},
            }
            i = i + 1;
        }
        assert(orig.take(n as int) =~= orig);
        let id = self.add_tab();
        (senders, id)
    }

    /// Closes the panel at `idx` (when there is one): its sender is handed
    /// back, to be stopped; without panels left a fresh one is opened (its
    /// id returned), otherwise the shown index is kept within the panels.
    pub fn close_tab(&mut self, idx: usize) -> (r: Option<(Option<S>, Option<i32>)>)
        ensures
            old(self).wf() ==> final(self).wf(),
            idx >= old(self).panels@.len() ==> r is None && final(self).panels == old(self).panels
                && final(self).current_idx == old(self).current_idx,
            idx < old(self).panels@.len() ==> (r matches Some((sender, opened)) && {
                let left = old(self).panels@.remove(idx as int);
                &&& sender == old(self).panels@[idx as int].sender
                &&& left.len() == 0 ==> (opened == Some(1i32) && final(self).panels@.len() == 1
                    && final(self).panels@[0]@.id == 1 && final(self).current_idx == 0)
                &&& left.len() > 0 ==> (opened is None && final(self).panels@ == left
                    && final(self).current_idx == if old(self).current_idx < 0
                        || old(self).current_idx >= left.len() {
                        (left.len() - 1) as i32
                    } else {
                        old(self).current_idx
                    })
            }),
    {
        if idx >= self.panels.len() {
            return None;
        }
        let p = self.panels.remove(idx);
        let len = self.panels.len();
        if len == 0 {
            proof {
                assert(spec_next_id(self.panels@) == 1);
            }
            let id = self.add_tab();
            Some((p.sender, Some(id)))
        } else {
            if self.current_idx < 0 || self.current_idx as usize >= len {
                self.current_idx = (len - 1) as i32;
            }
            Some((p.sender, None))
        }
    }

    /// Shows the panel at `idx` (when there is one).
    pub fn select_tab(&mut self, idx: usize)
        ensures
            old(self).wf() ==> final(self).wf(),
            final(self).panels == old(self).panels,
            final(self).current_idx == if idx < old(self).panels@.len() {
                idx as i32
            } else {
                old(self).current_idx
            },
    {
        if idx < self.panels.len() {
            self.current_idx = idx as i32;
        }
    }

    /// Switches the panel `id` to the mode named `mode_str` (`app`, or
    /// terminals for anything else), clearing its targets and starting a
    /// scan; returns the mode to scan for.
    pub fn set_mode(&mut self, id: i32, mode_str: &str) -> (scan: Option<TargetMode>)
        ensures
            old(self).wf() ==> final(self).wf(),
            final(self).current_idx == old(self).current_idx,
            spec_find(old(self).panels@, id) is None ==> scan is None,
            spec_find(old(self).panels@, id) is Some ==> scan == Some(if mode_str@ == "app"@ {
                TargetMode::App
            } else {
                TargetMode::Terminal
            }),
            panel_updated(old(self).panels@, final(self).panels@, spec_find(old(self).panels@, id),
                PanelView {
                    mode: if mode_str@ == "app"@ { TargetMode::App } else { TargetMode::Terminal },
                    target_index: -1i32,
                    targets: Seq::empty(),
                    target_labels: Seq::empty(),
                    scanning: true,
                    status: "Scanning for targets..."@,
                    ..panel_at(old(self).panels@, spec_find(old(self).panels@, id))
                }),
    {
        match self.find_panel(id) {
            Some(i) => {
                let mode = if crate::text::str_eq(mode_str, "app") {
                    TargetMode::App
                } else {
                    TargetMode::Terminal
                };
                self.panels[i].mode = mode;
                self.panels[i].target_index = -1;
                self.panels[i].targets = Vec::new();
                self.panels[i].target_labels = Vec::new();
                self.panels[i].scanning = true;
                self.panels[i].status = String::from_str("Scanning for targets...");
                proof {
                    assert(targets_view(self.panels@[i as int].targets@) =~= Seq::<TargetView>::empty());
                    assert(labels_view(self.panels@[i as int].target_labels@) =~= Seq::<Seq<char>>::empty());
                }
                Some(mode)
            },
            None => None,
        }
    }

    /// Selects the key `key_index` (negative: the first) for the panel `id`.
    pub fn set_key(&mut self, id: i32, key_index: i32)
        ensures
            old(self).wf() ==> final(self).wf(),
            final(self).current_idx == old(self).current_idx,
            panel_updated(old(self).panels@, final(self).panels@, spec_find(old(self).panels@, id),
                PanelView {
                    key_index: if key_index < 0 { 0 } else { key_index as usize },
                    ..panel_at(old(self).panels@, spec_find(old(self).panels@, id))
                }),
    {
        if let Some(i) = self.find_panel(id) {
            self.panels[i].key_index = if key_index < 0 {
                0
            } else {
                key_index as usize
            };
        }
    }

    /// Sets the interval text of the panel `id`.
    pub fn set_interval(&mut self, id: i32, val: String)
        ensures
            old(self).wf() ==> final(self).wf(),
            final(self).current_idx == old(self).current_idx,
            panel_updated(old(self).panels@, final(self).panels@, spec_find(old(self).panels@, id),
                PanelView { interval: val@, ..panel_at(old(self).panels@, spec_find(old(self).panels@, id)) }),
    {
        if let Some(i) = self.find_panel(id) {
            self.panels[i].interval = val;
        }
    }

    /// Sets the duration text of the panel `id`.
    pub fn set_duration(&mut self, id: i32, val: String)
        ensures
            old(self).wf() ==> final(self).wf(),
            final(self).current_idx == old(self).current_idx,
            panel_updated(old(self).panels@, final(self).panels@, spec_find(old(self).panels@, id),
                PanelView { duration: val@, ..panel_at(old(self).panels@, spec_find(old(self).panels@, id)) }),
    {
        if let Some(i) = self.find_panel(id) {
            self.panels[i].duration = val;
        }
    }

    /// Selects row `idx` of the target list of the panel `id`.
    pub fn set_target(&mut self, id: i32, idx: i32)
        ensures
            old(self).wf() ==> final(self).wf(),
            final(self).current_idx == old(self).current_idx,
            panel_updated(old(self).panels@, final(self).panels@, spec_find(old(self).panels@, id),
                PanelView { target_index: idx, ..panel_at(old(self).panels@, spec_find(old(self).panels@, id)) }),
    {
        if let Some(i) = self.find_panel(id) {
            self.panels[i].target_index = idx;
        }
    }

    /// Marks the panel `id` as scanning (a refresh); returns its mode, to
    /// scan for.
    pub fn refresh_requested(&mut self, id: i32) -> (scan: Option<TargetMode>)
        ensures
            old(self).wf() ==> final(self).wf(),
            final(self).current_idx == old(self).current_idx,
            scan is Some <==> spec_find(old(self).panels@, id) is Some,
            scan matches Some(m) ==> m == panel_at(old(self).panels@, spec_find(old(self).panels@, id)).mode,
            panel_updated(old(self).panels@, final(self).panels@, spec_find(old(self).panels@, id),
                PanelView { scanning: true, ..panel_at(old(self).panels@, spec_find(old(self).panels@, id)) }),
    {
        match self.find_panel(id) {
            Some(i) => {
                self.panels[i].scanning = true;
                Some(self.panels[i].mode)
            },
            None => None,
        }
    }

    /// Marks the panel `id` as stopping (its sender, still held, is to be
    /// stopped by the caller).
    pub fn stop_sender(&mut self, id: i32)
        ensures
            old(self).wf() ==> final(self).wf(),
            final(self).current_idx == old(self).current_idx,
            panel_updated(old(self).panels@, final(self).panels@, spec_find(old(self).panels@, id),
                PanelView { status: "Stopping..."@, ..panel_at(old(self).panels@, spec_find(old(self).panels@, id)) }),
    {
        if let Some(i) = self.find_panel(id) {
            self.panels[i].status = String::from_str("Stopping...");
        }
    }

    /// Applies the result of a scan to the panel `id`: every target found
    /// is listed (the search text cleared), the first selected, and the
    /// status counts them.
    pub fn apply_scan_result(&mut self, id: i32, targets: Vec<Target>)
        ensures
            old(self).wf() ==> final(self).wf(),
            final(self).current_idx == old(self).current_idx,
            panel_updated(old(self).panels@, final(self).panels@, spec_find(old(self).panels@, id),
                PanelView {
                    all_targets: targets_view(targets@),
                    targets: targets_view(targets@),
                    search_text: Seq::empty(),
                    target_index: if targets@.len() == 0 { -1i32 } else { 0i32 },
                    scanning: false,
                    target_labels: spec_labels(targets_view(targets@)),
                    status: spec_scan_status(targets@.len()),
                    ..panel_at(old(self).panels@, spec_find(old(self).panels@, id))
                }),
    {
        if let Some(i) = self.find_panel(id) {
            let copy = duplicate_all(&targets);
            let labels = labels_of(&targets);
            let n = targets.len();
            let status = if n == 0 {
                String::from_str("No targets found. Click Refresh to retry.")
            } else {
                let mut st = String::from_str("Found ");
                let c = decimal(n as u64);
                st.append(c.as_str());
                st.append(" target(s). Select one and click Start.");
                st
            };
            self.panels[i].all_targets = copy;
            self.panels[i].search_text = String::new();
            self.panels[i].targets = targets;
            self.panels[i].target_index = if n == 0 {
                -1
            } else {
                0
            };
            self.panels[i].scanning = false;
            self.panels[i].target_labels = labels;
            self.panels[i].status = status;
        }
    }

    /// Filters the targets of the panel `id` by the search text `txt`; the
    /// first match is selected.
    pub fn filter_targets(&mut self, id: i32, txt: &str)
        ensures
            old(self).wf() ==> final(self).wf(),
            final(self).current_idx == old(self).current_idx,
            panel_updated(old(self).panels@, final(self).panels@, spec_find(old(self).panels@, id), {
                let pv = panel_at(old(self).panels@, spec_find(old(self).panels@, id));
                let ts = spec_filter(pv.all_targets, txt@);
                PanelView {
                    search_text: txt@,
                    targets: ts,
                    target_index: if ts.len() == 0 { -1i32 } else { 0i32 },
                    target_labels: spec_labels(ts),
                    ..pv
                }
            }),
    {
        if let Some(i) = self.find_panel(id) {
            let lower = lowercase(txt);
            let query = to_chars(lower.as_str());
            let ts = if query.len() == 0 {
                duplicate_all(&self.panels[i].all_targets)
            } else {
                filter_matching(&self.panels[i].all_targets, &query)
            };
            let labels = labels_of(&ts);
            let n = ts.len();
            self.panels[i].search_text = String::from_str(txt);
            self.panels[i].targets = ts;
            self.panels[i].target_index = if n == 0 {
                -1
            } else {
                0
            };
            self.panels[i].target_labels = labels;
        }
    }

    /// Applies a batch of events of the sender of the panel at `pos`: the
    /// last sets the status; after an error or the end the panel stops
    /// running and its sender is handed back (to be dropped).
    pub fn apply_events(&mut self, pos: usize, events: Vec<Event>) -> (dropped: Option<S>)
        requires
            pos < old(self).panels@.len(),
        ensures
            old(self).wf() ==> final(self).wf(),
            final(self).current_idx == old(self).current_idx,
            dropped == spec_apply_events(old(self).panels@[pos as int]@, events@).1,
            panel_updated(old(self).panels@, final(self).panels@, Some(pos as int),
                spec_apply_events(old(self).panels@[pos as int]@, events@).0),
    {
        let key = key_label(self.panels[pos].key_index);
        let mut status: Option<String> = None;
        let mut keep_running = true;
        let mut k: usize = 0;
        while k < events.len()
            invariant
                k <= events@.len(),
                pos < self.panels@.len(),
                ({
                    let r = spec_events_status(events@.take(k as int), key@);
                    &&& keep_running == r.1
                    &&& match (status, r.0) {
                        (Some(s), Some(t)) => s@ == t,
                        (None, None) => true,
                        _ => false,
                    }
                }),
            decreases events.len() - k,
        {
            proof {
                assert(events@.take(k + 1).drop_last() =~= events@.take(k as int));
                assert(events@.take(k + 1).last() == events@[k as int]);
            }
            let (line, keeps) = event_line(&events[k], key.as_str());
            status = Some(line);
            keep_running = keep_running && keeps;
            k = k + 1;
        }
        assert(events@.take(events@.len() as int) =~= events@);
        if let Some(s) = status {
            self.panels[pos].status = s;
        }
        if !keep_running {
            self.panels[pos].running = false;
            self.panels[pos].sender.take()
        } else {
            None
        }
    }
}

impl<S> AppState<S> {
    /// Takes the sender of the panel at `pos` (a new start replaces it; the
    /// caller stops the old one).
    pub fn take_sender(&mut self, pos: usize) -> (sender: Option<S>)
        requires
            pos < old(self).panels@.len(),
        ensures
            old(self).wf() ==> final(self).wf(),
            final(self).current_idx == old(self).current_idx,
            sender == old(self).panels@[pos as int].sender,
            panel_updated(old(self).panels@, final(self).panels@, Some(pos as int),
                PanelView { sender: None, ..old(self).panels@[pos as int]@ }),
    {
        self.panels[pos].sender.take()
    }

    /// The key the panel at `pos` sends, with its picker name; when its key
    /// index names no key, the status asks for a valid one.
    pub fn start_key(&mut self, pos: usize) -> (key: Option<(KeyInfo, &'static str)>)
        requires
            pos < old(self).panels@.len(),
        ensures
            old(self).wf() ==> final(self).wf(),
            final(self).current_idx == old(self).current_idx,
            ({
                let pv = old(self).panels@[pos as int]@;
                if pv.key_index < spec_all_keys().len() {
                    let kv = spec_all_keys()[pv.key_index as int];
                    &&& final(self).panels == old(self).panels
                    &&& key matches Some((info, name)) && info.vk == kv.vk && info.unicode == kv.unicode
                        && info.display@ == kv.display && name@ == kv.name
                } else {
                    &&& key is None
                    &&& panel_updated(old(self).panels@, final(self).panels@, Some(pos as int),
                        PanelView { status: "Select a valid key."@, ..pv })
                }
            }),
    {
        let keys = all_keys();
        let idx = self.panels[pos].key_index;
        if idx >= keys.len() {
            self.panels[pos].status = String::from_str("Select a valid key.");
            return None;
        }
        assert(table_view(keys@)[idx as int] == entry_view(keys@[idx as int]));
        Some((keys[idx].1, keys[idx].0))
    }

    /// The pid and window handle to send to for the panel at `pos`: the
    /// selected target's pid, and its window in GUI-app mode (0 in terminal
    /// mode); when no target row is selected, the status asks for one.
    pub fn start_target(&mut self, pos: usize) -> (target: Option<(u32, i64)>)
        requires
            pos < old(self).panels@.len(),
        ensures
            old(self).wf() ==> final(self).wf(),
            final(self).current_idx == old(self).current_idx,
            ({
                let pv = old(self).panels@[pos as int]@;
                if 0 <= pv.target_index < pv.targets.len() {
                    let t = pv.targets[pv.target_index as int];
                    &&& final(self).panels == old(self).panels
                    &&& target == Some((t.pid, if pv.mode == TargetMode::App { t.hwnd } else { 0i64 }))
                } else {
                    &&& target is None
                    &&& panel_updated(old(self).panels@, final(self).panels@, Some(pos as int),
                        PanelView { status: "Select an accessible target first."@, ..pv })
                }
            }),
    {
        let idx = self.panels[pos].target_index;
        if idx < 0 || idx as usize >= self.panels[pos].targets.len() {
            self.panels[pos].status = String::from_str("Select an accessible target first.");
            return None;
        }
        let t = &self.panels[pos].targets[idx as usize];
        let hwnd = match self.panels[pos].mode {
            TargetMode::App => t.hwnd,
            TargetMode::Terminal => 0,
        };
        Some((t.pid, hwnd))
    }

    /// Records that the sender of the panel at `pos` started, with its
    /// status line.
    pub fn mark_running(&mut self, pos: usize, sender: S, status: String)
        requires
            pos < old(self).panels@.len(),
        ensures
            old(self).wf() ==> final(self).wf(),
            final(self).current_idx == old(self).current_idx,
            panel_updated(old(self).panels@, final(self).panels@, Some(pos as int),
                PanelView { sender: Some(sender), running: true, status: status@, ..old(self).panels@[pos as int]@ }),
    {
        self.panels[pos].sender = Some(sender);
        self.panels[pos].running = true;
        self.panels[pos].status = status;
    }
}


/// A new panel's id is fresh: it exceeds every id in use, so no two
/// panels share an id.
pub proof fn lemma_next_id_fresh<S>(panels: Seq<PanelState<S>>)
    ensures
        forall|j: int| 0 <= j < panels.len() ==> #[trigger] panels[j].id < spec_next_id(panels),
    decreases panels.len(),
{
    if panels.len() > 0 {
        lemma_next_id_fresh(panels.drop_last());
        assert forall|j: int| 0 <= j < panels.len() implies #[trigger] panels[j].id < spec_next_id(panels) by {
            if j < panels.len() - 1 {
                assert(panels.drop_last()[j] == panels[j]);
            }
        }
    }
}

proof fn lemma_next_id_prefix<S>(panels: Seq<PanelState<S>>, k: int)
    requires
        0 <= k <= panels.len(),
    ensures
        spec_next_id(panels.take(k)) <= spec_next_id(panels),
    decreases panels.len(),
{
    if k < panels.len() {
        assert(panels.drop_last().take(k) =~= panels.take(k));
        lemma_next_id_prefix(panels.drop_last(), k);
    } else {
        assert(panels.take(k) =~= panels);
    }
}

/// Searching lists exactly the targets whose lower-cased label contains
/// the lower-cased search text (every target for an empty text): each
/// listed target is one of the targets found and matches, and each target
/// found that matches is listed.
pub proof fn lemma_filter_lists_matches(all: Seq<TargetView>, text: Seq<char>)
    ensures
        spec_lowercase(text).len() == 0 ==> spec_filter(all, text) == all,
        forall|k: int|
            0 <= k < spec_filter(all, text).len() ==> all.contains(
                #[trigger] spec_filter(all, text)[k],
            ) && seq_contains(
                spec_lowercase(spec_label(spec_filter(all, text)[k])),
                spec_lowercase(text),
            ),
        forall|k: int|
            0 <= k < all.len() && seq_contains(
                spec_lowercase(spec_label(#[trigger] all[k])),
                spec_lowercase(text),
            ) ==> spec_filter(all, text).contains(all[k]),
{
    broadcast use vstd::seq_lib::group_filter_ensures;

    let q = spec_lowercase(text);
    let f = spec_filter(all, text);
    if q.len() == 0 {
        assert forall|k: int| 0 <= k < f.len() implies all.contains(#[trigger] f[k])
            && seq_contains(spec_lowercase(spec_label(f[k])), q) by {
            let h = spec_lowercase(spec_label(f[k]));
            assert(h.subrange(0, 0) =~= q);
            assert(occurs_at(h, q, 0));
        }
    } else {
        let a = all.filter(label_starts(q));
        let b = all.filter(label_contains_later(q));
        assert forall|k: int| 0 <= k < f.len() implies all.contains(#[trigger] f[k])
            && seq_contains(spec_lowercase(spec_label(f[k])), q) by {
            if k < a.len() {
                assert(f[k] == a[k]);
                assert(label_starts(q)(a[k]));
                assert(a.contains(a[k]));
                all.lemma_filter_contains_rev(label_starts(q), a[k]);
                assert(occurs_at(spec_lowercase(spec_label(f[k])), q, 0));
            } else {
                assert(f[k] == b[k - a.len()]);
                assert(label_contains_later(q)(b[k - a.len()]));
                assert(b.contains(b[k - a.len()]));
                all.lemma_filter_contains_rev(label_contains_later(q), b[k - a.len()]);
            }
        }
        assert forall|k: int|
            0 <= k < all.len() && seq_contains(
                spec_lowercase(spec_label(#[trigger] all[k])),
                q,
            ) implies f.contains(all[k]) by {
            if label_starts(q)(all[k]) {
                assert(a.contains(all[k]));
                let m = choose|m: int| 0 <= m < a.len() && a[m] == all[k];
                assert(f[m] == a[m]);
            } else {
                assert(label_contains_later(q)(all[k]));
                assert(b.contains(all[k]));
                let m = choose|m: int| 0 <= m < b.len() && b[m] == all[k];
                assert(f[a.len() + m] == b[m]);
            }
        }
    }
}

} // verus!
