//! Panel bookkeeping of the macOS front-end. Each tab is a panel with its
//! key combo (up to five key slots), interval, duration, target list and
//! status; the window shows the current panel. The drawing, the timers and
//! the sender threads are the caller's; the sender (of type `S`) is only
//! held and handed back when it must be stopped or dropped.

use vstd::prelude::*;

use crate::macos::engine::Event;
use crate::macos::keyboard::{all_keys, entry_view, spec_all_keys, table_view, KeyInfo, KeyView};
use crate::macos::targets::{spec_label, Target, TargetView, targets_view};
use crate::find::{first_with, lemma_first_with_found, lemma_first_with_none};
use crate::text::{decimal, signed_decimal, spec_decimal, spec_signed_decimal};

verus! {

/// The warning shown while the Accessibility permission is missing
/// (empty once it is granted).
pub open spec fn spec_permission_warning(trusted: bool) -> Seq<char> {
    if trusted {
        Seq::empty()
    } else {
        "Key automation will NOT work until Accessibility permission is granted.\n\nSteps:\n1. Click \"Open System Settings\" below\n2. Find \"autoclick-rs\" in the list and toggle it ON\n3. If it's not listed, click + and add the autoclick-rs binary\n4. Return here \u{2014} the warning will disappear automatically"@
    }
}

/// The permission warning for whether the process is trusted for
/// Accessibility.
pub fn check_permission(trusted: bool) -> (w: String)
    ensures
        w@ == spec_permission_warning(trusted),
{
    if trusted {
        String::new()
    } else {
        String::from_str("Key automation will NOT work until Accessibility permission is granted.\n\nSteps:\n1. Click \"Open System Settings\" below\n2. Find \"autoclick-rs\" in the list and toggle it ON\n3. If it's not listed, click + and add the autoclick-rs binary\n4. Return here \u{2014} the warning will disappear automatically")
    }
}

/// Number of key slots of a panel.
pub const KEY_SLOTS: usize = 5;

/// The picker names of the valid key indices among `indices`, joined by
/// ` + `.
pub open spec fn spec_key_desc(indices: Seq<usize>) -> Seq<char>
    decreases indices.len(),
{
    if indices.len() == 0 {
        Seq::empty()
    } else {
        let prev = spec_key_desc(indices.drop_last());
        let i = indices.last();
        if i < spec_all_keys().len() {
            if !has_valid(indices.drop_last()) {
                spec_all_keys()[i as int].name
            } else {
                prev + " + "@ + spec_all_keys()[i as int].name
            }
        } else {
            prev
        }
    }
}

/// Whether any of `indices` names a key.
pub open spec fn has_valid(indices: Seq<usize>) -> bool {
    exists|k: int| 0 <= k < indices.len() && #[trigger] indices[k] < spec_all_keys().len()
}

proof fn lemma_no_valid_empty(indices: Seq<usize>)
    requires
        !has_valid(indices),
    ensures
        spec_key_desc(indices) == Seq::<char>::empty(),
    decreases indices.len(),
{
    if indices.len() > 0 {
        let pre = indices.drop_last();
        assert(!has_valid(pre)) by {
            if has_valid(pre) {
                let k = choose|k: int| 0 <= k < pre.len() && #[trigger] pre[k] < spec_all_keys().len();
                assert(indices[k] == pre[k]);
            }
        }
        assert(!(indices[indices.len() - 1] < spec_all_keys().len()));
        lemma_no_valid_empty(pre);
    }
}

/// The description of a combo: its keys' picker names joined by ` + `,
/// indices that name no key left out.
pub fn key_desc_multi(indices: &[usize]) -> (s: String)
    ensures
        s@ == spec_key_desc(indices@),
{
    let keys = all_keys();
    let mut s = String::new();
    let mut any = false;
    let mut i: usize = 0;
    while i < indices.len()
        invariant
            i <= indices@.len(),
            table_view(keys@) == spec_all_keys(),
            s@ == spec_key_desc(indices@.take(i as int)),
            any == has_valid(indices@.take(i as int)),
        decreases indices.len() - i,
    {
        let ghost pre = indices@.take(i as int);
        assert(indices@.take(i + 1).drop_last() =~= pre);
        assert(indices@.take(i + 1).last() == indices@[i as int]);
        let idx = indices[i];
        if idx < keys.len() {
            assert(table_view(keys@)[idx as int] == entry_view(keys@[idx as int]));
            if any {
                s.append(" + ");
            } else {
                proof {
                    lemma_no_valid_empty(pre);
                }
            }
            s.append(keys[idx].0);
            proof {
                assert(has_valid(indices@.take(i + 1))) by {
                    assert(indices@.take(i + 1)[i as int] == idx);
                }
            }
            any = true;
        } else {
            proof {
                if has_valid(indices@.take(i + 1)) {
                    let k = choose|k: int|
                        0 <= k < i + 1 && #[trigger] indices@.take(i + 1)[k] < spec_all_keys().len();
                    assert(k < i);
                    assert(pre[k] == indices@.take(i + 1)[k]);
                }
                if has_valid(pre) {
                    let k = choose|k: int| 0 <= k < i && #[trigger] pre[k] < spec_all_keys().len();
                    assert(indices@.take(i + 1)[k] == pre[k]);
                }
            }
        }
        i = i + 1;
    }
    assert(indices@.take(indices@.len() as int) =~= indices@);
    s
}

/// One tab's settings and state.
pub struct PanelState<S> {
    pub id: i32,
    /// How many of the key slots are active (1..=5).
    pub key_count: usize,
    /// The key index of each slot (always five).
    pub key_indices: Vec<usize>,
    pub mode_index: usize,
    pub interval_sec: String,
    pub interval_min: String,
    /// Duration in minutes (0: until stopped).
    pub duration: String,
    /// Selected row of the target list (-1: none).
    pub target_index: i32,
    pub targets: Vec<Target>,
    /// Rows of the target list: section headers and target labels.
    pub target_labels: Vec<String>,
    /// How many of `targets` are terminals (they come first).
    pub terminal_count: usize,
    /// Row of the GUI-apps header (-1: none).
    pub gui_header_index: i32,
    pub status: String,
    pub running: bool,
    pub scanning: bool,
    pub sender: Option<S>,
}

/// A panel as plain values.
pub struct PanelView<S> {
    pub id: i32,
    pub key_count: usize,
    pub key_indices: Seq<usize>,
    pub mode_index: usize,
    pub interval_sec: Seq<char>,
    pub interval_min: Seq<char>,
    pub duration: Seq<char>,
    pub target_index: i32,
    pub targets: Seq<TargetView>,
    pub target_labels: Seq<Seq<char>>,
    pub terminal_count: usize,
    pub gui_header_index: i32,
    pub status: Seq<char>,
    pub running: bool,
    pub scanning: bool,
    pub sender: Option<S>,
}

pub open spec fn labels_view(ls: Seq<String>) -> Seq<Seq<char>> {
    ls.map_values(|s: String| s@)
}

impl<S> View for PanelState<S> {
    type V = PanelView<S>;

    open spec fn view(&self) -> PanelView<S> {
        PanelView {
            id: self.id,
            key_count: self.key_count,
            key_indices: self.key_indices@,
            mode_index: self.mode_index,
            interval_sec: self.interval_sec@,
            interval_min: self.interval_min@,
            duration: self.duration@,
            target_index: self.target_index,
            targets: targets_view(self.targets@),
            target_labels: labels_view(self.target_labels@),
            terminal_count: self.terminal_count,
            gui_header_index: self.gui_header_index,
            status: self.status@,
            running: self.running,
            scanning: self.scanning,
            sender: self.sender,
        }
    }
}

/// The target at a row of the target list: rows start with the terminals
/// header (row 0); when there is a GUI-apps header (`gui_header > 0`) it
/// has no target and the rows after it are shifted by one. `None` for
/// header rows, negative rows and rows past the targets.
pub open spec fn spec_label_index_to_target(gui_header: i32, n_targets: nat, raw: i32) -> Option<nat> {
    if raw <= 0 {
        None
    } else if gui_header > 0 && raw == gui_header {
        None
    } else {
        let pos = if gui_header > 0 && raw > gui_header {
            raw - 2
        } else {
            raw - 1
        };
        if pos < n_targets {
            Some(pos as nat)
        } else {
            None
        }
    }
}

/// A fresh panel: one key slot on the first key, every slot on it, a
/// one-second interval, no duration, no targets, idle.
pub open spec fn fresh_panel<S>(id: i32) -> PanelView<S> {
    PanelView {
        id,
        key_count: 1,
        key_indices: seq![0usize, 0, 0, 0, 0],
        mode_index: 0,
        interval_sec: "1"@,
        interval_min: "0"@,
        duration: "0"@,
        target_index: -1i32,
        targets: Seq::empty(),
        target_labels: Seq::empty(),
        terminal_count: 0,
        gui_header_index: -1i32,
        status: "macOS \u{2014} CGEvent backend"@,
        running: false,
        scanning: false,
        sender: None,
    }
}

impl<S> PanelState<S> {
    /// A fresh panel: one key slot on the first key, every slot on it, a
    /// one-second interval, no duration, no targets.
    pub fn new(id: i32) -> (p: Self)
        ensures
            p@ == fresh_panel::<S>(id),
    {
        let key_indices = vec![0usize, 0, 0, 0, 0];
        assert(key_indices@ =~= seq![0usize, 0, 0, 0, 0]);
        let p = PanelState {
            id,
            key_count: 1,
            key_indices,
            mode_index: 0,
            interval_sec: String::from_str("1"),
            interval_min: String::from_str("0"),
            duration: String::from_str("0"),
            target_index: -1,
            targets: Vec::new(),
            target_labels: Vec::new(),
            terminal_count: 0,
            gui_header_index: -1,
            status: String::from_str("macOS \u{2014} CGEvent backend"),
            running: false,
            scanning: false,
            sender: None,
        };
        assert(targets_view(p.targets@) =~= Seq::<TargetView>::empty());
        assert(labels_view(p.target_labels@) =~= Seq::<Seq<char>>::empty());
        p
    }

    /// The target at row `raw` of the target list.
    pub fn label_index_to_target(&self, raw: i32) -> (pos: Option<usize>)
        ensures
            match (pos, spec_label_index_to_target(self.gui_header_index, self.targets@.len(), raw)) {
                (Some(p), Some(q)) => p == q,
                (None, None) => true,
                _ => false,
            },
    {
        if raw < 0 {
            return None;
        }
        let raw = raw as usize;
        if raw == 0 {
            return None;
        }
        let mut pos = raw - 1;
        if self.gui_header_index > 0 && raw > self.gui_header_index as usize {
            pos = pos - 1;
        } else if self.gui_header_index > 0 && raw == self.gui_header_index as usize {
            return None;
        }
        if pos < self.targets.len() {
            Some(pos)
        } else {
            None
        }
    }
}

/// The rows of a target list for `targets`, of which the first
/// `terminal_count` are terminals: the terminals header, their labels, and,
/// when there are GUI apps, the GUI-apps header and their labels; with the
/// row of the GUI-apps header (-1 when there is none).
pub open spec fn spec_target_rows(targets: Seq<TargetView>, terminal_count: nat) -> (Seq<Seq<char>>, int) {
    let head = seq!["\u{2500}\u{2500} TERMINALS \u{2500}\u{2500}"@] + targets.take(terminal_count as int).map_values(|t: TargetView| spec_label(t));
    if terminal_count < targets.len() {
        (head + seq!["\u{2500}\u{2500} GUI APPS \u{2500}\u{2500}"@] + targets.skip(terminal_count as int).map_values(|t: TargetView| spec_label(t)), head.len() as int)
    } else {
        (head, -1)
    }
}

fn push_labels(rows: &mut Vec<String>, targets: &Vec<Target>, from: usize, to: usize)
    requires
        from <= to <= targets@.len(),
    ensures
        labels_view(final(rows)@) == labels_view(old(rows)@) + targets_view(targets@).subrange(from as int, to as int).map_values(|t: TargetView| spec_label(t)),
{
    let ghost start = labels_view(rows@);
    let mut i: usize = from;
    while i < to
        invariant
            from <= i <= to,
            to <= targets@.len(),
            labels_view(rows@) =~= start + targets_view(targets@).subrange(from as int, i as int).map_values(|t: TargetView| spec_label(t)),
        decreases to - i,
    {
        let l = targets[i].label();
        let ghost before = rows@;
        rows.push(l);
        assert(labels_view(rows@) =~= labels_view(before).push(spec_label(targets@[i as int]@)));
        i = i + 1;
        assert(targets_view(targets@).subrange(from as int, i as int) =~= targets_view(targets@).subrange(from as int, i - 1).push(targets@[i - 1]@));
    }
}

/// The rows of the target list and the row of the GUI-apps header.
pub fn build_target_rows(targets: &Vec<Target>, terminal_count: usize) -> (r: (Vec<String>, i32))
    requires
        terminal_count <= targets@.len(),
        targets@.len() < i32::MAX,
    ensures
        labels_view(r.0@) == spec_target_rows(targets_view(targets@), terminal_count as nat).0,
        r.1 as int == spec_target_rows(targets_view(targets@), terminal_count as nat).1,
{
    let ghost tv = targets_view(targets@);
    let mut rows: Vec<String> = Vec::new();
    rows.push(String::from_str("\u{2500}\u{2500} TERMINALS \u{2500}\u{2500}"));
    push_labels(&mut rows, targets, 0, terminal_count);
    assert(tv.subrange(0, terminal_count as int) =~= tv.take(terminal_count as int));
    assert(rows@.len() == labels_view(rows@).len());
    assert(rows@.len() == 1 + terminal_count);
    if terminal_count < targets.len() {
        let hdr = rows.len() as i32;
        let ghost head = labels_view(rows@);
        rows.push(String::from_str("\u{2500}\u{2500} GUI APPS \u{2500}\u{2500}"));
        push_labels(&mut rows, targets, terminal_count, targets.len());
        assert(tv.subrange(terminal_count as int, tv.len() as int) =~= tv.skip(terminal_count as int));
        assert(head =~= seq!["\u{2500}\u{2500} TERMINALS \u{2500}\u{2500}"@] + tv.take(terminal_count as int).map_values(|t: TargetView| spec_label(t)));
        assert(labels_view(rows@) =~= spec_target_rows(tv, terminal_count as nat).0);
        (rows, hdr)
    } else {
        assert(labels_view(rows@) =~= spec_target_rows(tv, terminal_count as nat).0);
        (rows, -1)
    }
}

/// The first panel with `id`.
pub open spec fn spec_find<S>(panels: Seq<PanelState<S>>, id: i32) -> Option<int> {
    first_with(panels, |p: PanelState<S>| p.id == id)
}

/// A tab of the tab bar: the id of its panel and its title.
#[derive(Clone, Debug, PartialEq, Eq)]
pub struct TabData {
    pub id: i32,
    pub title: String,
}

/// The title of the tab of panel `id`: `Tab <id>`.
pub open spec fn spec_tab_title(id: i32) -> Seq<char> {
    "Tab "@ + spec_signed_decimal(id as int)
}

/// The tab bar for `panels`, as (id, title): one tab per panel, in order.
pub open spec fn spec_tabs<S>(panels: Seq<PanelState<S>>) -> Seq<(i32, Seq<char>)> {
    panels.map_values(|p: PanelState<S>| (p.id, spec_tab_title(p.id)))
}

pub open spec fn tabs_view(tabs: Seq<TabData>) -> Seq<(i32, Seq<char>)> {
    tabs.map_values(|t: TabData| (t.id, t.title@))
}

/// The tab of panel `id`.
pub fn tab_entry(id: i32) -> (t: TabData)
    ensures
        t.id == id,
        t.title@ == spec_tab_title(id),
{
    let mut title = String::from_str("Tab ");
    let n = signed_decimal(id);
    title.append(n.as_str());
    TabData { id, title }
}

/// What starting a panel's sender needs.
pub enum StartPlan {
    /// No panel has the id.
    NoPanel,
    /// No target row is selected; the status says so.
    NoTarget,
    /// A key slot names no key; nothing happens.
    BadKey,
    /// Start with these keys, sending to `pid`, with these interval and
    /// duration settings (still to be parsed).
    Ready { keys: Vec<KeyInfo>, pid: u32, interval_sec: String, interval_min: String, duration: String },
}

/// The state of the front-end: its panels, the id the next panel gets and
/// the index of the shown panel (-1: none).
pub struct AppState<S> {
    pub panels: Vec<PanelState<S>>,
    pub next_id: i32,
    pub current_idx: i32,
}

impl<S> AppState<S> {
    /// No panels yet.
    pub fn new() -> (a: Self)
        ensures
            a.panels@.len() == 0,
            a.next_id == 1,
            a.current_idx == -1,
    {
        AppState { panels: Vec::new(), next_id: 1, current_idx: -1 }
    }

    /// The tab bar: one tab per panel, in order.
    pub fn tabs(&self) -> (tabs: Vec<TabData>)
        ensures
            tabs_view(tabs@) == spec_tabs(self.panels@),
    {
        let mut tabs: Vec<TabData> = Vec::new();
        let mut k: usize = 0;
        while k < self.panels.len()
            invariant
                k <= self.panels@.len(),
                tabs_view(tabs@) =~= spec_tabs(self.panels@.take(k as int)),
            decreases self.panels.len() - k,
        {
            let ghost before = tabs@;
            tabs.push(tab_entry(self.panels[k].id));
            assert(self.panels@.take(k + 1) =~= self.panels@.take(k as int).push(self.panels@[k as int]));
            assert(tabs_view(tabs@) =~= tabs_view(before).push(tabs_view(tabs@).last()));
            k = k + 1;
        }
        assert(self.panels@.take(self.panels@.len() as int) =~= self.panels@);
        tabs
    }

    /// The index of the first panel with `id`.
    pub fn find_panel(&self, id: i32) -> (pos: Option<usize>)
        ensures
            match (pos, spec_find(self.panels@, id)) {
                (Some(p), Some(q)) => p == q && p < self.panels@.len(),
                (None, None) => true,
                _ => false,
            },
    {
        let ghost pred = |p: PanelState<S>| p.id == id;
        let mut k: usize = 0;
        while k < self.panels.len()
            invariant
                k <= self.panels@.len(),
                pred == (|p: PanelState<S>| p.id == id),
                forall|j: int| 0 <= j < k ==> #[trigger] self.panels@[j].id != id,
            decreases self.panels.len() - k,
        {
            if self.panels[k].id == id {
                proof {
                    lemma_first_with_found(self.panels@, pred, k as int);
                }
                return Some(k);
            }
            k = k + 1;
        }
        proof {
            lemma_first_with_none(self.panels@, pred);
        }
        None
    }

    /// Adds a panel with the next id and shows it; returns its id.
    pub fn add_panel(&mut self) -> (id: i32)
        requires
            old(self).next_id < i32::MAX,
            old(self).panels@.len() < i32::MAX,
        ensures
            id == old(self).next_id,
            final(self).next_id == old(self).next_id + 1,
            final(self).panels@.len() == old(self).panels@.len() + 1,
            forall|j: int| 0 <= j < old(self).panels@.len() ==> final(self).panels@[j] == old(self).panels@[j],
            final(self).panels@.last()@ == fresh_panel::<S>(id),
            spec_tabs(final(self).panels@) == spec_tabs(old(self).panels@).push(
                (id, spec_tab_title(id)),
            ),
            final(self).current_idx == old(self).panels@.len(),
    {
        let id = self.next_id;
        self.next_id = id + 1;
        self.panels.push(PanelState::new(id));
        self.current_idx = (self.panels.len() - 1) as i32;
        id
    }

    /// Selects the panel shown.
    pub fn select_tab(&mut self, idx: i32)
        ensures
            final(self).current_idx == idx,
            final(self).panels == old(self).panels,
            final(self).next_id == old(self).next_id,
    {
        self.current_idx = idx;
    }

    /// Closes every panel; returns their senders, to be stopped.
    pub fn close_all(&mut self) -> (senders: Vec<S>)
        ensures
            final(self).panels@.len() == 0,
            final(self).current_idx == -1,
            final(self).next_id == old(self).next_id,
            senders@ == old(self).panels@.filter_map(|p: PanelState<S>| p.sender),
    {
        let ghost orig = self.panels@;
        let mut senders: Vec<S> = Vec::new();
        let mut rest = Vec::new();
        std::mem::swap(&mut rest, &mut self.panels);
        let n = rest.len();
        let mut i: usize = 0;
        assert(orig.skip(0) =~= orig);
        while i < n
            invariant
                n == orig.len(),
                i <= n,
                rest@ == orig.skip(i as int),
                senders@ == orig.take(i as int).filter_map(|p: PanelState<S>| p.sender),
            decreases n - i,
        {
            proof {
                orig.lemma_filter_map_take_succ(|p: PanelState<S>| p.sender, i as int);
            }
            let p = rest.remove(0);
            assert(p == orig[i as int]);
            assert(rest@ =~= orig.skip(i + 1));
            match p.sender {
                Some(s) => {
                    senders.push(s);
                },
                None => {},
            }
            i = i + 1;
        }
        assert(orig.take(n as int) =~= orig);
        self.current_idx = -1;
        senders
    }

    /// Closes the panel at `idx` (when there is one) and shows its
    /// neighbour; returns its sender, to be stopped.
    pub fn close_tab(&mut self, idx: i32) -> (sender: Option<S>)
        ensures
            final(self).next_id == old(self).next_id,
            (idx < 0 || idx >= old(self).panels@.len()) ==> (final(self).panels == old(self).panels
                && final(self).current_idx == old(self).current_idx && sender is None),
            (0 <= idx < old(self).panels@.len()) ==> {
                &&& final(self).panels@ == old(self).panels@.remove(idx as int)
                &&& sender == old(self).panels@[idx as int].sender
                &&& final(self).current_idx == if final(self).panels@.len() == 0 {
                    -1
                } else if idx > 0 {
                    idx - 1
                } else {
                    0
                }
            },
    {
        if idx < 0 || idx as usize >= self.panels.len() {
            return None;
        }
        let p = self.panels.remove(idx as usize);
        let new_idx = if idx > 0 {
            idx - 1
        } else {
            0
        };
        self.current_idx = if self.panels.len() == 0 {
            -1
        } else {
            new_idx
        };
        p.sender
    }
}


/// `new` is `old` with the panel at `i` (when some) viewed as `pv`.
pub open spec fn panel_updated<S>(old: Seq<PanelState<S>>, new: Seq<PanelState<S>>, i: Option<int>, pv: PanelView<S>) -> bool {
    match i {
        None => new == old,
        Some(k) => {
            &&& new.len() == old.len()
            &&& forall|j: int| 0 <= j < old.len() && j != k ==> new[j] == old[j]
            &&& new[k]@ == pv
        },
    }
}

/// The view of the panel `i` of `panels` (arbitrary when `i` is `None`).
pub open spec fn panel_at<S>(panels: Seq<PanelState<S>>, i: Option<int>) -> PanelView<S> {
    panels[i->0]@
}

/// The status a sender event leaves on a panel, and whether the panel
/// still runs after it.
pub open spec fn spec_event_status(e: Event) -> (Seq<char>, bool) {
    match e {
        Event::Tick { count, method } => ("["@ + method@ + "] Sent "@ + spec_decimal(count as nat) + " keys"@, true),
        Event::Error(msg) => ("Error: "@ + msg@, false),
        Event::Done(count) => ("Done \u{2014} "@ + spec_decimal(count as nat) + " keys sent"@, false),
    }
}

/// The status line for a sender event and whether the panel still runs.
pub fn event_status(e: &Event) -> (r: (String, bool))
    ensures
        (r.0@, r.1) == spec_event_status(*e),
{
    match e {
        Event::Tick { count, method } => {
            let mut st = String::from_str("[");
            st.append(method);
            st.append("] Sent ");
            let n = decimal(*count);
            st.append(n.as_str());
            st.append(" keys");
            (st, true)
        },
        Event::Error(msg) => {
            let mut st = String::from_str("Error: ");
            st.append(msg.as_str());
            (st, false)
        },
        Event::Done(count) => {
            let mut st = String::from_str("Done \u{2014} ");
            let n = decimal(*count);
            st.append(n.as_str());
            st.append(" keys sent");
            (st, false)
        },
    }
}

/// What the window shows of a panel.
pub struct PanelData {
    pub id: i32,
    pub mode_index: usize,
    pub key_count: usize,
    /// The key indices of the active slots.
    pub key_indices: Vec<usize>,
    /// The combo's description.
    pub key_desc: String,
    pub interval_sec: String,
    pub interval_min: String,
    pub duration: String,
    pub target_index: i32,
    pub target_labels: Vec<String>,
    pub status: String,
    pub running: bool,
    pub scanning: bool,
}

impl<S> AppState<S> {
    /// Sets key slot `slot` of the panel `id` to the key `key_index` (slots
    /// past the fifth are ignored).
    pub fn set_key_slot(&mut self, id: i32, slot: usize, key_index: usize)
        ensures
            final(self).next_id == old(self).next_id,
            final(self).current_idx == old(self).current_idx,
            panel_updated(old(self).panels@, final(self).panels@, spec_find(old(self).panels@, id),
                {
                    let pv = panel_at(old(self).panels@, spec_find(old(self).panels@, id));
                    if slot < pv.key_indices.len() {
                        PanelView { key_indices: pv.key_indices.update(slot as int, key_index), ..pv }
                    } else {
                        pv
                    }
                }),
    {
        if let Some(i) = self.find_panel(id) {
            if slot < self.panels[i].key_indices.len() {
                self.panels[i].key_indices.set(slot, key_index);
            }
        }
    }

    /// Sets how many key slots of the panel `id` are active, kept within 1..=5.
    pub fn set_key_count(&mut self, id: i32, count: usize)
        ensures
            final(self).next_id == old(self).next_id,
            final(self).current_idx == old(self).current_idx,
            panel_updated(old(self).panels@, final(self).panels@, spec_find(old(self).panels@, id),
                PanelView {
                    key_count: if count < 1 { 1 } else if count > KEY_SLOTS { KEY_SLOTS } else { count },
                    ..panel_at(old(self).panels@, spec_find(old(self).panels@, id))
                }),
    {
        if let Some(i) = self.find_panel(id) {
            let c = if count < 1 {
                1
            } else if count > KEY_SLOTS {
                KEY_SLOTS
            } else {
                count
            };
            self.panels[i].key_count = c;
        }
    }

    /// Sets the interval seconds text of the panel `id`.
    pub fn set_interval_sec(&mut self, id: i32, val: String)
        ensures
            final(self).next_id == old(self).next_id,
            final(self).current_idx == old(self).current_idx,
            panel_updated(old(self).panels@, final(self).panels@, spec_find(old(self).panels@, id),
                PanelView { interval_sec: val@, ..panel_at(old(self).panels@, spec_find(old(self).panels@, id)) }),
    {
        if let Some(i) = self.find_panel(id) {
            self.panels[i].interval_sec = val;
        }
    }

    /// Sets the interval minutes text of the panel `id`.
    pub fn set_interval_min(&mut self, id: i32, val: String)
        ensures
            final(self).next_id == old(self).next_id,
            final(self).current_idx == old(self).current_idx,
            panel_updated(old(self).panels@, final(self).panels@, spec_find(old(self).panels@, id),
                PanelView { interval_min: val@, ..panel_at(old(self).panels@, spec_find(old(self).panels@, id)) }),
    {
        if let Some(i) = self.find_panel(id) {
            self.panels[i].interval_min = val;
        }
    }

    /// Sets the duration text (minutes) of the panel `id`.
    pub fn set_duration(&mut self, id: i32, val: String)
        ensures
            final(self).next_id == old(self).next_id,
            final(self).current_idx == old(self).current_idx,
            panel_updated(old(self).panels@, final(self).panels@, spec_find(old(self).panels@, id),
                PanelView { duration: val@, ..panel_at(old(self).panels@, spec_find(old(self).panels@, id)) }),
    {
        if let Some(i) = self.find_panel(id) {
            self.panels[i].duration = val;
        }
    }

    /// Selects row `idx` of the target list of the panel `id`.
    pub fn set_target(&mut self, id: i32, idx: i32)
        ensures
            final(self).next_id == old(self).next_id,
            final(self).current_idx == old(self).current_idx,
            panel_updated(old(self).panels@, final(self).panels@, spec_find(old(self).panels@, id),
                PanelView { target_index: idx, ..panel_at(old(self).panels@, spec_find(old(self).panels@, id)) }),
    {
        if let Some(i) = self.find_panel(id) {
            self.panels[i].target_index = idx;
        }
    }

    /// Stops the sender of the panel `id`: it is handed back, to be
    /// stopped, and the panel is marked stopped.
    pub fn stop_sender(&mut self, id: i32) -> (sender: Option<S>)
        ensures
            final(self).next_id == old(self).next_id,
            final(self).current_idx == old(self).current_idx,
            spec_find(old(self).panels@, id) is None ==> sender is None,
            spec_find(old(self).panels@, id) is Some ==> sender == panel_at(old(self).panels@, spec_find(old(self).panels@, id)).sender,
            panel_updated(old(self).panels@, final(self).panels@, spec_find(old(self).panels@, id),
                PanelView {
                    sender: None,
                    running: false,
                    status: "Stopped"@,
                    ..panel_at(old(self).panels@, spec_find(old(self).panels@, id))
                }),
    {
        match self.find_panel(id) {
            Some(i) => {
                let s = self.panels[i].sender.take();
                self.panels[i].running = false;
                self.panels[i].status = String::from_str("Stopped");
                s
            },
            None => None,
        }
    }

    /// Applies an event of the sender of the panel `id`: its status line;
    /// after an error or the end, the panel stops running and its sender is
    /// handed back (to be dropped).
    pub fn apply_event(&mut self, id: i32, e: Event) -> (dropped: Option<S>)
        ensures
            final(self).next_id == old(self).next_id,
            final(self).current_idx == old(self).current_idx,
            spec_find(old(self).panels@, id) is None ==> dropped is None,
            spec_find(old(self).panels@, id) is Some ==> {
                let pv = panel_at(old(self).panels@, spec_find(old(self).panels@, id));
                let (st, keeps) = spec_event_status(e);
                &&& dropped == if keeps { None } else { pv.sender }
                &&& panel_updated(old(self).panels@, final(self).panels@, spec_find(old(self).panels@, id),
                    if keeps {
                        PanelView { status: st, ..pv }
                    } else {
                        PanelView { status: st, running: false, sender: None, ..pv }
                    })
            },
    {
        match self.find_panel(id) {
            Some(i) => {
                let (st, keeps) = event_status(&e);
                self.panels[i].status = st;
                if keeps {
                    None
                } else {
                    self.panels[i].running = false;
                    self.panels[i].sender.take()
                }
            },
            None => None,
        }
    }

    /// Replaces the targets of the panel `id` with `targets`, of which the
    /// first `terminal_count` are terminals: the target list gets its rows,
    /// the row of the first target is selected (past the terminals header,
    /// and past the GUI-apps header when there are no terminals) and the
    /// status counts the windows; with no targets the list is emptied and
    /// the status says so.
    pub fn refresh_targets(&mut self, id: i32, targets: Vec<Target>, terminal_count: usize)
        requires
            terminal_count <= targets@.len(),
            targets@.len() < i32::MAX,
        ensures
            final(self).next_id == old(self).next_id,
            final(self).current_idx == old(self).current_idx,
            panel_updated(old(self).panels@, final(self).panels@, spec_find(old(self).panels@, id), {
                let pv = panel_at(old(self).panels@, spec_find(old(self).panels@, id));
                let tv = targets_view(targets@);
                if tv.len() == 0 {
                    PanelView {
                        targets: tv,
                        terminal_count,
                        scanning: false,
                        target_index: -1i32,
                        gui_header_index: -1i32,
                        target_labels: Seq::empty(),
                        status: "No windows found. Click Refresh to retry."@,
                        ..pv
                    }
                } else {
                    let rows = spec_target_rows(tv, terminal_count as nat);
                    PanelView {
                        targets: tv,
                        terminal_count,
                        scanning: false,
                        target_index: target_row(terminal_count as nat, 0) as i32,
                        gui_header_index: rows.1 as i32,
                        target_labels: rows.0,
                        status: spec_decimal(tv.len()) + " windows found"@,
                        ..pv
                    }
                }
            }),
    {
        if let Some(i) = self.find_panel(id) {
            if targets.len() == 0 {
                self.panels[i].targets = targets;
                self.panels[i].terminal_count = terminal_count;
                self.panels[i].scanning = false;
                self.panels[i].target_index = -1;
                self.panels[i].gui_header_index = -1;
                self.panels[i].target_labels = Vec::new();
                self.panels[i].status = String::from_str("No windows found. Click Refresh to retry.");
                assert(labels_view(self.panels@[i as int].target_labels@) =~= Seq::<Seq<char>>::empty());
            } else {
                let (rows, hdr) = build_target_rows(&targets, terminal_count);
                let mut st = decimal(targets.len() as u64);
                st.append(" windows found");
                let ghost tv = targets_view(targets@);
                assert(tv.len() == targets@.len());
                assert(st@ == spec_decimal(tv.len()) + " windows found"@);
                self.panels[i].targets = targets;
                self.panels[i].terminal_count = terminal_count;
                self.panels[i].scanning = false;
                self.panels[i].target_labels = rows;
                self.panels[i].gui_header_index = hdr;
                self.panels[i].target_index = if terminal_count > 0 {
                    1
                } else {
                    2
                };
                self.panels[i].status = st;
            }
        }
    }
}


/// The keys of a combo: the key at each of the first `count` slots;
/// `None` when one of them names no key (or is missing).
pub open spec fn spec_combo_keys(indices: Seq<usize>, count: nat) -> Option<Seq<KeyView>> {
    if count <= indices.len() && forall|k: int| 0 <= k < count ==> #[trigger] indices[k] < spec_all_keys().len() {
        Some(Seq::new(count, |k: int| spec_all_keys()[indices[k] as int]))
    } else {
        None
    }
}

pub open spec fn keys_view(ks: Seq<KeyInfo>) -> Seq<(u16, Seq<char>)> {
    ks.map_values(|k: KeyInfo| (k.keycode, k.display@))
}

pub open spec fn key_views_plain(ks: Seq<KeyView>) -> Seq<(u16, Seq<char>)> {
    ks.map_values(|k: KeyView| (k.keycode, k.display))
}

/// The keys at the first `count` slots of `indices`.
pub fn combo_keys(indices: &Vec<usize>, count: usize) -> (keys: Option<Vec<KeyInfo>>)
    ensures
        match (keys, spec_combo_keys(indices@, count as nat)) {
            (Some(ks), Some(vs)) => keys_view(ks@) == key_views_plain(vs),
            (None, None) => true,
            _ => false,
        },
{
    let all = all_keys();
    let mut keys: Vec<KeyInfo> = Vec::new();
    let mut i: usize = 0;
    while i < count
        invariant
            i <= count,
            table_view(all@) == spec_all_keys(),
            i <= indices@.len(),
            forall|k: int| 0 <= k < i ==> #[trigger] indices@[k] < spec_all_keys().len(),
            keys_view(keys@) =~= key_views_plain(Seq::new(i as nat, |k: int| spec_all_keys()[indices@[k] as int])),
        decreases count - i,
    {
        if i >= indices.len() {
            return None;
        }
        let idx = indices[i];
        if idx >= all.len() {
            return None;
        }
        assert(table_view(all@)[idx as int] == entry_view(all@[idx as int]));
        let ghost before = keys@;
        keys.push(all[idx].1);
        assert(keys_view(keys@) =~= keys_view(before).push((all@[idx as int].1.keycode, all@[idx as int].1.display@)));
        assert(Seq::new((i + 1) as nat, |k: int| spec_all_keys()[indices@[k] as int]) =~= Seq::new(i as nat, |k: int| spec_all_keys()[indices@[k] as int]).push(spec_all_keys()[idx as int]));
        i = i + 1;
        if i >= indices.len() && i < count {
            return None;
        }
    }
    Some(keys)
}

impl<S> AppState<S> {
    /// What starting the sender of the panel `id` needs: its combo's keys,
    /// the pid of the selected target and its interval and duration texts.
    /// Without a selected target row the panel's status asks for one.
    pub fn start_sender(&mut self, id: i32) -> (plan: StartPlan)
        ensures
            final(self).next_id == old(self).next_id,
            final(self).current_idx == old(self).current_idx,
            spec_find(old(self).panels@, id) is None ==> plan is NoPanel && final(self).panels == old(self).panels,
            spec_find(old(self).panels@, id) is Some ==> {
                let pv = panel_at(old(self).panels@, spec_find(old(self).panels@, id));
                let pos = spec_label_index_to_target(pv.gui_header_index, pv.targets.len(), pv.target_index);
                if pos is None {
                    &&& plan is NoTarget
                    &&& panel_updated(old(self).panels@, final(self).panels@, spec_find(old(self).panels@, id),
                        PanelView { status: "No target selected \u{2014} click Refresh first"@, ..pv })
                } else {
                    &&& final(self).panels == old(self).panels
                    &&& match spec_combo_keys(pv.key_indices, pv.key_count as nat) {
                        None => plan is BadKey,
                        Some(vs) => (plan matches StartPlan::Ready { keys, pid, interval_sec, interval_min, duration }
                            && keys_view(keys@) == key_views_plain(vs)
                            && pid == pv.targets[pos->0 as int].pid
                            && interval_sec@ == pv.interval_sec
                            && interval_min@ == pv.interval_min
                            && duration@ == pv.duration),
                    }
                }
            },
    {
        let i = match self.find_panel(id) {
            Some(i) => i,
            None => {
                return StartPlan::NoPanel;
            },
        };
        let pos = self.panels[i].label_index_to_target(self.panels[i].target_index);
        let p = match pos {
            Some(p) => p,
            None => {
                self.panels[i].status = String::from_str("No target selected \u{2014} click Refresh first");
                return StartPlan::NoTarget;
            },
        };
        let pid = self.panels[i].targets[p].pid;
        match combo_keys(&self.panels[i].key_indices, self.panels[i].key_count) {
            None => StartPlan::BadKey,
            Some(keys) => StartPlan::Ready {
                keys,
                pid,
                interval_sec: self.panels[i].interval_sec.clone(),
                interval_min: self.panels[i].interval_min.clone(),
                duration: self.panels[i].duration.clone(),
            },
        }
    }

    /// Records that the sender of the panel `id` started.
    pub fn sender_started(&mut self, id: i32, sender: S)
        ensures
            final(self).next_id == old(self).next_id,
            final(self).current_idx == old(self).current_idx,
            spec_find(old(self).panels@, id) is Some ==> panel_updated(old(self).panels@, final(self).panels@, spec_find(old(self).panels@, id),
                PanelView {
                    sender: Some(sender),
                    running: true,
                    status: "Running..."@,
                    ..panel_at(old(self).panels@, spec_find(old(self).panels@, id))
                }),
            spec_find(old(self).panels@, id) is None ==> final(self).panels == old(self).panels,
    {
        if let Some(i) = self.find_panel(id) {
            self.panels[i].sender = Some(sender);
            self.panels[i].running = true;
            self.panels[i].status = String::from_str("Running...");
        }
    }

    /// What the window shows of the current panel (`None` when the current
    /// index is not a panel's).
    pub fn panel_data(&self) -> (d: Option<PanelData>)
        ensures
            (self.current_idx < 0 || self.current_idx >= self.panels@.len()) ==> d is None,
            (0 <= self.current_idx < self.panels@.len()) ==> (d matches Some(data) && {
                let pv = self.panels@[self.current_idx as int]@;
                let active = pv.key_indices.take(if pv.key_count <= pv.key_indices.len() { pv.key_count as int } else { pv.key_indices.len() as int });
                &&& data.id == pv.id
                &&& data.mode_index == pv.mode_index
                &&& data.key_count == pv.key_count
                &&& data.key_indices@ == active
                &&& data.key_desc@ == spec_key_desc(active)
                &&& data.interval_sec@ == pv.interval_sec
                &&& data.interval_min@ == pv.interval_min
                &&& data.duration@ == pv.duration
                &&& data.target_index == pv.target_index
                &&& labels_view(data.target_labels@) == pv.target_labels
                &&& data.status@ == pv.status
                &&& data.running == pv.running
                &&& data.scanning == pv.scanning
            }),
    {
        if self.current_idx < 0 || self.current_idx as usize >= self.panels.len() {
            return None;
        }
        let p = &self.panels[self.current_idx as usize];
        let n = if p.key_count <= p.key_indices.len() {
            p.key_count
        } else {
            p.key_indices.len()
        };
        let mut active: Vec<usize> = Vec::new();
        let mut k: usize = 0;
        while k < n
            invariant
                k <= n,
                n <= p.key_indices@.len(),
                active@ =~= p.key_indices@.take(k as int),
            decreases n - k,
        {
            active.push(p.key_indices[k]);
            k = k + 1;
        }
        let desc = key_desc_multi(active.as_slice());
        let mut labels: Vec<String> = Vec::new();
        let mut j: usize = 0;
        while j < p.target_labels.len()
            invariant
                j <= p.target_labels@.len(),
                labels_view(labels@) =~= labels_view(p.target_labels@.take(j as int)),
            decreases p.target_labels.len() - j,
        {
            let ghost before = labels@;
            labels.push(p.target_labels[j].clone());
            assert(labels_view(labels@) =~= labels_view(before).push(p.target_labels@[j as int]@));
            j = j + 1;
            assert(p.target_labels@.take(j as int) =~= p.target_labels@.take(j - 1).push(p.target_labels@[j - 1]));
        }
        assert(p.target_labels@.take(p.target_labels@.len() as int) =~= p.target_labels@);
        Some(PanelData {
            id: p.id,
            mode_index: p.mode_index,
            key_count: p.key_count,
            key_indices: active,
            key_desc: desc,
            interval_sec: p.interval_sec.clone(),
            interval_min: p.interval_min.clone(),
            duration: p.duration.clone(),
            target_index: p.target_index,
            target_labels: labels,
            status: p.status.clone(),
            running: p.running,
            scanning: p.scanning,
        })
    }
}


/// The row of the target list that shows target `p`, when the first
/// `terminal_count` targets are terminals.
pub open spec fn target_row(terminal_count: nat, p: nat) -> nat {
    if p < terminal_count {
        p + 1
    } else {
        p + 2
    }
}

/// Selecting a target's row selects that target: in the rows built for a
/// target list, the row of target `p` shows its label and leads back to
/// `p`, while the header rows, negative rows and rows past the list lead
/// to no target. In particular the row a refresh selects leads to the
/// first target.
pub proof fn lemma_rows_select_targets(targets: Seq<TargetView>, terminal_count: nat, p: nat)
    requires
        terminal_count <= targets.len(),
        p < targets.len(),
        targets.len() < i32::MAX,
    ensures
        ({
            let (rows, hdr) = spec_target_rows(targets, terminal_count);
            let row = target_row(terminal_count, p);
            &&& row < rows.len()
            &&& rows[row as int] == spec_label(targets[p as int])
            &&& spec_label_index_to_target(hdr as i32, targets.len(), row as i32) == Some(p)
            &&& spec_label_index_to_target(hdr as i32, targets.len(), 0) is None
            &&& hdr > 0 ==> spec_label_index_to_target(hdr as i32, targets.len(), hdr as i32) is None
            &&& spec_label_index_to_target(hdr as i32, targets.len(), target_row(terminal_count, 0) as i32) == Some(0nat)
            &&& forall|raw: i32| (raw < 0 || raw >= rows.len()) ==> #[trigger] spec_label_index_to_target(hdr as i32, targets.len(), raw) is None
        }),
{
    let tc = terminal_count;
    let head = seq!["\u{2500}\u{2500} TERMINALS \u{2500}\u{2500}"@] + targets.take(tc as int).map_values(|t: TargetView| spec_label(t));
    assert(head.len() == tc + 1);
    if p < tc {
        assert(head[(p + 1) as int] == spec_label(targets[p as int]));
        if tc < targets.len() {
            let rows = head + seq!["\u{2500}\u{2500} GUI APPS \u{2500}\u{2500}"@] + targets.skip(tc as int).map_values(|t: TargetView| spec_label(t));
            assert(rows[(p + 1) as int] == head[(p + 1) as int]);
        }
    } else {
        let tail = targets.skip(tc as int).map_values(|t: TargetView| spec_label(t));
        let rows = head + seq!["\u{2500}\u{2500} GUI APPS \u{2500}\u{2500}"@] + tail;
        assert(tail[p - tc] == spec_label(targets[p as int]));
        assert(rows[(p + 2) as int] == tail[p - tc]);
    }
}

} // verus!
