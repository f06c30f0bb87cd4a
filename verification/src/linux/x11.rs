//! The pure parts of the X11 back-end: decoding window-list and PID
//! properties, choosing where the window list comes from, selecting the
//! user-facing windows, the keysym-to-keycode map and the plan for
//! delivering a key (XTest when the server has it, XSendEvent otherwise).

use vstd::prelude::*;

use crate::keyboard::KeyInfo;
use crate::text::{hex_padded, spec_hex_padded, spec_utf8_lossy, utf8_decode, utf8_lossy};
use vstd::utf8::{decode_utf8, valid_utf8};

verus! {

/// The 32-bit word at `4 * i` in `bytes`, in the byte order of the
/// machine (`little_endian`), as `u32::from_ne_bytes` reads it.
pub open spec fn word_at(bytes: Seq<u8>, i: int, little_endian: bool) -> u32 {
    let b0 = bytes[4 * i] as int;
    let b1 = bytes[4 * i + 1] as int;
    let b2 = bytes[4 * i + 2] as int;
    let b3 = bytes[4 * i + 3] as int;
    if little_endian {
        (b0 + 256 * b1 + 65536 * b2 + 16777216 * b3) as u32
    } else {
        (b3 + 256 * b2 + 65536 * b1 + 16777216 * b0) as u32
    }
}

fn read_word(bytes: &[u8], i: usize, little_endian: bool) -> (w: u32)
    requires
        4 * i + 3 < bytes@.len(),
    ensures
        w == word_at(bytes@, i as int, little_endian),
{
    let len = bytes.len();
    assert(4 * i + 3 < len);
    let b0 = bytes[4 * i] as u32;
    let b1 = bytes[4 * i + 1] as u32;
    let b2 = bytes[4 * i + 2] as u32;
    let b3 = bytes[4 * i + 3] as u32;
    if little_endian {
        b0 + 256 * b1 + 65536 * b2 + 16777216 * b3
    } else {
        b3 + 256 * b2 + 65536 * b1 + 16777216 * b0
    }
}

/// The windows of a window-list property (`_NET_CLIENT_LIST` and the
/// like): nothing unless the property has format 32; otherwise its words,
/// leaving out window 0.
pub open spec fn spec_window_list(format: u8, value: Seq<u8>, little_endian: bool) -> Seq<u32> {
    if format != 32 {
        Seq::empty()
    } else {
        Seq::new(value.len() / 4, |i: int| word_at(value, i, little_endian)).filter(
            |w: u32| w != 0,
        )
    }
}

/// Decodes a window-list property.
pub fn parse_window_list(format: u8, value: &[u8], little_endian: bool) -> (ws: Vec<u32>)
    ensures
        ws@ == spec_window_list(format, value@, little_endian),
{
    let mut ws: Vec<u32> = Vec::new();
    if format != 32 {
        return ws;
    }
    let n = value.len() / 4;
    let ghost words = Seq::new(n as nat, |i: int| word_at(value@, i, little_endian));
    let mut i: usize = 0;
    while i < n
        invariant
            n == value@.len() / 4,
            words == Seq::new(n as nat, |i: int| word_at(value@, i, little_endian)),
            i <= n,
            ws@ == words.take(i as int).filter(|w: u32| w != 0),
        decreases n - i,
    {
        proof {
            reveal_with_fuel(Seq::filter, 1);
            assert(words.take(i + 1).drop_last() =~= words.take(i as int));
        }
        let w = read_word(value, i, little_endian);
        if w != 0 {
            ws.push(w);
        }
        i = i + 1;
    }
    assert(words.take(n as int) =~= words);
    ws
}

/// The PID in a `_NET_WM_PID` property value: its first word, when it has one.
pub open spec fn spec_cardinal(value: Seq<u8>, little_endian: bool) -> Option<u32> {
    if value.len() >= 4 {
        Some(word_at(value, 0, little_endian))
    } else {
        None
    }
}

/// Decodes a `_NET_WM_PID` property value.
pub fn parse_cardinal(value: &[u8], little_endian: bool) -> (pid: Option<u32>)
    ensures
        pid == spec_cardinal(value@, little_endian),
{
    if value.len() >= 4 {
        Some(read_word(value, 0, little_endian))
    } else {
        None
    }
}

/// Where the list of client windows is read from, in the order tried.
#[derive(Clone, Copy, Debug, PartialEq, Eq)]
pub enum WindowSource {
    /// The root window's `_NET_CLIENT_LIST` (EWMH).
    ClientList,
    /// The root window's `_NET_CLIENT_LIST_STACKING`.
    StackingList,
    /// A walk of the window tree (any window manager).
    TreeWalk,
}

/// The source to try after `tried` gave `found` windows; `None` when the
/// windows found are the list to use.
pub open spec fn spec_next_source(tried: WindowSource, found: nat) -> Option<WindowSource> {
    if found > 0 {
        None
    } else {
        match tried {
            WindowSource::ClientList => Some(WindowSource::StackingList),
            WindowSource::StackingList => Some(WindowSource::TreeWalk),
            WindowSource::TreeWalk => None,
        }
    }
}

/// The source to try after `tried` gave `found` windows.
pub fn next_source(tried: WindowSource, found: usize) -> (next: Option<WindowSource>)
    ensures
        next == spec_next_source(tried, found as nat),
{
    if found > 0 {
        return None;
    }
    match tried {
        WindowSource::ClientList => Some(WindowSource::StackingList),
        WindowSource::StackingList => Some(WindowSource::TreeWalk),
        WindowSource::TreeWalk => None,
    }
}

/// How deep the walk of the window tree goes below the root.
pub const MAX_TREE_DEPTH: u8 = 10;

/// Whether the walk of the window tree looks at the children of a window
/// `depth` levels below the root.
pub fn walks_into(depth: u8) -> (b: bool)
    ensures
        b == (depth <= MAX_TREE_DEPTH),
{
    depth <= MAX_TREE_DEPTH
}

/// A window's title from its `_NET_WM_NAME` (UTF-8) property value, or,
/// when that is missing, empty or not UTF-8, from its `WM_NAME` (Latin-1)
/// value, read leniently; `None` when neither gives a non-empty title.
pub open spec fn spec_window_title(net_wm_name: Option<Seq<u8>>, wm_name: Option<Seq<u8>>) -> Option<
    Seq<char>,
> {
    if net_wm_name matches Some(b) && b.len() > 0 && valid_utf8(b) && decode_utf8(b).len() > 0 {
        Some(decode_utf8(net_wm_name->0))
    } else if wm_name matches Some(b) && b.len() > 0 && spec_utf8_lossy(b).len() > 0 {
        Some(spec_utf8_lossy(wm_name->0))
    } else {
        None
    }
}

pub open spec fn bytes_view(b: Option<Vec<u8>>) -> Option<Seq<u8>> {
    match b {
        Some(v) => Some(v@),
        None => None,
    }
}

pub open spec fn string_view(s: Option<String>) -> Option<Seq<char>> {
    match s {
        Some(t) => Some(t@),
        None => None,
    }
}

/// A window's title from its `_NET_WM_NAME` and `WM_NAME` property values.
pub fn window_title(net_wm_name: Option<Vec<u8>>, wm_name: Option<Vec<u8>>) -> (t: Option<String>)
    ensures
        string_view(t) == spec_window_title(bytes_view(net_wm_name), bytes_view(wm_name)),
{
    if let Some(b) = net_wm_name {
        if b.len() > 0 {
            if let Some(s) = utf8_decode(b) {
                if s.as_str().unicode_len() > 0 {
                    return Some(s);
                }
            }
        }
    }
    if let Some(b) = wm_name {
        if b.len() > 0 {
            let s = utf8_lossy(b.as_slice());
            if s.as_str().unicode_len() > 0 {
                return Some(s);
            }
        }
    }
    None
}

/// What the X server says of a listed window.
pub struct ListedWindow {
    pub window_id: u32,
    /// Its title, `None` when it has none.
    pub title: Option<String>,
    /// Its `_NET_WM_PID`, `None` when it has none.
    pub pid: Option<u32>,
    /// Whether it is override-redirect (popup menus, tooltips).
    pub override_redirect: bool,
}

pub open spec fn title_or_empty(t: Option<String>) -> Seq<char> {
    match t {
        Some(s) => s@,
        None => Seq::empty(),
    }
}

/// A listed window is user-facing when it has a non-empty title and is
/// not override-redirect; it is reported as (window, pid or 0, title).
pub open spec fn user_window(w: ListedWindow) -> Option<(u32, u32, Seq<char>)> {
    if title_or_empty(w.title).len() > 0 && !w.override_redirect {
        Some(
            (
                w.window_id,
                match w.pid {
                    Some(p) => p,
                    None => 0,
                },
                title_or_empty(w.title),
            ),
        )
    } else {
        None
    }
}

pub open spec fn triples_view(ws: Seq<(u32, u32, String)>) -> Seq<(u32, u32, Seq<char>)> {
    ws.map_values(|w: (u32, u32, String)| (w.0, w.1, w.2@))
}

/// The user-facing windows, as (window, pid, title), in order.
pub fn user_windows(listed: Vec<ListedWindow>) -> (ws: Vec<(u32, u32, String)>)
    ensures
        triples_view(ws@) == listed@.filter_map(|w: ListedWindow| user_window(w)),
{
    let ghost orig = listed@;
    let ghost f = |w: ListedWindow| user_window(w);
    let mut rest = listed;
    let n = rest.len();
    let mut out: Vec<(u32, u32, String)> = Vec::new();
    let mut i: usize = 0;
    assert(orig.skip(0) =~= orig);
    assert(triples_view(out@) =~= orig.take(0).filter_map(f));
    while i < n
        invariant
            n == orig.len(),
            i <= n,
            f == (|w: ListedWindow| user_window(w)),
            rest@ == orig.skip(i as int),
            triples_view(out@) == orig.take(i as int).filter_map(f),
        decreases n - i,
    {
        let w = rest.remove(0);
        assert(w == orig[i as int]);
        assert(rest@ =~= orig.skip(i + 1));
        proof {
            orig.lemma_filter_map_take_succ(f, i as int);
        }
        let ghost before = out@;
        let title = match w.title {
            Some(t) => t,
            None => String::new(),
        };
        if title.as_str().unicode_len() > 0 && !w.override_redirect {
            let pid = match w.pid {
                Some(p) => p,
                None => 0,
            };
            out.push((w.window_id, pid, title));
            assert(triples_view(out@) =~= triples_view(before) + seq![f(orig[i as int])->0]);
        } else {
            assert(triples_view(out@) =~= triples_view(before) + Seq::<
                (u32, u32, Seq<char>),
            >::empty());
        }
        i = i + 1;
    }
    assert(orig.take(n as int) =~= orig);
    out
}

/// The keysym-to-keycode map: for each keycode from `min_kc` on (`count`
/// of them), the first keysym of its row (`per` keysyms per keycode), when
/// the reply has it and it is not `NoSymbol` (0).
pub open spec fn spec_keymap(min_kc: u8, count: nat, per: nat, keysyms: Seq<u32>) -> Seq<
    (u32, u8),
> {
    Seq::new(count, |i: int| i).filter_map(
        |i: int|
            if i * per < keysyms.len() && keysyms[i * per] != 0 {
                Some((keysyms[i * per], (min_kc + i) as u8))
            } else {
                None
            },
    )
}

/// Builds the keysym-to-keycode map from a `GetKeyboardMapping` reply for
/// the keycodes `min_kc..=max_kc`.
pub fn build_keymap(min_kc: u8, max_kc: u8, keysyms_per_keycode: u8, keysyms: &[u32]) -> (map: Vec<
    (u32, u8),
>)
    requires
        min_kc <= max_kc,
        max_kc - min_kc < 255,
    ensures
        map@ == spec_keymap(
            min_kc,
            (max_kc - min_kc + 1) as nat,
            keysyms_per_keycode as nat,
            keysyms@,
        ),
{
    let count: usize = (max_kc - min_kc + 1) as usize;
    let per = keysyms_per_keycode as usize;
    let ghost f = |i: int|
        if i * per < keysyms@.len() && keysyms@[i * per] != 0 {
            Some((keysyms@[i * per], (min_kc + i) as u8))
        } else {
            None
        };
    let ghost idx = Seq::new(count as nat, |i: int| i);
    let mut map: Vec<(u32, u8)> = Vec::new();
    let mut i: usize = 0;
    while i < count
        invariant
            count == max_kc - min_kc + 1,
            count <= 256,
            per == keysyms_per_keycode,
            max_kc - min_kc < 255,
            idx == Seq::new(count as nat, |i: int| i),
            f == (|i: int|
                if i * per < keysyms@.len() && keysyms@[i * per] != 0 {
                    Some((keysyms@[i * per], (min_kc + i) as u8))
                } else {
                    None
                }),
            i <= count,
            map@ == idx.take(i as int).filter_map(f),
        decreases count - i,
    {
        proof {
            idx.lemma_filter_map_take_succ(f, i as int);
            assert(i * per <= 256 * 256) by (nonlinear_arith)
                requires
                    i < 256,
                    per < 256,
            ;
        }
        let keycode = (min_kc as usize + i) as u8;
        let base = i * per;
        if base < keysyms.len() {
            let ks = keysyms[base];
            if ks != 0 {
                map.push((ks, keycode));
            }
        }
        i = i + 1;
    }
    assert(idx.take(count as int) =~= idx);
    map
}

/// The keycode of the first entry of `keymap` for `keysym`.
pub open spec fn first_keycode(keymap: Seq<(u32, u8)>, keysym: u32) -> Option<u8>
    decreases keymap.len(),
{
    if keymap.len() == 0 {
        None
    } else if keymap[0].0 == keysym {
        Some(keymap[0].1)
    } else {
        first_keycode(keymap.drop_first(), keysym)
    }
}

fn find_keycode(keymap: &Vec<(u32, u8)>, keysym: u32) -> (kc: Option<u8>)
    ensures
        kc == first_keycode(keymap@, keysym),
{
    let mut i: usize = 0;
    assert(keymap@.skip(0) =~= keymap@);
    while i < keymap.len()
        invariant
            i <= keymap@.len(),
            first_keycode(keymap@, keysym) == first_keycode(keymap@.skip(i as int), keysym),
        decreases keymap.len() - i,
    {
        let (ks, kc) = keymap[i];
        assert(keymap@.skip(i as int)[0] == keymap@[i as int]);
        if ks == keysym {
            return Some(kc);
        }
        assert(keymap@.skip(i as int).drop_first() =~= keymap@.skip(i + 1));
        i = i + 1;
    }
    None
}

/// The keycode for `keysym`: its first entry in the map, or, for an
/// upper-case letter with none, the first entry of its lower-case letter.
pub open spec fn spec_keysym_to_keycode(keymap: Seq<(u32, u8)>, keysym: u32) -> Option<u8> {
    match first_keycode(keymap, keysym) {
        Some(kc) => Some(kc),
        None => if 0x41 <= keysym <= 0x5A {
            first_keycode(keymap, (keysym + 0x20) as u32)
        } else {
            None
        },
    }
}

/// How one key is delivered to the X server.
#[derive(Clone, Copy, Debug, PartialEq, Eq)]
pub struct X11SendPlan {
    pub keycode: u8,
    /// Window to give the input focus to first (with a 30 ms pause).
    pub focus: Option<u32>,
    /// Through XTest; otherwise through XSendEvent to `event_window` (or,
    /// when that is `None`, to the window holding the input focus).
    pub via_xtest: bool,
    pub event_window: Option<u32>,
}

/// The error for a key whose keysym has no keycode, such as
/// `No keycode for keysym 0x00E9 ('e')`.
pub open spec fn spec_no_keycode_error(keysym: u32, display: Seq<char>) -> Seq<char> {
    "No keycode for keysym 0x"@ + spec_hex_padded(keysym as nat, 4) + " ('"@ + display + "')"@
}

/// The X11 injector's state: the keysym-to-keycode map of the server's
/// keyboard and whether the server has the XTest extension.
pub struct X11Injector {
    pub keymap: Vec<(u32, u8)>,
    pub has_xtest: bool,
}

impl X11Injector {
    /// The plan for sending `key` to `window_id` (0: the focused window).
    pub open spec fn spec_send_plan(&self, key: KeyInfo, window_id: u32) -> Result<
        X11SendPlan,
        Seq<char>,
    > {
        match spec_keysym_to_keycode(self.keymap@, key.keysym) {
            None => Err(spec_no_keycode_error(key.keysym, key.display@)),
            Some(kc) => Ok(
                X11SendPlan {
                    keycode: kc,
                    focus: if window_id != 0 {
                        Some(window_id)
                    } else {
                        None
                    },
                    via_xtest: self.has_xtest,
                    event_window: if window_id != 0 {
                        Some(window_id)
                    } else {
                        None
                    },
                },
            ),
        }
    }

    /// The injection method's name.
    pub fn method_name(&self) -> (name: &'static str)
        ensures
            name@ == (if self.has_xtest {
                "XTest"@
            } else {
                "XSendEvent"@
            }),
    {
        if self.has_xtest {
            "XTest"
        } else {
            "XSendEvent"
        }
    }

    /// The keycode for `keysym`.
    pub fn keysym_to_keycode(&self, keysym: u32) -> (kc: Option<u8>)
        ensures
            kc == spec_keysym_to_keycode(self.keymap@, keysym),
    {
        match find_keycode(&self.keymap, keysym) {
            Some(kc) => Some(kc),
            None => {
                if keysym >= 0x41 && keysym <= 0x5A {
                    find_keycode(&self.keymap, keysym + 0x20)
                } else {
                    None
                }
            },
        }
    }

    /// How to send `key` (press and release) to `window_id`: its keycode,
    /// the window to focus first and the delivery; an error when the
    /// keyboard has no keycode for it.
    pub fn send_key(&self, key: KeyInfo, window_id: u32) -> (plan: Result<X11SendPlan, String>)
        ensures
            match (plan, self.spec_send_plan(key, window_id)) {
                (Ok(p), Ok(q)) => p == q,
                (Err(e), Err(m)) => e@ == m,
                _ => false,
            },
    {
        match self.keysym_to_keycode(key.keysym) {
            None => {
                let mut msg = String::from_str("No keycode for keysym 0x");
                let hex = hex_padded(key.keysym as u64, 4);
                msg.append(hex.as_str());
                msg.append(" ('");
                msg.append(key.display);
                msg.append("')");
                Err(msg)
            },
            Some(kc) => {
                let target = if window_id != 0 {
                    Some(window_id)
                } else {
                    None
                };
                Ok(X11SendPlan { keycode: kc, focus: target, via_xtest: self.has_xtest, event_window: target })
            },
        }
    }
}

} // verus!
