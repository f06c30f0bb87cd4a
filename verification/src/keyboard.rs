//! Key table for X11 and evdev injection: each key has a display name in
//! the key picker, its X11 keysym, its Linux evdev keycode and a short label.

use vstd::prelude::*;

verus! {

/// One key that can be sent.
#[derive(Clone, Copy, Debug, PartialEq)]
pub struct KeyInfo {
    /// X11 keysym.
    pub keysym: u32,
    /// Linux evdev keycode.
    pub keycode: u16,
    /// Short label.
    pub display: &'static str,
}

/// A key-table entry as plain values: picker name, keysym, keycode, label.
pub struct KeyView {
    pub name: Seq<char>,
    pub keysym: u32,
    pub keycode: u16,
    pub display: Seq<char>,
}

pub open spec fn entry_view(e: (&'static str, KeyInfo)) -> KeyView {
    KeyView { name: e.0@, keysym: e.1.keysym, keycode: e.1.keycode, display: e.1.display@ }
}

pub open spec fn table_view(t: Seq<(&'static str, KeyInfo)>) -> Seq<KeyView> {
    t.map_values(|e: (&'static str, KeyInfo)| entry_view(e))
}

pub open spec fn kv(name: Seq<char>, keysym: u32, keycode: u16, display: Seq<char>) -> KeyView {
    KeyView { name, keysym, keycode, display }
}

pub const KEY_ESC: u16 = 1;
pub const KEY_1: u16 = 2;
pub const KEY_0: u16 = 11;
pub const KEY_MINUS: u16 = 12;
pub const KEY_EQUAL: u16 = 13;
pub const KEY_BACKSPACE: u16 = 14;
pub const KEY_TAB: u16 = 15;
pub const KEY_LEFTBRACE: u16 = 26;
pub const KEY_RIGHTBRACE: u16 = 27;
pub const KEY_ENTER: u16 = 28;
pub const KEY_LEFTCTRL: u16 = 29;
pub const KEY_SEMICOLON: u16 = 39;
pub const KEY_APOSTROPHE: u16 = 40;
pub const KEY_GRAVE: u16 = 41;
pub const KEY_LEFTSHIFT: u16 = 42;
pub const KEY_BACKSLASH: u16 = 43;
pub const KEY_COMMA: u16 = 51;
pub const KEY_DOT: u16 = 52;
pub const KEY_SLASH: u16 = 53;
pub const KEY_RIGHTSHIFT: u16 = 54;
pub const KEY_LEFTALT: u16 = 56;
pub const KEY_SPACE: u16 = 57;
pub const KEY_CAPSLOCK: u16 = 58;
pub const KEY_F1: u16 = 59;
pub const KEY_F10: u16 = 68;
pub const KEY_NUMLOCK: u16 = 69;
pub const KEY_F11: u16 = 87;
pub const KEY_F12: u16 = 88;
pub const KEY_RIGHTCTRL: u16 = 97;
pub const KEY_RIGHTALT: u16 = 100;
pub const KEY_HOME: u16 = 102;
pub const KEY_UP: u16 = 103;
pub const KEY_PAGEUP: u16 = 104;
pub const KEY_LEFT: u16 = 105;
pub const KEY_RIGHT: u16 = 106;
pub const KEY_END: u16 = 107;
pub const KEY_DOWN: u16 = 108;
pub const KEY_PAGEDOWN: u16 = 109;
pub const KEY_INSERT: u16 = 110;
pub const KEY_DELETE: u16 = 111;

/// The named (non-alphanumeric) keys, in picker order.
pub open spec fn spec_common_keys() -> Seq<KeyView> {
    seq![
        kv("Enter"@, 0xFF0D, 28, "Enter"@),
        kv("Space"@, 0x0020, 57, "Space"@),
        kv("Tab"@, 0xFF09, 15, "Tab"@),
        kv("Escape"@, 0xFF1B, 1, "Esc"@),
        kv("Backspace"@, 0xFF08, 14, "Bksp"@),
        kv("Delete"@, 0xFFFF, 111, "Del"@),
        kv("Insert"@, 0xFF63, 110, "Ins"@),
        kv("Home"@, 0xFF50, 102, "Home"@),
        kv("End"@, 0xFF57, 107, "End"@),
        kv("Page Up"@, 0xFF55, 104, "PgUp"@),
        kv("Page Down"@, 0xFF56, 109, "PgDn"@),
        kv("Up Arrow"@, 0xFF52, 103, "Up"@),
        kv("Down Arrow"@, 0xFF54, 108, "Down"@),
        kv("Left Arrow"@, 0xFF51, 105, "Left"@),
        kv("Right Arrow"@, 0xFF53, 106, "Right"@),
        kv("F1"@, 0xFFBE, 59, "F1"@),
        kv("F2"@, 0xFFBF, 60, "F2"@),
        kv("F3"@, 0xFFC0, 61, "F3"@),
        kv("F4"@, 0xFFC1, 62, "F4"@),
        kv("F5"@, 0xFFC2, 63, "F5"@),
        kv("F6"@, 0xFFC3, 64, "F6"@),
        kv("F7"@, 0xFFC4, 65, "F7"@),
        kv("F8"@, 0xFFC5, 66, "F8"@),
        kv("F9"@, 0xFFC6, 67, "F9"@),
        kv("F10"@, 0xFFC7, 68, "F10"@),
        kv("F11"@, 0xFFC8, 87, "F11"@),
        kv("F12"@, 0xFFC9, 88, "F12"@),
        kv("Left Ctrl"@, 0xFFE3, 29, "LCtrl"@),
        kv("Right Ctrl"@, 0xFFE4, 97, "RCtrl"@),
        kv("Left Alt"@, 0xFFE9, 56, "LAlt"@),
        kv("Right Alt"@, 0xFFEA, 100, "RAlt"@),
        kv("Left Shift"@, 0xFFE1, 42, "LShift"@),
        kv("Right Shift"@, 0xFFE2, 54, "RShift"@),
        kv("Caps Lock"@, 0xFFE5, 58, "Caps"@),
        kv("Num Lock"@, 0xFF7F, 69, "NumLk"@),
    ]
}

/// The named (non-alphanumeric) keys, in picker order.
pub fn common_keys() -> (v: Vec<(&'static str, KeyInfo)>)
    ensures
        table_view(v@) == spec_common_keys(),
{
    let v = vec![
        ("Enter", KeyInfo { keysym: 0xFF0D, keycode: KEY_ENTER, display: "Enter" }),
        ("Space", KeyInfo { keysym: 0x0020, keycode: KEY_SPACE, display: "Space" }),
        ("Tab", KeyInfo { keysym: 0xFF09, keycode: KEY_TAB, display: "Tab" }),
        ("Escape", KeyInfo { keysym: 0xFF1B, keycode: KEY_ESC, display: "Esc" }),
        ("Backspace", KeyInfo { keysym: 0xFF08, keycode: KEY_BACKSPACE, display: "Bksp" }),
        ("Delete", KeyInfo { keysym: 0xFFFF, keycode: KEY_DELETE, display: "Del" }),
        ("Insert", KeyInfo { keysym: 0xFF63, keycode: KEY_INSERT, display: "Ins" }),
        ("Home", KeyInfo { keysym: 0xFF50, keycode: KEY_HOME, display: "Home" }),
        ("End", KeyInfo { keysym: 0xFF57, keycode: KEY_END, display: "End" }),
        ("Page Up", KeyInfo { keysym: 0xFF55, keycode: KEY_PAGEUP, display: "PgUp" }),
        ("Page Down", KeyInfo { keysym: 0xFF56, keycode: KEY_PAGEDOWN, display: "PgDn" }),
        ("Up Arrow", KeyInfo { keysym: 0xFF52, keycode: KEY_UP, display: "Up" }),
        ("Down Arrow", KeyInfo { keysym: 0xFF54, keycode: KEY_DOWN, display: "Down" }),
        ("Left Arrow", KeyInfo { keysym: 0xFF51, keycode: KEY_LEFT, display: "Left" }),
        ("Right Arrow", KeyInfo { keysym: 0xFF53, keycode: KEY_RIGHT, display: "Right" }),
        ("F1", KeyInfo { keysym: 0xFFBE, keycode: KEY_F1, display: "F1" }),
        ("F2", KeyInfo { keysym: 0xFFBF, keycode: KEY_F1 + 1, display: "F2" }),
        ("F3", KeyInfo { keysym: 0xFFC0, keycode: KEY_F1 + 2, display: "F3" }),
        ("F4", KeyInfo { keysym: 0xFFC1, keycode: KEY_F1 + 3, display: "F4" }),
        ("F5", KeyInfo { keysym: 0xFFC2, keycode: KEY_F1 + 4, display: "F5" }),
        ("F6", KeyInfo { keysym: 0xFFC3, keycode: KEY_F1 + 5, display: "F6" }),
        ("F7", KeyInfo { keysym: 0xFFC4, keycode: KEY_F1 + 6, display: "F7" }),
        ("F8", KeyInfo { keysym: 0xFFC5, keycode: KEY_F1 + 7, display: "F8" }),
        ("F9", KeyInfo { keysym: 0xFFC6, keycode: KEY_F1 + 8, display: "F9" }),
        ("F10", KeyInfo { keysym: 0xFFC7, keycode: KEY_F10, display: "F10" }),
        ("F11", KeyInfo { keysym: 0xFFC8, keycode: KEY_F11, display: "F11" }),
        ("F12", KeyInfo { keysym: 0xFFC9, keycode: KEY_F12, display: "F12" }),
        ("Left Ctrl", KeyInfo { keysym: 0xFFE3, keycode: KEY_LEFTCTRL, display: "LCtrl" }),
        ("Right Ctrl", KeyInfo { keysym: 0xFFE4, keycode: KEY_RIGHTCTRL, display: "RCtrl" }),
        ("Left Alt", KeyInfo { keysym: 0xFFE9, keycode: KEY_LEFTALT, display: "LAlt" }),
        ("Right Alt", KeyInfo { keysym: 0xFFEA, keycode: KEY_RIGHTALT, display: "RAlt" }),
        ("Left Shift", KeyInfo { keysym: 0xFFE1, keycode: KEY_LEFTSHIFT, display: "LShift" }),
        ("Right Shift", KeyInfo { keysym: 0xFFE2, keycode: KEY_RIGHTSHIFT, display: "RShift" }),
        ("Caps Lock", KeyInfo { keysym: 0xFFE5, keycode: KEY_CAPSLOCK, display: "Caps" }),
        ("Num Lock", KeyInfo { keysym: 0xFF7F, keycode: KEY_NUMLOCK, display: "NumLk" }),
    ];
    assert(table_view(v@) =~= spec_common_keys());
    v
}

/// Evdev keycode of a lower-case letter; other characters map to the code of `a`.
pub open spec fn spec_evdev_letter(ch: char) -> u16 {
    if ch == 'a' {
        30
    } else if ch == 'b' {
        48
    } else if ch == 'c' {
        46
    } else if ch == 'd' {
        32
    } else if ch == 'e' {
        18
    } else if ch == 'f' {
        33
    } else if ch == 'g' {
        34
    } else if ch == 'h' {
        35
    } else if ch == 'i' {
        23
    } else if ch == 'j' {
        36
    } else if ch == 'k' {
        37
    } else if ch == 'l' {
        38
    } else if ch == 'm' {
        50
    } else if ch == 'n' {
        49
    } else if ch == 'o' {
        24
    } else if ch == 'p' {
        25
    } else if ch == 'q' {
        16
    } else if ch == 'r' {
        19
    } else if ch == 's' {
        31
    } else if ch == 't' {
        20
    } else if ch == 'u' {
        22
    } else if ch == 'v' {
        47
    } else if ch == 'w' {
        17
    } else if ch == 'x' {
        45
    } else if ch == 'y' {
        21
    } else if ch == 'z' {
        44
    } else {
        30
    }
}

/// Evdev keycode of a lower-case letter; other characters map to the code of `a`.
pub fn evdev_letter(ch: char) -> (kc: u16)
    ensures
        kc == spec_evdev_letter(ch),
{
    match ch {
        'a' => 30,
        'b' => 48,
        'c' => 46,
        'd' => 32,
        'e' => 18,
        'f' => 33,
        'g' => 34,
        'h' => 35,
        'i' => 23,
        'j' => 36,
        'k' => 37,
        'l' => 38,
        'm' => 50,
        'n' => 49,
        'o' => 24,
        'p' => 25,
        'q' => 16,
        'r' => 19,
        's' => 31,
        't' => 20,
        'u' => 22,
        'v' => 47,
        'w' => 17,
        'x' => 45,
        'y' => 21,
        'z' => 44,
        _ => 30,
    }
}

/// The punctuation keys (with `0`) that follow the digits `1`..`9`.
pub open spec fn spec_punct_keys() -> Seq<KeyView> {
    seq![
        kv("0"@, 0x0030, 11, "0"@),
        kv("-"@, 0x002D, 12, "-"@),
        kv("="@, 0x003D, 13, "="@),
        kv("["@, 0x005B, 26, "["@),
        kv("]"@, 0x005D, 27, "]"@),
        kv(";"@, 0x003B, 39, ";"@),
        kv("'"@, 0x0027, 40, "'"@),
        kv("`"@, 0x0060, 41, "`"@),
        kv("\\"@, 0x005C, 43, "\\"@),
        kv(","@, 0x002C, 51, ","@),
        kv("."@, 0x002E, 52, "."@),
        kv("/"@, 0x002F, 53, "/"@),
    ]
}

fn punct_keys() -> (v: Vec<(&'static str, KeyInfo)>)
    ensures
        table_view(v@) == spec_punct_keys(),
{
    let v = vec![
        ("0", KeyInfo { keysym: 0x0030, keycode: KEY_0, display: "0" }),
        ("-", KeyInfo { keysym: 0x002D, keycode: KEY_MINUS, display: "-" }),
        ("=", KeyInfo { keysym: 0x003D, keycode: KEY_EQUAL, display: "=" }),
        ("[", KeyInfo { keysym: 0x005B, keycode: KEY_LEFTBRACE, display: "[" }),
        ("]", KeyInfo { keysym: 0x005D, keycode: KEY_RIGHTBRACE, display: "]" }),
        (";", KeyInfo { keysym: 0x003B, keycode: KEY_SEMICOLON, display: ";" }),
        ("'", KeyInfo { keysym: 0x0027, keycode: KEY_APOSTROPHE, display: "'" }),
        ("`", KeyInfo { keysym: 0x0060, keycode: KEY_GRAVE, display: "`" }),
        ("\\", KeyInfo { keysym: 0x005C, keycode: KEY_BACKSLASH, display: "\\" }),
        (",", KeyInfo { keysym: 0x002C, keycode: KEY_COMMA, display: "," }),
        (".", KeyInfo { keysym: 0x002E, keycode: KEY_DOT, display: "." }),
        ("/", KeyInfo { keysym: 0x002F, keycode: KEY_SLASH, display: "/" }),
    ];
    assert(table_view(v@) =~= spec_punct_keys());
    v
}

/// The alphabet key for `'A' + i`: picker name and label are the upper-case
/// letter, the keysym is the lower-case letter.
pub open spec fn letter_entry(i: int) -> KeyView {
    kv(
        seq![(65 + i) as char],
        (97 + i) as u32,
        spec_evdev_letter((97 + i) as char),
        seq![(65 + i) as char],
    )
}

/// The number-row key for `'1' + i`.
pub open spec fn digit_entry(i: int) -> KeyView {
    kv(seq![(49 + i) as char], (49 + i) as u32, (KEY_1 + i) as u16, seq![(49 + i) as char])
}

/// Letters `A`..`Z`, digits `1`..`9`, then `0` and the punctuation keys.
pub open spec fn spec_alpha_keys() -> Seq<KeyView> {
    Seq::new(26, |i: int| letter_entry(i)) + Seq::new(9, |i: int| digit_entry(i))
        + spec_punct_keys()
}

/// Letters `A`..`Z`, digits `1`..`9`, then `0` and the punctuation keys.
pub fn alpha_keys() -> (v: Vec<(&'static str, KeyInfo)>)
    ensures
        table_view(v@) == spec_alpha_keys(),
{
    let mut v: Vec<(&'static str, KeyInfo)> = Vec::new();
    let mut i: u32 = 0;
    while i < 26
        invariant
            i <= 26,
            v@.len() == i,
            table_view(v@) =~= Seq::new(i as nat, |k: int| letter_entry(k)),
        decreases 26 - i,
    {
        let name = crate::text::letter_str(i);
        let lower = (97 + i) as u8 as char;
        assert(lower == (97 + i) as char);
        let ghost before = v@;
        v.push((name, KeyInfo { keysym: 97 + i, keycode: evdev_letter(lower), display: name }));
        assert(entry_view(v@[i as int]) == letter_entry(i as int));
        assert(v@ == before.push(v@[i as int]));
        assert(table_view(v@) =~= table_view(before).push(letter_entry(i as int)));
        i = i + 1;
    }
    let ghost letters = table_view(v@);
    let mut j: u32 = 0;
    while j < 9
        invariant
            j <= 9,
            v@.len() == 26 + j,
            letters == Seq::new(26, |k: int| letter_entry(k)),
            table_view(v@) =~= letters + Seq::new(j as nat, |k: int| digit_entry(k)),
        decreases 9 - j,
    {
        let name = crate::text::digit_str((j + 1) as u64);
        let ghost before = v@;
        v.push((name, KeyInfo { keysym: 49 + j, keycode: KEY_1 + j as u16, display: name }));
        assert(entry_view(v@[26 + j]) == digit_entry(j as int));
        assert(v@ == before.push(v@[26 + j]));
        assert(table_view(v@) =~= table_view(before).push(digit_entry(j as int)));
        j = j + 1;
    }
    let mut rest = punct_keys();
    v.append(&mut rest);
    assert(table_view(v@) =~= spec_alpha_keys());
    v
}

/// Every key offered in the picker, in picker order.
pub open spec fn spec_all_keys() -> Seq<KeyView> {
    spec_common_keys() + spec_alpha_keys()
}

/// Every key offered in the picker, in picker order.
pub fn all_keys() -> (v: Vec<(&'static str, KeyInfo)>)
    ensures
        table_view(v@) == spec_all_keys(),
{
    let mut v = common_keys();
    let mut rest = alpha_keys();
    v.append(&mut rest);
    assert(table_view(v@) =~= spec_all_keys());
    v
}

/// The picker names of [`all_keys`], in the same order.
pub fn key_names() -> (names: Vec<&'static str>)
    ensures
        names@.len() == spec_all_keys().len(),
        forall|i: int| 0 <= i < names@.len() ==> #[trigger] names@[i]@ == spec_all_keys()[i].name,
{
    let keys = all_keys();
    let mut names: Vec<&'static str> = Vec::new();
    let mut i: usize = 0;
    while i < keys.len()
        invariant
            i <= keys@.len(),
            table_view(keys@) == spec_all_keys(),
            names@.len() == i,
            forall|k: int| 0 <= k < i ==> #[trigger] names@[k]@ == spec_all_keys()[k].name,
        decreases keys.len() - i,
    {
        assert(table_view(keys@)[i as int] == entry_view(keys@[i as int]));
        names.push(keys[i].0);
        i = i + 1;
    }
    names
}

/// The first key of the picker named `name`.
pub open spec fn spec_find_key(keys: Seq<KeyView>, name: Seq<char>) -> Option<KeyView>
    decreases keys.len(),
{
    if keys.len() == 0 {
        None
    } else if keys[0].name == name {
        Some(keys[0])
    } else {
        spec_find_key(keys.drop_first(), name)
    }
}

/// The key of the picker named `name`.
pub fn find_key(name: &str) -> (k: Option<KeyInfo>)
    ensures
        match (k, spec_find_key(spec_all_keys(), name@)) {
            (Some(info), Some(v)) => info.keysym == v.keysym && info.keycode == v.keycode
                && info.display@ == v.display,
            (None, None) => true,
            _ => false,
        },
{
    let keys = all_keys();
    let mut i: usize = 0;
    assert(table_view(keys@).skip(0) =~= table_view(keys@));
    while i < keys.len()
        invariant
            i <= keys@.len(),
            table_view(keys@) == spec_all_keys(),
            spec_find_key(spec_all_keys(), name@) == spec_find_key(
                table_view(keys@).skip(i as int),
                name@,
            ),
        decreases keys.len() - i,
    {
        let ghost rest = table_view(keys@).skip(i as int);
        assert(rest[0] == entry_view(keys@[i as int]));
        if crate::text::str_eq(keys[i].0, name) {
            return Some(keys[i].1);
        }
        assert(rest.drop_first() =~= table_view(keys@).skip(i + 1));
        i = i + 1;
    }
    None
}

/// X11's modifier keysyms (`IsModifierKey`): Shift, Control, Caps/Shift
/// Lock, Meta, Alt, Super, Hyper, the ISO lock and level keys, Mode_switch
/// and Num_Lock.
pub open spec fn spec_is_modifier_keysym(keysym: u32) -> bool {
    (0xFFE1 <= keysym <= 0xFFEE) || (0xFE01 <= keysym <= 0xFE13) || keysym == 0xFF7E || keysym
        == 0xFF7F
}

/// Whether `key` is held down during a combo rather than tapped.
pub fn is_modifier(key: &KeyInfo) -> (b: bool)
    ensures
        b == spec_is_modifier_keysym(key.keysym),
{
    let ks = key.keysym;
    (0xFFE1 <= ks && ks <= 0xFFEE) || (0xFE01 <= ks && ks <= 0xFE13) || ks == 0xFF7E || ks
        == 0xFF7F
}

pub open spec fn is_modifier_key(k: KeyInfo) -> bool {
    spec_is_modifier_keysym(k.keysym)
}

pub open spec fn is_regular_key(k: KeyInfo) -> bool {
    !spec_is_modifier_keysym(k.keysym)
}

/// Splits a combo into its modifiers and its regular keys, each in the
/// order given.
pub fn split_combo(keys: &[KeyInfo]) -> (parts: (Vec<KeyInfo>, Vec<KeyInfo>))
    ensures
        parts.0@ == keys@.filter(|k: KeyInfo| is_modifier_key(k)),
        parts.1@ == keys@.filter(|k: KeyInfo| is_regular_key(k)),
{
    let mut mods: Vec<KeyInfo> = Vec::new();
    let mut regs: Vec<KeyInfo> = Vec::new();
    let mut i: usize = 0;
    while i < keys.len()
        invariant
            i <= keys@.len(),
            mods@ == keys@.take(i as int).filter(|k: KeyInfo| is_modifier_key(k)),
            regs@ == keys@.take(i as int).filter(|k: KeyInfo| is_regular_key(k)),
        decreases keys.len() - i,
    {
        proof {
            reveal_with_fuel(Seq::filter, 1);
            assert(keys@.take(i + 1).drop_last() =~= keys@.take(i as int));
        }
        let k = keys[i];
        if is_modifier(&k) {
            mods.push(k);
        } else {
            regs.push(k);
        }
        i = i + 1;
    }
    assert(keys@.take(keys@.len() as int) =~= keys@);
    (mods, regs)
}

/// No two keys of the picker send the same key: their keysyms are pairwise
/// distinct, and so are their evdev keycodes.
#[verifier::rlimit(100)]
pub proof fn lemma_keys_distinct()
    ensures
        spec_all_keys().len() == 82,
        forall|i: int, j: int|
            #![trigger spec_all_keys()[i], spec_all_keys()[j]]
            0 <= i < j < spec_all_keys().len() ==> spec_all_keys()[i].keysym
                != spec_all_keys()[j].keysym && spec_all_keys()[i].keycode
                != spec_all_keys()[j].keycode,
{
}

/// The X11 keysym (`keysymdef.h`) of the key that a picker name stands for.
/// A one-character name stands for the key of that printable character,
/// whose keysym is its Latin-1 code (the lower-case letter for a letter);
/// the other names stand for the keys they name (`Enter` is `XK_Return`,
/// `Page Up` is `XK_Prior`, `Left Arrow` is `XK_Left`, ...).
pub open spec fn x11_keysym_of(name: Seq<char>) -> Option<u32> {
    if name.len() == 1 {
        let c = name[0] as int;
        if 'A' as int <= c <= 'Z' as int {
            Some((c + 32) as u32)
        } else if '!' as int <= c <= '~' as int {
            Some(c as u32)
        } else {
            None
        }
    } else if name == "Enter"@ {
        Some(0xFF0D)  // XK_Return
    } else if name == "Space"@ {
        Some(0x0020)  // XK_space
    } else if name == "Tab"@ {
        Some(0xFF09)  // XK_Tab
    } else if name == "Escape"@ {
        Some(0xFF1B)  // XK_Escape
    } else if name == "Backspace"@ {
        Some(0xFF08)  // XK_BackSpace
    } else if name == "Delete"@ {
        Some(0xFFFF)  // XK_Delete
    } else if name == "Insert"@ {
        Some(0xFF63)  // XK_Insert
    } else if name == "Home"@ {
        Some(0xFF50)  // XK_Home
    } else if name == "End"@ {
        Some(0xFF57)  // XK_End
    } else if name == "Page Up"@ {
        Some(0xFF55)  // XK_Prior
    } else if name == "Page Down"@ {
        Some(0xFF56)  // XK_Next
    } else if name == "Up Arrow"@ {
        Some(0xFF52)  // XK_Up
    } else if name == "Down Arrow"@ {
        Some(0xFF54)  // XK_Down
    } else if name == "Left Arrow"@ {
        Some(0xFF51)  // XK_Left
    } else if name == "Right Arrow"@ {
        Some(0xFF53)  // XK_Right
    } else if name == "F1"@ {
        Some(0xFFBE)  // XK_F1
    } else if name == "F2"@ {
        Some(0xFFBF)  // XK_F2
    } else if name == "F3"@ {
        Some(0xFFC0)  // XK_F3
    } else if name == "F4"@ {
        Some(0xFFC1)  // XK_F4
    } else if name == "F5"@ {
        Some(0xFFC2)  // XK_F5
    } else if name == "F6"@ {
        Some(0xFFC3)  // XK_F6
    } else if name == "F7"@ {
        Some(0xFFC4)  // XK_F7
    } else if name == "F8"@ {
        Some(0xFFC5)  // XK_F8
    } else if name == "F9"@ {
        Some(0xFFC6)  // XK_F9
    } else if name == "F10"@ {
        Some(0xFFC7)  // XK_F10
    } else if name == "F11"@ {
        Some(0xFFC8)  // XK_F11
    } else if name == "F12"@ {
        Some(0xFFC9)  // XK_F12
    } else if name == "Left Ctrl"@ {
        Some(0xFFE3)  // XK_Control_L
    } else if name == "Right Ctrl"@ {
        Some(0xFFE4)  // XK_Control_R
    } else if name == "Left Alt"@ {
        Some(0xFFE9)  // XK_Alt_L
    } else if name == "Right Alt"@ {
        Some(0xFFEA)  // XK_Alt_R
    } else if name == "Left Shift"@ {
        Some(0xFFE1)  // XK_Shift_L
    } else if name == "Right Shift"@ {
        Some(0xFFE2)  // XK_Shift_R
    } else if name == "Caps Lock"@ {
        Some(0xFFE5)  // XK_Caps_Lock
    } else if name == "Num Lock"@ {
        Some(0xFF7F)  // XK_Num_Lock
    } else {
        None
    }
}

/// The Linux evdev keycode (`input-event-codes.h`) of the key that a
/// picker name stands for, on a US layout: the number row for digits, the
/// punctuation keys by their character, the named keys by their name.
/// Letters are left to [`spec_evdev_letter`]; other names give `None`.
pub open spec fn evdev_keycode_of(name: Seq<char>) -> Option<u16> {
    if name.len() == 1 {
        let c = name[0];
        if '1' <= c <= '9' {
            Some((KEY_1 + (c as int - '1' as int)) as u16)
        } else if c == '0' {
            Some(KEY_0)
        } else if c == '-' {
            Some(KEY_MINUS)
        } else if c == '=' {
            Some(KEY_EQUAL)
        } else if c == '[' {
            Some(KEY_LEFTBRACE)
        } else if c == ']' {
            Some(KEY_RIGHTBRACE)
        } else if c == ';' {
            Some(KEY_SEMICOLON)
        } else if c == '\'' {
            Some(KEY_APOSTROPHE)
        } else if c == '`' {
            Some(KEY_GRAVE)
        } else if c == '\\' {
            Some(KEY_BACKSLASH)
        } else if c == ',' {
            Some(KEY_COMMA)
        } else if c == '.' {
            Some(KEY_DOT)
        } else if c == '/' {
            Some(KEY_SLASH)
        } else {
            None
        }
    } else if name == "Enter"@ {
        Some(KEY_ENTER)
    } else if name == "Space"@ {
        Some(KEY_SPACE)
    } else if name == "Tab"@ {
        Some(KEY_TAB)
    } else if name == "Escape"@ {
        Some(KEY_ESC)
    } else if name == "Backspace"@ {
        Some(KEY_BACKSPACE)
    } else if name == "Delete"@ {
        Some(KEY_DELETE)
    } else if name == "Insert"@ {
        Some(KEY_INSERT)
    } else if name == "Home"@ {
        Some(KEY_HOME)
    } else if name == "End"@ {
        Some(KEY_END)
    } else if name == "Page Up"@ {
        Some(KEY_PAGEUP)
    } else if name == "Page Down"@ {
        Some(KEY_PAGEDOWN)
    } else if name == "Up Arrow"@ {
        Some(KEY_UP)
    } else if name == "Down Arrow"@ {
        Some(KEY_DOWN)
    } else if name == "Left Arrow"@ {
        Some(KEY_LEFT)
    } else if name == "Right Arrow"@ {
        Some(KEY_RIGHT)
    } else if name == "F1"@ {
        Some(KEY_F1)
    } else if name == "F2"@ {
        Some((KEY_F1 + 1) as u16)
    } else if name == "F3"@ {
        Some((KEY_F1 + 2) as u16)
    } else if name == "F4"@ {
        Some((KEY_F1 + 3) as u16)
    } else if name == "F5"@ {
        Some((KEY_F1 + 4) as u16)
    } else if name == "F6"@ {
        Some((KEY_F1 + 5) as u16)
    } else if name == "F7"@ {
        Some((KEY_F1 + 6) as u16)
    } else if name == "F8"@ {
        Some((KEY_F1 + 7) as u16)
    } else if name == "F9"@ {
        Some((KEY_F1 + 8) as u16)
    } else if name == "F10"@ {
        Some((KEY_F1 + 9) as u16)
    } else if name == "F11"@ {
        Some(KEY_F11)
    } else if name == "F12"@ {
        Some(KEY_F12)
    } else if name == "Left Ctrl"@ {
        Some(KEY_LEFTCTRL)
    } else if name == "Right Ctrl"@ {
        Some(KEY_RIGHTCTRL)
    } else if name == "Left Alt"@ {
        Some(KEY_LEFTALT)
    } else if name == "Right Alt"@ {
        Some(KEY_RIGHTALT)
    } else if name == "Left Shift"@ {
        Some(KEY_LEFTSHIFT)
    } else if name == "Right Shift"@ {
        Some(KEY_RIGHTSHIFT)
    } else if name == "Caps Lock"@ {
        Some(KEY_CAPSLOCK)
    } else if name == "Num Lock"@ {
        Some(KEY_NUMLOCK)
    } else {
        None
    }
}

/// The picker names of the keys that are held through a combo: the left and
/// right Ctrl, Alt and Shift keys, Caps Lock and Num Lock.
pub open spec fn names_a_modifier(name: Seq<char>) -> bool {
    name == "Left Ctrl"@ || name == "Right Ctrl"@ || name == "Left Alt"@ || name == "Right Alt"@ || name == "Left Shift"@ || name == "Right Shift"@ || name == "Caps Lock"@ || name == "Num Lock"@
}

/// The key a named entry of the picker stands for is the one its keysym
/// and keycode send.
proof fn lemma_common_key_named(i: int)
    requires
        0 <= i < spec_common_keys().len(),
    ensures
        x11_keysym_of(spec_common_keys()[i].name) == Some(spec_common_keys()[i].keysym),
        evdev_keycode_of(spec_common_keys()[i].name) == Some(spec_common_keys()[i].keycode),
        spec_is_modifier_keysym(spec_common_keys()[i].keysym) <==> names_a_modifier(
            spec_common_keys()[i].name,
        ),
{
    reveal_strlit("Enter");
    reveal_strlit("Space");
    reveal_strlit("Tab");
    reveal_strlit("Escape");
    reveal_strlit("Backspace");
    reveal_strlit("Delete");
    reveal_strlit("Insert");
    reveal_strlit("Home");
    reveal_strlit("End");
    reveal_strlit("Page Up");
    reveal_strlit("Page Down");
    reveal_strlit("Up Arrow");
    reveal_strlit("Down Arrow");
    reveal_strlit("Left Arrow");
    reveal_strlit("Right Arrow");
    reveal_strlit("F1");
    reveal_strlit("F2");
    reveal_strlit("F3");
    reveal_strlit("F4");
    reveal_strlit("F5");
    reveal_strlit("F6");
    reveal_strlit("F7");
    reveal_strlit("F8");
    reveal_strlit("F9");
    reveal_strlit("F10");
    reveal_strlit("F11");
    reveal_strlit("F12");
    reveal_strlit("Left Ctrl");
    reveal_strlit("Right Ctrl");
    reveal_strlit("Left Alt");
    reveal_strlit("Right Alt");
    reveal_strlit("Left Shift");
    reveal_strlit("Right Shift");
    reveal_strlit("Caps Lock");
    reveal_strlit("Num Lock");
    // The characters at which names of one length first differ.
    assert("F2"@[1] == '2');
    assert("F1"@[1] == '1');
    assert("F3"@[1] == '3');
    assert("F4"@[1] == '4');
    assert("F5"@[1] == '5');
    assert("F6"@[1] == '6');
    assert("F7"@[1] == '7');
    assert("F8"@[1] == '8');
    assert("F9"@[1] == '9');
    assert("F11"@[2] == '1');
    assert("F10"@[2] == '0');
    assert("F12"@[2] == '2');
    assert("Left Shift"@[5] == 'S');
    assert("Left Arrow"@[5] == 'A');
    assert("Right Shift"@[6] == 'S');
    assert("Right Arrow"@[6] == 'A');
    if i == 0 {
        assert(x11_keysym_of(spec_common_keys()[0].name) == Some(spec_common_keys()[0].keysym));
        assert(evdev_keycode_of(spec_common_keys()[0].name) == Some(spec_common_keys()[0].keycode));
    } else if i == 1 {
        assert(x11_keysym_of(spec_common_keys()[1].name) == Some(spec_common_keys()[1].keysym));
        assert(evdev_keycode_of(spec_common_keys()[1].name) == Some(spec_common_keys()[1].keycode));
    } else if i == 2 {
        assert(x11_keysym_of(spec_common_keys()[2].name) == Some(spec_common_keys()[2].keysym));
        assert(evdev_keycode_of(spec_common_keys()[2].name) == Some(spec_common_keys()[2].keycode));
    } else if i == 3 {
        assert(x11_keysym_of(spec_common_keys()[3].name) == Some(spec_common_keys()[3].keysym));
        assert(evdev_keycode_of(spec_common_keys()[3].name) == Some(spec_common_keys()[3].keycode));
    } else if i == 4 {
        assert(x11_keysym_of(spec_common_keys()[4].name) == Some(spec_common_keys()[4].keysym));
        assert(evdev_keycode_of(spec_common_keys()[4].name) == Some(spec_common_keys()[4].keycode));
    } else if i == 5 {
        assert(x11_keysym_of(spec_common_keys()[5].name) == Some(spec_common_keys()[5].keysym));
        assert(evdev_keycode_of(spec_common_keys()[5].name) == Some(spec_common_keys()[5].keycode));
    } else if i == 6 {
        assert(x11_keysym_of(spec_common_keys()[6].name) == Some(spec_common_keys()[6].keysym));
        assert(evdev_keycode_of(spec_common_keys()[6].name) == Some(spec_common_keys()[6].keycode));
    } else if i == 7 {
        assert(x11_keysym_of(spec_common_keys()[7].name) == Some(spec_common_keys()[7].keysym));
        assert(evdev_keycode_of(spec_common_keys()[7].name) == Some(spec_common_keys()[7].keycode));
    } else if i == 8 {
        assert(x11_keysym_of(spec_common_keys()[8].name) == Some(spec_common_keys()[8].keysym));
        assert(evdev_keycode_of(spec_common_keys()[8].name) == Some(spec_common_keys()[8].keycode));
    } else if i == 9 {
        assert(x11_keysym_of(spec_common_keys()[9].name) == Some(spec_common_keys()[9].keysym));
        assert(evdev_keycode_of(spec_common_keys()[9].name) == Some(spec_common_keys()[9].keycode));
    } else if i == 10 {
        assert(x11_keysym_of(spec_common_keys()[10].name) == Some(spec_common_keys()[10].keysym));
        assert(evdev_keycode_of(spec_common_keys()[10].name) == Some(spec_common_keys()[10].keycode));
    } else if i == 11 {
        assert(x11_keysym_of(spec_common_keys()[11].name) == Some(spec_common_keys()[11].keysym));
        assert(evdev_keycode_of(spec_common_keys()[11].name) == Some(spec_common_keys()[11].keycode));
    } else if i == 12 {
        assert(x11_keysym_of(spec_common_keys()[12].name) == Some(spec_common_keys()[12].keysym));
        assert(evdev_keycode_of(spec_common_keys()[12].name) == Some(spec_common_keys()[12].keycode));
    } else if i == 13 {
        assert(x11_keysym_of(spec_common_keys()[13].name) == Some(spec_common_keys()[13].keysym));
        assert(evdev_keycode_of(spec_common_keys()[13].name) == Some(spec_common_keys()[13].keycode));
    } else if i == 14 {
        assert(x11_keysym_of(spec_common_keys()[14].name) == Some(spec_common_keys()[14].keysym));
        assert(evdev_keycode_of(spec_common_keys()[14].name) == Some(spec_common_keys()[14].keycode));
    } else if i == 15 {
        assert(x11_keysym_of(spec_common_keys()[15].name) == Some(spec_common_keys()[15].keysym));
        assert(evdev_keycode_of(spec_common_keys()[15].name) == Some(spec_common_keys()[15].keycode));
    } else if i == 16 {
        assert(x11_keysym_of(spec_common_keys()[16].name) == Some(spec_common_keys()[16].keysym));
        assert(evdev_keycode_of(spec_common_keys()[16].name) == Some(spec_common_keys()[16].keycode));
    } else if i == 17 {
        assert(x11_keysym_of(spec_common_keys()[17].name) == Some(spec_common_keys()[17].keysym));
        assert(evdev_keycode_of(spec_common_keys()[17].name) == Some(spec_common_keys()[17].keycode));
    } else if i == 18 {
        assert(x11_keysym_of(spec_common_keys()[18].name) == Some(spec_common_keys()[18].keysym));
        assert(evdev_keycode_of(spec_common_keys()[18].name) == Some(spec_common_keys()[18].keycode));
    } else if i == 19 {
        assert(x11_keysym_of(spec_common_keys()[19].name) == Some(spec_common_keys()[19].keysym));
        assert(evdev_keycode_of(spec_common_keys()[19].name) == Some(spec_common_keys()[19].keycode));
    } else if i == 20 {
        assert(x11_keysym_of(spec_common_keys()[20].name) == Some(spec_common_keys()[20].keysym));
        assert(evdev_keycode_of(spec_common_keys()[20].name) == Some(spec_common_keys()[20].keycode));
    } else if i == 21 {
        assert(x11_keysym_of(spec_common_keys()[21].name) == Some(spec_common_keys()[21].keysym));
        assert(evdev_keycode_of(spec_common_keys()[21].name) == Some(spec_common_keys()[21].keycode));
    } else if i == 22 {
        assert(x11_keysym_of(spec_common_keys()[22].name) == Some(spec_common_keys()[22].keysym));
        assert(evdev_keycode_of(spec_common_keys()[22].name) == Some(spec_common_keys()[22].keycode));
    } else if i == 23 {
        assert(x11_keysym_of(spec_common_keys()[23].name) == Some(spec_common_keys()[23].keysym));
        assert(evdev_keycode_of(spec_common_keys()[23].name) == Some(spec_common_keys()[23].keycode));
    } else if i == 24 {
        assert(x11_keysym_of(spec_common_keys()[24].name) == Some(spec_common_keys()[24].keysym));
        assert(evdev_keycode_of(spec_common_keys()[24].name) == Some(spec_common_keys()[24].keycode));
    } else if i == 25 {
        assert(x11_keysym_of(spec_common_keys()[25].name) == Some(spec_common_keys()[25].keysym));
        assert(evdev_keycode_of(spec_common_keys()[25].name) == Some(spec_common_keys()[25].keycode));
    } else if i == 26 {
        assert(x11_keysym_of(spec_common_keys()[26].name) == Some(spec_common_keys()[26].keysym));
        assert(evdev_keycode_of(spec_common_keys()[26].name) == Some(spec_common_keys()[26].keycode));
    } else if i == 27 {
        assert(x11_keysym_of(spec_common_keys()[27].name) == Some(spec_common_keys()[27].keysym));
        assert(evdev_keycode_of(spec_common_keys()[27].name) == Some(spec_common_keys()[27].keycode));
    } else if i == 28 {
        assert(x11_keysym_of(spec_common_keys()[28].name) == Some(spec_common_keys()[28].keysym));
        assert(evdev_keycode_of(spec_common_keys()[28].name) == Some(spec_common_keys()[28].keycode));
    } else if i == 29 {
        assert(x11_keysym_of(spec_common_keys()[29].name) == Some(spec_common_keys()[29].keysym));
        assert(evdev_keycode_of(spec_common_keys()[29].name) == Some(spec_common_keys()[29].keycode));
    } else if i == 30 {
        assert(x11_keysym_of(spec_common_keys()[30].name) == Some(spec_common_keys()[30].keysym));
        assert(evdev_keycode_of(spec_common_keys()[30].name) == Some(spec_common_keys()[30].keycode));
    } else if i == 31 {
        assert(x11_keysym_of(spec_common_keys()[31].name) == Some(spec_common_keys()[31].keysym));
        assert(evdev_keycode_of(spec_common_keys()[31].name) == Some(spec_common_keys()[31].keycode));
    } else if i == 32 {
        assert(x11_keysym_of(spec_common_keys()[32].name) == Some(spec_common_keys()[32].keysym));
        assert(evdev_keycode_of(spec_common_keys()[32].name) == Some(spec_common_keys()[32].keycode));
    } else if i == 33 {
        assert(x11_keysym_of(spec_common_keys()[33].name) == Some(spec_common_keys()[33].keysym));
        assert(evdev_keycode_of(spec_common_keys()[33].name) == Some(spec_common_keys()[33].keycode));
    } else if i == 34 {
        assert(x11_keysym_of(spec_common_keys()[34].name) == Some(spec_common_keys()[34].keysym));
        assert(evdev_keycode_of(spec_common_keys()[34].name) == Some(spec_common_keys()[34].keycode));
    }
}

/// The same for an entry of the letters, digits and punctuation.
proof fn lemma_alpha_key_named(i: int)
    requires
        0 <= i < spec_alpha_keys().len(),
    ensures
        x11_keysym_of(spec_alpha_keys()[i].name) == Some(spec_alpha_keys()[i].keysym),
        i < 26 ==> evdev_keycode_of(spec_alpha_keys()[i].name) is None,
        26 <= i ==> evdev_keycode_of(spec_alpha_keys()[i].name) == Some(
            spec_alpha_keys()[i].keycode,
        ),
        !spec_is_modifier_keysym(spec_alpha_keys()[i].keysym),
        !names_a_modifier(spec_alpha_keys()[i].name),
{
    reveal_strlit("Left Ctrl");
    reveal_strlit("Right Ctrl");
    reveal_strlit("Left Alt");
    reveal_strlit("Right Alt");
    reveal_strlit("Left Shift");
    reveal_strlit("Right Shift");
    reveal_strlit("Caps Lock");
    reveal_strlit("Num Lock");
    reveal_strlit("0");
    reveal_strlit("-");
    reveal_strlit("=");
    reveal_strlit("[");
    reveal_strlit("]");
    reveal_strlit(";");
    reveal_strlit("'");
    reveal_strlit("`");
    reveal_strlit("\\");
    reveal_strlit(",");
    reveal_strlit(".");
    reveal_strlit("/");
    let keys = spec_alpha_keys();
    if i < 26 {
        assert(keys[i] == letter_entry(i));
    } else if i < 35 {
        assert(keys[i] == digit_entry(i - 26));
    } else {
        let j = i - 35;
        assert(keys[i] == spec_punct_keys()[j]);
            if j == 0 {
            } else if j == 1 {
            } else if j == 2 {
            } else if j == 3 {
            } else if j == 4 {
            } else if j == 5 {
            } else if j == 6 {
            } else if j == 7 {
            } else if j == 8 {
            } else if j == 9 {
            } else if j == 10 {
            } else if j == 11 {
            }
    }
}

/// Every key of the picker sends the key it is named after: its keysym is
/// the X11 keysym of that key, and its evdev keycode, for every key but the
/// letters, is the kernel's code of that key (`Right Arrow` sends
/// `XK_Right` and `KEY_RIGHT`, never another arrow).
pub proof fn lemma_keys_are_named_keys()
    ensures
        forall|i: int|
            0 <= i < spec_all_keys().len() ==> x11_keysym_of(#[trigger] spec_all_keys()[i].name)
                == Some(spec_all_keys()[i].keysym),
        forall|i: int|
            0 <= i < spec_all_keys().len() && evdev_keycode_of(#[trigger] spec_all_keys()[i].name)
                is Some ==> evdev_keycode_of(spec_all_keys()[i].name) == Some(
                spec_all_keys()[i].keycode,
            ),
        forall|i: int|
            0 <= i < spec_all_keys().len() && evdev_keycode_of(#[trigger] spec_all_keys()[i].name)
                is None ==> spec_all_keys()[i].name.len() == 1 && 'A' <= spec_all_keys()[i].name[0]
                <= 'Z',
{
    let all = spec_all_keys();
    let common = spec_common_keys();
    assert forall|i: int| 0 <= i < all.len() implies {
        &&& x11_keysym_of(#[trigger] all[i].name) == Some(all[i].keysym)
        &&& evdev_keycode_of(all[i].name) is Some ==> evdev_keycode_of(all[i].name) == Some(
            all[i].keycode,
        )
        &&& evdev_keycode_of(all[i].name) is None ==> all[i].name.len() == 1 && 'A' <= all[i].name[0]
            <= 'Z'
    } by {
        if i < common.len() {
            lemma_common_key_named(i);
            assert(all[i] == common[i]);
        } else {
            lemma_alpha_key_named(i - common.len());
            assert(all[i] == spec_alpha_keys()[i - common.len()]);
            if i - common.len() < 26 {
                assert(spec_alpha_keys()[i - common.len()] == letter_entry(i - common.len()));
            }
        }
    }
}

/// The keys of the picker that are held through a combo, rather than
/// tapped after the others, are exactly the Ctrl, Alt and Shift keys, Caps
/// Lock and Num Lock.
pub proof fn lemma_modifier_keys()
    ensures
        forall|i: int|
            0 <= i < spec_all_keys().len() ==> (spec_is_modifier_keysym(
                #[trigger] spec_all_keys()[i].keysym,
            ) <==> names_a_modifier(spec_all_keys()[i].name)),
{
    let all = spec_all_keys();
    let common = spec_common_keys();
    assert forall|i: int| 0 <= i < all.len() implies (spec_is_modifier_keysym(
        #[trigger] all[i].keysym,
    ) <==> names_a_modifier(all[i].name)) by {
        if i < common.len() {
            lemma_common_key_named(i);
            assert(all[i] == common[i]);
        } else {
            lemma_alpha_key_named(i - common.len());
            assert(all[i] == spec_alpha_keys()[i - common.len()]);
        }
    }
}

} // verus!
