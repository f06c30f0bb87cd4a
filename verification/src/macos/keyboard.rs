//! macOS virtual keycodes (ANSI US layout) of the keys that can be sent
//! through CGEvent: each key has a picker name, its keycode and a label.

use vstd::prelude::*;

verus! {

/// One key that can be sent.
#[derive(Clone, Copy, Debug, PartialEq)]
pub struct KeyInfo {
    /// macOS virtual keycode (CGKeyCode).
    pub keycode: u16,
    /// Short label.
    pub display: &'static str,
}

/// A key-table entry as plain values: picker name, keycode, label.
pub struct KeyView {
    pub name: Seq<char>,
    pub keycode: u16,
    pub display: Seq<char>,
}

pub open spec fn entry_view(e: (&'static str, KeyInfo)) -> KeyView {
    KeyView { name: e.0@, keycode: e.1.keycode, display: e.1.display@ }
}

pub open spec fn table_view(t: Seq<(&'static str, KeyInfo)>) -> Seq<KeyView> {
    t.map_values(|e: (&'static str, KeyInfo)| entry_view(e))
}

pub open spec fn kv(name: Seq<char>, keycode: u16, display: Seq<char>) -> KeyView {
    KeyView { name, keycode, display }
}

pub const VK_RETURN: u16 = 0x24;
pub const VK_TAB: u16 = 0x30;
pub const VK_SPACE: u16 = 0x31;
pub const VK_DELETE: u16 = 0x33;
pub const VK_ESCAPE: u16 = 0x35;
pub const VK_FORWARD_DELETE: u16 = 0x75;
pub const VK_HOME: u16 = 0x73;
pub const VK_END: u16 = 0x77;
pub const VK_PAGE_UP: u16 = 0x74;
pub const VK_PAGE_DOWN: u16 = 0x79;
pub const VK_LEFT: u16 = 0x7B;
pub const VK_RIGHT: u16 = 0x7C;
pub const VK_DOWN: u16 = 0x7D;
pub const VK_UP: u16 = 0x7E;
pub const VK_F1: u16 = 0x7A;
pub const VK_F2: u16 = 0x78;
pub const VK_F3: u16 = 0x63;
pub const VK_F4: u16 = 0x76;
pub const VK_F5: u16 = 0x60;
pub const VK_F6: u16 = 0x61;
pub const VK_F7: u16 = 0x62;
pub const VK_F8: u16 = 0x64;
pub const VK_F9: u16 = 0x65;
pub const VK_F10: u16 = 0x6D;
pub const VK_F11: u16 = 0x67;
pub const VK_F12: u16 = 0x6F;
pub const VK_SHIFT: u16 = 0x38;
pub const VK_CONTROL: u16 = 0x3B;
pub const VK_OPTION: u16 = 0x3A;
pub const VK_COMMAND: u16 = 0x37;
pub const VK_CAPS_LOCK: u16 = 0x39;
pub const VK_RIGHT_SHIFT: u16 = 0x3C;
pub const VK_RIGHT_CONTROL: u16 = 0x3E;
pub const VK_RIGHT_OPTION: u16 = 0x3D;

/// The named (non-alphanumeric) keys, in picker order.
pub open spec fn spec_common_keys() -> Seq<KeyView> {
    seq![
        kv("Enter"@, 0x24, "Enter"@),
        kv("Space"@, 0x31, "Space"@),
        kv("Tab"@, 0x30, "Tab"@),
        kv("Escape"@, 0x35, "Esc"@),
        kv("Backspace"@, 0x33, "Bksp"@),
        kv("Delete"@, 0x75, "Del"@),
        kv("Home"@, 0x73, "Home"@),
        kv("End"@, 0x77, "End"@),
        kv("Page Up"@, 0x74, "PgUp"@),
        kv("Page Down"@, 0x79, "PgDn"@),
        kv("Up Arrow"@, 0x7E, "Up"@),
        kv("Down Arrow"@, 0x7D, "Down"@),
        kv("Left Arrow"@, 0x7B, "Left"@),
        kv("Right Arrow"@, 0x7C, "Right"@),
        kv("F1"@, 0x7A, "F1"@),
        kv("F2"@, 0x78, "F2"@),
        kv("F3"@, 0x63, "F3"@),
        kv("F4"@, 0x76, "F4"@),
        kv("F5"@, 0x60, "F5"@),
        kv("F6"@, 0x61, "F6"@),
        kv("F7"@, 0x62, "F7"@),
        kv("F8"@, 0x64, "F8"@),
        kv("F9"@, 0x65, "F9"@),
        kv("F10"@, 0x6D, "F10"@),
        kv("F11"@, 0x67, "F11"@),
        kv("F12"@, 0x6F, "F12"@),
        kv("Left Ctrl"@, 0x3B, "LCtrl"@),
        kv("Right Ctrl"@, 0x3E, "RCtrl"@),
        kv("Left Alt"@, 0x3A, "LOpt"@),
        kv("Right Alt"@, 0x3D, "ROpt"@),
        kv("Left Shift"@, 0x38, "LShift"@),
        kv("Right Shift"@, 0x3C, "RShift"@),
        kv("Left Cmd"@, 0x37, "LCmd"@),
        kv("Caps Lock"@, 0x39, "Caps"@),
    ]
}

/// The named (non-alphanumeric) keys, in picker order.
pub fn common_keys() -> (v: Vec<(&'static str, KeyInfo)>)
    ensures
        table_view(v@) == spec_common_keys(),
{
    let v = vec![
        ("Enter", KeyInfo { keycode: VK_RETURN, display: "Enter" }),
        ("Space", KeyInfo { keycode: VK_SPACE, display: "Space" }),
        ("Tab", KeyInfo { keycode: VK_TAB, display: "Tab" }),
        ("Escape", KeyInfo { keycode: VK_ESCAPE, display: "Esc" }),
        ("Backspace", KeyInfo { keycode: VK_DELETE, display: "Bksp" }),
        ("Delete", KeyInfo { keycode: VK_FORWARD_DELETE, display: "Del" }),
        ("Home", KeyInfo { keycode: VK_HOME, display: "Home" }),
        ("End", KeyInfo { keycode: VK_END, display: "End" }),
        ("Page Up", KeyInfo { keycode: VK_PAGE_UP, display: "PgUp" }),
        ("Page Down", KeyInfo { keycode: VK_PAGE_DOWN, display: "PgDn" }),
        ("Up Arrow", KeyInfo { keycode: VK_UP, display: "Up" }),
        ("Down Arrow", KeyInfo { keycode: VK_DOWN, display: "Down" }),
        ("Left Arrow", KeyInfo { keycode: VK_LEFT, display: "Left" }),
        ("Right Arrow", KeyInfo { keycode: VK_RIGHT, display: "Right" }),
        ("F1", KeyInfo { keycode: VK_F1, display: "F1" }),
        ("F2", KeyInfo { keycode: VK_F2, display: "F2" }),
        ("F3", KeyInfo { keycode: VK_F3, display: "F3" }),
        ("F4", KeyInfo { keycode: VK_F4, display: "F4" }),
        ("F5", KeyInfo { keycode: VK_F5, display: "F5" }),
        ("F6", KeyInfo { keycode: VK_F6, display: "F6" }),
        ("F7", KeyInfo { keycode: VK_F7, display: "F7" }),
        ("F8", KeyInfo { keycode: VK_F8, display: "F8" }),
        ("F9", KeyInfo { keycode: VK_F9, display: "F9" }),
        ("F10", KeyInfo { keycode: VK_F10, display: "F10" }),
        ("F11", KeyInfo { keycode: VK_F11, display: "F11" }),
        ("F12", KeyInfo { keycode: VK_F12, display: "F12" }),
        ("Left Ctrl", KeyInfo { keycode: VK_CONTROL, display: "LCtrl" }),
        ("Right Ctrl", KeyInfo { keycode: VK_RIGHT_CONTROL, display: "RCtrl" }),
        ("Left Alt", KeyInfo { keycode: VK_OPTION, display: "LOpt" }),
        ("Right Alt", KeyInfo { keycode: VK_RIGHT_OPTION, display: "ROpt" }),
        ("Left Shift", KeyInfo { keycode: VK_SHIFT, display: "LShift" }),
        ("Right Shift", KeyInfo { keycode: VK_RIGHT_SHIFT, display: "RShift" }),
        ("Left Cmd", KeyInfo { keycode: VK_COMMAND, display: "LCmd" }),
        ("Caps Lock", KeyInfo { keycode: VK_CAPS_LOCK, display: "Caps" }),
    ];
    assert(table_view(v@) =~= spec_common_keys());
    v
}

/// Keycode of the letter `'a' + i`.
pub open spec fn spec_letter_code(i: int) -> u16 {
    if i == 0 {
        0x00
    } else if i == 1 {
        0x0B
    } else if i == 2 {
        0x08
    } else if i == 3 {
        0x02
    } else if i == 4 {
        0x0E
    } else if i == 5 {
        0x03
    } else if i == 6 {
        0x05
    } else if i == 7 {
        0x04
    } else if i == 8 {
        0x22
    } else if i == 9 {
        0x26
    } else if i == 10 {
        0x28
    } else if i == 11 {
        0x25
    } else if i == 12 {
        0x2E
    } else if i == 13 {
        0x2D
    } else if i == 14 {
        0x1F
    } else if i == 15 {
        0x23
    } else if i == 16 {
        0x0C
    } else if i == 17 {
        0x0F
    } else if i == 18 {
        0x01
    } else if i == 19 {
        0x11
    } else if i == 20 {
        0x20
    } else if i == 21 {
        0x09
    } else if i == 22 {
        0x0D
    } else if i == 23 {
        0x07
    } else if i == 24 {
        0x10
    } else {
        0x06
    }
}

fn letter_code(i: u32) -> (kc: u16)
    requires
        i < 26,
    ensures
        kc == spec_letter_code(i as int),
{
    match i {
        0 => 0x00,
        1 => 0x0B,
        2 => 0x08,
        3 => 0x02,
        4 => 0x0E,
        5 => 0x03,
        6 => 0x05,
        7 => 0x04,
        8 => 0x22,
        9 => 0x26,
        10 => 0x28,
        11 => 0x25,
        12 => 0x2E,
        13 => 0x2D,
        14 => 0x1F,
        15 => 0x23,
        16 => 0x0C,
        17 => 0x0F,
        18 => 0x01,
        19 => 0x11,
        20 => 0x20,
        21 => 0x09,
        22 => 0x0D,
        23 => 0x07,
        24 => 0x10,
        _ => 0x06,
    }
}

/// Keycode of the number-row key `'1' + i` (`i < 9`) or `'0'` (`i == 9`).
pub open spec fn spec_number_code(i: int) -> u16 {
    if i == 0 {
        0x12
    } else if i == 1 {
        0x13
    } else if i == 2 {
        0x14
    } else if i == 3 {
        0x15
    } else if i == 4 {
        0x17
    } else if i == 5 {
        0x16
    } else if i == 6 {
        0x1A
    } else if i == 7 {
        0x1C
    } else if i == 8 {
        0x19
    } else {
        0x1D
    }
}

fn number_code(i: u32) -> (kc: u16)
    requires
        i < 10,
    ensures
        kc == spec_number_code(i as int),
{
    match i {
        0 => 0x12,
        1 => 0x13,
        2 => 0x14,
        3 => 0x15,
        4 => 0x17,
        5 => 0x16,
        6 => 0x1A,
        7 => 0x1C,
        8 => 0x19,
        _ => 0x1D,
    }
}

/// The punctuation keys, after the number row.
pub open spec fn spec_punct_keys() -> Seq<KeyView> {
    seq![
        kv("-"@, 0x1B, "-"@),
        kv("="@, 0x18, "="@),
        kv("["@, 0x21, "["@),
        kv("]"@, 0x1E, "]"@),
        kv("\\"@, 0x2A, "\\"@),
        kv(";"@, 0x29, ";"@),
        kv("'"@, 0x27, "'"@),
        kv(","@, 0x2B, ","@),
        kv("."@, 0x2F, "."@),
        kv("/"@, 0x2C, "/"@),
        kv("`"@, 0x32, "`"@),
    ]
}

fn punct_keys() -> (v: Vec<(&'static str, KeyInfo)>)
    ensures
        table_view(v@) == spec_punct_keys(),
{
    let v = vec![
        ("-", KeyInfo { keycode: 0x1B, display: "-" }),
        ("=", KeyInfo { keycode: 0x18, display: "=" }),
        ("[", KeyInfo { keycode: 0x21, display: "[" }),
        ("]", KeyInfo { keycode: 0x1E, display: "]" }),
        ("\\", KeyInfo { keycode: 0x2A, display: "\\" }),
        (";", KeyInfo { keycode: 0x29, display: ";" }),
        ("'", KeyInfo { keycode: 0x27, display: "'" }),
        (",", KeyInfo { keycode: 0x2B, display: "," }),
        (".", KeyInfo { keycode: 0x2F, display: "." }),
        ("/", KeyInfo { keycode: 0x2C, display: "/" }),
        ("`", KeyInfo { keycode: 0x32, display: "`" }),
    ];
    assert(table_view(v@) =~= spec_punct_keys());
    v
}

/// The alphabet key `'A' + i`.
pub open spec fn letter_entry(i: int) -> KeyView {
    kv(seq![(65 + i) as char], spec_letter_code(i), seq![(65 + i) as char])
}

/// The number-row key `'1' + i` (`i < 9`), then `'0'`.
pub open spec fn number_entry(i: int) -> KeyView {
    let ch = if i < 9 {
        (49 + i) as char
    } else {
        '0'
    };
    kv(seq![ch], spec_number_code(i), seq![ch])
}

/// Letters `A`..`Z`, the number row `1`..`9`, `0`, then the punctuation keys.
pub open spec fn spec_alpha_keys() -> Seq<KeyView> {
    Seq::new(26, |i: int| letter_entry(i)) + Seq::new(10, |i: int| number_entry(i))
        + spec_punct_keys()
}

/// Letters `A`..`Z`, the number row `1`..`9`, `0`, then the punctuation keys.
pub fn alpha_keys() -> (v: Vec<(&'static str, KeyInfo)>)
    ensures
        table_view(v@) == spec_alpha_keys(),
{
    let mut v: Vec<(&'static str, KeyInfo)> = Vec::new();
    let mut i: u32 = 0;
    while i < 26
        invariant
            i <= 26,
            v@.len() == i,
            table_view(v@) =~= Seq::new(i as nat, |k: int| letter_entry(k)),
        decreases 26 - i,
    {
        let name = crate::text::letter_str(i);
        let ghost before = v@;
        v.push((name, KeyInfo { keycode: letter_code(i), display: name }));
        assert(table_view(v@) =~= table_view(before).push(letter_entry(i as int)));
        i = i + 1;
    }
    let ghost letters = table_view(v@);
    let mut j: u32 = 0;
    while j < 10
        invariant
            j <= 10,
            v@.len() == 26 + j,
            letters == Seq::new(26, |k: int| letter_entry(k)),
            table_view(v@) =~= letters + Seq::new(j as nat, |k: int| number_entry(k)),
        decreases 10 - j,
    {
        let name = crate::text::digit_str(((j + 1) % 10) as u64);
        let ghost before = v@;
        v.push((name, KeyInfo { keycode: number_code(j), display: name }));
        assert(table_view(v@) =~= table_view(before).push(number_entry(j as int)));
        j = j + 1;
    }
    let mut rest = punct_keys();
    v.append(&mut rest);
    assert(table_view(v@) =~= spec_alpha_keys());
    v
}

/// Every key offered in the picker, in picker order.
pub open spec fn spec_all_keys() -> Seq<KeyView> {
    spec_common_keys() + spec_alpha_keys()
}

/// Every key offered in the picker, in picker order.
pub fn all_keys() -> (v: Vec<(&'static str, KeyInfo)>)
    ensures
        table_view(v@) == spec_all_keys(),
{
    let mut v = common_keys();
    let mut rest = alpha_keys();
    v.append(&mut rest);
    assert(table_view(v@) =~= spec_all_keys());
    v
}

/// The picker names of [`all_keys`], in the same order.
pub fn key_names() -> (names: Vec<&'static str>)
    ensures
        names@.len() == spec_all_keys().len(),
        forall|i: int| 0 <= i < names@.len() ==> #[trigger] names@[i]@ == spec_all_keys()[i].name,
{
    let keys = all_keys();
    let mut names: Vec<&'static str> = Vec::new();
    let mut i: usize = 0;
    while i < keys.len()
        invariant
            i <= keys@.len(),
            table_view(keys@) == spec_all_keys(),
            names@.len() == i,
            forall|k: int| 0 <= k < i ==> #[trigger] names@[k]@ == spec_all_keys()[k].name,
        decreases keys.len() - i,
    {
        assert(table_view(keys@)[i as int] == entry_view(keys@[i as int]));
        names.push(keys[i].0);
        i = i + 1;
    }
    names
}

/// The modifier keycodes: right Command, Command, Shift, Caps Lock,
/// Option, Control, right Shift, right Option, right Control and Fn
/// (`0x36..=0x3F`).
pub open spec fn is_modifier_keycode(keycode: u16) -> bool {
    0x36 <= keycode <= 0x3F
}

pub open spec fn is_modifier_key(k: KeyInfo) -> bool {
    is_modifier_keycode(k.keycode)
}

pub open spec fn is_regular_key(k: KeyInfo) -> bool {
    !is_modifier_key(k)
}

/// Whether `key` is held down during a combo rather than tapped.
pub fn is_modifier(key: &KeyInfo) -> (b: bool)
    ensures
        b == is_modifier_key(*key),
{
    0x36 <= key.keycode && key.keycode <= 0x3F
}

/// Splits a combo into its modifiers and its regular keys, each in the
/// order given.
pub fn split_combo(keys: &[KeyInfo]) -> (parts: (Vec<KeyInfo>, Vec<KeyInfo>))
    ensures
        parts.0@ == keys@.filter(|k: KeyInfo| is_modifier_key(k)),
        parts.1@ == keys@.filter(|k: KeyInfo| is_regular_key(k)),
{
    let mut mods: Vec<KeyInfo> = Vec::new();
    let mut regs: Vec<KeyInfo> = Vec::new();
    let mut i: usize = 0;
    while i < keys.len()
        invariant
            i <= keys@.len(),
            mods@ == keys@.take(i as int).filter(|k: KeyInfo| is_modifier_key(k)),
            regs@ == keys@.take(i as int).filter(|k: KeyInfo| is_regular_key(k)),
        decreases keys.len() - i,
    {
        proof {
            reveal_with_fuel(Seq::filter, 1);
            assert(keys@.take(i + 1).drop_last() =~= keys@.take(i as int));
        }
        let k = keys[i];
        if is_modifier(&k) {
            mods.push(k);
        } else {
            regs.push(k);
        }
        i = i + 1;
    }
    assert(keys@.take(keys@.len() as int) =~= keys@);
    (mods, regs)
}

/// No two keys of the picker send the same key: their keycodes are
/// pairwise distinct.
#[verifier::rlimit(100)]
pub proof fn lemma_keys_distinct()
    ensures
        forall|i: int, j: int|
            #![trigger spec_all_keys()[i], spec_all_keys()[j]]
            0 <= i < j < spec_all_keys().len() ==> spec_all_keys()[i].keycode
                != spec_all_keys()[j].keycode,
{
}

/// The macOS virtual keycode (`kVK_*` of the Carbon `Events.h`, ANSI
/// layout) of the key that a picker name stands for: a one-character name is
/// the key of that character (`A` is `kVK_ANSI_A`, `;` is
/// `kVK_ANSI_Semicolon`), in the order of the header; the other names stand
/// for the keys they name (`Backspace` is `kVK_Delete`, `Delete` is
/// `kVK_ForwardDelete`, `Down Arrow` is `kVK_DownArrow`, ...).
pub open spec fn mac_keycode_of(name: Seq<char>) -> Option<u16> {
    if name.len() == 1 {
        let c = name[0];
        if c == 'A' {
            Some(0x00)
        } else if c == 'S' {
            Some(0x01)
        } else if c == 'D' {
            Some(0x02)
        } else if c == 'F' {
            Some(0x03)
        } else if c == 'H' {
            Some(0x04)
        } else if c == 'G' {
            Some(0x05)
        } else if c == 'Z' {
            Some(0x06)
        } else if c == 'X' {
            Some(0x07)
        } else if c == 'C' {
            Some(0x08)
        } else if c == 'V' {
            Some(0x09)
        } else if c == 'B' {
            Some(0x0B)
        } else if c == 'Q' {
            Some(0x0C)
        } else if c == 'W' {
            Some(0x0D)
        } else if c == 'E' {
            Some(0x0E)
        } else if c == 'R' {
            Some(0x0F)
        } else if c == 'Y' {
            Some(0x10)
        } else if c == 'T' {
            Some(0x11)
        } else if c == '1' {
            Some(0x12)
        } else if c == '2' {
            Some(0x13)
        } else if c == '3' {
            Some(0x14)
        } else if c == '4' {
            Some(0x15)
        } else if c == '6' {
            Some(0x16)
        } else if c == '5' {
            Some(0x17)
        } else if c == '=' {
            Some(0x18)
        } else if c == '9' {
            Some(0x19)
        } else if c == '7' {
            Some(0x1A)
        } else if c == '-' {
            Some(0x1B)
        } else if c == '8' {
            Some(0x1C)
        } else if c == '0' {
            Some(0x1D)
        } else if c == ']' {
            Some(0x1E)
        } else if c == 'O' {
            Some(0x1F)
        } else if c == 'U' {
            Some(0x20)
        } else if c == '[' {
            Some(0x21)
        } else if c == 'I' {
            Some(0x22)
        } else if c == 'P' {
            Some(0x23)
        } else if c == 'L' {
            Some(0x25)
        } else if c == 'J' {
            Some(0x26)
        } else if c == '\'' {
            Some(0x27)
        } else if c == 'K' {
            Some(0x28)
        } else if c == ';' {
            Some(0x29)
        } else if c == '\\' {
            Some(0x2A)
        } else if c == ',' {
            Some(0x2B)
        } else if c == '/' {
            Some(0x2C)
        } else if c == 'N' {
            Some(0x2D)
        } else if c == 'M' {
            Some(0x2E)
        } else if c == '.' {
            Some(0x2F)
        } else if c == '`' {
            Some(0x32)
        } else {
            None
        }
    } else if name == "Enter"@ {
        Some(VK_RETURN)
    } else if name == "Space"@ {
        Some(VK_SPACE)
    } else if name == "Tab"@ {
        Some(VK_TAB)
    } else if name == "Escape"@ {
        Some(VK_ESCAPE)
    } else if name == "Backspace"@ {
        Some(VK_DELETE)
    } else if name == "Delete"@ {
        Some(VK_FORWARD_DELETE)
    } else if name == "Home"@ {
        Some(VK_HOME)
    } else if name == "End"@ {
        Some(VK_END)
    } else if name == "Page Up"@ {
        Some(VK_PAGE_UP)
    } else if name == "Page Down"@ {
        Some(VK_PAGE_DOWN)
    } else if name == "Up Arrow"@ {
        Some(VK_UP)
    } else if name == "Down Arrow"@ {
        Some(VK_DOWN)
    } else if name == "Left Arrow"@ {
        Some(VK_LEFT)
    } else if name == "Right Arrow"@ {
        Some(VK_RIGHT)
    } else if name == "F1"@ {
        Some(VK_F1)
    } else if name == "F2"@ {
        Some(VK_F2)
    } else if name == "F3"@ {
        Some(VK_F3)
    } else if name == "F4"@ {
        Some(VK_F4)
    } else if name == "F5"@ {
        Some(VK_F5)
    } else if name == "F6"@ {
        Some(VK_F6)
    } else if name == "F7"@ {
        Some(VK_F7)
    } else if name == "F8"@ {
        Some(VK_F8)
    } else if name == "F9"@ {
        Some(VK_F9)
    } else if name == "F10"@ {
        Some(VK_F10)
    } else if name == "F11"@ {
        Some(VK_F11)
    } else if name == "F12"@ {
        Some(VK_F12)
    } else if name == "Left Ctrl"@ {
        Some(VK_CONTROL)
    } else if name == "Right Ctrl"@ {
        Some(VK_RIGHT_CONTROL)
    } else if name == "Left Alt"@ {
        Some(VK_OPTION)
    } else if name == "Right Alt"@ {
        Some(VK_RIGHT_OPTION)
    } else if name == "Left Shift"@ {
        Some(VK_SHIFT)
    } else if name == "Right Shift"@ {
        Some(VK_RIGHT_SHIFT)
    } else if name == "Left Cmd"@ {
        Some(VK_COMMAND)
    } else if name == "Caps Lock"@ {
        Some(VK_CAPS_LOCK)
    } else {
        None
    }
}

/// The picker names of the keys that are held through a combo: the left and
/// right Control, Option and Shift keys, the left Command key and Caps Lock.
pub open spec fn names_a_modifier(name: Seq<char>) -> bool {
    name == "Left Ctrl"@ || name == "Right Ctrl"@ || name == "Left Alt"@ || name == "Right Alt"@ || name == "Left Shift"@ || name == "Right Shift"@ || name == "Left Cmd"@ || name == "Caps Lock"@
}

/// The keycode of each named entry of the picker is that of the key it is
/// named after.
proof fn lemma_common_key_named(i: int)
    requires
        0 <= i < spec_common_keys().len(),
    ensures
        mac_keycode_of(spec_common_keys()[i].name) == Some(spec_common_keys()[i].keycode),
        is_modifier_keycode(spec_common_keys()[i].keycode) <==> names_a_modifier(
            spec_common_keys()[i].name,
        ),
{
    reveal_strlit("Enter");
    reveal_strlit("Space");
    reveal_strlit("Tab");
    reveal_strlit("Escape");
    reveal_strlit("Backspace");
    reveal_strlit("Delete");
    reveal_strlit("Home");
    reveal_strlit("End");
    reveal_strlit("Page Up");
    reveal_strlit("Page Down");
    reveal_strlit("Up Arrow");
    reveal_strlit("Down Arrow");
    reveal_strlit("Left Arrow");
    reveal_strlit("Right Arrow");
    reveal_strlit("F1");
    reveal_strlit("F2");
    reveal_strlit("F3");
    reveal_strlit("F4");
    reveal_strlit("F5");
    reveal_strlit("F6");
    reveal_strlit("F7");
    reveal_strlit("F8");
    reveal_strlit("F9");
    reveal_strlit("F10");
    reveal_strlit("F11");
    reveal_strlit("F12");
    reveal_strlit("Left Ctrl");
    reveal_strlit("Right Ctrl");
    reveal_strlit("Left Alt");
    reveal_strlit("Right Alt");
    reveal_strlit("Left Shift");
    reveal_strlit("Right Shift");
    reveal_strlit("Left Cmd");
    reveal_strlit("Caps Lock");
    // The characters at which names of one length first differ.
    assert("Space"@[0] == 'S');
    assert("Enter"@[0] == 'E');
    assert("Delete"@[0] == 'D');
    assert("Escape"@[0] == 'E');
    assert("End"@[0] == 'E');
    assert("Tab"@[0] == 'T');
    assert("Page Down"@[0] == 'P');
    assert("Backspace"@[0] == 'B');
    assert("Left Arrow"@[0] == 'L');
    assert("Down Arrow"@[0] == 'D');
    assert("F2"@[1] == '2');
    assert("F1"@[1] == '1');
    assert("F3"@[1] == '3');
    assert("F4"@[1] == '4');
    assert("F5"@[1] == '5');
    assert("F6"@[1] == '6');
    assert("F7"@[1] == '7');
    assert("F8"@[1] == '8');
    assert("F9"@[1] == '9');
    assert("F10"@[0] == 'F');
    assert("F11"@[0] == 'F');
    assert("F11"@[2] == '1');
    assert("F10"@[2] == '0');
    assert("F12"@[0] == 'F');
    assert("F12"@[2] == '2');
    assert("Left Ctrl"@[0] == 'L');
    assert("Right Ctrl"@[0] == 'R');
    assert("Left Alt"@[0] == 'L');
    assert("Up Arrow"@[0] == 'U');
    assert("Right Alt"@[0] == 'R');
    assert("Left Shift"@[0] == 'L');
    assert("Left Shift"@[5] == 'S');
    assert("Left Arrow"@[5] == 'A');
    assert("Right Shift"@[6] == 'S');
    assert("Right Arrow"@[6] == 'A');
    assert("Left Cmd"@[0] == 'L');
    assert("Left Cmd"@[5] == 'C');
    assert("Left Alt"@[5] == 'A');
    assert("Caps Lock"@[0] == 'C');
    if i == 0 {
        assert(mac_keycode_of(spec_common_keys()[0].name) == Some(spec_common_keys()[0].keycode));
    } else if i == 1 {
        assert(mac_keycode_of(spec_common_keys()[1].name) == Some(spec_common_keys()[1].keycode));
    } else if i == 2 {
        assert(mac_keycode_of(spec_common_keys()[2].name) == Some(spec_common_keys()[2].keycode));
    } else if i == 3 {
        assert(mac_keycode_of(spec_common_keys()[3].name) == Some(spec_common_keys()[3].keycode));
    } else if i == 4 {
        assert(mac_keycode_of(spec_common_keys()[4].name) == Some(spec_common_keys()[4].keycode));
    } else if i == 5 {
        assert(mac_keycode_of(spec_common_keys()[5].name) == Some(spec_common_keys()[5].keycode));
    } else if i == 6 {
        assert(mac_keycode_of(spec_common_keys()[6].name) == Some(spec_common_keys()[6].keycode));
    } else if i == 7 {
        assert(mac_keycode_of(spec_common_keys()[7].name) == Some(spec_common_keys()[7].keycode));
    } else if i == 8 {
        assert(mac_keycode_of(spec_common_keys()[8].name) == Some(spec_common_keys()[8].keycode));
    } else if i == 9 {
        assert(mac_keycode_of(spec_common_keys()[9].name) == Some(spec_common_keys()[9].keycode));
    } else if i == 10 {
        assert(mac_keycode_of(spec_common_keys()[10].name) == Some(spec_common_keys()[10].keycode));
    } else if i == 11 {
        assert(mac_keycode_of(spec_common_keys()[11].name) == Some(spec_common_keys()[11].keycode));
    } else if i == 12 {
        assert(mac_keycode_of(spec_common_keys()[12].name) == Some(spec_common_keys()[12].keycode));
    } else if i == 13 {
        assert(mac_keycode_of(spec_common_keys()[13].name) == Some(spec_common_keys()[13].keycode));
    } else if i == 14 {
        assert(mac_keycode_of(spec_common_keys()[14].name) == Some(spec_common_keys()[14].keycode));
    } else if i == 15 {
        assert(mac_keycode_of(spec_common_keys()[15].name) == Some(spec_common_keys()[15].keycode));
    } else if i == 16 {
        assert(mac_keycode_of(spec_common_keys()[16].name) == Some(spec_common_keys()[16].keycode));
    } else if i == 17 {
        assert(mac_keycode_of(spec_common_keys()[17].name) == Some(spec_common_keys()[17].keycode));
    } else if i == 18 {
        assert(mac_keycode_of(spec_common_keys()[18].name) == Some(spec_common_keys()[18].keycode));
    } else if i == 19 {
        assert(mac_keycode_of(spec_common_keys()[19].name) == Some(spec_common_keys()[19].keycode));
    } else if i == 20 {
        assert(mac_keycode_of(spec_common_keys()[20].name) == Some(spec_common_keys()[20].keycode));
    } else if i == 21 {
        assert(mac_keycode_of(spec_common_keys()[21].name) == Some(spec_common_keys()[21].keycode));
    } else if i == 22 {
        assert(mac_keycode_of(spec_common_keys()[22].name) == Some(spec_common_keys()[22].keycode));
    } else if i == 23 {
        assert(mac_keycode_of(spec_common_keys()[23].name) == Some(spec_common_keys()[23].keycode));
    } else if i == 24 {
        assert(mac_keycode_of(spec_common_keys()[24].name) == Some(spec_common_keys()[24].keycode));
    } else if i == 25 {
        assert(mac_keycode_of(spec_common_keys()[25].name) == Some(spec_common_keys()[25].keycode));
    } else if i == 26 {
        assert(mac_keycode_of(spec_common_keys()[26].name) == Some(spec_common_keys()[26].keycode));
    } else if i == 27 {
        assert(mac_keycode_of(spec_common_keys()[27].name) == Some(spec_common_keys()[27].keycode));
    } else if i == 28 {
        assert(mac_keycode_of(spec_common_keys()[28].name) == Some(spec_common_keys()[28].keycode));
    } else if i == 29 {
        assert(mac_keycode_of(spec_common_keys()[29].name) == Some(spec_common_keys()[29].keycode));
    } else if i == 30 {
        assert(mac_keycode_of(spec_common_keys()[30].name) == Some(spec_common_keys()[30].keycode));
    } else if i == 31 {
        assert(mac_keycode_of(spec_common_keys()[31].name) == Some(spec_common_keys()[31].keycode));
    } else if i == 32 {
        assert(mac_keycode_of(spec_common_keys()[32].name) == Some(spec_common_keys()[32].keycode));
    } else if i == 33 {
        assert(mac_keycode_of(spec_common_keys()[33].name) == Some(spec_common_keys()[33].keycode));
    }
}

/// The same for an entry of the letters, the number row and the
/// punctuation keys.
proof fn lemma_alpha_key_named(i: int)
    requires
        0 <= i < spec_alpha_keys().len(),
    ensures
        mac_keycode_of(spec_alpha_keys()[i].name) == Some(spec_alpha_keys()[i].keycode),
        !is_modifier_keycode(spec_alpha_keys()[i].keycode),
        !names_a_modifier(spec_alpha_keys()[i].name),
{
    reveal_strlit("Left Ctrl");
    reveal_strlit("Right Ctrl");
    reveal_strlit("Left Alt");
    reveal_strlit("Right Alt");
    reveal_strlit("Left Shift");
    reveal_strlit("Right Shift");
    reveal_strlit("Left Cmd");
    reveal_strlit("Caps Lock");
    reveal_strlit("-");
    reveal_strlit("=");
    reveal_strlit("[");
    reveal_strlit("]");
    reveal_strlit("\\");
    reveal_strlit(";");
    reveal_strlit("'");
    reveal_strlit(",");
    reveal_strlit(".");
    reveal_strlit("/");
    reveal_strlit("`");
    let keys = spec_alpha_keys();
    if i < 26 {
        assert(keys[i] == letter_entry(i));
        if i == 0 {
        } else if i == 1 {
        } else if i == 2 {
        } else if i == 3 {
        } else if i == 4 {
        } else if i == 5 {
        } else if i == 6 {
        } else if i == 7 {
        } else if i == 8 {
        } else if i == 9 {
        } else if i == 10 {
        } else if i == 11 {
        } else if i == 12 {
        } else if i == 13 {
        } else if i == 14 {
        } else if i == 15 {
        } else if i == 16 {
        } else if i == 17 {
        } else if i == 18 {
        } else if i == 19 {
        } else if i == 20 {
        } else if i == 21 {
        } else if i == 22 {
        } else if i == 23 {
        } else if i == 24 {
        } else if i == 25 {
        }
    } else if i < 36 {
        assert(keys[i] == number_entry(i - 26));
        if i == 26 {
        } else if i == 27 {
        } else if i == 28 {
        } else if i == 29 {
        } else if i == 30 {
        } else if i == 31 {
        } else if i == 32 {
        } else if i == 33 {
        } else if i == 34 {
        } else if i == 35 {
        }
    } else {
        let j = i - 36;
        assert(keys[i] == spec_punct_keys()[j]);
        if j == 0 {
        } else if j == 1 {
        } else if j == 2 {
        } else if j == 3 {
        } else if j == 4 {
        } else if j == 5 {
        } else if j == 6 {
        } else if j == 7 {
        } else if j == 8 {
        } else if j == 9 {
        } else if j == 10 {
        }
    }
}

/// Every key of the picker sends the key it is named after: its keycode is
/// that key's virtual keycode on the ANSI layout (`Down Arrow` sends
/// `kVK_DownArrow`, never `kVK_UpArrow`).
pub proof fn lemma_keys_are_named_keys()
    ensures
        forall|i: int|
            0 <= i < spec_all_keys().len() ==> mac_keycode_of(#[trigger] spec_all_keys()[i].name)
                == Some(spec_all_keys()[i].keycode),
{
    let all = spec_all_keys();
    let common = spec_common_keys();
    assert forall|i: int| 0 <= i < all.len() implies mac_keycode_of(#[trigger] all[i].name)
        == Some(all[i].keycode) by {
        if i < common.len() {
            lemma_common_key_named(i);
            assert(all[i] == common[i]);
        } else {
            lemma_alpha_key_named(i - common.len());
            assert(all[i] == spec_alpha_keys()[i - common.len()]);
        }
    }
}

/// The keys of the picker that are held through a combo, rather than
/// tapped after the others, are exactly the Control, Option and Shift keys,
/// the Command key and Caps Lock.
pub proof fn lemma_modifier_keys()
    ensures
        forall|i: int|
            0 <= i < spec_all_keys().len() ==> (is_modifier_keycode(
                #[trigger] spec_all_keys()[i].keycode,
            ) <==> names_a_modifier(spec_all_keys()[i].name)),
{
    let all = spec_all_keys();
    let common = spec_common_keys();
    assert forall|i: int| 0 <= i < all.len() implies (is_modifier_keycode(
        #[trigger] all[i].keycode,
    ) <==> names_a_modifier(all[i].name)) by {
        if i < common.len() {
            lemma_common_key_named(i);
            assert(all[i] == common[i]);
        } else {
            lemma_alpha_key_named(i - common.len());
            assert(all[i] == spec_alpha_keys()[i - common.len()]);
        }
    }
}

} // verus!
