//! Windows virtual-key codes of the keys that can be sent, with the
//! character each one types (0 for keys that type none).

use vstd::prelude::*;

use crate::text::str_eq;

verus! {

/// One key that can be sent.
#[derive(Clone, Copy, Debug, PartialEq)]
pub struct KeyInfo {
    /// Virtual-key code.
    pub vk: u16,
    /// Unicode code point for printable characters, 0 for non-printable keys.
    pub unicode: u16,
    /// Short label.
    pub display: &'static str,
}

/// A key-table entry as plain values: picker name, virtual key, character, label.
pub struct KeyView {
    pub name: Seq<char>,
    pub vk: u16,
    pub unicode: u16,
    pub display: Seq<char>,
}

pub open spec fn entry_view(e: (&'static str, KeyInfo)) -> KeyView {
    KeyView { name: e.0@, vk: e.1.vk, unicode: e.1.unicode, display: e.1.display@ }
}

pub open spec fn table_view(t: Seq<(&'static str, KeyInfo)>) -> Seq<KeyView> {
    t.map_values(|e: (&'static str, KeyInfo)| entry_view(e))
}

pub open spec fn kv(name: Seq<char>, vk: u16, unicode: u16, display: Seq<char>) -> KeyView {
    KeyView { name, vk, unicode, display }
}

/// The named (non-alphanumeric) keys, in picker order.
pub open spec fn spec_common_keys() -> Seq<KeyView> {
    seq![
        kv("Enter (Return)"@, 0x0D, 0x000D, "Enter"@),
        kv("Space"@, 0x20, 0x0020, "Space"@),
        kv("Tab"@, 0x09, 0x0009, "Tab"@),
        kv("Escape (Esc)"@, 0x1B, 0x001B, "Escape"@),
        kv("Backspace"@, 0x08, 0x0008, "Backspace"@),
        kv("Delete"@, 0x2E, 0x007F, "Delete"@),
        kv("Up Arrow"@, 0x26, 0x0000, "Up"@),
        kv("Down Arrow"@, 0x28, 0x0000, "Down"@),
        kv("Left Arrow"@, 0x25, 0x0000, "Left"@),
        kv("Right Arrow"@, 0x27, 0x0000, "Right"@),
        kv("F1"@, 0x70, 0x0000, "F1"@),
        kv("F2"@, 0x71, 0x0000, "F2"@),
        kv("F3"@, 0x72, 0x0000, "F3"@),
        kv("F4"@, 0x73, 0x0000, "F4"@),
        kv("F5"@, 0x74, 0x0000, "F5"@),
        kv("F6"@, 0x75, 0x0000, "F6"@),
        kv("F7"@, 0x76, 0x0000, "F7"@),
        kv("F8"@, 0x77, 0x0000, "F8"@),
        kv("F9"@, 0x78, 0x0000, "F9"@),
        kv("F10"@, 0x79, 0x0000, "F10"@),
        kv("F11"@, 0x7A, 0x0000, "F11"@),
        kv("F12"@, 0x7B, 0x0000, "F12"@),
        kv("Home"@, 0x24, 0x0000, "Home"@),
        kv("End"@, 0x23, 0x0000, "End"@),
        kv("Page Up"@, 0x21, 0x0000, "PageUp"@),
        kv("Page Down"@, 0x22, 0x0000, "PageDown"@),
        kv("Insert"@, 0x2D, 0x0000, "Insert"@),
    ]
}

/// The named (non-alphanumeric) keys, in picker order.
pub fn common_keys() -> (v: Vec<(&'static str, KeyInfo)>)
    ensures
        table_view(v@) == spec_common_keys(),
{
    let v = vec![
        ("Enter (Return)", KeyInfo { vk: 0x0D, unicode: 0x000D, display: "Enter" }),
        ("Space", KeyInfo { vk: 0x20, unicode: 0x0020, display: "Space" }),
        ("Tab", KeyInfo { vk: 0x09, unicode: 0x0009, display: "Tab" }),
        ("Escape (Esc)", KeyInfo { vk: 0x1B, unicode: 0x001B, display: "Escape" }),
        ("Backspace", KeyInfo { vk: 0x08, unicode: 0x0008, display: "Backspace" }),
        ("Delete", KeyInfo { vk: 0x2E, unicode: 0x007F, display: "Delete" }),
        ("Up Arrow", KeyInfo { vk: 0x26, unicode: 0x0000, display: "Up" }),
        ("Down Arrow", KeyInfo { vk: 0x28, unicode: 0x0000, display: "Down" }),
        ("Left Arrow", KeyInfo { vk: 0x25, unicode: 0x0000, display: "Left" }),
        ("Right Arrow", KeyInfo { vk: 0x27, unicode: 0x0000, display: "Right" }),
        ("F1", KeyInfo { vk: 0x70, unicode: 0x0000, display: "F1" }),
        ("F2", KeyInfo { vk: 0x71, unicode: 0x0000, display: "F2" }),
        ("F3", KeyInfo { vk: 0x72, unicode: 0x0000, display: "F3" }),
        ("F4", KeyInfo { vk: 0x73, unicode: 0x0000, display: "F4" }),
        ("F5", KeyInfo { vk: 0x74, unicode: 0x0000, display: "F5" }),
        ("F6", KeyInfo { vk: 0x75, unicode: 0x0000, display: "F6" }),
        ("F7", KeyInfo { vk: 0x76, unicode: 0x0000, display: "F7" }),
        ("F8", KeyInfo { vk: 0x77, unicode: 0x0000, display: "F8" }),
        ("F9", KeyInfo { vk: 0x78, unicode: 0x0000, display: "F9" }),
        ("F10", KeyInfo { vk: 0x79, unicode: 0x0000, display: "F10" }),
        ("F11", KeyInfo { vk: 0x7A, unicode: 0x0000, display: "F11" }),
        ("F12", KeyInfo { vk: 0x7B, unicode: 0x0000, display: "F12" }),
        ("Home", KeyInfo { vk: 0x24, unicode: 0x0000, display: "Home" }),
        ("End", KeyInfo { vk: 0x23, unicode: 0x0000, display: "End" }),
        ("Page Up", KeyInfo { vk: 0x21, unicode: 0x0000, display: "PageUp" }),
        ("Page Down", KeyInfo { vk: 0x22, unicode: 0x0000, display: "PageDown" }),
        ("Insert", KeyInfo { vk: 0x2D, unicode: 0x0000, display: "Insert" }),
    ];
    assert(table_view(v@) =~= spec_common_keys());
    v
}

/// The letter key `'A' + i`: it types the lower-case letter.
pub open spec fn letter_entry(i: int) -> KeyView {
    kv(seq![(65 + i) as char], (0x41 + i) as u16, (0x61 + i) as u16, seq![(65 + i) as char])
}

/// The digit key `'0' + i`.
pub open spec fn digit_entry(i: int) -> KeyView {
    kv(seq![(48 + i) as char], (0x30 + i) as u16, (0x30 + i) as u16, seq![(48 + i) as char])
}

/// Letters `A`..`Z`, then digits `0`..`9`.
pub open spec fn spec_alpha_keys() -> Seq<KeyView> {
    Seq::new(26, |i: int| letter_entry(i)) + Seq::new(10, |i: int| digit_entry(i))
}

/// Letters `A`..`Z`, then digits `0`..`9`.
pub fn alpha_keys() -> (v: Vec<(&'static str, KeyInfo)>)
    ensures
        table_view(v@) == spec_alpha_keys(),
{
    let mut v: Vec<(&'static str, KeyInfo)> = Vec::new();
    let mut i: u32 = 0;
    while i < 26
        invariant
            i <= 26,
            v@.len() == i,
            table_view(v@) =~= Seq::new(i as nat, |k: int| letter_entry(k)),
        decreases 26 - i,
    {
        let name = crate::text::letter_str(i);
        let ghost before = v@;
        v.push((name, KeyInfo { vk: 0x41 + i as u16, unicode: 0x61 + i as u16, display: name }));
        assert(table_view(v@) =~= table_view(before).push(letter_entry(i as int)));
        i = i + 1;
    }
    let ghost letters = table_view(v@);
    let mut j: u32 = 0;
    while j < 10
        invariant
            j <= 10,
            v@.len() == 26 + j,
            letters == Seq::new(26, |k: int| letter_entry(k)),
            table_view(v@) =~= letters + Seq::new(j as nat, |k: int| digit_entry(k)),
        decreases 10 - j,
    {
        let name = crate::text::digit_str(j as u64);
        let ghost before = v@;
        v.push((name, KeyInfo { vk: 0x30 + j as u16, unicode: 0x30 + j as u16, display: name }));
        assert(table_view(v@) =~= table_view(before).push(digit_entry(j as int)));
        j = j + 1;
    }
    v
}

/// Every key offered in the picker, in picker order.
pub open spec fn spec_all_keys() -> Seq<KeyView> {
    spec_common_keys() + spec_alpha_keys()
}

/// Every key offered in the picker, in picker order.
pub fn all_keys() -> (v: Vec<(&'static str, KeyInfo)>)
    ensures
        table_view(v@) == spec_all_keys(),
{
    let mut v = common_keys();
    let mut rest = alpha_keys();
    v.append(&mut rest);
    assert(table_view(v@) =~= spec_all_keys());
    v
}

/// The first key of the picker named `name`.
pub open spec fn spec_find_key(keys: Seq<KeyView>, name: Seq<char>) -> Option<KeyView>
    decreases keys.len(),
{
    if keys.len() == 0 {
        None
    } else if keys[0].name == name {
        Some(keys[0])
    } else {
        spec_find_key(keys.drop_first(), name)
    }
}

/// The key of the picker named `name`.
pub fn find_key(name: &str) -> (k: Option<KeyInfo>)
    ensures
        match (k, spec_find_key(spec_all_keys(), name@)) {
            (Some(info), Some(v)) => info.vk == v.vk && info.unicode == v.unicode
                && info.display@ == v.display,
            (None, None) => true,
            _ => false,
        },
{
    let keys = all_keys();
    let mut i: usize = 0;
    assert(table_view(keys@).skip(0) =~= table_view(keys@));
    while i < keys.len()
        invariant
            i <= keys@.len(),
            table_view(keys@) == spec_all_keys(),
            spec_find_key(spec_all_keys(), name@) == spec_find_key(
                table_view(keys@).skip(i as int),
                name@,
            ),
        decreases keys.len() - i,
    {
        let ghost rest = table_view(keys@).skip(i as int);
        assert(rest[0] == entry_view(keys@[i as int]));
        if str_eq(keys[i].0, name) {
            return Some(keys[i].1);
        }
        assert(rest.drop_first() =~= table_view(keys@).skip(i + 1));
        i = i + 1;
    }
    None
}

/// The picker names of [`all_keys`], in the same order.
pub fn key_names() -> (names: Vec<&'static str>)
    ensures
        names@.len() == spec_all_keys().len(),
        forall|i: int| 0 <= i < names@.len() ==> #[trigger] names@[i]@ == spec_all_keys()[i].name,
{
    let keys = all_keys();
    let mut names: Vec<&'static str> = Vec::new();
    let mut i: usize = 0;
    while i < keys.len()
        invariant
            i <= keys@.len(),
            table_view(keys@) == spec_all_keys(),
            names@.len() == i,
            forall|k: int| 0 <= k < i ==> #[trigger] names@[k]@ == spec_all_keys()[k].name,
        decreases keys.len() - i,
    {
        assert(table_view(keys@)[i as int] == entry_view(keys@[i as int]));
        names.push(keys[i].0);
        i = i + 1;
    }
    names
}

/// The modifier virtual keys: Shift, Control, Alt (Menu), Caps Lock, Num
/// Lock, Scroll Lock, the Windows keys and the left/right Shift, Control
/// and Alt keys.
pub open spec fn spec_is_modifier_vk(vk: u16) -> bool {
    vk == 0x10 || vk == 0x11 || vk == 0x12 || vk == 0x14 || vk == 0x90 || vk == 0x91 || vk
        == 0x5B || vk == 0x5C || (0xA0 <= vk <= 0xA5)
}

pub open spec fn is_modifier_key(k: KeyInfo) -> bool {
    spec_is_modifier_vk(k.vk)
}

pub open spec fn is_regular_key(k: KeyInfo) -> bool {
    !spec_is_modifier_vk(k.vk)
}

/// Whether `key` is held down during a combo rather than tapped.
pub fn is_modifier(key: &KeyInfo) -> (b: bool)
    ensures
        b == is_modifier_key(*key),
{
    let vk = key.vk;
    vk == 0x10 || vk == 0x11 || vk == 0x12 || vk == 0x14 || vk == 0x90 || vk == 0x91 || vk
        == 0x5B || vk == 0x5C || (0xA0 <= vk && vk <= 0xA5)
}

/// Splits a combo into its modifiers and its regular keys, each in the
/// order given.
pub fn split_combo(keys: &[KeyInfo]) -> (parts: (Vec<KeyInfo>, Vec<KeyInfo>))
    ensures
        parts.0@ == keys@.filter(|k: KeyInfo| is_modifier_key(k)),
        parts.1@ == keys@.filter(|k: KeyInfo| is_regular_key(k)),
{
    let mut mods: Vec<KeyInfo> = Vec::new();
    let mut regs: Vec<KeyInfo> = Vec::new();
    let mut i: usize = 0;
    while i < keys.len()
        invariant
            i <= keys@.len(),
            mods@ == keys@.take(i as int).filter(|k: KeyInfo| is_modifier_key(k)),
            regs@ == keys@.take(i as int).filter(|k: KeyInfo| is_regular_key(k)),
        decreases keys.len() - i,
    {
        proof {
            reveal_with_fuel(Seq::filter, 1);
            assert(keys@.take(i + 1).drop_last() =~= keys@.take(i as int));
        }
        let k = keys[i];
        if is_modifier(&k) {
            mods.push(k);
        } else {
            regs.push(k);
        }
        i = i + 1;
    }
    assert(keys@.take(keys@.len() as int) =~= keys@);
    (mods, regs)
}

/// No two keys of the picker send the same key: their virtual-key codes
/// are pairwise distinct.
#[verifier::rlimit(100)]
pub proof fn lemma_keys_distinct()
    ensures
        spec_all_keys().len() == 63,
        forall|i: int, j: int|
            #![trigger spec_all_keys()[i], spec_all_keys()[j]]
            0 <= i < j < spec_all_keys().len() ==> spec_all_keys()[i].vk != spec_all_keys()[j].vk,
{
}

/// The Windows virtual-key code (`winuser.h`) of the key that a picker name
/// stands for: a one-letter or one-digit name is the key of that character,
/// whose code is the upper-case letter or the digit (`VK_A` is `'A'`); the
/// other names stand for the keys they name (`Page Up` is `VK_PRIOR`,
/// `Left Arrow` is `VK_LEFT`, ...).
pub open spec fn windows_vk_of(name: Seq<char>) -> Option<u16> {
    if name.len() == 1 {
        let c = name[0] as int;
        if 'A' as int <= c <= 'Z' as int || '0' as int <= c <= '9' as int {
            Some(c as u16)
        } else {
            None
        }
    } else if name == "Enter (Return)"@ {
        Some(0x0D)  // VK_RETURN
    } else if name == "Space"@ {
        Some(0x20)  // VK_SPACE
    } else if name == "Tab"@ {
        Some(0x09)  // VK_TAB
    } else if name == "Escape (Esc)"@ {
        Some(0x1B)  // VK_ESCAPE
    } else if name == "Backspace"@ {
        Some(0x08)  // VK_BACK
    } else if name == "Delete"@ {
        Some(0x2E)  // VK_DELETE
    } else if name == "Up Arrow"@ {
        Some(0x26)  // VK_UP
    } else if name == "Down Arrow"@ {
        Some(0x28)  // VK_DOWN
    } else if name == "Left Arrow"@ {
        Some(0x25)  // VK_LEFT
    } else if name == "Right Arrow"@ {
        Some(0x27)  // VK_RIGHT
    } else if name == "F1"@ {
        Some(0x70)  // VK_F1
    } else if name == "F2"@ {
        Some(0x71)  // VK_F2
    } else if name == "F3"@ {
        Some(0x72)  // VK_F3
    } else if name == "F4"@ {
        Some(0x73)  // VK_F4
    } else if name == "F5"@ {
        Some(0x74)  // VK_F5
    } else if name == "F6"@ {
        Some(0x75)  // VK_F6
    } else if name == "F7"@ {
        Some(0x76)  // VK_F7
    } else if name == "F8"@ {
        Some(0x77)  // VK_F8
    } else if name == "F9"@ {
        Some(0x78)  // VK_F9
    } else if name == "F10"@ {
        Some(0x79)  // VK_F10
    } else if name == "F11"@ {
        Some(0x7A)  // VK_F11
    } else if name == "F12"@ {
        Some(0x7B)  // VK_F12
    } else if name == "Home"@ {
        Some(0x24)  // VK_HOME
    } else if name == "End"@ {
        Some(0x23)  // VK_END
    } else if name == "Page Up"@ {
        Some(0x21)  // VK_PRIOR
    } else if name == "Page Down"@ {
        Some(0x22)  // VK_NEXT
    } else if name == "Insert"@ {
        Some(0x2D)  // VK_INSERT
    } else {
        None
    }
}

/// The character, as a UTF-16 unit, that the key a picker name stands for
/// types: the lower-case letter for a letter, the digit for a digit, the
/// control character of Enter, Tab, Escape, Backspace and Delete, a space
/// for Space, and 0 for the keys that type nothing.
pub open spec fn typed_unit_of(name: Seq<char>) -> Option<u16> {
    if name.len() == 1 {
        let c = name[0] as int;
        if 'A' as int <= c <= 'Z' as int {
            Some((c + 32) as u16)
        } else if '0' as int <= c <= '9' as int {
            Some(c as u16)
        } else {
            None
        }
    } else if name == "Enter (Return)"@ {
        Some(0x000D)  // carriage return
    } else if name == "Space"@ {
        Some(0x0020)  // space
    } else if name == "Tab"@ {
        Some(0x0009)  // horizontal tab
    } else if name == "Escape (Esc)"@ {
        Some(0x001B)  // escape
    } else if name == "Backspace"@ {
        Some(0x0008)  // backspace
    } else if name == "Delete"@ {
        Some(0x007F)  // delete
    } else if name == "Up Arrow"@ {
        Some(0)
    } else if name == "Down Arrow"@ {
        Some(0)
    } else if name == "Left Arrow"@ {
        Some(0)
    } else if name == "Right Arrow"@ {
        Some(0)
    } else if name == "F1"@ {
        Some(0)
    } else if name == "F2"@ {
        Some(0)
    } else if name == "F3"@ {
        Some(0)
    } else if name == "F4"@ {
        Some(0)
    } else if name == "F5"@ {
        Some(0)
    } else if name == "F6"@ {
        Some(0)
    } else if name == "F7"@ {
        Some(0)
    } else if name == "F8"@ {
        Some(0)
    } else if name == "F9"@ {
        Some(0)
    } else if name == "F10"@ {
        Some(0)
    } else if name == "F11"@ {
        Some(0)
    } else if name == "F12"@ {
        Some(0)
    } else if name == "Home"@ {
        Some(0)
    } else if name == "End"@ {
        Some(0)
    } else if name == "Page Up"@ {
        Some(0)
    } else if name == "Page Down"@ {
        Some(0)
    } else if name == "Insert"@ {
        Some(0)
    } else {
        None
    }
}

/// The virtual key and the character of each named entry of the picker are
/// those of the key it is named after.
proof fn lemma_common_key_named(i: int)
    requires
        0 <= i < spec_common_keys().len(),
    ensures
        windows_vk_of(spec_common_keys()[i].name) == Some(spec_common_keys()[i].vk),
        typed_unit_of(spec_common_keys()[i].name) == Some(spec_common_keys()[i].unicode),
{
    reveal_strlit("Enter (Return)");
    reveal_strlit("Space");
    reveal_strlit("Tab");
    reveal_strlit("Escape (Esc)");
    reveal_strlit("Backspace");
    reveal_strlit("Delete");
    reveal_strlit("Up Arrow");
    reveal_strlit("Down Arrow");
    reveal_strlit("Left Arrow");
    reveal_strlit("Right Arrow");
    reveal_strlit("F1");
    reveal_strlit("F2");
    reveal_strlit("F3");
    reveal_strlit("F4");
    reveal_strlit("F5");
    reveal_strlit("F6");
    reveal_strlit("F7");
    reveal_strlit("F8");
    reveal_strlit("F9");
    reveal_strlit("F10");
    reveal_strlit("F11");
    reveal_strlit("F12");
    reveal_strlit("Home");
    reveal_strlit("End");
    reveal_strlit("Page Up");
    reveal_strlit("Page Down");
    reveal_strlit("Insert");
    // The characters at which names of one length first differ.
    assert("F2"@[1] == '2');
    assert("F1"@[1] == '1');
    assert("F3"@[1] == '3');
    assert("F4"@[1] == '4');
    assert("F5"@[1] == '5');
    assert("F6"@[1] == '6');
    assert("F7"@[1] == '7');
    assert("F8"@[1] == '8');
    assert("F9"@[1] == '9');
    assert("F11"@[2] == '1');
    assert("F10"@[2] == '0');
    assert("F12"@[2] == '2');
    if i == 0 {
        assert(windows_vk_of(spec_common_keys()[0].name) == Some(spec_common_keys()[0].vk));
        assert(typed_unit_of(spec_common_keys()[0].name) == Some(spec_common_keys()[0].unicode));
    } else if i == 1 {
        assert(windows_vk_of(spec_common_keys()[1].name) == Some(spec_common_keys()[1].vk));
        assert(typed_unit_of(spec_common_keys()[1].name) == Some(spec_common_keys()[1].unicode));
    } else if i == 2 {
        assert(windows_vk_of(spec_common_keys()[2].name) == Some(spec_common_keys()[2].vk));
        assert(typed_unit_of(spec_common_keys()[2].name) == Some(spec_common_keys()[2].unicode));
    } else if i == 3 {
        assert(windows_vk_of(spec_common_keys()[3].name) == Some(spec_common_keys()[3].vk));
        assert(typed_unit_of(spec_common_keys()[3].name) == Some(spec_common_keys()[3].unicode));
    } else if i == 4 {
        assert(windows_vk_of(spec_common_keys()[4].name) == Some(spec_common_keys()[4].vk));
        assert(typed_unit_of(spec_common_keys()[4].name) == Some(spec_common_keys()[4].unicode));
    } else if i == 5 {
        assert(windows_vk_of(spec_common_keys()[5].name) == Some(spec_common_keys()[5].vk));
        assert(typed_unit_of(spec_common_keys()[5].name) == Some(spec_common_keys()[5].unicode));
    } else if i == 6 {
        assert(windows_vk_of(spec_common_keys()[6].name) == Some(spec_common_keys()[6].vk));
        assert(typed_unit_of(spec_common_keys()[6].name) == Some(spec_common_keys()[6].unicode));
    } else if i == 7 {
        assert(windows_vk_of(spec_common_keys()[7].name) == Some(spec_common_keys()[7].vk));
        assert(typed_unit_of(spec_common_keys()[7].name) == Some(spec_common_keys()[7].unicode));
    } else if i == 8 {
        assert(windows_vk_of(spec_common_keys()[8].name) == Some(spec_common_keys()[8].vk));
        assert(typed_unit_of(spec_common_keys()[8].name) == Some(spec_common_keys()[8].unicode));
    } else if i == 9 {
        assert(windows_vk_of(spec_common_keys()[9].name) == Some(spec_common_keys()[9].vk));
        assert(typed_unit_of(spec_common_keys()[9].name) == Some(spec_common_keys()[9].unicode));
    } else if i == 10 {
        assert(windows_vk_of(spec_common_keys()[10].name) == Some(spec_common_keys()[10].vk));
        assert(typed_unit_of(spec_common_keys()[10].name) == Some(spec_common_keys()[10].unicode));
    } else if i == 11 {
        assert(windows_vk_of(spec_common_keys()[11].name) == Some(spec_common_keys()[11].vk));
        assert(typed_unit_of(spec_common_keys()[11].name) == Some(spec_common_keys()[11].unicode));
    } else if i == 12 {
        assert(windows_vk_of(spec_common_keys()[12].name) == Some(spec_common_keys()[12].vk));
        assert(typed_unit_of(spec_common_keys()[12].name) == Some(spec_common_keys()[12].unicode));
    } else if i == 13 {
        assert(windows_vk_of(spec_common_keys()[13].name) == Some(spec_common_keys()[13].vk));
        assert(typed_unit_of(spec_common_keys()[13].name) == Some(spec_common_keys()[13].unicode));
    } else if i == 14 {
        assert(windows_vk_of(spec_common_keys()[14].name) == Some(spec_common_keys()[14].vk));
        assert(typed_unit_of(spec_common_keys()[14].name) == Some(spec_common_keys()[14].unicode));
    } else if i == 15 {
        assert(windows_vk_of(spec_common_keys()[15].name) == Some(spec_common_keys()[15].vk));
        assert(typed_unit_of(spec_common_keys()[15].name) == Some(spec_common_keys()[15].unicode));
    } else if i == 16 {
        assert(windows_vk_of(spec_common_keys()[16].name) == Some(spec_common_keys()[16].vk));
        assert(typed_unit_of(spec_common_keys()[16].name) == Some(spec_common_keys()[16].unicode));
    } else if i == 17 {
        assert(windows_vk_of(spec_common_keys()[17].name) == Some(spec_common_keys()[17].vk));
        assert(typed_unit_of(spec_common_keys()[17].name) == Some(spec_common_keys()[17].unicode));
    } else if i == 18 {
        assert(windows_vk_of(spec_common_keys()[18].name) == Some(spec_common_keys()[18].vk));
        assert(typed_unit_of(spec_common_keys()[18].name) == Some(spec_common_keys()[18].unicode));
    } else if i == 19 {
        assert(windows_vk_of(spec_common_keys()[19].name) == Some(spec_common_keys()[19].vk));
        assert(typed_unit_of(spec_common_keys()[19].name) == Some(spec_common_keys()[19].unicode));
    } else if i == 20 {
        assert(windows_vk_of(spec_common_keys()[20].name) == Some(spec_common_keys()[20].vk));
        assert(typed_unit_of(spec_common_keys()[20].name) == Some(spec_common_keys()[20].unicode));
    } else if i == 21 {
        assert(windows_vk_of(spec_common_keys()[21].name) == Some(spec_common_keys()[21].vk));
        assert(typed_unit_of(spec_common_keys()[21].name) == Some(spec_common_keys()[21].unicode));
    } else if i == 22 {
        assert(windows_vk_of(spec_common_keys()[22].name) == Some(spec_common_keys()[22].vk));
        assert(typed_unit_of(spec_common_keys()[22].name) == Some(spec_common_keys()[22].unicode));
    } else if i == 23 {
        assert(windows_vk_of(spec_common_keys()[23].name) == Some(spec_common_keys()[23].vk));
        assert(typed_unit_of(spec_common_keys()[23].name) == Some(spec_common_keys()[23].unicode));
    } else if i == 24 {
        assert(windows_vk_of(spec_common_keys()[24].name) == Some(spec_common_keys()[24].vk));
        assert(typed_unit_of(spec_common_keys()[24].name) == Some(spec_common_keys()[24].unicode));
    } else if i == 25 {
        assert(windows_vk_of(spec_common_keys()[25].name) == Some(spec_common_keys()[25].vk));
        assert(typed_unit_of(spec_common_keys()[25].name) == Some(spec_common_keys()[25].unicode));
    } else if i == 26 {
        assert(windows_vk_of(spec_common_keys()[26].name) == Some(spec_common_keys()[26].vk));
        assert(typed_unit_of(spec_common_keys()[26].name) == Some(spec_common_keys()[26].unicode));
    }
}

/// Every key of the picker sends the key it is named after: its virtual-key
/// code is that key's code in `winuser.h`, and its character is the one the
/// key types (`Page Down` sends `VK_NEXT`, never `VK_PRIOR`).
pub proof fn lemma_keys_are_named_keys()
    ensures
        forall|i: int|
            0 <= i < spec_all_keys().len() ==> windows_vk_of(#[trigger] spec_all_keys()[i].name)
                == Some(spec_all_keys()[i].vk) && typed_unit_of(spec_all_keys()[i].name) == Some(
                spec_all_keys()[i].unicode,
            ),
{
    let all = spec_all_keys();
    let common = spec_common_keys();
    assert forall|i: int| 0 <= i < all.len() implies windows_vk_of(#[trigger] all[i].name)
        == Some(all[i].vk) && typed_unit_of(all[i].name) == Some(all[i].unicode) by {
        if i < common.len() {
            lemma_common_key_named(i);
            assert(all[i] == common[i]);
        } else {
            let j = i - common.len();
            assert(all[i] == spec_alpha_keys()[j]);
            if j < 26 {
                assert(spec_alpha_keys()[j] == letter_entry(j));
            } else {
                assert(spec_alpha_keys()[j] == digit_entry(j - 26));
            }
        }
    }
}

/// No key of the picker is held through a combo: every key it offers is
/// tapped, in order, after the modifiers.
pub proof fn lemma_picker_has_no_modifier()
    ensures
        forall|i: int|
            0 <= i < spec_all_keys().len() ==> !spec_is_modifier_vk(#[trigger] spec_all_keys()[i].vk),
{
    let all = spec_all_keys();
    let common = spec_common_keys();
    assert forall|i: int| 0 <= i < all.len() implies !spec_is_modifier_vk(#[trigger] all[i].vk) by {
        if i < common.len() {
            assert(all[i] == common[i]);
        } else {
            let j = i - common.len();
            assert(all[i] == spec_alpha_keys()[j]);
            if j < 26 {
                assert(spec_alpha_keys()[j] == letter_entry(j));
            } else {
                assert(spec_alpha_keys()[j] == digit_entry(j - 26));
            }
        }
    }
}

} // verus!
