//! Keys synthesized with SendInput once the target window is in the
//! foreground.

use vstd::prelude::*;

verus! {

pub const KEYEVENTF_KEYUP: u32 = 0x0002;

pub const KEYEVENTF_UNICODE: u32 = 0x0004;

/// One synthesized keyboard input (`KEYBDINPUT`; time and extra info 0).
#[derive(Clone, Copy, Debug, PartialEq, Eq)]
pub struct KeyInput {
    pub vk: u16,
    pub scan: u16,
    pub flags: u32,
}

/// The input that presses (or releases) a virtual key.
pub open spec fn vk_input(vk: u16, up: bool) -> KeyInput {
    KeyInput { vk, scan: 0, flags: if up { KEYEVENTF_KEYUP } else { 0 } }
}

/// The input that presses (or releases) a character.
pub open spec fn unicode_input(ch: u16, up: bool) -> KeyInput {
    KeyInput {
        vk: 0,
        scan: ch,
        flags: if up { KEYEVENTF_UNICODE | KEYEVENTF_KEYUP } else { KEYEVENTF_UNICODE },
    }
}

/// The inputs that type a key once its window is in the foreground: for a
/// character from space up, the character as a Unicode press and release;
/// otherwise the virtual key's press and release.
pub open spec fn spec_focus_inputs(vk: u16, unicode: u16) -> Seq<KeyInput> {
    if unicode != 0 && unicode >= 0x20 {
        seq![unicode_input(unicode, false), unicode_input(unicode, true)]
    } else {
        seq![vk_input(vk, false), vk_input(vk, true)]
    }
}

/// The input that presses (or, with `up`, releases) a virtual key.
pub fn make_vk_input(vk: u16, up: bool) -> (i: KeyInput)
    ensures
        i == vk_input(vk, up),
{
    KeyInput {
        vk,
        scan: 0,
        flags: if up {
            KEYEVENTF_KEYUP
        } else {
            0
        },
    }
}

/// The input that presses (or, with `up`, releases) a character.
pub fn make_unicode_input(ch: u16, up: bool) -> (i: KeyInput)
    ensures
        i == unicode_input(ch, up),
{
    KeyInput {
        vk: 0,
        scan: ch,
        flags: if up {
            KEYEVENTF_UNICODE | KEYEVENTF_KEYUP
        } else {
            KEYEVENTF_UNICODE
        },
    }
}

/// The inputs that press and release a virtual key.
pub fn send_vk(vk: u16) -> (inputs: Vec<KeyInput>)
    ensures
        inputs@ == seq![vk_input(vk, false), vk_input(vk, true)],
{
    let v = vec![make_vk_input(vk, false), make_vk_input(vk, true)];
    assert(v@ =~= seq![vk_input(vk, false), vk_input(vk, true)]);
    v
}

/// The inputs that press and release a character.
pub fn send_unicode(ch: u16) -> (inputs: Vec<KeyInput>)
    ensures
        inputs@ == seq![unicode_input(ch, false), unicode_input(ch, true)],
{
    let v = vec![make_unicode_input(ch, false), make_unicode_input(ch, true)];
    assert(v@ =~= seq![unicode_input(ch, false), unicode_input(ch, true)]);
    v
}

/// The inputs sent, after bringing the window to the foreground, to type a key.
pub fn send_with_focus(vk: u16, unicode: u16) -> (inputs: Vec<KeyInput>)
    ensures
        inputs@ == spec_focus_inputs(vk, unicode),
{
    if unicode != 0 && unicode >= 0x20 {
        send_unicode(unicode)
    } else {
        send_vk(vk)
    }
}

/// The input that holds a virtual key down.
pub fn down_vk(vk: u16) -> (i: KeyInput)
    ensures
        i == vk_input(vk, false),
{
    make_vk_input(vk, false)
}

/// The input that releases a virtual key.
pub fn up_vk(vk: u16) -> (i: KeyInput)
    ensures
        i == vk_input(vk, true),
{
    make_vk_input(vk, true)
}

} // verus!
