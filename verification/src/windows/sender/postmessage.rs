//! Keys posted to a GUI window as window messages.

use vstd::prelude::*;

verus! {

pub const WM_KEYDOWN: u32 = 0x0100;

pub const WM_KEYUP: u32 = 0x0101;

pub const WM_CHAR: u32 = 0x0102;

/// `lParam` of a posted key-down: repeat count 1, scan code 0.
pub const LPARAM_KEYDOWN: u32 = 0x0000_0001;

/// `lParam` of a posted key-up: repeat count 1, previous state and
/// transition bits set (as the 32-bit pattern; the caller sign-extends it).
pub const LPARAM_KEYUP: u32 = 0xC000_0001;

/// One window message to post.
#[derive(Clone, Copy, Debug, PartialEq, Eq)]
pub struct PostedMessage {
    pub msg: u32,
    pub wparam: u16,
    pub lparam: u32,
}

/// Whether `unicode` is typed as a character message: a printable
/// character (not a control character, not DEL).
pub open spec fn is_printable(unicode: u16) -> bool {
    unicode != 0 && unicode >= 0x20 && unicode != 0x7F
}

/// The message that holds a key down.
pub open spec fn spec_down(vk: u16) -> PostedMessage {
    PostedMessage { msg: WM_KEYDOWN, wparam: vk, lparam: LPARAM_KEYDOWN }
}

/// The message that releases a key.
pub open spec fn spec_up(vk: u16) -> PostedMessage {
    PostedMessage { msg: WM_KEYUP, wparam: vk, lparam: LPARAM_KEYUP }
}

/// The messages that send a key: one `WM_CHAR` for a printable character,
/// otherwise `WM_KEYDOWN` then `WM_KEYUP` of the virtual key. They are
/// posted in order; the key counts as sent when every one was accepted.
pub open spec fn spec_send(vk: u16, unicode: u16) -> Seq<PostedMessage> {
    if is_printable(unicode) {
        seq![PostedMessage { msg: WM_CHAR, wparam: unicode, lparam: 0 }]
    } else {
        seq![spec_down(vk), spec_up(vk)]
    }
}

/// The message that holds `vk` down.
pub fn down(vk: u16) -> (m: PostedMessage)
    ensures
        m == spec_down(vk),
{
    PostedMessage { msg: WM_KEYDOWN, wparam: vk, lparam: LPARAM_KEYDOWN }
}

/// The message that releases `vk`.
pub fn up(vk: u16) -> (m: PostedMessage)
    ensures
        m == spec_up(vk),
{
    PostedMessage { msg: WM_KEYUP, wparam: vk, lparam: LPARAM_KEYUP }
}

/// The messages that send a key through PostMessage.
pub fn send(vk: u16, unicode: u16) -> (msgs: Vec<PostedMessage>)
    ensures
        msgs@ == spec_send(vk, unicode),
{
    if unicode != 0 && unicode >= 0x20 && unicode != 0x7F {
        let v = vec![PostedMessage { msg: WM_CHAR, wparam: unicode, lparam: 0 }];
        assert(v@ =~= spec_send(vk, unicode));
        v
    } else {
        let v = vec![down(vk), up(vk)];
        assert(v@ =~= spec_send(vk, unicode));
        v
    }
}

} // verus!
