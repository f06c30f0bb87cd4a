//! Key injection through a Linux uinput virtual keyboard: which input
//! events a key press, a key release and a full tap write to the device,
//! and which key codes the device announces.

use vstd::prelude::*;

use crate::keyboard::KeyInfo;

verus! {

/// Event type of key events.
pub const EV_KEY: u16 = 0x01;

/// Event type of synchronisation events.
pub const EV_SYN: u16 = 0x00;

/// Code of the synchronisation event that ends a report.
pub const SYN_REPORT: u16 = 0x00;

/// The highest key code the virtual keyboard announces.
pub const KEY_MAX: u16 = 255;

/// Name of the virtual keyboard device.
pub const DEVICE_NAME: &'static str = "autoclick-rs-vkbd";

/// One `input_event` written to the device (its time stamp is left zero).
#[derive(Clone, Copy, Debug, PartialEq, Eq)]
pub struct InputEvent {
    pub ev_type: u16,
    pub code: u16,
    pub value: i32,
}

pub open spec fn ev(ev_type: u16, code: u16, value: i32) -> InputEvent {
    InputEvent { ev_type, code, value }
}

/// Pressing `keycode`: a key-down event and a report.
pub open spec fn spec_press(keycode: u16) -> Seq<InputEvent> {
    seq![ev(EV_KEY, keycode, 1), ev(EV_SYN, SYN_REPORT, 0)]
}

/// Releasing `keycode`: a key-up event and a report.
pub open spec fn spec_release(keycode: u16) -> Seq<InputEvent> {
    seq![ev(EV_KEY, keycode, 0), ev(EV_SYN, SYN_REPORT, 0)]
}

/// The events that press `key` down.
pub fn key_down_events(key: KeyInfo) -> (evs: Vec<InputEvent>)
    ensures
        evs@ == spec_press(key.keycode),
{
    let evs = vec![
        InputEvent { ev_type: EV_KEY, code: key.keycode, value: 1 },
        InputEvent { ev_type: EV_SYN, code: SYN_REPORT, value: 0 },
    ];
    assert(evs@ =~= spec_press(key.keycode));
    evs
}

/// The events that release `key`.
pub fn key_up_events(key: KeyInfo) -> (evs: Vec<InputEvent>)
    ensures
        evs@ == spec_release(key.keycode),
{
    let evs = vec![
        InputEvent { ev_type: EV_KEY, code: key.keycode, value: 0 },
        InputEvent { ev_type: EV_SYN, code: SYN_REPORT, value: 0 },
    ];
    assert(evs@ =~= spec_release(key.keycode));
    evs
}

/// The events that tap `key`: a press followed by a release.
pub fn send_key_events(key: KeyInfo) -> (evs: Vec<InputEvent>)
    ensures
        evs@ == spec_press(key.keycode) + spec_release(key.keycode),
{
    let mut evs = key_down_events(key);
    let mut up = key_up_events(key);
    evs.append(&mut up);
    evs
}

/// The key codes the virtual keyboard announces: `0..=KEY_MAX`.
pub fn key_bits() -> (codes: Vec<u16>)
    ensures
        codes@ == Seq::new(KEY_MAX as nat + 1, |i: int| i as u16),
{
    let mut codes: Vec<u16> = Vec::new();
    let mut kc: u16 = 0;
    while kc <= KEY_MAX
        invariant
            kc <= KEY_MAX + 1,
            codes@ =~= Seq::new(kc as nat, |i: int| i as u16),
        decreases KEY_MAX + 1 - kc,
    {
        codes.push(kc);
        kc = kc + 1;
    }
    codes
}

} // verus!
