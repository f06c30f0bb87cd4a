//! How a key reaches a Windows target. In window mode a GUI window (one
//! with a window handle) gets PostMessage, or SendInput after focusing it
//! when the combo holds modifiers; a console process gets
//! WriteConsoleInput. Screen mode synthesizes OS-level input. Modifier
//! holds go through the console when there is one, falling back to
//! SendInput for a window.

use vstd::prelude::*;

use crate::windows::keyboard::KeyInfo;
use crate::windows::sender::console::{down, rec, send_with_ctrl, up, ConsoleKeyRecord, ConsoleWrite};
use crate::windows::sender::sendinput::{send_with_focus, spec_focus_inputs, KeyInput};
use crate::windows::sender::Method;

verus! {

/// Why a key could not be sent.
#[derive(Debug)]
pub struct KeySendError(pub String);

impl KeySendError {
    /// The error's message.
    pub fn to_string(&self) -> (s: String)
        ensures
            s@ == self.0@,
    {
        self.0.clone()
    }
}

impl From<String> for KeySendError {
    fn from(s: String) -> (e: KeySendError) {
        KeySendError(s)
    }
}

impl vstd::std_specs::convert::FromSpecImpl<String> for KeySendError {
    open spec fn obeys_from_spec() -> bool {
        true
    }

    open spec fn from_spec(s: String) -> KeySendError {
        KeySendError(s)
    }
}

/// Injection mode: which back-end is used.
#[derive(Clone, Copy, Debug, PartialEq, Eq)]
pub enum Mode {
    /// Window mode: PostMessage / WriteConsoleInput / SendInput, by target.
    Window,
    /// Screen automation: direct OS-level SendInput.
    Screen,
}

/// How a key is sent in window mode.
#[derive(Clone, Copy, Debug, PartialEq, Eq)]
pub enum SendRoute {
    /// Focus the window and SendInput the virtual key.
    FocusSendInput { vk: u16 },
    /// PostMessage the key (or its character) to the window.
    PostMessage { vk: u16, unicode: u16 },
    /// WriteConsoleInput the key to the console of `pid`.
    Console { pid: u32, vk: u16, unicode: u16 },
    /// There is neither a window nor a process to send to.
    NoTarget,
}

/// The route for `key` to a target with a window handle or not and a
/// process id or not. With modifiers held (`force_vk`) the character is
/// dropped and a window gets SendInput, so the target sees the keyboard
/// state the modifiers set.
pub open spec fn spec_send_route(has_hwnd: bool, pid: Option<u32>, key: KeyInfo, force_vk: bool) -> SendRoute {
    let uni: u16 = if force_vk {
        0
    } else {
        key.unicode
    };
    if has_hwnd {
        if force_vk {
            SendRoute::FocusSendInput { vk: key.vk }
        } else {
            SendRoute::PostMessage { vk: key.vk, unicode: uni }
        }
    } else {
        match pid {
            Some(p) => SendRoute::Console { pid: p, vk: key.vk, unicode: uni },
            None => SendRoute::NoTarget,
        }
    }
}

/// The route for sending `key` in window mode.
pub fn send_key(has_hwnd: bool, pid: Option<u32>, key: KeyInfo, force_vk: bool) -> (r: SendRoute)
    ensures
        r == spec_send_route(has_hwnd, pid, key, force_vk),
{
    let uni: u16 = if force_vk {
        0
    } else {
        key.unicode
    };
    if has_hwnd {
        if force_vk {
            SendRoute::FocusSendInput { vk: key.vk }
        } else {
            SendRoute::PostMessage { vk: key.vk, unicode: uni }
        }
    } else {
        match pid {
            Some(p) => SendRoute::Console { pid: p, vk: key.vk, unicode: uni },
            None => SendRoute::NoTarget,
        }
    }
}

/// The message of an error, as plain characters.
pub open spec fn err_msg<T>(r: Result<T, KeySendError>) -> Seq<char> {
    match r {
        Err(e) => e.0@,
        Ok(_) => Seq::empty(),
    }
}

/// What sending along `route` reports, given whether the delivery worked
/// (`delivered`; SendInput's own result is not looked at).
pub open spec fn spec_send_result(route: SendRoute, delivered: Result<(), String>) -> Result<Method, Seq<char>> {
    match route {
        SendRoute::FocusSendInput { .. } => Ok(Method::SendInput),
        SendRoute::PostMessage { .. } => match delivered {
            Ok(_) => Ok(Method::PostMessage),
            Err(_) => Err("PostMessage failed \u{2014} app did not accept posted keys"@),
        },
        SendRoute::Console { .. } => match delivered {
            Ok(_) => Ok(Method::WriteConsoleInput),
            Err(e) => Err("WriteConsoleInput: "@ + e@),
        },
        SendRoute::NoTarget => Err("No injection target (hwnd/pid) provided"@),
    }
}

pub open spec fn result_view(r: Result<Method, KeySendError>) -> Result<Method, Seq<char>> {
    match r {
        Ok(m) => Ok(m),
        Err(e) => Err(e.0@),
    }
}

/// What sending along `route` reports.
pub fn send_key_result(route: SendRoute, delivered: Result<(), String>) -> (r: Result<Method, KeySendError>)
    ensures
        result_view(r) == spec_send_result(route, delivered),
{
    match route {
        SendRoute::FocusSendInput { .. } => Ok(Method::SendInput),
        SendRoute::PostMessage { .. } => match delivered {
            Ok(_) => Ok(Method::PostMessage),
            Err(_) => Err(KeySendError(String::from_str("PostMessage failed \u{2014} app did not accept posted keys"))),
        },
        SendRoute::Console { .. } => match delivered {
            Ok(_) => Ok(Method::WriteConsoleInput),
            Err(e) => {
                let mut msg = String::from_str("WriteConsoleInput: ");
                msg.append(e.as_str());
                Err(KeySendError(msg))
            },
        },
        SendRoute::NoTarget => Err(KeySendError(String::from_str("No injection target (hwnd/pid) provided"))),
    }
}

/// A way of holding or releasing a modifier.
#[derive(Clone, Copy, Debug, PartialEq, Eq)]
pub enum HoldAttempt {
    /// A console key record to the console of `pid`.
    Console { pid: u32 },
    /// SendInput (holds the key at the OS level; its result is not looked at).
    SendInput,
}

/// The ways to hold (or release) a modifier, tried in order until one
/// works: the console when there is a process, then SendInput when there
/// is a window.
pub open spec fn spec_hold_attempts(has_hwnd: bool, pid: Option<u32>) -> Seq<HoldAttempt> {
    let console = match pid {
        Some(p) => seq![HoldAttempt::Console { pid: p }],
        None => Seq::empty(),
    };
    if has_hwnd {
        console.push(HoldAttempt::SendInput)
    } else {
        console
    }
}

/// The ways to hold a modifier down, in the order they are tried.
pub fn key_down(has_hwnd: bool, pid: Option<u32>) -> (attempts: Vec<HoldAttempt>)
    ensures
        attempts@ == spec_hold_attempts(has_hwnd, pid),
{
    let mut v: Vec<HoldAttempt> = Vec::new();
    if let Some(p) = pid {
        v.push(HoldAttempt::Console { pid: p });
    }
    if has_hwnd {
        v.push(HoldAttempt::SendInput);
    }
    assert(v@ =~= spec_hold_attempts(has_hwnd, pid));
    v
}

/// The ways to release a modifier, in the order they are tried.
pub fn key_up(has_hwnd: bool, pid: Option<u32>) -> (attempts: Vec<HoldAttempt>)
    ensures
        attempts@ == spec_hold_attempts(has_hwnd, pid),
{
    key_down(has_hwnd, pid)
}

/// The console write of a hold attempt: the key's press (or release) with
/// no character.
pub fn hold_write(key: KeyInfo, release: bool) -> (w: ConsoleWrite)
    ensures
        w.records@ == seq![rec(!release, key.vk, 0, 0)],
{
    if release {
        up(key.vk, 0)
    } else {
        down(key.vk, 0)
    }
}

/// What a hold (or, with `release`, a release) reports, given the attempt
/// that worked (`None`: none did, or there was none to try).
pub open spec fn spec_hold_result(worked: Option<HoldAttempt>, release: bool) -> Result<Method, Seq<char>> {
    match worked {
        Some(HoldAttempt::Console { .. }) => Ok(Method::WriteConsoleInput),
        Some(HoldAttempt::SendInput) => Ok(Method::SendInput),
        None => if release {
            Err("No injection target (hwnd/pid) for key-up"@)
        } else {
            Err("No injection target (hwnd/pid) for key-down"@)
        },
    }
}

/// What a hold or a release reports.
pub fn hold_result(worked: Option<HoldAttempt>, release: bool) -> (r: Result<Method, KeySendError>)
    ensures
        result_view(r) == spec_hold_result(worked, release),
{
    match worked {
        Some(HoldAttempt::Console { .. }) => Ok(Method::WriteConsoleInput),
        Some(HoldAttempt::SendInput) => Ok(Method::SendInput),
        None => if release {
            Err(KeySendError(String::from_str("No injection target (hwnd/pid) for key-up")))
        } else {
            Err(KeySendError(String::from_str("No injection target (hwnd/pid) for key-down")))
        },
    }
}

/// The inputs of screen mode for `key`: typed as its character unless
/// modifiers are held (`force_vk`), then as its virtual key.
pub fn send_key_screen(key: KeyInfo, force_vk: bool) -> (inputs: Vec<KeyInput>)
    ensures
        inputs@ == spec_focus_inputs(key.vk, if force_vk { 0 } else { key.unicode }),
{
    let uni: u16 = if force_vk {
        0
    } else {
        key.unicode
    };
    send_with_focus(key.vk, uni)
}

/// One step of a combo sent as a whole.
#[derive(Clone, Copy, Debug, PartialEq, Eq)]
pub enum ComboEvent {
    /// Press a virtual key.
    Down(u16),
    /// Release a virtual key.
    Up(u16),
    /// Press and release a virtual key.
    Tap(u16),
}

/// The vk of each key.
pub open spec fn vks(keys: Seq<KeyInfo>) -> Seq<u16> {
    keys.map_values(|k: KeyInfo| k.vk)
}

/// Modifiers pressed in order, each regular key pressed and released,
/// modifiers released in reverse order.
pub open spec fn spec_gui_combo(modifiers: Seq<KeyInfo>, regular: Seq<KeyInfo>) -> Seq<ComboEvent> {
    vks(modifiers).map_values(|v: u16| ComboEvent::Down(v)) + spec_taps(vks(regular)) + vks(
        modifiers,
    ).reverse().map_values(|v: u16| ComboEvent::Up(v))
}

/// Each key pressed then released, in order.
pub open spec fn spec_taps(keys: Seq<u16>) -> Seq<ComboEvent>
    decreases keys.len(),
{
    if keys.len() == 0 {
        Seq::empty()
    } else {
        spec_taps(keys.drop_last()) + seq![ComboEvent::Down(keys.last()), ComboEvent::Up(keys.last())]
    }
}

fn push_downs(events: &mut Vec<ComboEvent>, keys: &[KeyInfo])
    ensures
        final(events)@ == old(events)@ + vks(keys@).map_values(|v: u16| ComboEvent::Down(v)),
{
    let mut i: usize = 0;
    let ghost start = events@;
    while i < keys.len()
        invariant
            i <= keys@.len(),
            events@ =~= start + vks(keys@.take(i as int)).map_values(|v: u16| ComboEvent::Down(v)),
        decreases keys.len() - i,
    {
        events.push(ComboEvent::Down(keys[i].vk));
        i = i + 1;
        assert(vks(keys@.take(i as int)) =~= vks(keys@.take(i - 1)).push(keys@[i - 1].vk));
    }
    assert(keys@.take(keys@.len() as int) =~= keys@);
}

fn push_ups_reversed(events: &mut Vec<ComboEvent>, keys: &[KeyInfo])
    ensures
        final(events)@ == old(events)@ + vks(keys@).reverse().map_values(|v: u16| ComboEvent::Up(v)),
{
    let mut i: usize = keys.len();
    let ghost start = events@;
    let ghost n = keys@.len();
    while i > 0
        invariant
            i <= n,
            n == keys@.len(),
            events@ =~= start + vks(keys@).reverse().take(n - i).map_values(|v: u16| ComboEvent::Up(v)),
        decreases i,
    {
        i = i - 1;
        events.push(ComboEvent::Up(keys[i].vk));
        assert(vks(keys@).reverse().take(n - i) =~= vks(keys@).reverse().take(n - i - 1).push(keys@[i as int].vk));
    }
    assert(vks(keys@).reverse().take(n as int) =~= vks(keys@).reverse());
}

/// The events that send a whole combo to a GUI target in one SendInput call.
pub fn send_combo_gui(modifiers: &[KeyInfo], regular: &[KeyInfo]) -> (events: Vec<ComboEvent>)
    ensures
        events@ == spec_gui_combo(modifiers@, regular@),
{
    let mut events: Vec<ComboEvent> = Vec::new();
    push_downs(&mut events, modifiers);
    let ghost after_mods = events@;
    let ghost all = vks(regular@);
    let mut i: usize = 0;
    while i < regular.len()
        invariant
            i <= regular@.len(),
            all == vks(regular@),
            events@ == after_mods + spec_taps(all.take(i as int)),
        decreases regular.len() - i,
    {
        let vk = regular[i].vk;
        events.push(ComboEvent::Down(vk));
        events.push(ComboEvent::Up(vk));
        proof {
            assert(all.take(i + 1).drop_last() =~= all.take(i as int));
            assert(all.take(i + 1).last() == vk);
            assert(events@ =~= after_mods + spec_taps(all.take(i + 1)));
        }
        i = i + 1;
    }
    assert(all.take(regular@.len() as int) =~= all);
    push_ups_reversed(&mut events, modifiers);
    events
}

/// Modifiers pressed in order, each regular key tapped, modifiers
/// released in reverse order.
pub open spec fn spec_screen_combo(modifiers: Seq<KeyInfo>, regular: Seq<KeyInfo>) -> Seq<ComboEvent> {
    vks(modifiers).map_values(|v: u16| ComboEvent::Down(v)) + vks(regular).map_values(
        |v: u16| ComboEvent::Tap(v),
    ) + vks(modifiers).reverse().map_values(|v: u16| ComboEvent::Up(v))
}

/// The events that send a whole combo in screen mode.
pub fn send_combo_screen(modifiers: &[KeyInfo], regular: &[KeyInfo]) -> (events: Vec<ComboEvent>)
    ensures
        events@ == spec_screen_combo(modifiers@, regular@),
{
    let mut events: Vec<ComboEvent> = Vec::new();
    push_downs(&mut events, modifiers);
    let ghost after_mods = events@;
    let mut i: usize = 0;
    while i < regular.len()
        invariant
            i <= regular@.len(),
            events@ =~= after_mods + vks(regular@.take(i as int)).map_values(|v: u16| ComboEvent::Tap(v)),
        decreases regular.len() - i,
    {
        events.push(ComboEvent::Tap(regular[i].vk));
        i = i + 1;
        assert(vks(regular@.take(i as int)) =~= vks(regular@.take(i - 1)).push(regular@[i - 1].vk));
    }
    assert(regular@.take(regular@.len() as int) =~= regular@);
    push_ups_reversed(&mut events, modifiers);
    events
}

pub const SHIFT_PRESSED: u32 = 16;

pub const LEFT_CTRL_PRESSED: u32 = 8;

pub const LEFT_ALT_PRESSED: u32 = 2;

pub const NUMLOCK_ON: u32 = 32;

pub const SCROLLLOCK_ON: u32 = 64;

pub const ENHANCED_KEY: u32 = 256;

/// The control-key-state flag a modifier's virtual key contributes.
pub open spec fn spec_modifier_flag(vk: u16) -> u32 {
    if vk == 0x10 {
        SHIFT_PRESSED
    } else if vk == 0x11 {
        LEFT_CTRL_PRESSED
    } else if vk == 0x12 {
        LEFT_ALT_PRESSED
    } else if vk == 0x14 {
        ENHANCED_KEY
    } else if vk == 0x90 {
        NUMLOCK_ON
    } else if vk == 0x91 {
        SCROLLLOCK_ON
    } else {
        0
    }
}

/// The flags of all the modifiers.
pub open spec fn spec_flags(modifiers: Seq<KeyInfo>) -> u32
    decreases modifiers.len(),
{
    if modifiers.len() == 0 {
        0
    } else {
        spec_flags(modifiers.drop_last()) | spec_modifier_flag(modifiers.last().vk)
    }
}

/// The console control-key state for a combo's modifiers: their flags,
/// with the enhanced-key flag added when there is any.
pub open spec fn spec_control_state(modifiers: Seq<KeyInfo>) -> u32 {
    if spec_flags(modifiers) != 0 {
        spec_flags(modifiers) | ENHANCED_KEY
    } else {
        0
    }
}

fn modifier_flag(vk: u16) -> (f: u32)
    ensures
        f == spec_modifier_flag(vk),
{
    match vk {
        0x10 => SHIFT_PRESSED,
        0x11 => LEFT_CTRL_PRESSED,
        0x12 => LEFT_ALT_PRESSED,
        0x14 => ENHANCED_KEY,
        0x90 => NUMLOCK_ON,
        0x91 => SCROLLLOCK_ON,
        _ => 0,
    }
}

/// The console control-key state for a combo's modifiers.
pub fn control_state(modifiers: &[KeyInfo]) -> (state: u32)
    ensures
        state == spec_control_state(modifiers@),
{
    let mut flags: u32 = 0;
    let mut i: usize = 0;
    while i < modifiers.len()
        invariant
            i <= modifiers@.len(),
            flags == spec_flags(modifiers@.take(i as int)),
        decreases modifiers.len() - i,
    {
        proof {
            assert(modifiers@.take(i + 1).drop_last() =~= modifiers@.take(i as int));
        }
        flags = flags | modifier_flag(modifiers[i].vk);
        i = i + 1;
    }
    assert(modifiers@.take(modifiers@.len() as int) =~= modifiers@);
    if flags != 0 {
        flags | ENHANCED_KEY
    } else {
        0
    }
}

/// A combo for a console: the process and the writes. They are made with a
/// [`WriteRun`](crate::windows::sender::console::WriteRun), in order,
/// stopping at the first that fails.
pub struct ConsoleCombo {
    pub pid: u32,
    pub writes: Vec<ConsoleWrite>,
}

/// Records of the writes, one sequence per write.
pub open spec fn writes_view(ws: Seq<ConsoleWrite>) -> Seq<Seq<ConsoleKeyRecord>> {
    ws.map_values(|w: ConsoleWrite| w.records@)
}

/// The console writes of a combo: each modifier pressed, each regular key
/// sent (pressed and released in one write) with the control-key state of
/// the modifiers, each modifier released in reverse order.
pub open spec fn spec_console_combo(modifiers: Seq<KeyInfo>, regular: Seq<KeyInfo>) -> Seq<Seq<ConsoleKeyRecord>> {
    let state = spec_control_state(modifiers);
    modifiers.map_values(|k: KeyInfo| seq![rec(true, k.vk, 0, 0)]) + regular.map_values(
        |k: KeyInfo| seq![rec(true, k.vk, k.unicode, state), rec(false, k.vk, k.unicode, state)],
    ) + modifiers.reverse().map_values(|k: KeyInfo| seq![rec(false, k.vk, 0, 0)])
}

/// The console combo for the process `pid`; an error without a process.
pub fn send_combo_console(pid: Option<u32>, modifiers: &[KeyInfo], regular: &[KeyInfo]) -> (plan: Result<ConsoleCombo, KeySendError>)
    ensures
        pid is None ==> (plan matches Err(e) && e.0@ == "No pid for console combo"@),
        pid is Some ==> (plan matches Ok(c) && c.pid == pid->0 && writes_view(c.writes@)
            == spec_console_combo(modifiers@, regular@)),
{
    let p = match pid {
        Some(p) => p,
        None => {
            return Err(KeySendError(String::from_str("No pid for console combo")));
        },
    };
    let state = control_state(modifiers);
    let mut writes: Vec<ConsoleWrite> = Vec::new();
    let mut i: usize = 0;
    while i < modifiers.len()
        invariant
            i <= modifiers@.len(),
            writes_view(writes@) =~= modifiers@.take(i as int).map_values(|k: KeyInfo| seq![rec(true, k.vk, 0, 0)]),
        decreases modifiers.len() - i,
    {
        let ghost before = writes@;
        writes.push(down(modifiers[i].vk, 0));
        assert(writes_view(writes@) =~= writes_view(before).push(seq![rec(true, modifiers@[i as int].vk, 0, 0)]));
        i = i + 1;
        assert(modifiers@.take(i as int) =~= modifiers@.take(i - 1).push(modifiers@[i - 1]));
    }
    assert(modifiers@.take(modifiers@.len() as int) =~= modifiers@);
    let ghost after_mods = writes_view(writes@);
    let mut j: usize = 0;
    while j < regular.len()
        invariant
            j <= regular@.len(),
            state == spec_control_state(modifiers@),
            writes_view(writes@) =~= after_mods + regular@.take(j as int).map_values(
                |k: KeyInfo| seq![rec(true, k.vk, k.unicode, state), rec(false, k.vk, k.unicode, state)],
            ),
        decreases regular.len() - j,
    {
        let ghost before = writes@;
        let ghost kj = regular@[j as int];
        writes.push(send_with_ctrl(regular[j].vk, regular[j].unicode, state));
        assert(writes_view(writes@) =~= writes_view(before).push(seq![rec(true, kj.vk, kj.unicode, state), rec(false, kj.vk, kj.unicode, state)]));
        j = j + 1;
        assert(regular@.take(j as int) =~= regular@.take(j - 1).push(regular@[j - 1]));
    }
    assert(regular@.take(regular@.len() as int) =~= regular@);
    let ghost after_regs = writes_view(writes@);
    let n = modifiers.len();
    let mut k: usize = n;
    while k > 0
        invariant
            k <= n,
            n == modifiers@.len(),
            writes_view(writes@) =~= after_regs + modifiers@.reverse().take(n - k).map_values(
                |key: KeyInfo| seq![rec(false, key.vk, 0, 0)],
            ),
        decreases k,
    {
        k = k - 1;
        let ghost before = writes@;
        writes.push(up(modifiers[k].vk, 0));
        assert(writes_view(writes@) =~= writes_view(before).push(seq![rec(false, modifiers@[k as int].vk, 0, 0)]));
        assert(modifiers@.reverse().take(n - k) =~= modifiers@.reverse().take(n - k - 1).push(modifiers@[k as int]));
    }
    assert(modifiers@.reverse().take(n as int) =~= modifiers@.reverse());
    Ok(ConsoleCombo { pid: p, writes })
}

/// What a console combo reports once its writes were made (`outcome`: the
/// result its `WriteRun` finished with, the first failure if any).
pub fn console_combo_result(outcome: Result<(), String>) -> (r: Result<Method, KeySendError>)
    ensures
        match outcome {
            Ok(_) => r == Ok::<Method, KeySendError>(Method::WriteConsoleInput),
            Err(e) => result_view(r) == Err::<Method, Seq<char>>(e@),
        },
{
    match outcome {
        Ok(_) => Ok(Method::WriteConsoleInput),
        Err(e) => Err(KeySendError::from(e)),
    }
}

/// Whether one of `modifiers` is the key with virtual-key code `vk`.
pub open spec fn holds_vk(modifiers: Seq<KeyInfo>, vk: u16) -> bool {
    exists|k: int| 0 <= k < modifiers.len() && #[trigger] modifiers[k].vk == vk
}

proof fn lemma_or_and(a: u32, g: u32, f: u32)
    by (bit_vector)
    ensures
        ((a | g) & f != 0) == ((a & f != 0) || (g & f != 0)),
        ((a | g) & !0x17Au32 == 0) == ((a & !0x17Au32 == 0) && (g & !0x17Au32 == 0)),
{
}

/// Which state flags the modifiers' own flags hold: each of Shift, Ctrl,
/// Alt, Num Lock and Scroll Lock exactly when that key is held, the
/// enhanced-key flag exactly when Caps Lock is, and no other bit.
proof fn lemma_flags_bits(modifiers: Seq<KeyInfo>)
    ensures
        (spec_flags(modifiers) & SHIFT_PRESSED != 0) == holds_vk(modifiers, 0x10),
        (spec_flags(modifiers) & LEFT_CTRL_PRESSED != 0) == holds_vk(modifiers, 0x11),
        (spec_flags(modifiers) & LEFT_ALT_PRESSED != 0) == holds_vk(modifiers, 0x12),
        (spec_flags(modifiers) & ENHANCED_KEY != 0) == holds_vk(modifiers, 0x14),
        (spec_flags(modifiers) & NUMLOCK_ON != 0) == holds_vk(modifiers, 0x90),
        (spec_flags(modifiers) & SCROLLLOCK_ON != 0) == holds_vk(modifiers, 0x91),
        spec_flags(modifiers) & !0x17Au32 == 0,
    decreases modifiers.len(),
{
    if modifiers.len() == 0 {
        assert(0u32 & 16u32 == 0 && 0u32 & 8u32 == 0 && 0u32 & 2u32 == 0 && 0u32 & 256u32 == 0
            && 0u32 & 32u32 == 0 && 0u32 & 64u32 == 0 && 0u32 & !0x17Au32 == 0) by (bit_vector);
    } else {
        let rest = modifiers.drop_last();
        let last = modifiers.last();
        lemma_flags_bits(rest);
        let a = spec_flags(rest);
        let g = spec_modifier_flag(last.vk);
        lemma_or_and(a, g, SHIFT_PRESSED);
        lemma_or_and(a, g, LEFT_CTRL_PRESSED);
        lemma_or_and(a, g, LEFT_ALT_PRESSED);
        lemma_or_and(a, g, ENHANCED_KEY);
        lemma_or_and(a, g, NUMLOCK_ON);
        lemma_or_and(a, g, SCROLLLOCK_ON);
        assert(16u32 & 16u32 != 0 && 16u32 & 8u32 == 0 && 16u32 & 2u32 == 0 && 16u32 & 256u32 == 0
            && 16u32 & 32u32 == 0 && 16u32 & 64u32 == 0 && 16u32 & !0x17Au32 == 0
            && 8u32 & 16u32 == 0 && 8u32 & 8u32 != 0 && 8u32 & 2u32 == 0 && 8u32 & 256u32 == 0
            && 8u32 & 32u32 == 0 && 8u32 & 64u32 == 0 && 8u32 & !0x17Au32 == 0
            && 2u32 & 16u32 == 0 && 2u32 & 8u32 == 0 && 2u32 & 2u32 != 0 && 2u32 & 256u32 == 0
            && 2u32 & 32u32 == 0 && 2u32 & 64u32 == 0 && 2u32 & !0x17Au32 == 0
            && 256u32 & 16u32 == 0 && 256u32 & 8u32 == 0 && 256u32 & 2u32 == 0 && 256u32 & 256u32 != 0
            && 256u32 & 32u32 == 0 && 256u32 & 64u32 == 0 && 256u32 & !0x17Au32 == 0
            && 32u32 & 16u32 == 0 && 32u32 & 8u32 == 0 && 32u32 & 2u32 == 0 && 32u32 & 256u32 == 0
            && 32u32 & 32u32 != 0 && 32u32 & 64u32 == 0 && 32u32 & !0x17Au32 == 0
            && 64u32 & 16u32 == 0 && 64u32 & 8u32 == 0 && 64u32 & 2u32 == 0 && 64u32 & 256u32 == 0
            && 64u32 & 32u32 == 0 && 64u32 & 64u32 != 0 && 64u32 & !0x17Au32 == 0
            && 0u32 & 16u32 == 0 && 0u32 & 8u32 == 0 && 0u32 & 2u32 == 0 && 0u32 & 256u32 == 0
            && 0u32 & 32u32 == 0 && 0u32 & 64u32 == 0 && 0u32 & !0x17Au32 == 0) by (bit_vector);
        assert forall|vk: u16| holds_vk(modifiers, vk) == (holds_vk(rest, vk) || last.vk == vk) by {
            if holds_vk(modifiers, vk) {
                let k = choose|k: int| 0 <= k < modifiers.len() && #[trigger] modifiers[k].vk == vk;
                if k < rest.len() {
                    assert(rest[k] == modifiers[k]);
                }
            }
            if holds_vk(rest, vk) {
                let k = choose|k: int| 0 <= k < rest.len() && #[trigger] rest[k].vk == vk;
                assert(modifiers[k] == rest[k]);
            }
            if last.vk == vk {
                assert(modifiers[modifiers.len() - 1].vk == vk);
            }
        }
    }
}

/// The console control-key state that a combo's taps carry says which
/// modifiers are held: it has the Shift, Left Ctrl, Left Alt, Num Lock and
/// Scroll Lock flag exactly when Shift, Ctrl, Alt, Num Lock or Scroll Lock
/// is among the modifiers, the enhanced-key flag exactly when any of them
/// or Caps Lock is, and no other flag.
pub proof fn lemma_control_state_flags(modifiers: Seq<KeyInfo>)
    ensures
        (spec_control_state(modifiers) & SHIFT_PRESSED != 0) == holds_vk(modifiers, 0x10),
        (spec_control_state(modifiers) & LEFT_CTRL_PRESSED != 0) == holds_vk(modifiers, 0x11),
        (spec_control_state(modifiers) & LEFT_ALT_PRESSED != 0) == holds_vk(modifiers, 0x12),
        (spec_control_state(modifiers) & NUMLOCK_ON != 0) == holds_vk(modifiers, 0x90),
        (spec_control_state(modifiers) & SCROLLLOCK_ON != 0) == holds_vk(modifiers, 0x91),
        (spec_control_state(modifiers) & ENHANCED_KEY != 0) == (holds_vk(modifiers, 0x10)
            || holds_vk(modifiers, 0x11) || holds_vk(modifiers, 0x12) || holds_vk(modifiers, 0x14)
            || holds_vk(modifiers, 0x90) || holds_vk(modifiers, 0x91)),
        spec_control_state(modifiers) & !0x17Au32 == 0,
{
    lemma_flags_bits(modifiers);
    let f = spec_flags(modifiers);
    assert(f & !0x17Au32 == 0 ==> ((f | 256u32) & 16u32 != 0) == (f & 16u32 != 0)
        && ((f | 256u32) & 8u32 != 0) == (f & 8u32 != 0)
        && ((f | 256u32) & 2u32 != 0) == (f & 2u32 != 0)
        && ((f | 256u32) & 32u32 != 0) == (f & 32u32 != 0)
        && ((f | 256u32) & 64u32 != 0) == (f & 64u32 != 0)
        && (f | 256u32) & 256u32 != 0
        && (f | 256u32) & !0x17Au32 == 0
        && (f != 0 <==> (f & 16u32 != 0 || f & 8u32 != 0 || f & 2u32 != 0 || f & 256u32 != 0
            || f & 32u32 != 0 || f & 64u32 != 0))) by (bit_vector);
    assert(0u32 & 16u32 == 0 && 0u32 & 8u32 == 0 && 0u32 & 2u32 == 0 && 0u32 & 256u32 == 0
        && 0u32 & 32u32 == 0 && 0u32 & 64u32 == 0 && 0u32 & !0x17Au32 == 0) by (bit_vector);
}

} // verus!
