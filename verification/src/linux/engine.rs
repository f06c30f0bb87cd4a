//! Decisions of the Linux key-sending worker. The worker thread (driven by
//! the caller) injects the combo at a fixed interval until it is stopped,
//! its duration is over or an injection fails, reporting progress as
//! [`Event`]s: a tick after the first combo and after every tenth, an error
//! when something fails, and the final count when it ends.

use vstd::prelude::*;

use crate::combo::{ComboRun, ComboView};
use crate::keyboard::{is_modifier_key, is_regular_key, split_combo, KeyInfo};
use crate::worker::{LoopReport, WorkerLoop};

verus! {

/// Progress report of a worker.
#[derive(Clone, Debug, PartialEq)]
pub enum Event {
    /// `count` combos were sent, through the named injection method.
    Tick { count: u64, method: String },
    /// Injection failed; the worker stops.
    Error(String),
    /// The worker ended after `count` combos.
    Done(u64),
}

/// The error reported when the injector cannot be set up, such as
/// `X11 init failed: <reason>`.
pub open spec fn spec_init_error(backend: Seq<char>, reason: Seq<char>) -> Seq<char> {
    backend + " init failed: "@ + reason
}

/// The event reported when the `backend` injector cannot be set up.
pub fn init_error(backend: &str, reason: &str) -> (e: Event)
    ensures
        e matches Event::Error(msg) && msg@ == spec_init_error(backend@, reason@),
{
    let mut msg = String::from_str(backend);
    msg.append(" init failed: ");
    msg.append(reason);
    Event::Error(msg)
}

/// Starts one combo of `keys`: modifiers held in the given order around
/// taps of the regular keys; whatever fails, every held modifier is
/// released.
pub fn send_combo(keys: &[KeyInfo]) -> (run: ComboRun<KeyInfo>)
    requires
        keys@.len() < usize::MAX,
    ensures
        run.wf(),
        run@ == ComboView::initial(
            keys@.filter(|k: KeyInfo| is_modifier_key(k)),
            keys@.filter(|k: KeyInfo| is_regular_key(k)),
            true,
        ),
{
    let (mods, regs) = split_combo(keys);
    proof {
        keys@.lemma_filter_len(|k: KeyInfo| is_modifier_key(k));
    }
    ComboRun::new(mods, regs)
}

/// `event` is what the loop's `report` becomes, ticks naming `method`.
pub open spec fn reports_as(event: Option<Event>, report: LoopReport, method: Seq<char>) -> bool {
    match report {
        LoopReport::Tick(n) => match event {
            Some(Event::Tick { count, method: m }) => count == n && m@ == method,
            _ => false,
        },
        LoopReport::Quiet => event is None,
        LoopReport::Failed(e) => event == Some(Event::Error(e)),
    }
}

/// The event for what a worker loop reports after a combo.
pub fn event_for(report: LoopReport, method: &str) -> (event: Option<Event>)
    ensures
        reports_as(event, report, method@),
{
    match report {
        LoopReport::Tick(n) => Some(Event::Tick { count: n, method: String::from_str(method) }),
        LoopReport::Quiet => None,
        LoopReport::Failed(e) => Some(Event::Error(e)),
    }
}

/// The event that closes a worker loop.
pub fn done_event(w: &WorkerLoop) -> (e: Event)
    ensures
        e == Event::Done(w.count() as u64),
{
    Event::Done(w.sent())
}

} // verus!
