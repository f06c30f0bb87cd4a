//! Decisions of the macOS key-sending worker, which injects through
//! CGEvent: the combo protocol over macOS keys and the events that report
//! the loop's progress.

use vstd::prelude::*;

use crate::combo::{ComboRun, ComboView};
use crate::macos::keyboard::{is_modifier_key, is_regular_key, split_combo, KeyInfo};
use crate::worker::{LoopReport, WorkerLoop};

verus! {

/// Progress report of a worker.
#[derive(Clone, Debug, PartialEq)]
pub enum Event {
    /// `count` combos were sent, through the named injection method.
    Tick { count: u64, method: &'static str },
    /// Injection failed (or could not be set up); the worker stops.
    Error(String),
    /// The worker ended after `count` combos.
    Done(u64),
}

/// Starts one combo of `keys`: modifiers held in the given order around
/// taps of the regular keys; whatever fails, every held modifier is
/// released.
pub fn send_combo(keys: &[KeyInfo]) -> (run: ComboRun<KeyInfo>)
    requires
        keys@.len() < usize::MAX,
    ensures
        run.wf(),
        run@ == ComboView::initial(
            keys@.filter(|k: KeyInfo| is_modifier_key(k)),
            keys@.filter(|k: KeyInfo| is_regular_key(k)),
            true,
        ),
{
    let (mods, regs) = split_combo(keys);
    proof {
        keys@.lemma_filter_len(|k: KeyInfo| is_modifier_key(k));
    }
    ComboRun::new(mods, regs)
}

/// `event` is what the loop's `report` becomes; ticks name CGEvent.
pub open spec fn reports_as(event: Option<Event>, report: LoopReport) -> bool {
    match report {
        LoopReport::Tick(n) => match event {
            Some(Event::Tick { count, method: m }) => count == n && m@ == "CGEvent"@,
            _ => false,
        },
        LoopReport::Quiet => event is None,
        LoopReport::Failed(e) => event == Some(Event::Error(e)),
    }
}

/// The event for what a worker loop reports after a combo.
pub fn event_for(report: LoopReport) -> (event: Option<Event>)
    ensures
        reports_as(event, report),
{
    match report {
        LoopReport::Tick(n) => Some(Event::Tick { count: n, method: "CGEvent" }),
        LoopReport::Quiet => None,
        LoopReport::Failed(e) => Some(Event::Error(e)),
    }
}

/// The event that closes a worker loop.
pub fn done_event(w: &WorkerLoop) -> (e: Event)
    ensures
        e == Event::Done(w.count() as u64),
{
    Event::Done(w.sent())
}

} // verus!
