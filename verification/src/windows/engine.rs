//! Decisions of the Windows key-sending worker. Before each combo it
//! checks for a stop or the end of its duration (both end it with
//! `Done`); each combo is reported as a tick naming the method of its last
//! regular key; a failed combo ends it with `Error` alone. It sleeps
//! between combos in slices of at most 100 ms, ending with `Done` as soon
//! as it is stopped.

use vstd::prelude::*;

use crate::combo::{ComboRun, ComboView};
use crate::windows::keyboard::{is_modifier_key, is_regular_key, split_combo, KeyInfo};

verus! {

/// Progress report of a worker.
#[derive(Clone, Debug, PartialEq)]
pub enum Event {
    /// `count` combos were sent; the last regular key went through `method`.
    Tick { count: u64, method: &'static str },
    /// Injection failed; the worker stops.
    Error(String),
    /// The worker ended after `count` combos.
    Done(u64),
}

/// Longest sleep between two checks for a stop, in nanoseconds.
pub const SLEEP_SLICE_NANOS: u128 = 100_000_000;

/// Starts one combo of `keys`: modifiers held in the given order around
/// taps of the regular keys. A failed press or tap releases the held
/// modifiers; a failed release ends the combo there.
pub fn send_combo(keys: &[KeyInfo]) -> (run: ComboRun<KeyInfo>)
    requires
        keys@.len() < usize::MAX,
    ensures
        run.wf(),
        run@ == ComboView::initial(
            keys@.filter(|k: KeyInfo| is_modifier_key(k)),
            keys@.filter(|k: KeyInfo| is_regular_key(k)),
            false,
        ),
{
    let (mods, regs) = split_combo(keys);
    proof {
        keys@.lemma_filter_len(|k: KeyInfo| is_modifier_key(k));
    }
    ComboRun::with_policy(mods, regs, false)
}

/// Whether a combo of `keys` holds modifiers (its regular keys are then
/// sent as virtual keys).
pub fn has_modifiers(keys: &[KeyInfo]) -> (b: bool)
    ensures
        b == (keys@.filter(|k: KeyInfo| is_modifier_key(k)).len() > 0),
{
    let (mods, _) = split_combo(keys);
    mods.len() > 0
}

/// What a well-behaved loop has reported so far: one tick per combo sent,
/// counting 1, 2, ... up to `count`, and, once the loop is over, exactly
/// one last event: `Done` with that count, or an `Error`.
pub open spec fn reports_well(events: Seq<Event>, count: nat, over: bool) -> bool {
    &&& events.len() == if over {
        count + 1
    } else {
        count
    }
    &&& forall|i: int|
        0 <= i < count ==> (#[trigger] events[i] matches Event::Tick { count: c, .. } && c == i
            + 1)
    &&& over ==> (events[count as int] == Event::Done(count as u64)
        || events[count as int] is Error)
}

/// A stream reported well holds ticks only, counting 1, 2, ..., except for
/// its last event once the loop is over: the one `Done` or `Error`, which
/// nothing follows.
pub proof fn lemma_reported_stream(events: Seq<Event>, count: nat, over: bool)
    requires
        reports_well(events, count, over),
    ensures
        forall|i: int|
            0 <= i < events.len() ==> ((#[trigger] events[i] is Tick) <==> i < count),
        forall|i: int|
            0 <= i < events.len() && !(#[trigger] events[i] is Tick) ==> over && i == events.len()
                - 1 && (events[i] is Done || events[i] is Error),
        forall|i: int|
            0 <= i < count ==> (#[trigger] events[i] matches Event::Tick { count: c, .. } && c
                == i + 1),
{
    assert forall|i: int| 0 <= i < events.len() implies ((#[trigger] events[i] is Tick) <==> i
        < count) by {
        if i < count {
            assert(events[i] matches Event::Tick { count: c, .. } && c == i + 1);
        }
    }
}

/// The state of the worker's loop.
pub struct RunLoop {
    count: u64,
    duration: Option<u128>,
    last_method: &'static str,
    over: bool,
    reported: Ghost<Seq<Event>>,
}

impl RunLoop {
    /// Combos sent so far.
    pub closed spec fn count(&self) -> nat {
        self.count as nat
    }

    /// How long the worker runs, in nanoseconds (`None`: until stopped).
    pub closed spec fn duration(&self) -> Option<u128> {
        self.duration
    }

    /// The method named by the next tick.
    pub closed spec fn last_method(&self) -> Seq<char> {
        self.last_method@
    }

    /// Whether the loop has ended.
    pub closed spec fn is_over(&self) -> bool {
        self.over
    }

    /// The events reported so far, in order.
    pub closed spec fn reported(&self) -> Seq<Event> {
        self.reported@
    }

    /// The loop's events so far are reported well (see [`reports_well`]).
    /// Every method keeps this, and once the loop is over no method that
    /// reports an event may be called, so nothing follows the last event.
    pub open spec fn wf(&self) -> bool {
        reports_well(self.reported(), self.count(), self.is_over())
    }

    /// A worker that runs for `duration` nanoseconds, or until stopped.
    pub fn new(duration: Option<u128>) -> (w: Self)
        ensures
            w.count() == 0,
            w.duration() == duration,
            !w.is_over(),
            w.reported() == Seq::<Event>::empty(),
            w.wf(),
    {
        RunLoop { count: 0, duration, last_method: "Window", over: false, reported: Ghost(Seq::empty()) }
    }

    /// Whether the loop has ended.
    pub fn over(&self) -> (b: bool)
        ensures
            b == self.is_over(),
    {
        self.over
    }

    /// Called before each combo, `elapsed` nanoseconds after the start: when
    /// the worker was stopped or its duration is over, the loop ends with
    /// `Done`; otherwise a combo starts (its ticks name `Window` unless a
    /// regular key reports its method).
    pub fn before_combo(&mut self, stopped: bool, elapsed: u128) -> (end: Option<Event>)
        requires
            old(self).wf(),
            !old(self).is_over(),
        ensures
            final(self).wf(),
            final(self).count() == old(self).count(),
            final(self).duration() == old(self).duration(),
            (stopped || (old(self).duration() matches Some(d) && elapsed >= d)) ==> (end == Some(
                Event::Done(old(self).count() as u64),
            ) && final(self).is_over() && final(self).reported() == old(self).reported().push(
                end->0,
            )),
            !(stopped || (old(self).duration() matches Some(d) && elapsed >= d)) ==> (end is None
                && !final(self).is_over() && final(self).last_method() == "Window"@
                && final(self).reported() == old(self).reported()),
    {
        let ended = stopped || match self.duration {
            Some(d) => elapsed >= d,
            None => false,
        };
        if ended {
            let e = Event::Done(self.count);
            self.over = true;
            self.reported = Ghost(self.reported@.push(e));
            Some(e)
        } else {
            self.last_method = "Window";
            None
        }
    }

    /// Called when a regular key of the combo was sent through `method`.
    pub fn tap_sent(&mut self, method: &'static str)
        requires
            old(self).wf(),
        ensures
            final(self).wf(),
            final(self).count() == old(self).count(),
            final(self).duration() == old(self).duration(),
            final(self).is_over() == old(self).is_over(),
            final(self).reported() == old(self).reported(),
            final(self).last_method() == method@,
    {
        self.last_method = method;
    }

    /// Called when the combo ended with `result`: a success is counted and
    /// reported as a tick; a failure is reported and ends the loop.
    pub fn combo_done(&mut self, result: Result<(), String>) -> (e: Event)
        requires
            old(self).wf(),
            !old(self).is_over(),
            old(self).count() < u64::MAX,
        ensures
            final(self).wf(),
            final(self).duration() == old(self).duration(),
            final(self).reported() == old(self).reported().push(e),
            match result {
                Ok(_) => {
                    &&& final(self).count() == old(self).count() + 1
                    &&& !final(self).is_over()
                    &&& e matches Event::Tick { count, method } && count == final(self).count()
                        && method@ == old(self).last_method()
                },
                Err(msg) => {
                    &&& final(self).count() == old(self).count()
                    &&& final(self).is_over()
                    &&& e == Event::Error(msg)
                },
            },
    {
        match result {
            Ok(_) => {
                self.count = self.count + 1;
                let e = Event::Tick { count: self.count, method: self.last_method };
                self.reported = Ghost(self.reported@.push(e));
                e
            },
            Err(msg) => {
                self.over = true;
                let e = Event::Error(msg);
                self.reported = Ghost(self.reported@.push(e));
                e
            },
        }
    }

    /// The next slice of a sleep with `remaining` nanoseconds left, or,
    /// when the worker was stopped, the loop's end with `Done`.
    pub fn sleep_slice(&mut self, stopped: bool, remaining: u128) -> (step: Result<u128, Event>)
        requires
            old(self).wf(),
            !old(self).is_over(),
            remaining > 0,
        ensures
            final(self).wf(),
            final(self).count() == old(self).count(),
            final(self).duration() == old(self).duration(),
            final(self).last_method() == old(self).last_method(),
            stopped ==> step == Err::<u128, Event>(Event::Done(old(self).count() as u64))
                && final(self).is_over() && final(self).reported() == old(self).reported().push(
                Event::Done(old(self).count() as u64),
            ),
            !stopped ==> step == Ok::<u128, Event>(
                if remaining < SLEEP_SLICE_NANOS {
                    remaining
                } else {
                    SLEEP_SLICE_NANOS
                },
            ) && !final(self).is_over() && final(self).reported() == old(self).reported(),
    {
        if stopped {
            let e = Event::Done(self.count);
            self.over = true;
            self.reported = Ghost(self.reported@.push(e));
            Err(e)
        } else if remaining < SLEEP_SLICE_NANOS {
            Ok(remaining)
        } else {
            Ok(SLEEP_SLICE_NANOS)
        }
    }

    /// Ends a loop that saw its stop at the loop head, with `Done`.
    pub fn done(&mut self) -> (e: Event)
        requires
            old(self).wf(),
            !old(self).is_over(),
        ensures
            final(self).wf(),
            e == Event::Done(old(self).count() as u64),
            final(self).is_over(),
            final(self).count() == old(self).count(),
            final(self).reported() == old(self).reported().push(e),
    {
        let e = Event::Done(self.count);
        self.over = true;
        self.reported = Ghost(self.reported@.push(e));
        e
    }
}

} // verus!
