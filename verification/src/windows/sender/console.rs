//! Keys written to a console process's input buffer as key records.

use vstd::prelude::*;

use crate::find::first_with;

verus! {

/// One console key event (`KEY_EVENT_RECORD`); repeat count 1, scan code 0.
#[derive(Clone, Copy, Debug, PartialEq, Eq)]
pub struct ConsoleKeyRecord {
    pub key_down: bool,
    pub vk: u16,
    pub unicode: u16,
    pub control_state: u32,
}

/// A console write: the records written in one `WriteConsoleInput` call.
/// It succeeds when the call succeeds and reports every record written.
#[derive(Clone, Debug, PartialEq, Eq)]
pub struct ConsoleWrite {
    pub records: Vec<ConsoleKeyRecord>,
}

pub open spec fn rec(key_down: bool, vk: u16, unicode: u16, control_state: u32) -> ConsoleKeyRecord {
    ConsoleKeyRecord { key_down, vk, unicode, control_state }
}

/// The write that holds a key down in a console.
pub fn down(vk: u16, unicode: u16) -> (w: ConsoleWrite)
    ensures
        w.records@ == seq![rec(true, vk, unicode, 0)],
{
    let w = ConsoleWrite { records: vec![ConsoleKeyRecord { key_down: true, vk, unicode, control_state: 0 }] };
    assert(w.records@ =~= seq![rec(true, vk, unicode, 0)]);
    w
}

/// The write that releases a key in a console.
pub fn up(vk: u16, unicode: u16) -> (w: ConsoleWrite)
    ensures
        w.records@ == seq![rec(false, vk, unicode, 0)],
{
    let w = ConsoleWrite { records: vec![ConsoleKeyRecord { key_down: false, vk, unicode, control_state: 0 }] };
    assert(w.records@ =~= seq![rec(false, vk, unicode, 0)]);
    w
}

/// The writes that send a key to a console: a press, then a release. They
/// are made with a [`WriteRun`]: when the press fails its error is the
/// result and the release is not made; otherwise the result is the
/// release's.
pub fn send(vk: u16, unicode: u16) -> (ws: Vec<ConsoleWrite>)
    ensures
        ws@.len() == 2,
        ws@[0].records@ == seq![rec(true, vk, unicode, 0)],
        ws@[1].records@ == seq![rec(false, vk, unicode, 0)],
{
    vec![down(vk, unicode), up(vk, unicode)]
}

/// The write that sends a key to a console with the modifier state
/// `control_state`: press and release in one call.
pub fn send_with_ctrl(vk: u16, unicode: u16, control_state: u32) -> (w: ConsoleWrite)
    ensures
        w.records@ == seq![rec(true, vk, unicode, control_state), rec(false, vk, unicode, control_state)],
{
    let w = ConsoleWrite {
        records: vec![
            ConsoleKeyRecord { key_down: true, vk, unicode, control_state },
            ConsoleKeyRecord { key_down: false, vk, unicode, control_state },
        ],
    };
    assert(w.records@ =~= seq![rec(true, vk, unicode, control_state), rec(false, vk, unicode, control_state)]);
    w
}

/// The outcome of a console write whose call succeeded or not (`ok`) and
/// reported `written` records of `expected`.
pub fn write_outcome(ok: bool, written: u32, expected: usize) -> (r: Result<(), String>)
    ensures
        r is Ok <==> (ok && written as nat >= expected && written > 0),
        r matches Err(e) ==> e@ == "WriteConsoleInput failed"@,
{
    if ok && written as usize >= expected && written > 0 {
        Ok(())
    } else {
        Err(String::from_str("WriteConsoleInput failed"))
    }
}

/// What to do next in a sequence of console writes.
#[derive(Debug, PartialEq)]
pub enum WriteStep {
    /// Make the write with this index.
    Write(usize),
    /// The sequence is over, with this result.
    Finish(Result<(), String>),
}

/// A sequence of writes as plain values: how many there are, how many
/// were made successfully, and the failure that ended it, if any.
pub struct WritesView {
    pub total: nat,
    pub done: nat,
    pub failure: Option<String>,
}

impl WritesView {
    /// No write made yet.
    pub open spec fn start(total: nat) -> WritesView {
        WritesView { total, done: 0, failure: None }
    }

    pub open spec fn is_finished(self) -> bool {
        self.failure is Some || self.done >= self.total
    }

    /// The next step: the next write, until one fails or all were made.
    pub open spec fn step(self) -> WriteStep {
        match self.failure {
            Some(e) => WriteStep::Finish(Err(e)),
            None => if self.done < self.total {
                WriteStep::Write(self.done as usize)
            } else {
                WriteStep::Finish(Ok(()))
            },
        }
    }

    /// The state after the current write had `outcome`.
    pub open spec fn next(self, outcome: Result<(), String>) -> WritesView {
        if self.is_finished() {
            self
        } else {
            match outcome {
                Ok(_) => WritesView { done: self.done + 1, ..self },
                Err(e) => WritesView { failure: Some(e), ..self },
            }
        }
    }

    /// The state after the outcomes `outs`, one per write made, in order.
    pub open spec fn run(self, outs: Seq<Result<(), String>>) -> WritesView
        decreases outs.len(),
    {
        if outs.len() == 0 {
            self
        } else {
            self.next(outs[0]).run(outs.drop_first())
        }
    }
}

/// A sequence of console writes in progress: the driver asks for the next
/// [`WriteStep`], makes that write and hands its outcome back with
/// [`WriteRun::record`]. The writes are made in order and stop at the first
/// that fails, whose error is the result.
pub struct WriteRun {
    total: usize,
    done: usize,
    failure: Option<String>,
}

impl View for WriteRun {
    type V = WritesView;

    closed spec fn view(&self) -> WritesView {
        WritesView { total: self.total as nat, done: self.done as nat, failure: self.failure }
    }
}

impl WriteRun {
    /// A sequence of `total` writes, none made yet.
    pub fn new(total: usize) -> (w: Self)
        ensures
            w@ == WritesView::start(total as nat),
    {
        WriteRun { total, done: 0, failure: None }
    }

    /// What to do next.
    pub fn step(&self) -> (st: WriteStep)
        ensures
            st == self@.step(),
    {
        match &self.failure {
            Some(e) => WriteStep::Finish(Err(e.clone())),
            None => if self.done < self.total {
                WriteStep::Write(self.done)
            } else {
                WriteStep::Finish(Ok(()))
            },
        }
    }

    /// Records the outcome of the write last asked for.
    pub fn record(&mut self, outcome: Result<(), String>)
        requires
            old(self)@.done <= old(self)@.total,
        ensures
            final(self)@ == old(self)@.next(outcome),
            final(self)@.done <= final(self)@.total,
    {
        if self.failure.is_some() || self.done >= self.total {
            return;
        }
        match outcome {
            Ok(_) => {
                self.done = self.done + 1;
            },
            Err(e) => {
                self.failure = Some(e);
            },
        }
    }
}

proof fn lemma_finished_writes_stay(v: WritesView, outs: Seq<Result<(), String>>)
    requires
        v.is_finished(),
    ensures
        v.run(outs) == v,
    decreases outs.len(),
{
    if outs.len() > 0 {
        lemma_finished_writes_stay(v, outs.drop_first());
    }
}

/// The index of the first failed outcome.
pub open spec fn first_failure(outs: Seq<Result<(), String>>) -> Option<int> {
    first_with(outs, |r: Result<(), String>| r is Err)
}

/// Console writes stop at the first failure: fed one outcome per write
/// made, a sequence that has made `done` writes makes the following ones
/// in order until one fails; it then ends with that write's error, the
/// later writes never made; when none fails, every write is made and the
/// sequence succeeds.
pub proof fn lemma_writes_stop_at_first_failure(v: WritesView, outs: Seq<Result<(), String>>)
    requires
        v.failure is None,
        v.done <= v.total,
        outs.len() >= v.total - v.done,
    ensures
        ({
            let f = v.run(outs);
            let made = outs.take(v.total - v.done);
            &&& f.is_finished()
            &&& match first_failure(made) {
                Some(i) => f.done == v.done + i && f.failure == Some(outs[i]->Err_0)
                    && f.step() == WriteStep::Finish(Err(outs[i]->Err_0)),
                None => f.done == v.total && f.failure is None && f.step() == WriteStep::Finish(
                    Ok(()),
                ),
            }
        }),
    decreases v.total - v.done,
{
    let rem = v.total - v.done;
    let made = outs.take(rem);
    if rem == 0 {
        assert(made.len() == 0);
        lemma_finished_writes_stay(v, outs);
    } else {
        let n = v.next(outs[0]);
        assert(made[0] == outs[0]);
        match outs[0] {
            Ok(_) => {
                lemma_writes_stop_at_first_failure(n, outs.drop_first());
                assert(made.drop_first() =~= outs.drop_first().take(n.total - n.done));
                crate::find::lemma_first_with_valid(
                    outs.drop_first().take(n.total - n.done),
                    |r: Result<(), String>| r is Err,
                );
                match first_failure(outs.drop_first().take(n.total - n.done)) {
                    Some(i) => {
                        assert(outs.drop_first()[i] == outs[i + 1]);
                    },
                    None => {},
                }
            },
            Err(e) => {
                lemma_finished_writes_stay(n, outs.drop_first());
            },
        }
    }
}

} // verus!
