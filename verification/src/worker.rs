//! The loop of a key-sending worker: before each combo it checks whether
//! it was stopped or its duration is over; after each combo it counts a
//! success (reporting a tick after the first combo and every tenth) or
//! ends on a failure. The thread that sleeps between combos and performs
//! them is the caller's.

use vstd::prelude::*;

verus! {

/// Whether the worker reports a tick after its `count`-th combo.
pub open spec fn reports_tick(count: nat) -> bool {
    count == 1 || count % 10 == 0
}

/// Whether the worker goes on with another combo: it was not stopped and
/// its duration (if any) has not elapsed.
pub open spec fn spec_keeps_going(stopped: bool, duration: Option<u128>, elapsed: u128) -> bool {
    !stopped && match duration {
        Some(d) => elapsed < d,
        None => true,
    }
}

/// What the loop reports after a combo.
#[derive(Debug, PartialEq)]
pub enum LoopReport {
    /// This many combos were sent.
    Tick(u64),
    /// Nothing to report.
    Quiet,
    /// The combo failed with this error; the loop is over.
    Failed(String),
}

/// The state of a worker loop.
pub struct WorkerLoop {
    count: u64,
    duration: Option<u128>,
    over: bool,
}

impl WorkerLoop {
    /// Combos sent so far.
    pub closed spec fn count(&self) -> nat {
        self.count as nat
    }

    /// How long the worker runs, in nanoseconds (`None`: until stopped).
    pub closed spec fn duration(&self) -> Option<u128> {
        self.duration
    }

    /// Whether the loop has ended.
    pub closed spec fn is_over(&self) -> bool {
        self.over
    }

    /// A worker that runs for `duration` nanoseconds, or until stopped.
    pub fn new(duration: Option<u128>) -> (w: Self)
        ensures
            w.count() == 0,
            w.duration() == duration,
            !w.is_over(),
    {
        WorkerLoop { count: 0, duration, over: false }
    }

    /// Combos sent so far.
    pub fn sent(&self) -> (n: u64)
        ensures
            n == self.count(),
    {
        self.count
    }

    /// Whether the loop has ended.
    pub fn over(&self) -> (b: bool)
        ensures
            b == self.is_over(),
    {
        self.over
    }

    /// Called before each combo: whether to send it. The loop ends when the
    /// worker was stopped or `elapsed` nanoseconds reach the duration.
    pub fn keep_going(&mut self, stopped: bool, elapsed: u128) -> (go: bool)
        requires
            !old(self).is_over(),
        ensures
            go == spec_keeps_going(stopped, old(self).duration(), elapsed),
            final(self).count() == old(self).count(),
            final(self).duration() == old(self).duration(),
            final(self).is_over() == !go,
    {
        let go = !stopped && match self.duration {
            Some(d) => elapsed < d,
            None => true,
        };
        if !go {
            self.over = true;
        }
        go
    }

    /// Called when a combo ended with `result`. A success is counted and,
    /// after the first combo and every tenth, reported as a tick; a
    /// failure is reported and ends the loop.
    pub fn combo_done(&mut self, result: Result<(), String>) -> (report: LoopReport)
        requires
            !old(self).is_over(),
            old(self).count() < u64::MAX,
        ensures
            final(self).duration() == old(self).duration(),
            match result {
                Ok(_) => {
                    &&& final(self).count() == old(self).count() + 1
                    &&& !final(self).is_over()
                    &&& report == if reports_tick(final(self).count()) {
                        LoopReport::Tick(final(self).count() as u64)
                    } else {
                        LoopReport::Quiet
                    }
                },
                Err(e) => {
                    &&& final(self).count() == old(self).count()
                    &&& final(self).is_over()
                    &&& report == LoopReport::Failed(e)
                },
            },
    {
        match result {
            Ok(_) => {
                self.count = self.count + 1;
                if self.count % 10 == 0 || self.count == 1 {
                    LoopReport::Tick(self.count)
                } else {
                    LoopReport::Quiet
                }
            },
            Err(e) => {
                self.over = true;
                LoopReport::Failed(e)
            },
        }
    }
}

} // verus!
