//! The key-combo protocol: hold the modifier keys down in order, tap the
//! regular keys, then release the modifiers in reverse order. When a press,
//! a tap or a release fails, every modifier still held is released (their
//! outcomes ignored) and the first error is reported, so no modifier stays
//! stuck.
//!
//! The protocol is a state machine: the driver asks for the next
//! [`ComboAction`], performs it against the platform's injector and hands
//! the outcome back with [`ComboRun::record`].

use vstd::prelude::*;

use crate::find::first_with;

verus! {

/// What the driver of a combo must do next.
#[derive(Debug)]
pub enum ComboAction<K> {
    /// Press and hold a modifier key.
    Down(K),
    /// Press and release a regular key.
    Tap(K),
    /// Release a held modifier key.
    Up(K),
    /// The combo is over, with this result.
    Finish(Result<(), String>),
}

/// Where a combo stands.
#[derive(Clone, Copy, Debug, PartialEq, Eq)]
pub enum Stage {
    /// Pressing the modifier with this index.
    Press(usize),
    /// Tapping the regular key with this index.
    Tap(usize),
    /// Ordinary release: this many modifiers are still held.
    Release(usize),
    /// Release after a failure: this many modifiers are still held.
    Cleanup(usize),
    /// Nothing left to do.
    Finished,
}

/// Abstract state of a combo run.
pub struct ComboView<K> {
    pub modifiers: Seq<K>,
    pub regular: Seq<K>,
    pub stage: Stage,
    /// The first error met, if any.
    pub failure: Option<String>,
    /// Whether a failed release still leads to the release of the other
    /// held modifiers; otherwise the run ends at that failure.
    pub release_all: bool,
    /// Modifiers left held once the run is over (only after a failed
    /// release, when the run does not release all).
    pub unreleased: nat,
}

/// Skips the stages that have nothing to do.
pub open spec fn settle(m: nat, r: nat, stage: Stage) -> Stage {
    match stage {
        Stage::Press(i) => if i < m {
            Stage::Press(i)
        } else if r > 0 {
            Stage::Tap(0)
        } else if m > 0 {
            Stage::Release(m as usize)
        } else {
            Stage::Finished
        },
        Stage::Tap(j) => if j < r {
            Stage::Tap(j)
        } else if m > 0 {
            Stage::Release(m as usize)
        } else {
            Stage::Finished
        },
        Stage::Release(k) => if k > 0 {
            Stage::Release(k)
        } else {
            Stage::Finished
        },
        Stage::Cleanup(k) => if k > 0 {
            Stage::Cleanup(k)
        } else {
            Stage::Finished
        },
        Stage::Finished => Stage::Finished,
    }
}

impl<K> ComboView<K> {
    /// The state of a fresh run.
    pub open spec fn initial(modifiers: Seq<K>, regular: Seq<K>, release_all: bool) -> ComboView<K> {
        ComboView {
            modifiers,
            regular,
            stage: settle(modifiers.len(), regular.len(), Stage::Press(0)),
            failure: None,
            release_all,
            unreleased: 0,
        }
    }

    pub open spec fn m(self) -> nat {
        self.modifiers.len()
    }

    pub open spec fn r(self) -> nat {
        self.regular.len()
    }

    /// States that a run can be in.
    pub open spec fn wf(self) -> bool {
        &&& self.m() < usize::MAX
        &&& self.r() <= usize::MAX
        &&& match self.stage {
            Stage::Press(i) => i < self.m() && self.failure is None && self.unreleased == 0,
            Stage::Tap(j) => j < self.r() && self.failure is None && self.unreleased == 0,
            Stage::Release(k) => 0 < k <= self.m() && self.failure is None && self.unreleased == 0,
            Stage::Cleanup(k) => 0 < k <= self.m() && self.failure is Some && self.unreleased == 0,
            Stage::Finished => self.unreleased <= self.m() && (self.unreleased > 0 ==> (
            self.failure is Some && !self.release_all)),
        }
    }

    pub open spec fn is_finished(self) -> bool {
        self.stage is Finished
    }

    /// How many modifiers (a prefix of `modifiers`) are held down.
    pub open spec fn held(self) -> nat {
        match self.stage {
            Stage::Press(i) => i as nat,
            Stage::Tap(_) => self.m(),
            Stage::Release(k) => k as nat,
            Stage::Cleanup(k) => k as nat,
            Stage::Finished => self.unreleased,
        }
    }

    /// The held modifiers, in the order they were pressed.
    pub open spec fn held_keys(self) -> Seq<K> {
        self.modifiers.take(self.held() as int)
    }

    /// The result a finished run reports.
    pub open spec fn result(self) -> Result<(), String> {
        match self.failure {
            None => Ok(()),
            Some(e) => Err(e),
        }
    }

    /// The next thing to do.
    pub open spec fn action(self) -> ComboAction<K> {
        match self.stage {
            Stage::Press(i) => ComboAction::Down(self.modifiers[i as int]),
            Stage::Tap(j) => ComboAction::Tap(self.regular[j as int]),
            Stage::Release(k) => ComboAction::Up(self.modifiers[k - 1]),
            Stage::Cleanup(k) => ComboAction::Up(self.modifiers[k - 1]),
            Stage::Finished => ComboAction::Finish(self.result()),
        }
    }

    /// The state after the current action had `outcome`.
    pub open spec fn next(self, outcome: Result<(), String>) -> ComboView<K> {
        let m = self.m();
        let r = self.r();
        match self.stage {
            Stage::Press(i) => match outcome {
                Ok(_) => ComboView { stage: settle(m, r, Stage::Press((i + 1) as usize)), ..self },
                Err(e) => ComboView {
                    stage: settle(m, r, Stage::Cleanup(i)),
                    failure: Some(e),
                    ..self
                },
            },
            Stage::Tap(j) => match outcome {
                Ok(_) => ComboView { stage: settle(m, r, Stage::Tap((j + 1) as usize)), ..self },
                Err(e) => ComboView {
                    stage: settle(m, r, Stage::Cleanup(m as usize)),
                    failure: Some(e),
                    ..self
                },
            },
            Stage::Release(k) => match outcome {
                Ok(_) => ComboView {
                    stage: settle(m, r, Stage::Release((k - 1) as usize)),
                    ..self
                },
                Err(e) => if self.release_all {
                    ComboView {
                        stage: settle(m, r, Stage::Cleanup((k - 1) as usize)),
                        failure: Some(e),
                        ..self
                    }
                } else {
                    ComboView {
                        stage: Stage::Finished,
                        failure: Some(e),
                        unreleased: (k - 1) as nat,
                        ..self
                    }
                },
            },
            Stage::Cleanup(k) => ComboView {
                stage: settle(m, r, Stage::Cleanup((k - 1) as usize)),
                ..self
            },
            Stage::Finished => self,
        }
    }

    /// The state after the outcomes `outs`, one per action, in order.
    pub open spec fn run(self, outs: Seq<Result<(), String>>) -> ComboView<K>
        decreases outs.len(),
    {
        if outs.len() == 0 {
            self
        } else {
            self.next(outs[0]).run(outs.drop_first())
        }
    }

    /// The modifiers pressed successfully along `outs`, in order.
    pub open spec fn pressed(self, outs: Seq<Result<(), String>>) -> Seq<K>
        decreases outs.len(),
    {
        if outs.len() == 0 || self.is_finished() {
            Seq::empty()
        } else {
            let rest = self.next(outs[0]).pressed(outs.drop_first());
            if self.action() is Down && outs[0] is Ok {
                seq![self.action()->Down_0] + rest
            } else {
                rest
            }
        }
    }

    /// The modifiers released along `outs` (whatever the outcome), in order.
    pub open spec fn released(self, outs: Seq<Result<(), String>>) -> Seq<K>
        decreases outs.len(),
    {
        if outs.len() == 0 || self.is_finished() {
            Seq::empty()
        } else {
            let rest = self.next(outs[0]).released(outs.drop_first());
            if self.action() is Up {
                seq![self.action()->Up_0] + rest
            } else {
                rest
            }
        }
    }

    /// The state after `n` actions that all succeed.
    pub open spec fn after_ok(self, n: nat) -> ComboView<K>
        decreases n,
    {
        if n == 0 {
            self
        } else {
            self.next(Ok(())).after_ok((n - 1) as nat)
        }
    }

    /// The actions asked for along `n` actions that all succeed.
    pub open spec fn ok_trace(self, n: nat) -> Seq<ComboAction<K>>
        decreases n,
    {
        if n == 0 {
            Seq::empty()
        } else {
            seq![self.action()] + self.next(Ok(())).ok_trace((n - 1) as nat)
        }
    }

    /// An upper bound on the actions left before the run finishes.
    pub open spec fn steps_left(self) -> nat {
        match self.stage {
            Stage::Press(i) => ((self.m() - i) + self.r() + self.m()) as nat,
            Stage::Tap(j) => ((self.r() - j) + self.m()) as nat,
            Stage::Release(k) => k as nat,
            Stage::Cleanup(k) => k as nat,
            Stage::Finished => 0,
        }
    }
}

/// A combo in progress.
pub struct ComboRun<K> {
    modifiers: Vec<K>,
    regular: Vec<K>,
    stage: Stage,
    failure: Option<String>,
    release_all: bool,
    unreleased: usize,
}

impl<K> View for ComboRun<K> {
    type V = ComboView<K>;

    closed spec fn view(&self) -> ComboView<K> {
        ComboView {
            modifiers: self.modifiers@,
            regular: self.regular@,
            stage: self.stage,
            failure: self.failure,
            release_all: self.release_all,
            unreleased: self.unreleased as nat,
        }
    }
}

fn settle_exec(m: usize, r: usize, stage: Stage) -> (s: Stage)
    ensures
        s == settle(m as nat, r as nat, stage),
{
    match stage {
        Stage::Press(i) => if i < m {
            Stage::Press(i)
        } else if r > 0 {
            Stage::Tap(0)
        } else if m > 0 {
            Stage::Release(m)
        } else {
            Stage::Finished
        },
        Stage::Tap(j) => if j < r {
            Stage::Tap(j)
        } else if m > 0 {
            Stage::Release(m)
        } else {
            Stage::Finished
        },
        Stage::Release(k) => if k > 0 {
            Stage::Release(k)
        } else {
            Stage::Finished
        },
        Stage::Cleanup(k) => if k > 0 {
            Stage::Cleanup(k)
        } else {
            Stage::Finished
        },
        Stage::Finished => Stage::Finished,
    }
}

impl<K> ComboRun<K> {
    /// The run is in a state that a run can be in.
    pub open spec fn wf(&self) -> bool {
        self@.wf()
    }
}

impl<K: Copy> ComboRun<K> {
    /// Starts a combo that holds `modifiers` around taps of `regular`; a
    /// failed release still leads to the release of the other modifiers.
    pub fn new(modifiers: Vec<K>, regular: Vec<K>) -> (run: Self)
        requires
            modifiers.len() < usize::MAX,
        ensures
            run@ == ComboView::initial(modifiers@, regular@, true),
            run.wf(),
    {
        ComboRun::with_policy(modifiers, regular, true)
    }

    /// Starts a combo that holds `modifiers` around taps of `regular`; with
    /// `release_all` false, the run ends at a failed release, leaving the
    /// modifiers not yet released held.
    pub fn with_policy(modifiers: Vec<K>, regular: Vec<K>, release_all: bool) -> (run: Self)
        requires
            modifiers.len() < usize::MAX,
        ensures
            run@ == ComboView::initial(modifiers@, regular@, release_all),
            run.wf(),
    {
        let r = regular.len();
        let stage = settle_exec(modifiers.len(), r, Stage::Press(0));
        ComboRun { modifiers, regular, stage, failure: None, release_all, unreleased: 0 }
    }

    /// The next thing to do.
    pub fn action(&self) -> (a: ComboAction<K>)
        requires
            self.wf(),
        ensures
            a == self@.action(),
    {
        match self.stage {
            Stage::Press(i) => ComboAction::Down(self.modifiers[i]),
            Stage::Tap(j) => ComboAction::Tap(self.regular[j]),
            Stage::Release(k) => ComboAction::Up(self.modifiers[k - 1]),
            Stage::Cleanup(k) => ComboAction::Up(self.modifiers[k - 1]),
            Stage::Finished => match &self.failure {
                None => ComboAction::Finish(Ok(())),
                Some(e) => ComboAction::Finish(Err(e.clone())),
            },
        }
    }

    /// Whether the combo is over.
    pub fn is_finished(&self) -> (b: bool)
        ensures
            b == self@.is_finished(),
    {
        match self.stage {
            Stage::Finished => true,
            _ => false,
        }
    }

    /// Records the outcome of the action last returned by [`Self::action`].
    pub fn record(&mut self, outcome: Result<(), String>)
        requires
            old(self).wf(),
        ensures
            final(self)@ == old(self)@.next(outcome),
            final(self).wf(),
    {
        proof {
            if !old(self)@.is_finished() {
                lemma_step_is_lifo(old(self)@, outcome);
            }
        }
        let m = self.modifiers.len();
        let r = self.regular.len();
        match self.stage {
            Stage::Press(i) => match outcome {
                Ok(_) => {
                    self.stage = settle_exec(m, r, Stage::Press(i + 1));
                },
                Err(e) => {
                    let stage = settle_exec(m, r, Stage::Cleanup(i));
                    self.failure = Some(e);
                    self.stage = stage;
                },
            },
            Stage::Tap(j) => match outcome {
                Ok(_) => {
                    self.stage = settle_exec(m, r, Stage::Tap(j + 1));
                },
                Err(e) => {
                    let stage = settle_exec(m, r, Stage::Cleanup(m));
                    self.failure = Some(e);
                    self.stage = stage;
                },
            },
            Stage::Release(k) => match outcome {
                Ok(_) => {
                    self.stage = settle_exec(m, r, Stage::Release(k - 1));
                },
                Err(e) => {
                    if self.release_all {
                        let stage = settle_exec(m, r, Stage::Cleanup(k - 1));
                        self.failure = Some(e);
                        self.stage = stage;
                    } else {
                        self.failure = Some(e);
                        self.unreleased = k - 1;
                        self.stage = Stage::Finished;
                    }
                },
            },
            Stage::Cleanup(k) => {
                self.stage = settle_exec(m, r, Stage::Cleanup(k - 1));
            },
            Stage::Finished => {},
        }
    }
}

/// A fresh run is in a state that a run can be in.
pub proof fn lemma_initial_wf<K>(modifiers: Seq<K>, regular: Seq<K>, release_all: bool)
    requires
        modifiers.len() < usize::MAX,
        regular.len() <= usize::MAX,
    ensures
        ComboView::initial(modifiers, regular, release_all).wf(),
        ComboView::initial(modifiers, regular, release_all).held() == 0,
{
}

/// Every step keeps the held modifiers a stack: a successful press pushes
/// the pressed key, every release pops exactly the most recently pressed
/// key still held, taps leave the held keys alone, and each step brings
/// the run closer to its end.
pub proof fn lemma_step_is_lifo<K>(s: ComboView<K>, outcome: Result<(), String>)
    requires
        s.wf(),
        !s.is_finished(),
    ensures
        s.next(outcome).wf(),
        s.next(outcome).steps_left() < s.steps_left(),
        s.action() is Down ==> s.action()->Down_0 == s.modifiers[s.held() as int] && (
        outcome is Ok ==> s.next(outcome).held_keys() == s.held_keys().push(
            s.action()->Down_0,
        )) && (outcome is Err ==> s.next(outcome).held_keys() == s.held_keys()),
        s.action() is Tap ==> s.next(outcome).held_keys() == s.held_keys(),
        s.action() is Up ==> s.held() > 0 && s.action()->Up_0 == s.held_keys().last()
            && s.next(outcome).held_keys() == s.held_keys().drop_last(),
        s.action() is Finish ==> false,
{
    let n = s.next(outcome);
    match s.stage {
        Stage::Press(i) => {
            if outcome is Ok {
                assert(n.held_keys() =~= s.held_keys().push(s.modifiers[i as int]));
            }
        },
        Stage::Release(k) => {
            assert(n.held_keys() =~= s.held_keys().drop_last());
        },
        Stage::Cleanup(k) => {
            assert(n.held_keys() =~= s.held_keys().drop_last());
        },
        _ => {},
    }
}

/// A run fed at least `steps_left` outcomes is finished.
pub proof fn lemma_run_finishes<K>(s: ComboView<K>, outs: Seq<Result<(), String>>)
    requires
        s.wf(),
        outs.len() >= s.steps_left(),
    ensures
        s.run(outs).wf(),
        s.run(outs).is_finished(),
    decreases outs.len(),
{
    if outs.len() == 0 {
        if !s.is_finished() {
            assert(s.steps_left() > 0);
        }
    } else if s.is_finished() {
        lemma_finished_run_stays(s, outs);
    } else {
        lemma_step_is_lifo(s, outs[0]);
        lemma_run_finishes(s.next(outs[0]), outs.drop_first());
    }
}

proof fn lemma_finished_run_stays<K>(s: ComboView<K>, outs: Seq<Result<(), String>>)
    requires
        s.is_finished(),
    ensures
        s.run(outs) == s,
        s.pressed(outs) == Seq::<K>::empty(),
        s.released(outs) == Seq::<K>::empty(),
    decreases outs.len(),
{
    if outs.len() > 0 {
        lemma_finished_run_stays(s, outs.drop_first());
    }
}

proof fn lemma_nothing_pressed_after_release<K>(s: ComboView<K>, outs: Seq<Result<(), String>>)
    requires
        s.wf(),
        s.stage is Release || s.stage is Cleanup || s.stage is Finished,
    ensures
        s.pressed(outs) == Seq::<K>::empty(),
    decreases outs.len(),
{
    if outs.len() > 0 && !s.is_finished() {
        lemma_step_is_lifo(s, outs[0]);
        lemma_nothing_pressed_after_release(s.next(outs[0]), outs.drop_first());
    }
}

/// What a run releases: the modifiers it released, followed by those it
/// leaves held (in reverse), are exactly the modifiers held when it
/// started and those it pressed, in reverse order. So a run that releases
/// all leaves no modifier stuck, whatever fails (a press, a tap or a
/// release): everything held is released. A run that does not release all
/// leaves held only the modifiers below a failed release. An error already
/// met is never replaced.
#[verifier::rlimit(40)]
pub proof fn lemma_finished_run_releases_all<K>(s: ComboView<K>, outs: Seq<Result<(), String>>)
    requires
        s.wf(),
        s.run(outs).is_finished(),
    ensures
        s.released(outs) + s.run(outs).held_keys().reverse() == (s.held_keys() + s.pressed(
            outs,
        )).reverse(),
        s.release_all ==> s.run(outs).held() == 0,
        s.release_all ==> s.released(outs) == (s.held_keys() + s.pressed(outs)).reverse(),
        s.failure is Some ==> s.run(outs).failure == s.failure,
    decreases outs.len(),
{
    if outs.len() == 0 || s.is_finished() {
        if outs.len() > 0 {
            lemma_finished_run_stays(s, outs);
        }
        assert(s.released(outs) =~= Seq::<K>::empty());
        assert(s.pressed(outs) =~= Seq::<K>::empty());
        assert(s.released(outs) + s.run(outs).held_keys().reverse() =~= (s.held_keys()
            + s.pressed(outs)).reverse());
    } else {
        lemma_step_is_lifo(s, outs[0]);
        let n = s.next(outs[0]);
        let rest = outs.drop_first();
        lemma_finished_run_releases_all(n, rest);
        let h = s.held_keys();
        let e = s.run(outs).held_keys().reverse();
        assert(s.run(outs) == n.run(rest));
        match s.action() {
            ComboAction::Up(k) => {
                lemma_nothing_pressed_after_release(n, rest);
                assert(n.held_keys() + n.pressed(rest) =~= h.drop_last());
                assert(h + s.pressed(outs) =~= h);
                assert(h.reverse() =~= seq![h.last()] + h.drop_last().reverse());
                assert(s.released(outs) == seq![k] + n.released(rest));
                assert(s.released(outs) + e =~= seq![k] + (n.released(rest) + e));
            },
            _ => {
                assert(h + s.pressed(outs) =~= n.held_keys() + n.pressed(rest));
            },
        }
        if s.release_all {
            assert(s.released(outs) + e =~= s.released(outs));
        }
    }
}

/// The number of outcomes a run takes before it is over.
pub open spec fn consumed<K>(s: ComboView<K>, outs: Seq<Result<(), String>>) -> nat
    decreases outs.len(),
{
    if outs.len() == 0 || s.is_finished() {
        0
    } else {
        1 + consumed(s.next(outs[0]), outs.drop_first())
    }
}

proof fn lemma_consumed_bounded<K>(s: ComboView<K>, outs: Seq<Result<(), String>>)
    ensures
        consumed(s, outs) <= outs.len(),
    decreases outs.len(),
{
    if outs.len() > 0 && !s.is_finished() {
        lemma_consumed_bounded(s.next(outs[0]), outs.drop_first());
    }
}

/// The first error among `outs`, if any.
pub open spec fn first_error(outs: Seq<Result<(), String>>) -> Option<String> {
    match first_with(outs, |r: Result<(), String>| r is Err) {
        Some(i) => Some(outs[i]->Err_0),
        None => None,
    }
}

/// The error a run reports is the first failure it met: of the outcomes
/// the run took, the first that is an error (later failures, such as those
/// of the releases that follow, are ignored); with none, it succeeds.
pub proof fn lemma_reports_first_error<K>(s: ComboView<K>, outs: Seq<Result<(), String>>)
    requires
        s.wf(),
        s.failure is None,
    ensures
        s.run(outs).failure == first_error(outs.take(consumed(s, outs) as int)),
    decreases outs.len(),
{
    let c = consumed(s, outs);
    lemma_consumed_bounded(s, outs);
    let taken = outs.take(c as int);
    let pred = |r: Result<(), String>| r is Err;
    if outs.len() == 0 || s.is_finished() {
        if outs.len() > 0 {
            lemma_finished_run_stays(s, outs);
        }
        assert(taken.len() == 0);
    } else {
        lemma_step_is_lifo(s, outs[0]);
        let n = s.next(outs[0]);
        let rest = outs.drop_first();
        assert(c == 1 + consumed(n, rest));
        lemma_consumed_bounded(n, rest);
        assert(taken[0] == outs[0]);
        match outs[0] {
            Ok(_) => {
                lemma_reports_first_error(n, rest);
                let c2 = consumed(n, rest);
                assert(taken.drop_first() =~= rest.take(c2 as int));
                crate::find::lemma_first_with_valid(rest.take(c2 as int), pred);
                match first_with(rest.take(c2 as int), pred) {
                    Some(i) => {
                        assert(rest.take(c2 as int)[i] == taken[i + 1]);
                    },
                    None => {},
                }
            },
            Err(e) => {
                lemma_finished_run_releases_all_failure_kept(n, rest);
            },
        }
    }
}

proof fn lemma_finished_run_releases_all_failure_kept<K>(s: ComboView<K>, outs: Seq<Result<(), String>>)
    requires
        s.wf(),
        s.failure is Some,
    ensures
        s.run(outs).failure == s.failure,
    decreases outs.len(),
{
    if outs.len() > 0 {
        if s.is_finished() {
            lemma_finished_run_stays(s, outs);
        } else {
            lemma_step_is_lifo(s, outs[0]);
            lemma_finished_run_releases_all_failure_kept(s.next(outs[0]), outs.drop_first());
        }
    }
}

/// A run at `stage` that has met no failure.
pub open spec fn at_stage<K>(modifiers: Seq<K>, regular: Seq<K>, release_all: bool, stage: Stage) -> ComboView<K> {
    ComboView { modifiers, regular, stage, failure: None, release_all, unreleased: 0 }
}

proof fn lemma_ok_split<K>(s: ComboView<K>, a: nat, b: nat)
    ensures
        s.ok_trace(a + b) == s.ok_trace(a) + s.after_ok(a).ok_trace(b),
        s.after_ok(a + b) == s.after_ok(a).after_ok(b),
    decreases a,
{
    if a > 0 {
        let n = s.next(Ok(()));
        lemma_ok_split(n, (a - 1) as nat, b);
        assert((a + b - 1) as nat == (a - 1) as nat + b);
        assert(s.ok_trace(a + b) == seq![s.action()] + n.ok_trace(((a - 1) as nat + b) as nat));
        assert(s.ok_trace(a + b) =~= s.ok_trace(a) + s.after_ok(a).ok_trace(b));
    } else {
        assert(s.ok_trace(a + b) =~= s.ok_trace(a) + s.after_ok(a).ok_trace(b));
    }
}

proof fn lemma_press_phase<K>(mods: Seq<K>, regs: Seq<K>, ra: bool, i: nat)
    requires
        i < mods.len() < usize::MAX,
    ensures
        at_stage(mods, regs, ra, Stage::Press(i as usize)).ok_trace((mods.len() - i) as nat)
            == mods.skip(i as int).map_values(|k: K| ComboAction::Down(k)),
        at_stage(mods, regs, ra, Stage::Press(i as usize)).after_ok((mods.len() - i) as nat)
            == at_stage(mods, regs, ra, settle(mods.len(), regs.len(), Stage::Press(mods.len() as usize))),
    decreases mods.len() - i,
{
    let m = mods.len();
    let s = at_stage(mods, regs, ra, Stage::Press(i as usize));
    let n = s.next(Ok(()));
    let steps = (m - i) as nat;
    assert((steps - 1) as nat == (m - (i + 1)) as nat);
    assert(s.action() == ComboAction::Down(mods[i as int]));
    assert(s.ok_trace(steps) == seq![s.action()] + n.ok_trace((steps - 1) as nat));
    assert(s.after_ok(steps) == n.after_ok((steps - 1) as nat));
    if i + 1 < m {
        assert(n == at_stage(mods, regs, ra, Stage::Press((i + 1) as usize)));
        lemma_press_phase(mods, regs, ra, i + 1);
    } else {
        assert(n == at_stage(mods, regs, ra, settle(m, regs.len(), Stage::Press(m as usize))));
        assert(n.ok_trace(0) == Seq::<ComboAction<K>>::empty());
        assert(n.after_ok(0) == n);
    }
    assert(mods.skip(i as int).map_values(|k: K| ComboAction::Down(k)) =~= seq![
        ComboAction::Down(mods[i as int]),
    ] + mods.skip((i + 1) as int).map_values(|k: K| ComboAction::Down(k)));
}

proof fn lemma_tap_phase<K>(mods: Seq<K>, regs: Seq<K>, ra: bool, j: nat)
    requires
        mods.len() < usize::MAX,
        j < regs.len() <= usize::MAX,
    ensures
        at_stage(mods, regs, ra, Stage::Tap(j as usize)).ok_trace((regs.len() - j) as nat)
            == regs.skip(j as int).map_values(|k: K| ComboAction::Tap(k)),
        at_stage(mods, regs, ra, Stage::Tap(j as usize)).after_ok((regs.len() - j) as nat)
            == at_stage(mods, regs, ra, settle(mods.len(), regs.len(), Stage::Tap(regs.len() as usize))),
    decreases regs.len() - j,
{
    let r = regs.len();
    let s = at_stage(mods, regs, ra, Stage::Tap(j as usize));
    let n = s.next(Ok(()));
    let steps = (r - j) as nat;
    assert((steps - 1) as nat == (r - (j + 1)) as nat);
    assert(s.action() == ComboAction::Tap(regs[j as int]));
    assert(s.ok_trace(steps) == seq![s.action()] + n.ok_trace((steps - 1) as nat));
    assert(s.after_ok(steps) == n.after_ok((steps - 1) as nat));
    if j + 1 < r {
        assert(n == at_stage(mods, regs, ra, Stage::Tap((j + 1) as usize)));
        lemma_tap_phase(mods, regs, ra, j + 1);
    } else {
        assert(n == at_stage(mods, regs, ra, settle(mods.len(), r, Stage::Tap(r as usize))));
        assert(n.ok_trace(0) == Seq::<ComboAction<K>>::empty());
        assert(n.after_ok(0) == n);
    }
    assert(regs.skip(j as int).map_values(|k: K| ComboAction::Tap(k)) =~= seq![
        ComboAction::Tap(regs[j as int]),
    ] + regs.skip((j + 1) as int).map_values(|k: K| ComboAction::Tap(k)));
}

proof fn lemma_release_phase<K>(mods: Seq<K>, regs: Seq<K>, ra: bool, k: nat)
    requires
        0 < k <= mods.len() < usize::MAX,
    ensures
        at_stage(mods, regs, ra, Stage::Release(k as usize)).ok_trace(k)
            == mods.take(k as int).reverse().map_values(|x: K| ComboAction::Up(x)),
        at_stage(mods, regs, ra, Stage::Release(k as usize)).after_ok(k) == at_stage(mods, regs, ra, Stage::Finished),
    decreases k,
{
    let s = at_stage(mods, regs, ra, Stage::Release(k as usize));
    let n = s.next(Ok(()));
    assert(s.action() == ComboAction::Up(mods[k - 1]));
    assert(s.ok_trace(k) == seq![s.action()] + n.ok_trace((k - 1) as nat));
    assert(s.after_ok(k) == n.after_ok((k - 1) as nat));
    if k > 1 {
        assert(n == at_stage(mods, regs, ra, Stage::Release((k - 1) as usize)));
        lemma_release_phase(mods, regs, ra, (k - 1) as nat);
    } else {
        assert(n == at_stage(mods, regs, ra, Stage::Finished));
        assert(n.ok_trace(0) == Seq::<ComboAction<K>>::empty());
        assert(n.after_ok(0) == n);
    }
    assert(mods.take(k as int).reverse().map_values(|x: K| ComboAction::Up(x)) =~= seq![
        ComboAction::Up(mods[k - 1]),
    ] + mods.take(k - 1).reverse().map_values(|x: K| ComboAction::Up(x)));
}

/// A combo whose actions all succeed presses the modifiers in the order
/// given, taps the regular keys in the order given, releases the
/// modifiers in reverse order and then finishes with success.
pub proof fn lemma_successful_combo_trace<K>(mods: Seq<K>, regs: Seq<K>, ra: bool)
    requires
        mods.len() < usize::MAX,
        regs.len() <= usize::MAX,
    ensures
        ({
            let s = ComboView::initial(mods, regs, ra);
            let n = (2 * mods.len() + regs.len()) as nat;
            &&& s.ok_trace(n) == mods.map_values(|k: K| ComboAction::Down(k)) + regs.map_values(
                |k: K| ComboAction::Tap(k),
            ) + mods.reverse().map_values(|k: K| ComboAction::Up(k))
            &&& s.after_ok(n).is_finished()
            &&& s.after_ok(n).action() == ComboAction::<K>::Finish(Ok(()))
        }),
{
    let m = mods.len();
    let r = regs.len();
    let s = ComboView::initial(mods, regs, ra);
    let downs = mods.map_values(|k: K| ComboAction::Down(k));
    let taps = regs.map_values(|k: K| ComboAction::Tap(k));
    let ups = mods.reverse().map_values(|k: K| ComboAction::Up(k));
    let fin = at_stage(mods, regs, ra, Stage::Finished);
    assert(mods.skip(0) =~= mods);
    assert(regs.skip(0) =~= regs);
    assert(mods.take(m as int) =~= mods);
    // The releases: from `Release(m)`, m steps to the end.
    if m > 0 {
        lemma_release_phase(mods, regs, ra, m);
    }
    // The taps, then the releases.
    let after_taps = at_stage(mods, regs, ra, settle(m, r, Stage::Tap(r as usize)));
    assert(after_taps.ok_trace(m) == ups && after_taps.after_ok(m) == fin) by {
        if m == 0 {
            assert(ups =~= Seq::<ComboAction<K>>::empty());
        }
    }
    let at_taps = at_stage(mods, regs, ra, settle(m, r, Stage::Press(m as usize)));
    assert(at_taps.ok_trace(r + m) == taps + ups && at_taps.after_ok(r + m) == fin) by {
        if r > 0 {
            lemma_tap_phase(mods, regs, ra, 0);
            lemma_ok_split(at_taps, r, m);
        } else {
            assert(at_taps == after_taps);
            assert(taps =~= Seq::<ComboAction<K>>::empty());
            assert(taps + ups =~= ups);
        }
    }
    if m > 0 {
        lemma_press_phase(mods, regs, ra, 0);
        assert(s == at_stage(mods, regs, ra, Stage::Press(0)));
        lemma_ok_split(s, m, r + m);
        assert((2 * m + r) as nat == m + (r + m));
        assert(downs + taps + ups =~= downs + (taps + ups));
    } else {
        assert(s == at_taps);
        assert(downs =~= Seq::<ComboAction<K>>::empty());
        assert(downs + taps + ups =~= taps + ups);
        assert((2 * m + r) as nat == r + m);
    }
}

} // verus!
