//! The baton ring: the scheduler's state as a mathematical value, the
//! transitions that threads make on it, and what holds of every state that
//! these transitions can reach.
use vstd::prelude::*;

verus! {

/// Where a logical thread stands in the hand-off protocol.
#[derive(Clone, Copy, PartialEq, Eq, Structural, Debug)]
pub enum ThreadPhase {
    /// Created; its host unit has not passed the start gate yet.
    NotStarted,
    /// In the ring and blocked on its own wait primitive.
    Waiting,
    /// In the ring and executing: it holds the baton.
    Current,
    /// Taken out of the ring for a blocking host call; it will come back.
    Parked,
    /// Out of the ring for good: its body has finished or it was released.
    Complete,
}

/// What a thread does after it has consulted the scheduler.
#[derive(Clone, Copy, PartialEq, Eq, Structural, Debug)]
pub enum Wakeup {
    /// Block on the thread's own wait primitive and ask again on every wake.
    Wait,
    /// Go on executing.
    Resume,
}

/// The flags of one logical thread.
pub struct ThreadFlags {
    /// Set once the thread has been scheduled at least once.
    pub running: bool,
    /// Set while the thread is out of the ring.
    pub complete: bool,
    pub phase: ThreadPhase,
}

/// The scheduler's state: the baton and every logical thread's flags, by identity.
pub struct Ring {
    /// Identity of the thread entitled to run.
    pub token: nat,
    pub threads: Seq<ThreadFlags>,
    /// The idle thread, once it has been asked for.
    pub idle: Option<nat>,
}

impl ThreadFlags {
    /// A thread that has just been created.
    pub open spec fn fresh() -> ThreadFlags {
        ThreadFlags { running: false, complete: false, phase: ThreadPhase::NotStarted }
    }

    /// Executing on its host unit, in the ring or out of it.
    pub open spec fn awake(self) -> bool {
        self.phase is Current || self.phase is Parked || self.phase is Complete
    }
}

impl Ring {
    pub open spec fn registered(self, t: nat) -> bool {
        t < self.threads.len()
    }

    pub open spec fn flags(self, t: nat) -> ThreadFlags {
        self.threads[t as int]
    }

    /// What must hold of one thread's flags in a consistent ring.
    pub open spec fn thread_ok(self, t: nat) -> bool {
        let f = self.flags(t);
        &&& f.complete <==> (f.phase is Parked || f.phase is Complete)
        &&& f.phase is Current ==> self.token == t
        &&& !(f.phase is NotStarted) ==> f.running
        &&& f.phase is NotStarted && f.running ==> self.token == t
        &&& self.token == t ==> f.running
    }

    /// Consistency of the whole ring.
    pub open spec fn wf(self) -> bool {
        &&& self.registered(self.token)
        &&& (self.idle matches Some(i) ==> self.registered(i))
        &&& forall|t: nat| self.registered(t) ==> #[trigger] self.thread_ok(t)
    }

    /// `t` may name a successor: it has the baton and is executing.
    pub open spec fn holds_baton(self, t: nat) -> bool {
        &&& self.registered(t)
        &&& self.token == t
        &&& self.flags(t).awake()
    }

    /// A waiting thread's re-check: the baton is back or the thread is out of the ring.
    pub open spec fn may_resume(self, t: nat) -> bool {
        self.flags(t).complete || self.token == t
    }

    /// The start gate: the thread has been scheduled, or the baton names it.
    pub open spec fn gate_open(self, t: nat) -> bool {
        self.flags(t).running || self.token == t
    }

    pub open spec fn with_phase(self, t: nat, phase: ThreadPhase) -> Ring {
        Ring {
            threads: self.threads.update(t as int, ThreadFlags { phase, ..self.flags(t) }),
            ..self
        }
    }

    /// The ring at boot: the boot thread alone, holding the baton.
    pub open spec fn boot() -> Ring {
        Ring {
            token: 0,
            threads: seq![
                ThreadFlags { running: true, complete: false, phase: ThreadPhase::Current },
            ],
            idle: None,
        }
    }

    /// A new logical thread joins; its identity is the former number of threads.
    pub open spec fn spawn(self) -> Ring {
        Ring { threads: self.threads.push(ThreadFlags::fresh()), ..self }
    }

    /// `me` names `to` as the next runner: `to` is marked as scheduled, the
    /// baton goes to it, and `me` starts waiting unless it is out of the ring
    /// or named itself.
    pub open spec fn handoff(self, me: nat, to: nat) -> Ring {
        let named = Ring {
            token: to,
            threads: self.threads.update(
                to as int,
                ThreadFlags { running: true, ..self.flags(to) },
            ),
            ..self
        };
        if self.flags(me).complete || to == me {
            named
        } else {
            named.with_phase(me, ThreadPhase::Waiting)
        }
    }

    /// What `me` does after `handoff(me, to)`.
    pub open spec fn handoff_wakeup(self, me: nat, to: nat) -> Wakeup {
        if self.flags(me).complete || to == me {
            Wakeup::Resume
        } else {
            Wakeup::Wait
        }
    }

    /// `me` waits without naming a successor, or re-checks after a wake.
    pub open spec fn poll(self, me: nat) -> Ring {
        if self.flags(me).complete {
            self
        } else if self.token == me {
            self.with_phase(me, ThreadPhase::Current)
        } else {
            self.with_phase(me, ThreadPhase::Waiting)
        }
    }

    /// What `me` does after `poll(me)`.
    pub open spec fn poll_wakeup(self, me: nat) -> Wakeup {
        if self.may_resume(me) {
            Wakeup::Resume
        } else {
            Wakeup::Wait
        }
    }

    /// The host unit of `me` arrives at the start gate and passes it if it is open.
    pub open spec fn enter(self, me: nat) -> Ring {
        if self.gate_open(me) {
            self.with_phase(me, ThreadPhase::Current)
        } else {
            self
        }
    }

    /// What `me` does after `enter(me)`.
    pub open spec fn enter_wakeup(self, me: nat) -> Wakeup {
        if self.gate_open(me) {
            Wakeup::Resume
        } else {
            Wakeup::Wait
        }
    }

    /// `me` leaves the ring for good.
    pub open spec fn finish(self, me: nat) -> Ring {
        Ring {
            threads: self.threads.update(
                me as int,
                ThreadFlags { complete: true, phase: ThreadPhase::Complete, ..self.flags(me) },
            ),
            ..self
        }
    }

    /// `me` leaves the ring for the time of a blocking host call.
    pub open spec fn detach(self, me: nat) -> Ring {
        Ring {
            threads: self.threads.update(
                me as int,
                ThreadFlags { complete: true, phase: ThreadPhase::Parked, ..self.flags(me) },
            ),
            ..self
        }
    }

    /// `me` comes back from a blocking host call and waits for the baton like any other thread.
    pub open spec fn reattach(self, me: nat) -> Ring {
        Ring {
            threads: self.threads.update(
                me as int,
                ThreadFlags {
                    complete: false,
                    phase: if self.token == me {
                        ThreadPhase::Current
                    } else {
                        ThreadPhase::Waiting
                    },
                    ..self.flags(me)
                },
            ),
            ..self
        }
    }

    /// What `me` does after `reattach(me)`.
    pub open spec fn reattach_wakeup(self, me: nat) -> Wakeup {
        if self.token == me {
            Wakeup::Resume
        } else {
            Wakeup::Wait
        }
    }

    /// The idle thread is created on first use and stays the same afterwards.
    pub open spec fn with_idle(self) -> Ring {
        if self.idle is Some {
            self
        } else {
            Ring { idle: Some(self.threads.len()), ..self.spawn() }
        }
    }
}

/// One transition of the ring.
pub enum Step {
    Spawn,
    Handoff { me: nat, to: nat },
    Poll { me: nat },
    Enter { me: nat },
    Finish { me: nat },
    Detach { me: nat },
    Reattach { me: nat },
    Idle,
}

impl Ring {
    /// Whether the protocol allows `step` in this state.
    pub open spec fn enabled(self, step: Step) -> bool {
        match step {
            Step::Spawn => true,
            Step::Handoff { me, to } => self.holds_baton(me) && self.registered(to),
            Step::Poll { me } => self.registered(me) && !(self.flags(me).phase is NotStarted),
            Step::Enter { me } => self.registered(me) && self.flags(me).phase is NotStarted,
            Step::Finish { me } => self.registered(me) && self.flags(me).phase is Current,
            Step::Detach { me } => self.registered(me) && self.flags(me).phase is Current,
            Step::Reattach { me } => self.registered(me) && self.flags(me).phase is Parked,
            Step::Idle => true,
        }
    }

    pub open spec fn apply(self, step: Step) -> Ring {
        match step {
            Step::Spawn => self.spawn(),
            Step::Handoff { me, to } => self.handoff(me, to),
            Step::Poll { me } => self.poll(me),
            Step::Enter { me } => self.enter(me),
            Step::Finish { me } => self.finish(me),
            Step::Detach { me } => self.detach(me),
            Step::Reattach { me } => self.reattach(me),
            Step::Idle => self.with_idle(),
        }
    }

    /// The ring after `steps`, taken in order.
    pub open spec fn run(self, steps: Seq<Step>) -> Ring
        decreases steps.len(),
    {
        if steps.len() == 0 {
            self
        } else {
            self.run(steps.drop_last()).apply(steps.last())
        }
    }

    /// Every step of `steps` is allowed in the state in which it is taken.
    pub open spec fn admits(self, steps: Seq<Step>) -> bool
        decreases steps.len(),
    {
        if steps.len() == 0 {
            true
        } else {
            &&& self.admits(steps.drop_last())
            &&& self.run(steps.drop_last()).enabled(steps.last())
        }
    }
}

/// The ring at boot is consistent.
pub proof fn lemma_boot_wf()
    ensures
        Ring::boot().wf(),
        Ring::boot().holds_baton(0),
{
}

/// Every allowed step keeps the ring consistent, keeps every thread
/// registered, and never clears a thread's `running` flag.
pub proof fn lemma_step_keeps_wf(r: Ring, step: Step)
    requires
        r.wf(),
        r.enabled(step),
    ensures
        r.apply(step).wf(),
        r.apply(step).threads.len() >= r.threads.len(),
        forall|t: nat| r.registered(t) && r.flags(t).running ==> r.apply(step).flags(t).running,
{
    let s = r.apply(step);
    assert forall|t: nat| s.registered(t) implies #[trigger] s.thread_ok(t) by {
        if r.registered(t) {
            assert(r.thread_ok(t));
        }
        assert(r.thread_ok(r.token));
        match step {
            Step::Handoff { me, to } => {
                assert(r.thread_ok(me));
                assert(r.thread_ok(to));
            },
            Step::Poll { me } => {
                assert(r.thread_ok(me));
            },
            Step::Enter { me } => {
                assert(r.thread_ok(me));
            },
            Step::Finish { me } => {
                assert(r.thread_ok(me));
            },
            Step::Detach { me } => {
                assert(r.thread_ok(me));
            },
            Step::Reattach { me } => {
                assert(r.thread_ok(me));
            },
            _ => {},
        }
    }
}

/// Consistency holds in every state that allowed steps reach.
pub proof fn lemma_run_keeps_wf(r: Ring, steps: Seq<Step>)
    requires
        r.wf(),
        r.admits(steps),
    ensures
        r.run(steps).wf(),
        r.run(steps).threads.len() >= r.threads.len(),
        forall|t: nat| r.registered(t) && r.flags(t).running ==> r.run(steps).flags(t).running,
    decreases steps.len(),
{
    if steps.len() > 0 {
        lemma_run_keeps_wf(r, steps.drop_last());
        lemma_step_keeps_wf(r.run(steps.drop_last()), steps.last());
    }
}

impl Ring {
    /// Exactly one registered thread's identity equals the baton, no two
    /// threads are executing in the ring, and every thread but the one named
    /// by the baton is blocked, not started, or out of the ring.
    pub open spec fn single_current(self) -> bool {
        &&& self.registered(self.token)
        &&& forall|a: nat, b: nat|
            #![trigger self.flags(a), self.flags(b)]
            self.registered(a) && self.registered(b) && self.flags(a).phase is Current
                && self.flags(b).phase is Current ==> a == b
        &&& forall|t: nat|
            #![trigger self.flags(t)]
            self.registered(t) && t != self.token ==> self.flags(t).phase is NotStarted
                || self.flags(t).phase is Waiting || self.flags(t).complete
    }
}

/// Single current thread: it holds in every consistent ring.
pub proof fn lemma_single_current(r: Ring)
    requires
        r.wf(),
    ensures
        r.single_current(),
{
    assert forall|a: nat, b: nat|
        #![trigger r.flags(a), r.flags(b)]
        r.registered(a) && r.registered(b) && r.flags(a).phase is Current && r.flags(
            b,
        ).phase is Current implies a == b by {
        assert(r.thread_ok(a));
        assert(r.thread_ok(b));
    }
    assert forall|t: nat|
        #![trigger r.flags(t)]
        r.registered(t) && t != r.token implies r.flags(t).phase is NotStarted || r.flags(
            t,
        ).phase is Waiting || r.flags(t).complete by {
        assert(r.thread_ok(t));
    }
}

/// Single current thread, at every moment: it holds in every state of a run
/// that starts at boot and takes only steps that the protocol allows.
pub proof fn lemma_single_current_always(steps: Seq<Step>)
    requires
        Ring::boot().admits(steps),
    ensures
        Ring::boot().run(steps).wf(),
        Ring::boot().run(steps).single_current(),
{
    lemma_boot_wf();
    lemma_run_keeps_wf(Ring::boot(), steps);
    lemma_single_current(Ring::boot().run(steps));
}

/// No missed wakeup: once `a` has named a thread `b` that had not started,
/// then in every later state either `b` has passed its start gate, or that gate
/// is open for it: it passes on arrival, with the baton still naming it.
pub proof fn lemma_no_missed_wakeup(r: Ring, a: nat, b: nat, steps: Seq<Step>)
    requires
        r.wf(),
        r.holds_baton(a),
        r.registered(b),
        r.flags(b).phase is NotStarted,
        r.handoff(a, b).admits(steps),
    ensures
        ({
            let later = r.handoff(a, b).run(steps);
            &&& later.wf()
            &&& later.registered(b)
            &&& later.flags(b).phase is NotStarted ==> {
                &&& later.enabled(Step::Enter { me: b })
                &&& later.token == b
                &&& later.enter_wakeup(b) == Wakeup::Resume
                &&& later.enter(b).flags(b).phase is Current
            }
        }),
{
    let named = r.handoff(a, b);
    lemma_step_keeps_wf(r, Step::Handoff { me: a, to: b });
    assert(named.flags(b).running);
    lemma_run_keeps_wf(named, steps);
    let later = named.run(steps);
    assert(later.thread_ok(b));
}

/// Completion short-circuits waiting: a thread whose `complete` flag is set is
/// never told to wait, whatever the baton names, and asking changes nothing.
pub proof fn lemma_complete_never_waits(r: Ring, me: nat, to: nat)
    requires
        r.registered(me),
        r.flags(me).complete,
    ensures
        r.poll_wakeup(me) == Wakeup::Resume,
        r.poll(me) == r,
        r.handoff_wakeup(me, to) == Wakeup::Resume,
{
}

/// Pausing lets the others run: a thread that parks itself can still pass the
/// baton on and is not made to wait for it, and the thread that it names
/// becomes the current one while the first stays parked.
pub proof fn lemma_pause_lets_others_run(r: Ring, a: nat, b: nat)
    requires
        r.wf(),
        r.registered(a),
        r.registered(b),
        a != b,
        r.flags(a).phase is Current,
        r.flags(b).phase is Waiting || r.flags(b).phase is NotStarted,
    ensures
        ({
            let parked = r.detach(a);
            let passed = parked.handoff(a, b);
            let arrived = if r.flags(b).phase is Waiting {
                passed.poll(b)
            } else {
                passed.enter(b)
            };
            &&& parked.wf()
            &&& parked.flags(a).phase is Parked
            &&& parked.enabled(Step::Handoff { me: a, to: b })
            &&& parked.handoff_wakeup(a, b) == Wakeup::Resume
            &&& passed.wf()
            &&& passed.token == b
            &&& r.flags(b).phase is Waiting ==> passed.poll_wakeup(b) == Wakeup::Resume
            &&& r.flags(b).phase is NotStarted ==> passed.enter_wakeup(b) == Wakeup::Resume
            &&& arrived.wf()
            &&& arrived.flags(b).phase is Current
            &&& arrived.flags(a).phase is Parked
        }),
{
    assert(r.thread_ok(a));
    assert(r.thread_ok(b));
    let parked = r.detach(a);
    lemma_step_keeps_wf(r, Step::Detach { me: a });
    let passed = parked.handoff(a, b);
    lemma_step_keeps_wf(parked, Step::Handoff { me: a, to: b });
    if r.flags(b).phase is Waiting {
        lemma_step_keeps_wf(passed, Step::Poll { me: b });
    } else {
        lemma_step_keeps_wf(passed, Step::Enter { me: b });
    }
}

/// A parked thread stays parked, whatever the others do, until it comes back itself.
pub proof fn lemma_parked_until_reattached(r: Ring, a: nat, steps: Seq<Step>)
    requires
        r.wf(),
        r.registered(a),
        r.flags(a).phase is Parked,
        r.admits(steps),
        forall|i: int| 0 <= i < steps.len() ==> steps[i] != (Step::Reattach { me: a }),
    ensures
        r.run(steps).wf(),
        r.run(steps).registered(a),
        r.run(steps).flags(a).phase is Parked,
        r.run(steps).flags(a).complete,
        r.run(steps).poll_wakeup(a) == Wakeup::Resume,
    decreases steps.len(),
{
    if steps.len() > 0 {
        let before = r.run(steps.drop_last());
        lemma_parked_until_reattached(r, a, steps.drop_last());
        lemma_step_keeps_wf(before, steps.last());
        assert(before.thread_ok(a));
        assert(steps[steps.len() - 1] != (Step::Reattach { me: a }));
    }
    assert(r.run(steps).thread_ok(a));
}

/// Unparking rejoins the rotation: the thread is in the ring again, it goes on
/// at once only if the baton names it, and from then on it is told to resume
/// exactly when the baton names it.
pub proof fn lemma_unpause_waits_for_baton(r: Ring, a: nat)
    requires
        r.wf(),
        r.registered(a),
        r.flags(a).phase is Parked,
    ensures
        ({
            let back = r.reattach(a);
            &&& back.wf()
            &&& back.token == r.token
            &&& !back.flags(a).complete
            &&& r.reattach_wakeup(a) == Wakeup::Resume <==> r.token == a
            &&& back.flags(a).phase is Current <==> r.token == a
            &&& back.flags(a).phase is Waiting <==> r.token != a
            &&& back.poll_wakeup(a) == Wakeup::Resume <==> back.token == a
        }),
{
    lemma_step_keeps_wf(r, Step::Reattach { me: a });
}

/// Pause and unpark, end to end: `a` parks and passes the baton to `b`; the
/// others take any steps the protocol allows; `a` comes back. Then `a` is in
/// the ring again, and it resumes at once exactly if the baton was handed
/// back to it in the meantime.
pub proof fn lemma_pause_round_trip(r: Ring, a: nat, b: nat, steps: Seq<Step>)
    requires
        r.wf(),
        r.registered(a),
        r.registered(b),
        a != b,
        r.flags(a).phase is Current,
        r.flags(b).phase is Waiting || r.flags(b).phase is NotStarted,
        r.detach(a).handoff(a, b).admits(steps),
        forall|i: int| 0 <= i < steps.len() ==> steps[i] != (Step::Reattach { me: a }),
    ensures
        ({
            let window = r.detach(a).handoff(a, b).run(steps);
            let back = window.reattach(a);
            &&& window.wf()
            &&& window.flags(a).phase is Parked
            &&& window.enabled(Step::Reattach { me: a })
            &&& back.wf()
            &&& !back.flags(a).complete
            &&& window.reattach_wakeup(a) == Wakeup::Resume <==> window.token == a
            &&& back.flags(a).phase is Current <==> window.token == a
            &&& back.flags(a).phase is Waiting <==> window.token != a
        }),
{
    lemma_pause_lets_others_run(r, a, b);
    let passed = r.detach(a).handoff(a, b);
    assert(passed.flags(a).phase is Parked);
    lemma_parked_until_reattached(passed, a, steps);
    lemma_unpause_waits_for_baton(passed.run(steps), a);
}

/// The baton is never lost: the thread that it names is let through whenever
/// it asks, at its start gate as well as on any later wake.
pub proof fn lemma_named_thread_is_let_through(r: Ring, t: nat)
    requires
        r.wf(),
        r.token == t,
    ensures
        r.registered(t),
        r.flags(t).phase is NotStarted ==> r.enabled(Step::Enter { me: t }) && r.enter_wakeup(t)
            == Wakeup::Resume,
        !(r.flags(t).phase is NotStarted) ==> r.enabled(Step::Poll { me: t }) && r.poll_wakeup(t)
            == Wakeup::Resume,
{
    assert(r.thread_ok(t));
}

/// A thread in the ring that the baton does not name is held up whenever it
/// asks: it goes on only once the baton has come to it.
pub proof fn lemma_unnamed_thread_waits(r: Ring, t: nat)
    requires
        r.wf(),
        r.registered(t),
        r.token != t,
        !r.flags(t).complete,
    ensures
        !(r.flags(t).phase is Current),
        r.flags(t).phase is NotStarted ==> r.enter_wakeup(t) == Wakeup::Wait,
        !(r.flags(t).phase is NotStarted) ==> r.poll_wakeup(t) == Wakeup::Wait,
{
    assert(r.thread_ok(t));
}

/// Hand-offs are serialised: the baton moves only when the thread that it
/// names passes it on.
pub proof fn lemma_only_holder_moves_baton(r: Ring, step: Step)
    requires
        r.wf(),
        r.enabled(step),
        r.apply(step).token != r.token,
    ensures
        step matches Step::Handoff { me, to } && me == r.token && to == r.apply(step).token,
{
}

/// The target runs before the caller resumes: after `a` has named `b`, and
/// for as long as `b` has not woken up to find the baton, the baton stays
/// with `b` and `a` is told to wait whenever it asks.
pub proof fn lemma_baton_stays_until_taken(r: Ring, a: nat, b: nat, steps: Seq<Step>)
    requires
        r.wf(),
        r.holds_baton(a),
        r.registered(b),
        a != b,
        !r.flags(a).complete,
        r.flags(b).phase is NotStarted || r.flags(b).phase is Waiting,
        r.handoff(a, b).admits(steps),
        forall|i: int|
            0 <= i < steps.len() ==> steps[i] != (Step::Enter { me: b }) && steps[i] != (Step::Poll {
                me: b,
            }),
    ensures
        ({
            let later = r.handoff(a, b).run(steps);
            &&& later.wf()
            &&& later.registered(a)
            &&& later.registered(b)
            &&& later.token == b
            &&& later.flags(b).phase == r.flags(b).phase
            &&& later.flags(a).phase is Waiting
            &&& later.poll_wakeup(a) == Wakeup::Wait
        }),
    decreases steps.len(),
{
    let named = r.handoff(a, b);
    assert(r.thread_ok(a));
    assert(r.thread_ok(b));
    lemma_step_keeps_wf(r, Step::Handoff { me: a, to: b });
    if steps.len() > 0 {
        let before = named.run(steps.drop_last());
        lemma_baton_stays_until_taken(r, a, b, steps.drop_last());
        lemma_step_keeps_wf(before, steps.last());
        assert(before.thread_ok(a));
        assert(before.thread_ok(b));
        assert(steps[steps.len() - 1] != (Step::Enter { me: b }));
        assert(steps[steps.len() - 1] != (Step::Poll { me: b }));
    }
}

} // verus!
