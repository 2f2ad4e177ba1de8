//! Thread identity, launch, hand-off and parking.
//!
//! The host keeps one [`Scheduler`] behind its switch lock and one
//! [`ThreadLocalState`] per host thread. A function here that answers
//! [`Wakeup::Wait`] asks the caller to block on the thread's own wait
//! primitive and to call [`Scheduler::sleep`] with no successor on every wake,
//! until the answer is [`Wakeup::Resume`].
use crate::arch::hosted::memory::virt::AddressSpace;
use crate::arch::hosted::ring::{lemma_boot_wf, lemma_step_keeps_wf};
use crate::arch::hosted::ring::{Ring, Step, ThreadFlags, ThreadPhase, Wakeup};
use vstd::prelude::*;

verus! {

/// Identity of a logical thread: its place in the scheduler's registry.
#[derive(Clone, Copy, PartialEq, Eq, Structural, Debug)]
pub struct ThreadId {
    index: usize,
}

impl View for ThreadId {
    type V = nat;

    closed spec fn view(&self) -> nat {
        self.index as nat
    }
}

impl ThreadId {
    /// The identity with the given place in the registry.
    pub fn from_index(index: usize) -> (r: Self)
        ensures
            r@ == index,
    {
        ThreadId { index }
    }

    pub fn index(&self) -> (r: usize)
        ensures
            r == self@,
    {
        self.index
    }
}

/// What the caller of a scheduling step has to do: whose wait primitive to
/// notify, if anyone's, and then whether to block on its own.
#[derive(Clone, Copy, PartialEq, Eq, Structural, Debug)]
pub struct Handoff {
    /// The thread that now has the baton and has to be woken.
    pub notify: Option<ThreadId>,
    pub wakeup: Wakeup,
}

/// Flags of one logical thread. The wait primitive that goes with them is the host's.
#[derive(Clone, Copy, Debug)]
struct StateInner {
    complete: bool,
    running: bool,
    phase: ThreadPhase,
}

impl View for StateInner {
    type V = ThreadFlags;

    closed spec fn view(&self) -> ThreadFlags {
        ThreadFlags { running: self.running, complete: self.complete, phase: self.phase }
    }
}

/// The baton and the registry of thread states: everything that the switch lock guards.
pub struct Scheduler {
    token: usize,
    threads: Vec<StateInner>,
    idle: Option<usize>,
}

impl View for Scheduler {
    type V = Ring;

    closed spec fn view(&self) -> Ring {
        Ring {
            token: self.token as nat,
            threads: self.threads@.map_values(|s: StateInner| s@),
            idle: match self.idle {
                Some(i) => Some(i as nat),
                None => None,
            },
        }
    }
}

/// The scheduling state of one logical thread, as the thread object holds it.
pub struct State {
    inner: ThreadId,
}

impl State {
    /// The thread whose state this is.
    pub closed spec fn id(&self) -> ThreadId {
        self.inner
    }

    pub fn thread_id(&self) -> (r: ThreadId)
        ensures
            r == self.id(),
    {
        self.inner
    }

    /// Registers a new logical thread, not started, that will run in `_as`.
    pub fn new(sched: &mut Scheduler, _as: &AddressSpace) -> (r: State)
        requires
            old(sched).wf(),
        ensures
            final(sched).wf(),
            final(sched)@ == old(sched)@.spawn(),
            r.id()@ == old(sched)@.threads.len(),
    {
        let id = sched.register();
        State { inner: id }
    }
}

impl Scheduler {
    /// Consistency of the registry and the baton.
    pub open spec fn wf(&self) -> bool {
        self@.wf()
    }

    fn register(&mut self) -> (r: ThreadId)
        requires
            old(self).wf(),
        ensures
            final(self).wf(),
            final(self)@ == old(self)@.spawn(),
            final(self).idle == old(self).idle,
            r@ == old(self)@.threads.len(),
    {
        let index = self.threads.len();
        self.threads.push(
            StateInner { complete: false, running: false, phase: ThreadPhase::NotStarted },
        );
        proof {
            assert(self@.threads =~= old(self)@.spawn().threads);
            lemma_step_keeps_wf(old(self)@, Step::Spawn);
        }
        ThreadId { index }
    }

    fn set_flags(&mut self, t: usize, flags: StateInner)
        requires
            t < old(self).threads.len(),
        ensures
            final(self)@ == (Ring {
                threads: old(self)@.threads.update(t as int, flags@),
                ..old(self)@
            }),
            final(self).token == old(self).token,
            final(self).idle == old(self).idle,
            final(self).threads.len() == old(self).threads.len(),
    {
        self.threads.set(t, flags);
        proof {
            assert(self@.threads =~= old(self)@.threads.update(t as int, flags@));
        }
    }

    fn get_flags(&self, t: usize) -> (r: StateInner)
        requires
            t < self.threads.len(),
        ensures
            r@ == self@.flags(t as nat),
            self@.registered(t as nat),
    {
        self.threads[t]
    }

    /// The number of logical threads ever registered.
    pub fn thread_count(&self) -> (r: usize)
        ensures
            r == self@.threads.len(),
    {
        self.threads.len()
    }

    pub fn is_registered(&self, t: ThreadId) -> (r: bool)
        ensures
            r == self@.registered(t@),
    {
        t.index < self.threads.len()
    }

    /// The thread that the baton names.
    pub fn current(&self) -> (r: ThreadId)
        ensures
            r@ == self@.token,
    {
        ThreadId { index: self.token }
    }

    pub fn phase(&self, t: ThreadId) -> (r: ThreadPhase)
        requires
            self@.registered(t@),
        ensures
            r == self@.flags(t@).phase,
    {
        self.get_flags(t.index).phase
    }

    pub fn is_running(&self, t: ThreadId) -> (r: bool)
        requires
            self@.registered(t@),
        ensures
            r == self@.flags(t@).running,
    {
        self.get_flags(t.index).running
    }

    pub fn is_complete(&self, t: ThreadId) -> (r: bool)
        requires
            self@.registered(t@),
        ensures
            r == self@.flags(t@).complete,
    {
        self.get_flags(t.index).complete
    }

    /// Whether `t` may name a successor: the baton names it and it is executing.
    pub fn holds_baton(&self, t: ThreadId) -> (r: bool)
        ensures
            r == self@.holds_baton(t@),
    {
        if t.index < self.threads.len() && self.token == t.index {
            let f = self.get_flags(t.index);
            match f.phase {
                ThreadPhase::Current => true,
                ThreadPhase::Parked => true,
                ThreadPhase::Complete => true,
                _ => false,
            }
        } else {
            false
        }
    }

    fn retire(&mut self, me: ThreadId)
        requires
            old(self).wf(),
            old(self)@.enabled(Step::Finish { me: me@ }),
        ensures
            final(self).wf(),
            final(self)@ == old(self)@.finish(me@),
    {
        let mine = self.get_flags(me.index);
        self.set_flags(
            me.index,
            StateInner { complete: true, phase: ThreadPhase::Complete, ..mine },
        );
        proof {
            lemma_step_keeps_wf(old(self)@, Step::Finish { me: me@ });
        }
    }

    /// The hand-off and the wait rule, for the thread `me`.
    ///
    /// With a successor `t`: marks `t` as scheduled, gives it the baton, and
    /// tells the caller to notify the wait primitive of `t` and whether `me`
    /// has to wait. Without one: tells whether `me`, which named nobody, has
    /// to wait or to go on waiting, and nobody is notified.
    ///
    /// A thread that is out of the ring is never told to wait.
    pub fn sleep(&mut self, me: ThreadId, t: Option<ThreadId>) -> (r: Handoff)
        requires
            old(self).wf(),
            match t {
                Some(to) => old(self)@.enabled(Step::Handoff { me: me@, to: to@ }),
                None => old(self)@.enabled(Step::Poll { me: me@ }),
            },
        ensures
            final(self).wf(),
            r.notify == t,
            match t {
                Some(to) => {
                    &&& final(self)@ == old(self)@.handoff(me@, to@)
                    &&& r.wakeup == old(self)@.handoff_wakeup(me@, to@)
                },
                None => {
                    &&& final(self)@ == old(self)@.poll(me@)
                    &&& r.wakeup == old(self)@.poll_wakeup(me@)
                },
            },
            old(self)@.flags(me@).complete ==> r.wakeup == Wakeup::Resume,
    {
        match t {
            Some(to) => {
                let target = self.get_flags(to.index);
                self.set_flags(to.index, StateInner { running: true, ..target });
                self.token = to.index;
                let mine = self.get_flags(me.index);
                proof {
                    lemma_step_keeps_wf(old(self)@, Step::Handoff { me: me@, to: to@ });
                }
                let wakeup = if mine.complete || to.index == me.index {
                    Wakeup::Resume
                } else {
                    self.set_flags(me.index, StateInner { phase: ThreadPhase::Waiting, ..mine });
                    Wakeup::Wait
                };
                Handoff { notify: t, wakeup }
            },
            None => {
                let mine = self.get_flags(me.index);
                proof {
                    lemma_step_keeps_wf(old(self)@, Step::Poll { me: me@ });
                }
                let wakeup = if mine.complete {
                    Wakeup::Resume
                } else if self.token == me.index {
                    self.set_flags(me.index, StateInner { phase: ThreadPhase::Current, ..mine });
                    Wakeup::Resume
                } else {
                    self.set_flags(me.index, StateInner { phase: ThreadPhase::Waiting, ..mine });
                    Wakeup::Wait
                };
                Handoff { notify: None, wakeup }
            },
        }
    }
}

/// What one host thread knows of the logical thread that it embodies.
#[derive(Debug)]
pub struct ThreadLocalState {
    ptr: Option<ThreadId>,
    ptr_moved: bool,
    this_state: Option<ThreadId>,
}

impl ThreadLocalState {
    /// The logical thread object that this host thread runs, if it has one.
    pub closed spec fn thread(&self) -> Option<ThreadId> {
        self.ptr
    }

    /// Whether the reference to the thread object is lent out at the moment.
    pub closed spec fn lent(&self) -> bool {
        self.ptr_moved
    }

    /// The scheduling state of this host thread, once it has one.
    pub closed spec fn state(&self) -> Option<ThreadId> {
        self.this_state
    }

    /// The record of a host thread that embodies no logical thread yet.
    pub fn new() -> (r: Self)
        ensures
            r.thread() is None,
            !r.lent(),
            r.state() is None,
    {
        ThreadLocalState { ptr: None, ptr_moved: false, this_state: None }
    }

    pub fn is_lent(&self) -> (r: bool)
        ensures
            r == self.lent(),
    {
        self.ptr_moved
    }

    pub fn this_state(&self) -> (r: Option<ThreadId>)
        ensures
            r == self.state(),
    {
        self.this_state
    }
}

/// Sets up the scheduler with the boot thread as the one that runs, and makes
/// the calling host thread embody it.
pub fn init_tid0_state(local: &mut ThreadLocalState) -> (r: (Scheduler, State))
    requires
        old(local).state() is None,
    ensures
        r.0.wf(),
        r.0@ == Ring::boot(),
        r.1.id()@ == 0,
        final(local).state() == Some(r.1.id()),
        final(local).thread() == old(local).thread(),
        final(local).lent() == old(local).lent(),
{
    let mut threads: Vec<StateInner> = Vec::new();
    threads.push(StateInner { complete: false, running: true, phase: ThreadPhase::Current });
    let sched = Scheduler { token: 0, threads, idle: None };
    let id = ThreadId { index: 0 };
    local.this_state = Some(id);
    proof {
        assert(sched@.threads =~= Ring::boot().threads);
        lemma_boot_wf();
    }
    (sched, State { inner: id })
}

/// Gives back, or sets for the first time, the reference to the thread object
/// that this host thread runs. A reference that is given back must be the one
/// that was lent out.
pub fn set_thread_ptr(local: &mut ThreadLocalState, t: ThreadId)
    requires
        old(local).thread() matches Some(held) ==> held == t && old(local).lent(),
    ensures
        final(local).thread() == Some(t),
        final(local).lent() == (old(local).thread() is None && old(local).lent()),
        final(local).state() == old(local).state(),
{
    match local.ptr {
        None => {
            local.ptr = Some(t);
        },
        Some(_) => {
            local.ptr_moved = false;
        },
    }
}

/// Lends out the reference to the thread object, if there is one. It cannot
/// be lent out twice.
pub fn get_thread_ptr(local: &mut ThreadLocalState) -> (r: Option<ThreadId>)
    requires
        !old(local).lent(),
    ensures
        r == old(local).thread(),
        final(local).thread() == old(local).thread(),
        final(local).lent() == (old(local).thread() is Some),
        final(local).state() == old(local).state(),
{
    match local.ptr {
        None => None,
        Some(t) => {
            local.ptr_moved = true;
            Some(t)
        },
    }
}

/// Looks at the reference to the thread object, lent out or not.
pub fn borrow_thread(local: &ThreadLocalState) -> (r: Option<ThreadId>)
    ensures
        r == local.thread(),
{
    local.ptr
}

/// The idle thread: created when first asked for, the same one ever after.
pub fn get_idle_thread(sched: &mut Scheduler) -> (r: ThreadId)
    requires
        old(sched).wf(),
    ensures
        final(sched).wf(),
        final(sched)@ == old(sched)@.with_idle(),
        final(sched)@.idle == Some(r@),
        old(sched)@.idle matches Some(i) ==> r@ == i,
{
    match sched.idle {
        Some(index) => ThreadId { index },
        None => {
            let id = sched.register();
            sched.idle = Some(id.index);
            proof {
                lemma_step_keeps_wf(old(sched)@, Step::Idle);
            }
            id
        },
    }
}

/// Passes the baton from the calling thread to `t`: tells the caller to
/// notify the wait primitive of `t`, and whether it then has to wait for the
/// baton to come back. The reference to the caller's thread object counts as
/// returned.
pub fn switch_to(sched: &mut Scheduler, local: &mut ThreadLocalState, t: ThreadId) -> (r: Handoff)
    requires
        old(sched).wf(),
        old(local).state() is Some,
        old(sched)@.enabled(Step::Handoff { me: old(local).state().unwrap()@, to: t@ }),
    ensures
        final(sched).wf(),
        final(sched)@ == old(sched)@.handoff(old(local).state().unwrap()@, t@),
        r.notify == Some(t),
        r.wakeup == old(sched)@.handoff_wakeup(old(local).state().unwrap()@, t@),
        final(local).thread() == old(local).thread(),
        !final(local).lent(),
        final(local).state() == old(local).state(),
{
    let me = local.this_state.unwrap();
    let r = sched.sleep(me, Some(t));
    local.ptr_moved = false;
    r
}

/// Releases the calling thread from scheduling for good: from now on it is
/// never told to wait.
pub fn test_unlock_thread(sched: &mut Scheduler, local: &ThreadLocalState)
    requires
        old(sched).wf(),
        local.state() is Some,
        old(sched)@.enabled(Step::Finish { me: local.state().unwrap()@ }),
    ensures
        final(sched).wf(),
        final(sched)@ == old(sched)@.finish(local.state().unwrap()@),
{
    let me = local.this_state.unwrap();
    sched.retire(me);
}

/// Takes threads out of the ring for the time of a blocking host call.
pub struct ThreadPauser {
    parked: Option<ThreadId>,
}

/// Proof that a thread is parked. Giving it back unparks the thread.
pub struct PausedThread {
    thread: ThreadId,
}

impl ThreadPauser {
    /// The thread that is parked here, if one is.
    pub closed spec fn occupant(&self) -> Option<ThreadId> {
        self.parked
    }

    pub fn new() -> (r: Self)
        ensures
            r.occupant() is None,
    {
        ThreadPauser { parked: None }
    }

    pub fn is_free(&self) -> (r: bool)
        ensures
            r == self.occupant() is None,
    {
        self.parked.is_none()
    }

    /// Parks the calling thread: it leaves the ring, so that no later wait
    /// holds up its host thread, and stays out until the result is given back.
    pub fn pause(&mut self, sched: &mut Scheduler, local: &ThreadLocalState) -> (r: PausedThread)
        requires
            old(self).occupant() is None,
            old(sched).wf(),
            local.state() is Some,
            old(sched)@.enabled(Step::Detach { me: local.state().unwrap()@ }),
        ensures
            final(sched).wf(),
            final(sched)@ == old(sched)@.detach(local.state().unwrap()@),
            final(self).occupant() == local.state(),
            Some(r.thread()) == local.state(),
    {
        let me = local.this_state.unwrap();
        let mine = sched.get_flags(me.index);
        sched.set_flags(
            me.index,
            StateInner { complete: true, phase: ThreadPhase::Parked, ..mine },
        );
        self.parked = Some(me);
        proof {
            lemma_step_keeps_wf(old(sched)@, Step::Detach { me: me@ });
        }
        PausedThread { thread: me }
    }
}

impl PausedThread {
    /// The thread that is parked.
    pub closed spec fn thread(&self) -> ThreadId {
        self.thread
    }

    pub fn thread_id(&self) -> (r: ThreadId)
        ensures
            r == self.thread(),
    {
        self.thread
    }

    /// Unparks the thread: it is in the ring again and says whether it has to
    /// wait for the baton, as any thread that names no successor.
    pub fn unpause(self, pauser: &mut ThreadPauser, sched: &mut Scheduler) -> (w: Wakeup)
        requires
            old(pauser).occupant() == Some(self.thread()),
            old(sched).wf(),
            old(sched)@.enabled(Step::Reattach { me: self.thread()@ }),
        ensures
            final(pauser).occupant() is None,
            final(sched).wf(),
            final(sched)@ == old(sched)@.reattach(self.thread()@),
            w == old(sched)@.reattach_wakeup(self.thread()@),
            w == final(sched)@.poll_wakeup(self.thread()@),
    {
        let me = self.thread;
        let mine = sched.get_flags(me.index);
        pauser.parked = None;
        proof {
            lemma_step_keeps_wf(old(sched)@, Step::Reattach { me: me@ });
        }
        if sched.token == me.index {
            sched.set_flags(
                me.index,
                StateInner { complete: false, phase: ThreadPhase::Current, ..mine },
            );
            Wakeup::Resume
        } else {
            sched.set_flags(
                me.index,
                StateInner { complete: false, phase: ThreadPhase::Waiting, ..mine },
            );
            Wakeup::Wait
        }
    }
}

/// The record with which the host thread that will run `thread` starts out.
pub fn start_thread(thread: &State) -> (r: ThreadLocalState)
    ensures
        r.thread() == Some(thread.id()),
        !r.lent(),
        r.state() == Some(thread.id()),
{
    ThreadLocalState { ptr: Some(thread.inner), ptr_moved: false, this_state: Some(thread.inner) }
}

/// The start gate of a launched thread: it goes on into its body once it
/// has been scheduled or the baton names it, and waits until then.
pub fn thread_entry(sched: &mut Scheduler, local: &ThreadLocalState) -> (w: Wakeup)
    requires
        old(sched).wf(),
        local.state() is Some,
        old(sched)@.enabled(Step::Enter { me: local.state().unwrap()@ }),
    ensures
        final(sched).wf(),
        final(sched)@ == old(sched)@.enter(local.state().unwrap()@),
        w == old(sched)@.enter_wakeup(local.state().unwrap()@),
{
    let me = local.this_state.unwrap();
    let mine = sched.get_flags(me.index);
    proof {
        lemma_step_keeps_wf(old(sched)@, Step::Enter { me: me@ });
    }
    if mine.running || sched.token == me.index {
        sched.set_flags(me.index, StateInner { phase: ThreadPhase::Current, ..mine });
        Wakeup::Resume
    } else {
        Wakeup::Wait
    }
}

/// The end of a launched thread's body: the thread is complete, so that the
/// yield that follows passes the baton on without waiting for it.
pub fn thread_exit(sched: &mut Scheduler, local: &ThreadLocalState)
    requires
        old(sched).wf(),
        local.state() is Some,
        old(sched)@.enabled(Step::Finish { me: local.state().unwrap()@ }),
    ensures
        final(sched).wf(),
        final(sched)@ == old(sched)@.finish(local.state().unwrap()@),
{
    let me = local.this_state.unwrap();
    sched.retire(me);
}

} // verus!
